//! The instruction table shared by the encoder and the decoder.
//!
//! Each entry fixes some bits of the 32-bit word and declares variable
//! fields; every field here is a contiguous range of bits, and a field's
//! value is read least significant bit first. The bits outside the fields
//! are the entry's required bits.
use vstd::prelude::*;

verus! {

/// What an instruction field holds.
#[derive(Debug, Clone, Copy, PartialEq, Eq, Structural)]
pub enum FieldKind {
    /// A register number.
    Reg,
    /// A register number, or 31 for no register.
    NullableReg,
    /// An operation size.
    Size,
    /// A condition code below 10.
    Cond,
    /// A condition code below 10, or 15 for no condition.
    NullableCond,
    /// One bit.
    Bool,
    /// An unsigned immediate.
    Imm,
    /// A signed immediate relative to the instruction, in units of four bytes.
    Rel,
}

/// A field: `width` bits starting at bit `lo`.
#[derive(Debug, Clone, Copy, PartialEq, Eq, Structural)]
pub struct Field {
    pub kind: FieldKind,
    pub lo: u32,
    pub width: u32,
}

/// The entries of the instruction table, in declaration order.
#[derive(Debug, Clone, Copy, PartialEq, Eq, Structural)]
pub enum Opcode {
    Pushs,
    Pushp,
    Pops,
    Popp,
    Lds,
    Ldp,
    Sts,
    Stp,
    Ldi,
    Ldr,
    Copy,
    AddReg,
    AddImm,
    SubReg,
    SubImm,
    Mul,
    Div,
    AndReg,
    AndImm,
    OrReg,
    OrImm,
    XorReg,
    XorImm,
    ShlReg,
    ShlImm,
    ShrReg,
    ShrImm,
    RotReg,
    RotImm,
    Neg,
    Bswap,
    Jmpa,
    JmprReg,
    JmprRel,
    Cjmpa,
    CjmprReg,
    CjmprRel,
    Calla,
    CallrReg,
    CallrRel,
    Ret,
    Eret,
    Udf,
    Dbg,
    Exc,
    Nop,
    Ldm,
    Stm,
}

/// Number of entries in the table.
pub const OPCODE_COUNT: usize = 48;

/// The entry declared at position `i` (below 48).
pub open spec fn opcode_at(i: int) -> Opcode {
        if i == 0 {
            Opcode::Pushs
        } else if i == 1 {
            Opcode::Pushp
        } else if i == 2 {
            Opcode::Pops
        } else if i == 3 {
            Opcode::Popp
        } else if i == 4 {
            Opcode::Lds
        } else if i == 5 {
            Opcode::Ldp
        } else if i == 6 {
            Opcode::Sts
        } else if i == 7 {
            Opcode::Stp
        } else if i == 8 {
            Opcode::Ldi
        } else if i == 9 {
            Opcode::Ldr
        } else if i == 10 {
            Opcode::Copy
        } else if i == 11 {
            Opcode::AddReg
        } else if i == 12 {
            Opcode::AddImm
        } else if i == 13 {
            Opcode::SubReg
        } else if i == 14 {
            Opcode::SubImm
        } else if i == 15 {
            Opcode::Mul
        } else if i == 16 {
            Opcode::Div
        } else if i == 17 {
            Opcode::AndReg
        } else if i == 18 {
            Opcode::AndImm
        } else if i == 19 {
            Opcode::OrReg
        } else if i == 20 {
            Opcode::OrImm
        } else if i == 21 {
            Opcode::XorReg
        } else if i == 22 {
            Opcode::XorImm
        } else if i == 23 {
            Opcode::ShlReg
        } else if i == 24 {
            Opcode::ShlImm
        } else if i == 25 {
            Opcode::ShrReg
        } else if i == 26 {
            Opcode::ShrImm
        } else if i == 27 {
            Opcode::RotReg
        } else if i == 28 {
            Opcode::RotImm
        } else if i == 29 {
            Opcode::Neg
        } else if i == 30 {
            Opcode::Bswap
        } else if i == 31 {
            Opcode::Jmpa
        } else if i == 32 {
            Opcode::JmprReg
        } else if i == 33 {
            Opcode::JmprRel
        } else if i == 34 {
            Opcode::Cjmpa
        } else if i == 35 {
            Opcode::CjmprReg
        } else if i == 36 {
            Opcode::CjmprRel
        } else if i == 37 {
            Opcode::Calla
        } else if i == 38 {
            Opcode::CallrReg
        } else if i == 39 {
            Opcode::CallrRel
        } else if i == 40 {
            Opcode::Ret
        } else if i == 41 {
            Opcode::Eret
        } else if i == 42 {
            Opcode::Udf
        } else if i == 43 {
            Opcode::Dbg
        } else if i == 44 {
            Opcode::Exc
        } else if i == 45 {
            Opcode::Nop
        } else if i == 46 {
            Opcode::Ldm
        } else {
            Opcode::Stm
        }
}

/// The value of an entry's required bits and its fields, in declaration
/// order.
pub open spec fn layout(op: Opcode) -> (u32, Seq<Field>) {
    match op {
        Opcode::Pushs => (0xdc000000, seq![Field { kind: FieldKind::Size, lo: 5, width: 2 }, Field { kind: FieldKind::NullableReg, lo: 0, width: 5 }]),
        Opcode::Pushp => (0xd8000000, seq![Field { kind: FieldKind::Size, lo: 10, width: 2 }, Field { kind: FieldKind::NullableReg, lo: 5, width: 5 }, Field { kind: FieldKind::NullableReg, lo: 0, width: 5 }]),
        Opcode::Pops => (0xd4000000, seq![Field { kind: FieldKind::Size, lo: 5, width: 2 }, Field { kind: FieldKind::NullableReg, lo: 0, width: 5 }]),
        Opcode::Popp => (0xd0000000, seq![Field { kind: FieldKind::Size, lo: 8, width: 2 }, Field { kind: FieldKind::NullableReg, lo: 4, width: 4 }, Field { kind: FieldKind::NullableReg, lo: 0, width: 4 }]),
        Opcode::Lds => (0xcc000000, seq![Field { kind: FieldKind::Size, lo: 8, width: 2 }, Field { kind: FieldKind::Reg, lo: 4, width: 4 }, Field { kind: FieldKind::Reg, lo: 0, width: 4 }]),
        Opcode::Ldp => (0xc8000000, seq![Field { kind: FieldKind::Size, lo: 12, width: 2 }, Field { kind: FieldKind::Reg, lo: 8, width: 4 }, Field { kind: FieldKind::Reg, lo: 4, width: 4 }, Field { kind: FieldKind::Reg, lo: 0, width: 4 }]),
        Opcode::Sts => (0xc4000000, seq![Field { kind: FieldKind::Size, lo: 8, width: 2 }, Field { kind: FieldKind::Reg, lo: 4, width: 4 }, Field { kind: FieldKind::Reg, lo: 0, width: 4 }]),
        Opcode::Stp => (0xc0000000, seq![Field { kind: FieldKind::Size, lo: 12, width: 2 }, Field { kind: FieldKind::Reg, lo: 8, width: 4 }, Field { kind: FieldKind::Reg, lo: 4, width: 4 }, Field { kind: FieldKind::Reg, lo: 0, width: 4 }]),
        Opcode::Ldi => (0xe0000000, seq![Field { kind: FieldKind::Reg, lo: 0, width: 4 }, Field { kind: FieldKind::Imm, lo: 10, width: 16 }, Field { kind: FieldKind::Imm, lo: 4, width: 6 }, Field { kind: FieldKind::Imm, lo: 26, width: 2 }]),
        Opcode::Ldr => (0x30000000, seq![Field { kind: FieldKind::Reg, lo: 22, width: 4 }, Field { kind: FieldKind::Rel, lo: 0, width: 22 }]),
        Opcode::Copy => (0xa8000000, seq![Field { kind: FieldKind::Size, lo: 8, width: 2 }, Field { kind: FieldKind::Reg, lo: 4, width: 4 }, Field { kind: FieldKind::Reg, lo: 0, width: 4 }]),
        Opcode::AddReg => (0xa4000000, seq![Field { kind: FieldKind::Size, lo: 15, width: 2 }, Field { kind: FieldKind::NullableReg, lo: 8, width: 5 }, Field { kind: FieldKind::Reg, lo: 4, width: 4 }, Field { kind: FieldKind::Reg, lo: 0, width: 4 }, Field { kind: FieldKind::Bool, lo: 14, width: 1 }, Field { kind: FieldKind::Bool, lo: 13, width: 1 }]),
        Opcode::AddImm => (0xb0000000, seq![Field { kind: FieldKind::Size, lo: 26, width: 2 }, Field { kind: FieldKind::NullableReg, lo: 19, width: 5 }, Field { kind: FieldKind::Reg, lo: 15, width: 4 }, Field { kind: FieldKind::Imm, lo: 0, width: 11 }, Field { kind: FieldKind::Imm, lo: 11, width: 3 }, Field { kind: FieldKind::Bool, lo: 14, width: 1 }, Field { kind: FieldKind::Bool, lo: 25, width: 1 }, Field { kind: FieldKind::Bool, lo: 24, width: 1 }]),
        Opcode::SubReg => (0xa0000000, seq![Field { kind: FieldKind::Size, lo: 15, width: 2 }, Field { kind: FieldKind::NullableReg, lo: 8, width: 5 }, Field { kind: FieldKind::Reg, lo: 4, width: 4 }, Field { kind: FieldKind::Reg, lo: 0, width: 4 }, Field { kind: FieldKind::Bool, lo: 14, width: 1 }, Field { kind: FieldKind::Bool, lo: 13, width: 1 }]),
        Opcode::SubImm => (0x90000000, seq![Field { kind: FieldKind::Size, lo: 26, width: 2 }, Field { kind: FieldKind::NullableReg, lo: 19, width: 5 }, Field { kind: FieldKind::Reg, lo: 15, width: 4 }, Field { kind: FieldKind::Imm, lo: 0, width: 11 }, Field { kind: FieldKind::Imm, lo: 11, width: 3 }, Field { kind: FieldKind::Bool, lo: 14, width: 1 }, Field { kind: FieldKind::Bool, lo: 25, width: 1 }, Field { kind: FieldKind::Bool, lo: 24, width: 1 }]),
        Opcode::Mul => (0x8c000000, seq![Field { kind: FieldKind::Size, lo: 16, width: 2 }, Field { kind: FieldKind::Size, lo: 14, width: 2 }, Field { kind: FieldKind::Reg, lo: 8, width: 4 }, Field { kind: FieldKind::Reg, lo: 4, width: 4 }, Field { kind: FieldKind::Reg, lo: 0, width: 4 }, Field { kind: FieldKind::Bool, lo: 13, width: 1 }, Field { kind: FieldKind::Bool, lo: 12, width: 1 }]),
        Opcode::Div => (0x88000000, seq![Field { kind: FieldKind::Size, lo: 18, width: 2 }, Field { kind: FieldKind::Reg, lo: 12, width: 4 }, Field { kind: FieldKind::Reg, lo: 8, width: 4 }, Field { kind: FieldKind::Reg, lo: 4, width: 4 }, Field { kind: FieldKind::Reg, lo: 0, width: 4 }, Field { kind: FieldKind::Bool, lo: 17, width: 1 }, Field { kind: FieldKind::Bool, lo: 16, width: 1 }]),
        Opcode::AndReg => (0x84000000, seq![Field { kind: FieldKind::Size, lo: 14, width: 2 }, Field { kind: FieldKind::NullableReg, lo: 8, width: 5 }, Field { kind: FieldKind::Reg, lo: 4, width: 4 }, Field { kind: FieldKind::Reg, lo: 0, width: 4 }, Field { kind: FieldKind::Bool, lo: 13, width: 1 }]),
        Opcode::AndImm => (0x80000000, seq![Field { kind: FieldKind::Size, lo: 24, width: 2 }, Field { kind: FieldKind::NullableReg, lo: 18, width: 5 }, Field { kind: FieldKind::Reg, lo: 14, width: 4 }, Field { kind: FieldKind::Imm, lo: 3, width: 11 }, Field { kind: FieldKind::Imm, lo: 0, width: 3 }, Field { kind: FieldKind::Bool, lo: 23, width: 1 }]),
        Opcode::OrReg => (0x7c000000, seq![Field { kind: FieldKind::Size, lo: 14, width: 2 }, Field { kind: FieldKind::NullableReg, lo: 8, width: 5 }, Field { kind: FieldKind::Reg, lo: 4, width: 4 }, Field { kind: FieldKind::Reg, lo: 0, width: 4 }, Field { kind: FieldKind::Bool, lo: 13, width: 1 }]),
        Opcode::OrImm => (0x78000000, seq![Field { kind: FieldKind::Size, lo: 24, width: 2 }, Field { kind: FieldKind::NullableReg, lo: 18, width: 5 }, Field { kind: FieldKind::Reg, lo: 14, width: 4 }, Field { kind: FieldKind::Imm, lo: 3, width: 11 }, Field { kind: FieldKind::Imm, lo: 0, width: 3 }, Field { kind: FieldKind::Bool, lo: 23, width: 1 }]),
        Opcode::XorReg => (0x74000000, seq![Field { kind: FieldKind::Size, lo: 14, width: 2 }, Field { kind: FieldKind::NullableReg, lo: 8, width: 5 }, Field { kind: FieldKind::Reg, lo: 4, width: 4 }, Field { kind: FieldKind::Reg, lo: 0, width: 4 }, Field { kind: FieldKind::Bool, lo: 13, width: 1 }]),
        Opcode::XorImm => (0x70000000, seq![Field { kind: FieldKind::Size, lo: 24, width: 2 }, Field { kind: FieldKind::NullableReg, lo: 18, width: 5 }, Field { kind: FieldKind::Reg, lo: 14, width: 4 }, Field { kind: FieldKind::Imm, lo: 3, width: 11 }, Field { kind: FieldKind::Imm, lo: 0, width: 3 }, Field { kind: FieldKind::Bool, lo: 23, width: 1 }]),
        Opcode::ShlReg => (0x68000000, seq![Field { kind: FieldKind::Size, lo: 14, width: 2 }, Field { kind: FieldKind::NullableReg, lo: 8, width: 5 }, Field { kind: FieldKind::Reg, lo: 4, width: 4 }, Field { kind: FieldKind::Reg, lo: 0, width: 4 }, Field { kind: FieldKind::Bool, lo: 13, width: 1 }]),
        Opcode::ShlImm => (0x6c000000, seq![Field { kind: FieldKind::Size, lo: 17, width: 2 }, Field { kind: FieldKind::NullableReg, lo: 11, width: 5 }, Field { kind: FieldKind::Reg, lo: 7, width: 4 }, Field { kind: FieldKind::Imm, lo: 0, width: 7 }, Field { kind: FieldKind::Bool, lo: 16, width: 1 }]),
        Opcode::ShrReg => (0x60000000, seq![Field { kind: FieldKind::Size, lo: 15, width: 2 }, Field { kind: FieldKind::NullableReg, lo: 8, width: 5 }, Field { kind: FieldKind::Reg, lo: 4, width: 4 }, Field { kind: FieldKind::Reg, lo: 0, width: 4 }, Field { kind: FieldKind::Bool, lo: 14, width: 1 }, Field { kind: FieldKind::Bool, lo: 13, width: 1 }]),
        Opcode::ShrImm => (0x64000000, seq![Field { kind: FieldKind::Size, lo: 18, width: 2 }, Field { kind: FieldKind::NullableReg, lo: 11, width: 5 }, Field { kind: FieldKind::Reg, lo: 7, width: 4 }, Field { kind: FieldKind::Imm, lo: 0, width: 7 }, Field { kind: FieldKind::Bool, lo: 17, width: 1 }, Field { kind: FieldKind::Bool, lo: 16, width: 1 }]),
        Opcode::RotReg => (0x58000000, seq![Field { kind: FieldKind::Size, lo: 14, width: 2 }, Field { kind: FieldKind::NullableReg, lo: 8, width: 5 }, Field { kind: FieldKind::Reg, lo: 4, width: 4 }, Field { kind: FieldKind::Reg, lo: 0, width: 4 }, Field { kind: FieldKind::Bool, lo: 13, width: 1 }]),
        Opcode::RotImm => (0x5c000000, seq![Field { kind: FieldKind::Size, lo: 17, width: 2 }, Field { kind: FieldKind::NullableReg, lo: 11, width: 5 }, Field { kind: FieldKind::Reg, lo: 7, width: 4 }, Field { kind: FieldKind::Imm, lo: 0, width: 7 }, Field { kind: FieldKind::Bool, lo: 16, width: 1 }]),
        Opcode::Neg => (0x54000000, seq![Field { kind: FieldKind::Size, lo: 9, width: 2 }, Field { kind: FieldKind::Reg, lo: 4, width: 4 }, Field { kind: FieldKind::Reg, lo: 0, width: 4 }, Field { kind: FieldKind::Bool, lo: 8, width: 1 }]),
        Opcode::Bswap => (0x50000000, seq![Field { kind: FieldKind::Size, lo: 9, width: 2 }, Field { kind: FieldKind::Reg, lo: 4, width: 4 }, Field { kind: FieldKind::Reg, lo: 0, width: 4 }, Field { kind: FieldKind::Bool, lo: 8, width: 1 }]),
        Opcode::Jmpa => (0x4c000000, seq![Field { kind: FieldKind::NullableCond, lo: 4, width: 4 }, Field { kind: FieldKind::Reg, lo: 0, width: 4 }]),
        Opcode::JmprReg => (0x48000000, seq![Field { kind: FieldKind::NullableCond, lo: 4, width: 4 }, Field { kind: FieldKind::Reg, lo: 0, width: 4 }]),
        Opcode::JmprRel => (0x44000000, seq![Field { kind: FieldKind::NullableCond, lo: 22, width: 4 }, Field { kind: FieldKind::Rel, lo: 0, width: 22 }]),
        Opcode::Cjmpa => (0x3c000000, seq![Field { kind: FieldKind::Cond, lo: 14, width: 3 }, Field { kind: FieldKind::Size, lo: 12, width: 2 }, Field { kind: FieldKind::Reg, lo: 8, width: 4 }, Field { kind: FieldKind::Reg, lo: 4, width: 4 }, Field { kind: FieldKind::Reg, lo: 0, width: 4 }]),
        Opcode::CjmprReg => (0x34000000, seq![Field { kind: FieldKind::Cond, lo: 14, width: 3 }, Field { kind: FieldKind::Size, lo: 12, width: 2 }, Field { kind: FieldKind::Reg, lo: 8, width: 4 }, Field { kind: FieldKind::Reg, lo: 4, width: 4 }, Field { kind: FieldKind::Reg, lo: 0, width: 4 }]),
        Opcode::CjmprRel => (0x2c000000, seq![Field { kind: FieldKind::Cond, lo: 23, width: 3 }, Field { kind: FieldKind::Size, lo: 21, width: 2 }, Field { kind: FieldKind::Rel, lo: 0, width: 13 }, Field { kind: FieldKind::Reg, lo: 17, width: 4 }, Field { kind: FieldKind::Reg, lo: 13, width: 4 }]),
        Opcode::Calla => (0x28000000, seq![Field { kind: FieldKind::NullableCond, lo: 4, width: 4 }, Field { kind: FieldKind::Reg, lo: 0, width: 4 }]),
        Opcode::CallrReg => (0x24000000, seq![Field { kind: FieldKind::NullableCond, lo: 4, width: 4 }, Field { kind: FieldKind::Reg, lo: 0, width: 4 }]),
        Opcode::CallrRel => (0x20000000, seq![Field { kind: FieldKind::NullableCond, lo: 22, width: 4 }, Field { kind: FieldKind::Rel, lo: 0, width: 22 }]),
        Opcode::Ret => (0x1c000000, seq![]),
        Opcode::Eret => (0x18000000, seq![]),
        Opcode::Udf => (0x0, seq![]),
        Opcode::Dbg => (0x8000000, seq![]),
        Opcode::Exc => (0xc000000, seq![Field { kind: FieldKind::Imm, lo: 0, width: 16 }]),
        Opcode::Nop => (0x4000000, seq![]),
        Opcode::Ldm => (0x10000000, seq![Field { kind: FieldKind::Reg, lo: 22, width: 4 }, Field { kind: FieldKind::Imm, lo: 0, width: 22 }]),
        Opcode::Stm => (0x14000000, seq![Field { kind: FieldKind::Imm, lo: 0, width: 22 }, Field { kind: FieldKind::Reg, lo: 22, width: 4 }]),
    }
}

/// The mask of the low `width` bits (`1 <= width <= 32`).
pub open spec fn mask32(width: u32) -> u32 {
    0xffff_ffffu32 >> ((32 - width) as u32)
}

/// The bits that a field occupies.
pub open spec fn field_mask(f: Field) -> u32 {
    mask32(f.width) << f.lo
}

/// The bits that some field occupies.
pub open spec fn fields_mask(fs: Seq<Field>) -> u32
    decreases fs.len(),
{
    if fs.len() == 0 {
        0
    } else {
        field_mask(fs[0]) | fields_mask(fs.drop_first())
    }
}

/// The required bits of an entry: those outside every field.
pub open spec fn fixed_mask(op: Opcode) -> u32 {
    !fields_mask(layout(op).1)
}

/// Whether word `w` has the required bits of `op`.
pub open spec fn matches(op: Opcode, w: u32) -> bool {
    w & fixed_mask(op) == layout(op).0 & fixed_mask(op)
}

/// The value of field `f` in word `w`.
pub open spec fn field_value(w: u32, f: Field) -> u64 {
    ((w >> f.lo) & mask32(f.width)) as u64
}

/// The values of all the fields of `op` in `w`, in declaration order.
pub open spec fn operands_of(op: Opcode, w: u32) -> Seq<u64> {
    Seq::new(layout(op).1.len(), |i: int| field_value(w, layout(op).1[i]))
}

/// Whether `v` is a value that field `f` may hold.
pub open spec fn field_valid(f: Field, v: u64) -> bool {
    match f.kind {
        FieldKind::NullableReg => v < 16 || v == 31,
        FieldKind::Cond => v < 10,
        FieldKind::NullableCond => v < 10 || v == 15,
        _ => true,
    }
}

/// Every field fits in the word and has a width.
pub open spec fn fields_fit(fs: Seq<Field>) -> bool {
    forall|i: int| 0 <= i < fs.len() ==> 1 <= #[trigger] fs[i].width && fs[i].lo + fs[i].width <= 32
}

/// Two fields share no bit.
pub open spec fn apart(f: Field, g: Field) -> bool {
    f.lo + f.width <= g.lo || g.lo + g.width <= f.lo
}

/// No two fields share a bit.
pub open spec fn fields_apart(fs: Seq<Field>) -> bool {
    forall|i: int, j: int| 0 <= i < j < fs.len() ==> apart(#[trigger] fs[i], #[trigger] fs[j])
}

/// The first entry, in declaration order from position `i`, whose required
/// bits `w` has.
pub open spec fn first_match_from(w: u32, i: int) -> Option<Opcode>
    decreases 48 - i,
{
    if i < 0 || i >= 48 {
        None
    } else if matches(opcode_at(i), w) {
        Some(opcode_at(i))
    } else {
        first_match_from(w, i + 1)
    }
}

/// The decoding of `w`: the first matching entry and its operands, or
/// `None` where no entry matches or a field holds a value that it may not.
pub open spec fn decode_spec(w: u32) -> Option<(Opcode, Seq<u64>)> {
    match first_match_from(w, 0) {
        None => None,
        Some(op) => {
            let ops = operands_of(op, w);
            if forall|i: int| 0 <= i < ops.len() ==> field_valid(#[trigger] layout(op).1[i], ops[i]) {
                Some((op, ops))
            } else {
                None
            }
        },
    }
}

/// Operand `v` placed in the bits of field `f`, cut to the field's width.
pub open spec fn place(f: Field, v: u64) -> u32 {
    ((v & (mask32(f.width) as u64)) as u32) << f.lo
}

/// All the operands placed in their fields.
pub open spec fn deposit(fs: Seq<Field>, vs: Seq<u64>) -> u32
    decreases fs.len(),
{
    if fs.len() == 0 || vs.len() == 0 {
        0
    } else {
        place(fs[0], vs[0]) | deposit(fs.drop_first(), vs.drop_first())
    }
}

/// The word that encodes `op` with operands `ops`.
pub open spec fn encode_spec(op: Opcode, ops: Seq<u64>) -> u32 {
    (layout(op).0 & fixed_mask(op)) | deposit(layout(op).1, ops)
}

/// Every entry's fields fit in the word and are pairwise apart.
pub proof fn lemma_layout_well_formed(op: Opcode)
    ensures
        fields_fit(layout(op).1),
        fields_apart(layout(op).1),
{
}

/// The entry at position `i` of the table.
pub fn opcode_at_index(i: usize) -> (r: Opcode)
    requires
        i < OPCODE_COUNT,
    ensures
        r == opcode_at(i as int),
{
        if i == 0 {
            Opcode::Pushs
        } else if i == 1 {
            Opcode::Pushp
        } else if i == 2 {
            Opcode::Pops
        } else if i == 3 {
            Opcode::Popp
        } else if i == 4 {
            Opcode::Lds
        } else if i == 5 {
            Opcode::Ldp
        } else if i == 6 {
            Opcode::Sts
        } else if i == 7 {
            Opcode::Stp
        } else if i == 8 {
            Opcode::Ldi
        } else if i == 9 {
            Opcode::Ldr
        } else if i == 10 {
            Opcode::Copy
        } else if i == 11 {
            Opcode::AddReg
        } else if i == 12 {
            Opcode::AddImm
        } else if i == 13 {
            Opcode::SubReg
        } else if i == 14 {
            Opcode::SubImm
        } else if i == 15 {
            Opcode::Mul
        } else if i == 16 {
            Opcode::Div
        } else if i == 17 {
            Opcode::AndReg
        } else if i == 18 {
            Opcode::AndImm
        } else if i == 19 {
            Opcode::OrReg
        } else if i == 20 {
            Opcode::OrImm
        } else if i == 21 {
            Opcode::XorReg
        } else if i == 22 {
            Opcode::XorImm
        } else if i == 23 {
            Opcode::ShlReg
        } else if i == 24 {
            Opcode::ShlImm
        } else if i == 25 {
            Opcode::ShrReg
        } else if i == 26 {
            Opcode::ShrImm
        } else if i == 27 {
            Opcode::RotReg
        } else if i == 28 {
            Opcode::RotImm
        } else if i == 29 {
            Opcode::Neg
        } else if i == 30 {
            Opcode::Bswap
        } else if i == 31 {
            Opcode::Jmpa
        } else if i == 32 {
            Opcode::JmprReg
        } else if i == 33 {
            Opcode::JmprRel
        } else if i == 34 {
            Opcode::Cjmpa
        } else if i == 35 {
            Opcode::CjmprReg
        } else if i == 36 {
            Opcode::CjmprRel
        } else if i == 37 {
            Opcode::Calla
        } else if i == 38 {
            Opcode::CallrReg
        } else if i == 39 {
            Opcode::CallrRel
        } else if i == 40 {
            Opcode::Ret
        } else if i == 41 {
            Opcode::Eret
        } else if i == 42 {
            Opcode::Udf
        } else if i == 43 {
            Opcode::Dbg
        } else if i == 44 {
            Opcode::Exc
        } else if i == 45 {
            Opcode::Nop
        } else if i == 46 {
            Opcode::Ldm
        } else {
            Opcode::Stm
        }
}

fn fd(kind: FieldKind, lo: u32, width: u32) -> (r: Field)
    ensures
        r == (Field { kind, lo, width }),
{
    Field { kind, lo, width }
}

/// The required bits' value and the fields of `op`.
pub fn layout_of(op: Opcode) -> (r: (u32, Vec<Field>))
    ensures
        r.0 == layout(op).0,
        r.1@ == layout(op).1,
{
    let r = match op {
        Opcode::Pushs => (0xdc000000, vec![fd(FieldKind::Size, 5, 2), fd(FieldKind::NullableReg, 0, 5)]),
        Opcode::Pushp => (0xd8000000, vec![fd(FieldKind::Size, 10, 2), fd(FieldKind::NullableReg, 5, 5), fd(FieldKind::NullableReg, 0, 5)]),
        Opcode::Pops => (0xd4000000, vec![fd(FieldKind::Size, 5, 2), fd(FieldKind::NullableReg, 0, 5)]),
        Opcode::Popp => (0xd0000000, vec![fd(FieldKind::Size, 8, 2), fd(FieldKind::NullableReg, 4, 4), fd(FieldKind::NullableReg, 0, 4)]),
        Opcode::Lds => (0xcc000000, vec![fd(FieldKind::Size, 8, 2), fd(FieldKind::Reg, 4, 4), fd(FieldKind::Reg, 0, 4)]),
        Opcode::Ldp => (0xc8000000, vec![fd(FieldKind::Size, 12, 2), fd(FieldKind::Reg, 8, 4), fd(FieldKind::Reg, 4, 4), fd(FieldKind::Reg, 0, 4)]),
        Opcode::Sts => (0xc4000000, vec![fd(FieldKind::Size, 8, 2), fd(FieldKind::Reg, 4, 4), fd(FieldKind::Reg, 0, 4)]),
        Opcode::Stp => (0xc0000000, vec![fd(FieldKind::Size, 12, 2), fd(FieldKind::Reg, 8, 4), fd(FieldKind::Reg, 4, 4), fd(FieldKind::Reg, 0, 4)]),
        Opcode::Ldi => (0xe0000000, vec![fd(FieldKind::Reg, 0, 4), fd(FieldKind::Imm, 10, 16), fd(FieldKind::Imm, 4, 6), fd(FieldKind::Imm, 26, 2)]),
        Opcode::Ldr => (0x30000000, vec![fd(FieldKind::Reg, 22, 4), fd(FieldKind::Rel, 0, 22)]),
        Opcode::Copy => (0xa8000000, vec![fd(FieldKind::Size, 8, 2), fd(FieldKind::Reg, 4, 4), fd(FieldKind::Reg, 0, 4)]),
        Opcode::AddReg => (0xa4000000, vec![fd(FieldKind::Size, 15, 2), fd(FieldKind::NullableReg, 8, 5), fd(FieldKind::Reg, 4, 4), fd(FieldKind::Reg, 0, 4), fd(FieldKind::Bool, 14, 1), fd(FieldKind::Bool, 13, 1)]),
        Opcode::AddImm => (0xb0000000, vec![fd(FieldKind::Size, 26, 2), fd(FieldKind::NullableReg, 19, 5), fd(FieldKind::Reg, 15, 4), fd(FieldKind::Imm, 0, 11), fd(FieldKind::Imm, 11, 3), fd(FieldKind::Bool, 14, 1), fd(FieldKind::Bool, 25, 1), fd(FieldKind::Bool, 24, 1)]),
        Opcode::SubReg => (0xa0000000, vec![fd(FieldKind::Size, 15, 2), fd(FieldKind::NullableReg, 8, 5), fd(FieldKind::Reg, 4, 4), fd(FieldKind::Reg, 0, 4), fd(FieldKind::Bool, 14, 1), fd(FieldKind::Bool, 13, 1)]),
        Opcode::SubImm => (0x90000000, vec![fd(FieldKind::Size, 26, 2), fd(FieldKind::NullableReg, 19, 5), fd(FieldKind::Reg, 15, 4), fd(FieldKind::Imm, 0, 11), fd(FieldKind::Imm, 11, 3), fd(FieldKind::Bool, 14, 1), fd(FieldKind::Bool, 25, 1), fd(FieldKind::Bool, 24, 1)]),
        Opcode::Mul => (0x8c000000, vec![fd(FieldKind::Size, 16, 2), fd(FieldKind::Size, 14, 2), fd(FieldKind::Reg, 8, 4), fd(FieldKind::Reg, 4, 4), fd(FieldKind::Reg, 0, 4), fd(FieldKind::Bool, 13, 1), fd(FieldKind::Bool, 12, 1)]),
        Opcode::Div => (0x88000000, vec![fd(FieldKind::Size, 18, 2), fd(FieldKind::Reg, 12, 4), fd(FieldKind::Reg, 8, 4), fd(FieldKind::Reg, 4, 4), fd(FieldKind::Reg, 0, 4), fd(FieldKind::Bool, 17, 1), fd(FieldKind::Bool, 16, 1)]),
        Opcode::AndReg => (0x84000000, vec![fd(FieldKind::Size, 14, 2), fd(FieldKind::NullableReg, 8, 5), fd(FieldKind::Reg, 4, 4), fd(FieldKind::Reg, 0, 4), fd(FieldKind::Bool, 13, 1)]),
        Opcode::AndImm => (0x80000000, vec![fd(FieldKind::Size, 24, 2), fd(FieldKind::NullableReg, 18, 5), fd(FieldKind::Reg, 14, 4), fd(FieldKind::Imm, 3, 11), fd(FieldKind::Imm, 0, 3), fd(FieldKind::Bool, 23, 1)]),
        Opcode::OrReg => (0x7c000000, vec![fd(FieldKind::Size, 14, 2), fd(FieldKind::NullableReg, 8, 5), fd(FieldKind::Reg, 4, 4), fd(FieldKind::Reg, 0, 4), fd(FieldKind::Bool, 13, 1)]),
        Opcode::OrImm => (0x78000000, vec![fd(FieldKind::Size, 24, 2), fd(FieldKind::NullableReg, 18, 5), fd(FieldKind::Reg, 14, 4), fd(FieldKind::Imm, 3, 11), fd(FieldKind::Imm, 0, 3), fd(FieldKind::Bool, 23, 1)]),
        Opcode::XorReg => (0x74000000, vec![fd(FieldKind::Size, 14, 2), fd(FieldKind::NullableReg, 8, 5), fd(FieldKind::Reg, 4, 4), fd(FieldKind::Reg, 0, 4), fd(FieldKind::Bool, 13, 1)]),
        Opcode::XorImm => (0x70000000, vec![fd(FieldKind::Size, 24, 2), fd(FieldKind::NullableReg, 18, 5), fd(FieldKind::Reg, 14, 4), fd(FieldKind::Imm, 3, 11), fd(FieldKind::Imm, 0, 3), fd(FieldKind::Bool, 23, 1)]),
        Opcode::ShlReg => (0x68000000, vec![fd(FieldKind::Size, 14, 2), fd(FieldKind::NullableReg, 8, 5), fd(FieldKind::Reg, 4, 4), fd(FieldKind::Reg, 0, 4), fd(FieldKind::Bool, 13, 1)]),
        Opcode::ShlImm => (0x6c000000, vec![fd(FieldKind::Size, 17, 2), fd(FieldKind::NullableReg, 11, 5), fd(FieldKind::Reg, 7, 4), fd(FieldKind::Imm, 0, 7), fd(FieldKind::Bool, 16, 1)]),
        Opcode::ShrReg => (0x60000000, vec![fd(FieldKind::Size, 15, 2), fd(FieldKind::NullableReg, 8, 5), fd(FieldKind::Reg, 4, 4), fd(FieldKind::Reg, 0, 4), fd(FieldKind::Bool, 14, 1), fd(FieldKind::Bool, 13, 1)]),
        Opcode::ShrImm => (0x64000000, vec![fd(FieldKind::Size, 18, 2), fd(FieldKind::NullableReg, 11, 5), fd(FieldKind::Reg, 7, 4), fd(FieldKind::Imm, 0, 7), fd(FieldKind::Bool, 17, 1), fd(FieldKind::Bool, 16, 1)]),
        Opcode::RotReg => (0x58000000, vec![fd(FieldKind::Size, 14, 2), fd(FieldKind::NullableReg, 8, 5), fd(FieldKind::Reg, 4, 4), fd(FieldKind::Reg, 0, 4), fd(FieldKind::Bool, 13, 1)]),
        Opcode::RotImm => (0x5c000000, vec![fd(FieldKind::Size, 17, 2), fd(FieldKind::NullableReg, 11, 5), fd(FieldKind::Reg, 7, 4), fd(FieldKind::Imm, 0, 7), fd(FieldKind::Bool, 16, 1)]),
        Opcode::Neg => (0x54000000, vec![fd(FieldKind::Size, 9, 2), fd(FieldKind::Reg, 4, 4), fd(FieldKind::Reg, 0, 4), fd(FieldKind::Bool, 8, 1)]),
        Opcode::Bswap => (0x50000000, vec![fd(FieldKind::Size, 9, 2), fd(FieldKind::Reg, 4, 4), fd(FieldKind::Reg, 0, 4), fd(FieldKind::Bool, 8, 1)]),
        Opcode::Jmpa => (0x4c000000, vec![fd(FieldKind::NullableCond, 4, 4), fd(FieldKind::Reg, 0, 4)]),
        Opcode::JmprReg => (0x48000000, vec![fd(FieldKind::NullableCond, 4, 4), fd(FieldKind::Reg, 0, 4)]),
        Opcode::JmprRel => (0x44000000, vec![fd(FieldKind::NullableCond, 22, 4), fd(FieldKind::Rel, 0, 22)]),
        Opcode::Cjmpa => (0x3c000000, vec![fd(FieldKind::Cond, 14, 3), fd(FieldKind::Size, 12, 2), fd(FieldKind::Reg, 8, 4), fd(FieldKind::Reg, 4, 4), fd(FieldKind::Reg, 0, 4)]),
        Opcode::CjmprReg => (0x34000000, vec![fd(FieldKind::Cond, 14, 3), fd(FieldKind::Size, 12, 2), fd(FieldKind::Reg, 8, 4), fd(FieldKind::Reg, 4, 4), fd(FieldKind::Reg, 0, 4)]),
        Opcode::CjmprRel => (0x2c000000, vec![fd(FieldKind::Cond, 23, 3), fd(FieldKind::Size, 21, 2), fd(FieldKind::Rel, 0, 13), fd(FieldKind::Reg, 17, 4), fd(FieldKind::Reg, 13, 4)]),
        Opcode::Calla => (0x28000000, vec![fd(FieldKind::NullableCond, 4, 4), fd(FieldKind::Reg, 0, 4)]),
        Opcode::CallrReg => (0x24000000, vec![fd(FieldKind::NullableCond, 4, 4), fd(FieldKind::Reg, 0, 4)]),
        Opcode::CallrRel => (0x20000000, vec![fd(FieldKind::NullableCond, 22, 4), fd(FieldKind::Rel, 0, 22)]),
        Opcode::Ret => (0x1c000000, vec![]),
        Opcode::Eret => (0x18000000, vec![]),
        Opcode::Udf => (0x0, vec![]),
        Opcode::Dbg => (0x8000000, vec![]),
        Opcode::Exc => (0xc000000, vec![fd(FieldKind::Imm, 0, 16)]),
        Opcode::Nop => (0x4000000, vec![]),
        Opcode::Ldm => (0x10000000, vec![fd(FieldKind::Reg, 22, 4), fd(FieldKind::Imm, 0, 22)]),
        Opcode::Stm => (0x14000000, vec![fd(FieldKind::Imm, 0, 22), fd(FieldKind::Reg, 22, 4)]),
    };
    assert(r.1@ =~= layout(op).1);
    r
}

fn fields_mask_of(fs: &Vec<Field>) -> (r: u32)
    requires
        fields_fit(fs@),
    ensures
        r == fields_mask(fs@),
{
    let mut acc: u32 = 0;
    let mut i: usize = fs.len();
    while i > 0
        invariant
            i <= fs@.len(),
            fields_fit(fs@),
            acc == fields_mask(fs@.subrange(i as int, fs@.len() as int)),
        decreases i,
    {
        let f = fs[i - 1];
        assert(fs@.subrange(i - 1, fs@.len() as int).drop_first() =~= fs@.subrange(i as int, fs@.len() as int));
        assert(fs@[i - 1] == f);
        acc = ((0xffff_ffffu32 >> (32 - f.width)) << f.lo) | acc;
        i = i - 1;
    }
    assert(fs@.subrange(0, fs@.len() as int) =~= fs@);
    acc
}

fn field_value_of(w: u32, f: Field) -> (r: u64)
    requires
        1 <= f.width,
        f.lo + f.width <= 32,
    ensures
        r == field_value(w, f),
{
    ((w >> f.lo) & (0xffff_ffffu32 >> (32 - f.width))) as u64
}

fn fields_valid(fs: &Vec<Field>, ops: &Vec<u64>) -> (r: bool)
    requires
        fs@.len() == ops@.len(),
    ensures
        r == forall|i: int| 0 <= i < ops@.len() ==> field_valid(#[trigger] fs@[i], ops@[i]),
{
    let mut i: usize = 0;
    while i < ops.len()
        invariant
            i <= ops@.len(),
            fs@.len() == ops@.len(),
            forall|k: int| 0 <= k < i ==> field_valid(#[trigger] fs@[k], ops@[k]),
        decreases ops@.len() - i,
    {
        let v = ops[i];
        let ok = match fs[i].kind {
            FieldKind::NullableReg => v < 16 || v == 31,
            FieldKind::Cond => v < 10,
            FieldKind::NullableCond => v < 10 || v == 15,
            _ => true,
        };
        if !ok {
            return false;
        }
        i = i + 1;
    }
    true
}

/// A decoded instruction: its entry and its operands in declaration order.
#[derive(Debug, Clone, PartialEq, Eq)]
pub struct Decoded {
    pub op: Opcode,
    pub operands: Vec<u64>,
}

/// Decodes a word: the first entry whose required bits it has, with the
/// values of the entry's fields. `None` where no entry matches or a field
/// holds a value that it may not.
pub fn decode(w: u32) -> (r: Option<Decoded>)
    ensures
        match r {
            None => decode_spec(w).is_none(),
            Some(d) => decode_spec(w) == Some((d.op, d.operands@)),
        },
{
    let mut i: usize = 0;
    while i < OPCODE_COUNT
        invariant
            i <= OPCODE_COUNT,
            first_match_from(w, 0) == first_match_from(w, i as int),
        decreases OPCODE_COUNT - i,
    {
        let op = opcode_at_index(i);
        let (value, fields) = layout_of(op);
        proof {
            lemma_layout_well_formed(op);
        }
        let fixed = !fields_mask_of(&fields);
        if (w & fixed) == (value & fixed) {
            let mut ops: Vec<u64> = Vec::new();
            let mut k: usize = 0;
            while k < fields.len()
                invariant
                    k <= fields@.len(),
                    fields@ == layout(op).1,
                    fields_fit(fields@),
                    ops@.len() == k,
                    forall|j: int| 0 <= j < k ==> ops@[j] == field_value(w, #[trigger] fields@[j]),
                decreases fields@.len() - k,
            {
                let f = fields[k];
                ops.push(field_value_of(w, f));
                k = k + 1;
            }
            assert(ops@ =~= operands_of(op, w));
            if fields_valid(&fields, &ops) {
                return Some(Decoded { op, operands: ops });
            } else {
                return None;
            }
        }
        i = i + 1;
    }
    None
}

/// Encodes `op` with the given operands, each cut to its field's width.
pub fn encode(op: Opcode, ops: &Vec<u64>) -> (r: u32)
    requires
        ops@.len() == layout(op).1.len(),
    ensures
        r == encode_spec(op, ops@),
{
    let (value, fields) = layout_of(op);
    proof {
        lemma_layout_well_formed(op);
    }
    let n = fields.len();
    let mut acc: u32 = 0;
    let mut i: usize = n;
    while i > 0
        invariant
            i <= n,
            n == fields@.len(),
            n == ops@.len(),
            fields_fit(fields@),
            acc == deposit(fields@.subrange(i as int, n as int), ops@.subrange(i as int, n as int)),
        decreases i,
    {
        let f = fields[i - 1];
        let v = ops[i - 1];
        assert(fields@.subrange(i - 1, n as int).drop_first() =~= fields@.subrange(i as int, n as int));
        assert(ops@.subrange(i - 1, n as int).drop_first() =~= ops@.subrange(i as int, n as int));
        let m = 0xffff_ffffu32 >> (32 - f.width);
        let cut = v & (m as u64);
        assert(cut <= 0xffff_ffff) by (bit_vector)
            requires
                cut == v & (m as u64),
        ;
        acc = ((cut as u32) << f.lo) | acc;
        i = i - 1;
    }
    assert(fields@.subrange(0, n as int) =~= fields@);
    assert(ops@.subrange(0, n as int) =~= ops@);
    (value & !fields_mask_of(&fields)) | acc
}

proof fn lemma_field_bits(x: u32, y: u32, v: u64, lo: u32, width: u32, lo2: u32, width2: u32)
    requires
        1 <= width,
        lo + width <= 32,
        1 <= width2,
        lo2 + width2 <= 32,
    ensures
        (((x | y) >> lo) & mask32(width)) == ((x >> lo) & mask32(width)) | ((y >> lo) & mask32(width)),
        x & (mask32(width) << lo) == 0 ==> (x >> lo) & mask32(width) == 0,
        (((((v & (mask32(width) as u64)) as u32) << lo) >> lo) & mask32(width)) as u64 == v & (mask32(width) as u64),
        (((v & (mask32(width) as u64)) as u32) << lo) & !(mask32(width) << lo) == 0,
        (lo + width <= lo2 || lo2 + width2 <= lo) ==> (mask32(width) << lo) & (mask32(width2) << lo2) == 0,
{
    assert((((x | y) >> lo) & mask32(width)) == ((x >> lo) & mask32(width)) | ((y >> lo) & mask32(width)))
        by (bit_vector);
    assert(x & (mask32(width) << lo) == 0 ==> (x >> lo) & mask32(width) == 0) by (bit_vector)
        requires
            1 <= width,
            lo + width <= 32,
    ;
    assert((((((v & (mask32(width) as u64)) as u32) << lo) >> lo) & mask32(width)) as u64 == v & (mask32(width) as u64))
        by (bit_vector)
        requires
            1 <= width,
            lo + width <= 32,
    ;
    assert((((v & (mask32(width) as u64)) as u32) << lo) & !(mask32(width) << lo) == 0) by (bit_vector);
    assert((lo + width <= lo2 || lo2 + width2 <= lo) ==> (mask32(width) << lo) & (mask32(width2) << lo2) == 0)
        by (bit_vector)
        requires
            1 <= width,
            lo + width <= 32,
            1 <= width2,
            lo2 + width2 <= 32,
    ;
}

proof fn lemma_or_facts(a: u32, b: u32, m: u32, n: u32)
    ensures
        a & m == 0 && b & m == 0 ==> (a | b) & m == 0,
        a & !m == 0 && m & n == 0 ==> a & n == 0,
        a & !m == 0 && b & !n == 0 ==> (a | b) & !(m | n) == 0,
        b & !n == 0 ==> b & !(m | n) == 0,
        a & !n == 0 ==> a & !(m | n) == 0,
        b & !m == 0 ==> ((a & !m) | b) & !m == a & !m,
        n & !m == 0 ==> (a & !m) & n == 0,
        0u32 & m == 0,
        0u32 & !n == 0,
        a | 0 == a,
        0 | a == a,
{
    assert(a | 0 == a) by (bit_vector);
    assert(0 | a == a) by (bit_vector);
    assert(0u32 & m == 0) by (bit_vector);
    assert(0u32 & !n == 0) by (bit_vector);
    assert(a & m == 0 && b & m == 0 ==> (a | b) & m == 0) by (bit_vector);
    assert(a & !m == 0 && m & n == 0 ==> a & n == 0) by (bit_vector);
    assert(a & !m == 0 && b & !n == 0 ==> (a | b) & !(m | n) == 0) by (bit_vector);
    assert(b & !n == 0 ==> b & !(m | n) == 0) by (bit_vector);
    assert(a & !n == 0 ==> a & !(m | n) == 0) by (bit_vector);
    assert(b & !m == 0 ==> ((a & !m) | b) & !m == a & !m) by (bit_vector);
    assert(n & !m == 0 ==> (a & !m) & n == 0) by (bit_vector);
}

/// The placed operands lie inside the fields' bits.
proof fn lemma_deposit_inside(fs: Seq<Field>, vs: Seq<u64>)
    requires
        fields_fit(fs),
    ensures
        deposit(fs, vs) & !fields_mask(fs) == 0,
    decreases fs.len(),
{
    if fs.len() > 0 && vs.len() > 0 {
        let rest = fs.drop_first();
        assert(fields_fit(rest)) by {
            assert forall|i: int| 0 <= i < rest.len() implies 1 <= #[trigger] rest[i].width && rest[i].lo + rest[i].width
                <= 32 by {
                assert(rest[i] == fs[i + 1]);
            }
        }
        lemma_deposit_inside(rest, vs.drop_first());
        let f = fs[0];
        assert(1 <= f.width && f.lo + f.width <= 32);
        lemma_field_bits(0, 0, vs[0], f.lo, f.width, f.lo, f.width);
        assert(place(f, vs[0]) & !field_mask(f) == 0);
        assert(deposit(fs, vs) == place(f, vs[0]) | deposit(rest, vs.drop_first()));
        assert(fields_mask(fs) == field_mask(f) | fields_mask(rest));
        lemma_or_facts(place(f, vs[0]), deposit(rest, vs.drop_first()), field_mask(f), fields_mask(rest));
    } else {
        assert(deposit(fs, vs) == 0);
        lemma_or_facts(0, 0, 0, fields_mask(fs));
    }
}

/// A field lies inside the bits of the fields it is listed among.
proof fn lemma_field_inside(fs: Seq<Field>, k: int)
    requires
        0 <= k < fs.len(),
    ensures
        field_mask(fs[k]) & !fields_mask(fs) == 0,
    decreases fs.len(),
{
    let rest = fs.drop_first();
    let a = field_mask(fs[0]);
    let b = fields_mask(rest);
    if k == 0 {
        assert(a & !(a | b) == 0) by (bit_vector);
    } else {
        lemma_field_inside(rest, k - 1);
        assert(rest[k - 1] == fs[k]);
        lemma_or_facts(0, field_mask(fs[k]), a, b);
    }
}

/// Operands placed in fields apart from `g` leave `g`'s bits clear.
proof fn lemma_deposit_misses(fs: Seq<Field>, vs: Seq<u64>, g: Field)
    requires
        fields_fit(fs),
        1 <= g.width,
        g.lo + g.width <= 32,
        forall|i: int| 0 <= i < fs.len() ==> apart(#[trigger] fs[i], g),
    ensures
        deposit(fs, vs) & field_mask(g) == 0,
    decreases fs.len(),
{
    if fs.len() > 0 && vs.len() > 0 {
        let rest = fs.drop_first();
        assert forall|i: int| 0 <= i < rest.len() implies apart(#[trigger] rest[i], g) by {
            assert(rest[i] == fs[i + 1]);
        }
        assert(fields_fit(rest)) by {
            assert forall|i: int| 0 <= i < rest.len() implies 1 <= #[trigger] rest[i].width && rest[i].lo + rest[i].width
                <= 32 by {
                assert(rest[i] == fs[i + 1]);
            }
        }
        lemma_deposit_misses(rest, vs.drop_first(), g);
        let f = fs[0];
        assert(apart(fs[0], g));
        lemma_field_bits(0, 0, vs[0], f.lo, f.width, g.lo, g.width);
        let p = place(f, vs[0]);
        lemma_or_facts(p, 0, field_mask(f), field_mask(g));
        lemma_or_facts(p, deposit(rest, vs.drop_first()), field_mask(g), 0);
    } else {
        assert(0u32 & field_mask(g) == 0) by (bit_vector);
    }
}

/// Reading field `k` back from the placed operands gives operand `k` cut to
/// the field's width.
proof fn lemma_deposit_read(fs: Seq<Field>, vs: Seq<u64>, k: int)
    requires
        fields_fit(fs),
        fields_apart(fs),
        vs.len() == fs.len(),
        0 <= k < fs.len(),
    ensures
        field_value(deposit(fs, vs), fs[k]) == vs[k] & (mask32(fs[k].width) as u64),
    decreases fs.len(),
{
    let rest = fs.drop_first();
    let vrest = vs.drop_first();
    let f = fs[0];
    let fk = fs[k];
    assert(fields_fit(rest)) by {
        assert forall|i: int| 0 <= i < rest.len() implies 1 <= #[trigger] rest[i].width && rest[i].lo + rest[i].width
            <= 32 by {
            assert(rest[i] == fs[i + 1]);
        }
    }
    let p = place(f, vs[0]);
    let d = deposit(rest, vrest);
    lemma_field_bits(p, d, vs[0], fk.lo, fk.width, f.lo, f.width);
    if k == 0 {
        assert forall|i: int| 0 <= i < rest.len() implies apart(#[trigger] rest[i], f) by {
            assert(rest[i] == fs[i + 1]);
            assert(apart(fs[0], fs[i + 1]));
        }
        lemma_deposit_misses(rest, vrest, f);
        lemma_or_facts((p >> f.lo) & mask32(f.width), 0, 0, 0);
        assert(deposit(fs, vs) == p | d);
        assert(((p | d) >> f.lo) & mask32(f.width) == ((p >> f.lo) & mask32(f.width)) | ((d >> f.lo) & mask32(f.width)));
        lemma_field_bits(d, 0, 0, f.lo, f.width, f.lo, f.width);
    } else {
        assert(fields_apart(rest)) by {
            assert forall|i: int, j: int| 0 <= i < j < rest.len() implies apart(#[trigger] rest[i], #[trigger] rest[j]) by {
                assert(rest[i] == fs[i + 1]);
                assert(rest[j] == fs[j + 1]);
            }
        }
        assert(rest[k - 1] == fk);
        lemma_deposit_read(rest, vrest, k - 1);
        assert(apart(f, fk));
        lemma_field_bits(p, d, vs[0], f.lo, f.width, fk.lo, fk.width);
        lemma_or_facts(p, 0, field_mask(f), field_mask(fk));
        lemma_or_facts((d >> fk.lo) & mask32(fk.width), 0, 0, 0);
    }
}

/// Encoding then decoding: for every entry and every operand vector of the
/// right length, the encoded word has the entry's required bits, and reading
/// its fields gives back each operand cut to its field's width.
pub proof fn lemma_encode_decode_round_trip(op: Opcode, ops: Seq<u64>)
    requires
        ops.len() == layout(op).1.len(),
    ensures
        matches(op, encode_spec(op, ops)),
        operands_of(op, encode_spec(op, ops)) == Seq::new(
            ops.len(),
            |i: int| ops[i] & (mask32(layout(op).1[i].width) as u64),
        ),
{
    lemma_layout_well_formed(op);
    let (value, fs) = layout(op);
    let fm = fields_mask(fs);
    let d = deposit(fs, ops);
    let base = value & !fm;
    lemma_deposit_inside(fs, ops);
    lemma_or_facts(value, d, fm, 0);
    let w = encode_spec(op, ops);
    assert forall|k: int| 0 <= k < ops.len() implies operands_of(op, w)[k] == ops[k] & (mask32(
        #[trigger] fs[k].width,
    ) as u64) by {
        let f = fs[k];
        lemma_deposit_read(fs, ops, k);
        lemma_field_inside(fs, k);
        lemma_or_facts(value, 0, fm, field_mask(f));
        lemma_field_bits(base, d, 0, f.lo, f.width, f.lo, f.width);
        lemma_or_facts((d >> f.lo) & mask32(f.width), 0, 0, 0);
    }
    assert(operands_of(op, w) =~= Seq::new(ops.len(), |i: int| ops[i] & (mask32(layout(op).1[i].width) as u64)));
}

/// The position of `op` in the table.
pub open spec fn index_of(op: Opcode) -> int {
    match op {
        Opcode::Pushs => 0,
        Opcode::Pushp => 1,
        Opcode::Pops => 2,
        Opcode::Popp => 3,
        Opcode::Lds => 4,
        Opcode::Ldp => 5,
        Opcode::Sts => 6,
        Opcode::Stp => 7,
        Opcode::Ldi => 8,
        Opcode::Ldr => 9,
        Opcode::Copy => 10,
        Opcode::AddReg => 11,
        Opcode::AddImm => 12,
        Opcode::SubReg => 13,
        Opcode::SubImm => 14,
        Opcode::Mul => 15,
        Opcode::Div => 16,
        Opcode::AndReg => 17,
        Opcode::AndImm => 18,
        Opcode::OrReg => 19,
        Opcode::OrImm => 20,
        Opcode::XorReg => 21,
        Opcode::XorImm => 22,
        Opcode::ShlReg => 23,
        Opcode::ShlImm => 24,
        Opcode::ShrReg => 25,
        Opcode::ShrImm => 26,
        Opcode::RotReg => 27,
        Opcode::RotImm => 28,
        Opcode::Neg => 29,
        Opcode::Bswap => 30,
        Opcode::Jmpa => 31,
        Opcode::JmprReg => 32,
        Opcode::JmprRel => 33,
        Opcode::Cjmpa => 34,
        Opcode::CjmprReg => 35,
        Opcode::CjmprRel => 36,
        Opcode::Calla => 37,
        Opcode::CallrReg => 38,
        Opcode::CallrRel => 39,
        Opcode::Ret => 40,
        Opcode::Eret => 41,
        Opcode::Udf => 42,
        Opcode::Dbg => 43,
        Opcode::Exc => 44,
        Opcode::Nop => 45,
        Opcode::Ldm => 46,
        Opcode::Stm => 47,
    }
}

/// No word has the required bits of two entries.
pub open spec fn table_unambiguous() -> bool {
    forall|i: int, j: int, w: u32| 0 <= i < j < 48 ==> !(matches(opcode_at(i), w) && matches(opcode_at(j), w))
}

proof fn lemma_apart_entries(vi: u32, mi: u32, vj: u32, mj: u32, w: u32)
    requires
        ((vi & mi) ^ (vj & mj)) & mi & mj != 0,
    ensures
        !((w & mi == vi & mi) && (w & mj == vj & mj)),
{
    assert(((vi & mi) ^ (vj & mj)) & mi & mj != 0 ==> !((w & mi == vi & mi) && (w & mj == vj & mj))) by (bit_vector);
}

/// Checks that no word has the required bits of two entries.
pub fn check_table_unambiguous() -> (r: bool)
    ensures
        r ==> table_unambiguous(),
{
    let mut i: usize = 0;
    while i < OPCODE_COUNT
        invariant
            i <= OPCODE_COUNT,
            forall|a: int, b: int, w: u32| 0 <= a < i && a < b < 48 ==> !(matches(opcode_at(a), w) && matches(opcode_at(b), w)),
        decreases OPCODE_COUNT - i,
    {
        let opi = opcode_at_index(i);
        let (vi, fi) = layout_of(opi);
        proof {
            lemma_layout_well_formed(opi);
        }
        let mi = !fields_mask_of(&fi);
        let mut j: usize = i + 1;
        while j < OPCODE_COUNT
            invariant
                i < j <= OPCODE_COUNT,
                opi == opcode_at(i as int),
                vi == layout(opi).0,
                mi == fixed_mask(opi),
                forall|a: int, b: int, w: u32| 0 <= a < i && a < b < 48 ==> !(matches(opcode_at(a), w) && matches(opcode_at(b), w)),
                forall|b: int, w: u32| i < b < j ==> !(matches(opcode_at(i as int), w) && matches(opcode_at(b), w)),
            decreases OPCODE_COUNT - j,
        {
            let opj = opcode_at_index(j);
            let (vj, fj) = layout_of(opj);
            proof {
                lemma_layout_well_formed(opj);
            }
            let mj = !fields_mask_of(&fj);
            if ((vi & mi) ^ (vj & mj)) & mi & mj == 0 {
                return false;
            }
            assert forall|w: u32| !(matches(opcode_at(i as int), w) && matches(opcode_at(j as int), w)) by {
                lemma_apart_entries(vi, mi, vj, mj, w);
            }
            j = j + 1;
        }
        i = i + 1;
    }
    true
}

proof fn lemma_first_match_is(w: u32, op: Opcode, i: int)
    requires
        table_unambiguous(),
        0 <= i <= index_of(op),
        matches(op, w),
    ensures
        first_match_from(w, i) == Some(op),
    decreases index_of(op) - i,
{
    assert(opcode_at(index_of(op)) == op);
    if i < index_of(op) {
        assert(!matches(opcode_at(i), w));
        lemma_first_match_is(w, op, i + 1);
    }
}

/// Decoding an encoded instruction: where no word has the required bits of
/// two entries and each operand, cut to its field's width, is a value that
/// its field may hold, decoding the word gives back the entry and the cut
/// operands.
pub proof fn lemma_decode_of_encode(op: Opcode, ops: Seq<u64>)
    requires
        table_unambiguous(),
        ops.len() == layout(op).1.len(),
        forall|k: int| 0 <= k < ops.len() ==> field_valid(#[trigger] layout(op).1[k], ops[k] & (mask32(layout(op).1[k].width) as u64)),
    ensures
        decode_spec(encode_spec(op, ops)) == Some((
            op,
            Seq::new(ops.len(), |i: int| ops[i] & (mask32(layout(op).1[i].width) as u64)),
        )),
{
    lemma_encode_decode_round_trip(op, ops);
    lemma_first_match_is(encode_spec(op, ops), op, 0);
}

} // verus!
