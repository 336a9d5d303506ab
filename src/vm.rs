//! The emulator: machine state, exceptions, and the fetch-decode-execute
//! step.
//!
//! An instruction's handler reports how control goes on: to the next
//! instruction, to a jump target, or into an exception. Only the first
//! advances the instruction pointer by four; a raised exception leaves it
//! where the exception machinery puts it.
use vstd::prelude::*;

use crate::alu::{
    add_spec, bswap_spec, div_spec, imm11_spec, ldi_spec, logic_spec, mul_spec, neg_spec, rot_spec,
    shl_spec, shr_spec, sub_spec, zero_sign_flags, AluOutput, FlagUpdate, LogicOp,
};
use crate::bits::{bit, sign_ext, zero_ext};
use crate::alu;
use crate::machine::{
    le_store, le_value, merge_at, valid_flags, with_bit, CPUFlags, Condition, MachineRegisterID, PrivilegeLevel,
    RegisterFile, Size, CARRY_BIT, EXCEPTIONS_BIT, LR, OVERFLOW_BIT, PRIVILEGE_BIT, SIGN_BIT, SP, ZERO_BIT,
};
use crate::schema::{decode, decode_spec, field_valid, layout, mask32, Opcode};

verus! {

/// The one defined flag of an exception configuration entry: switch to the
/// entry's stack.
pub const USE_STACK: u64 = 1;

/// Number of bytes of the exception configuration table in memory: eight
/// entries for PL0, then eight for PL1, each three little-endian 64-bit
/// words (flags, stack pointer, stack size).
pub const TABLE_BYTES: u64 = 384;

/// Where execution starts.
pub const START_ADDRESS: u64 = 0x400;

/// How an exception is taken, per privilege level and exception kind.
#[derive(Debug, Clone, Copy, PartialEq, Eq, Structural)]
pub struct ExceptionConfigurationEntry {
    pub flags: u64,
    pub stack_pointer: u64,
    pub stack_size: u64,
}

impl ExceptionConfigurationEntry {
    pub open spec fn is_valid(self) -> bool {
        self.flags & !USE_STACK == 0
    }

    /// Whether no undefined flag is set.
    pub fn validate(&self) -> (r: bool)
        ensures
            r == self.is_valid(),
    {
        self.flags & !USE_STACK == 0
    }

    pub fn default() -> (r: ExceptionConfigurationEntry)
        ensures
            r == (ExceptionConfigurationEntry { flags: 0, stack_pointer: 0, stack_size: 0 }),
    {
        ExceptionConfigurationEntry { flags: 0, stack_pointer: 0, stack_size: 0 }
    }
}

/// The exceptions that the machine raises.
#[derive(Debug, Clone, Copy, PartialEq, Eq, Structural)]
pub enum Exception {
    Unknown,
    InvalidInstruction,
    Debug,
    User(u16),
    InvalidOperation,
    InstructionLoadError,
    DataLoadError { address: u64, write: bool, byte_size: u16 },
    Interrupt(u64),
}

impl Exception {
    /// The exception's number, which picks its vector and its entry.
    pub open spec fn code(self) -> u64 {
        match self {
            Exception::Unknown => 0,
            Exception::InvalidInstruction => 1,
            Exception::Debug => 2,
            Exception::User(_) => 3,
            Exception::InvalidOperation => 4,
            Exception::InstructionLoadError => 5,
            Exception::DataLoadError { .. } => 6,
            Exception::Interrupt(_) => 7,
        }
    }

    /// The value of `einfo` for this exception: the number in bits 0 to 2
    /// with the exception's payload above.
    pub open spec fn info_spec(self) -> u64 {
        match self {
            Exception::User(v) => 3 | ((v as u64) << 3u64),
            Exception::DataLoadError { address: _, write, byte_size } => 6 | (if write {
                8u64
            } else {
                0u64
            }) | ((byte_size as u64) << 4u64),
            Exception::Interrupt(v) => 7 | (v << 3u64),
            _ => self.code(),
        }
    }

    /// The value of `eaddr` for this exception.
    pub open spec fn address_spec(self) -> u64 {
        match self {
            Exception::DataLoadError { address, .. } => address,
            _ => 0,
        }
    }

    pub fn id(&self) -> (r: u8)
        ensures
            r as u64 == self.code(),
    {
        match self {
            Exception::Unknown => 0,
            Exception::InvalidInstruction => 1,
            Exception::Debug => 2,
            Exception::User(_) => 3,
            Exception::InvalidOperation => 4,
            Exception::InstructionLoadError => 5,
            Exception::DataLoadError { .. } => 6,
            Exception::Interrupt(_) => 7,
        }
    }

    pub fn info(&self) -> (r: u64)
        ensures
            r == self.info_spec(),
    {
        match self {
            Exception::User(v) => 3 | ((*v as u64) << 3u64),
            Exception::DataLoadError { address: _, write, byte_size } => 6 | (if *write {
                8u64
            } else {
                0u64
            }) | ((*byte_size as u64) << 4u64),
            Exception::Interrupt(v) => 7 | (*v << 3u64),
            Exception::Unknown => 0,
            Exception::InvalidInstruction => 1,
            Exception::Debug => 2,
            Exception::InvalidOperation => 4,
            Exception::InstructionLoadError => 5,
        }
    }

    pub fn address(&self) -> (r: u64)
        ensures
            r == self.address_spec(),
    {
        match self {
            Exception::DataLoadError { address, .. } => *address,
            _ => 0,
        }
    }
}

/// How control goes on after an instruction.
#[derive(Debug, Clone, Copy, PartialEq, Eq, Structural)]
pub enum Flow {
    /// To the next instruction.
    Next,
    /// To the given address.
    Jump(u64),
    /// Into the given exception.
    Raise(Exception),
}

/// The machine state as the contracts see it.
pub struct State {
    pub memory: Seq<u8>,
    pub regs: Seq<u64>,
    pub flags: u64,
    pub ip: u64,
    pub elr: u64,
    pub esp: u64,
    pub eflags: u64,
    pub einfo: u64,
    pub eaddr: u64,
    pub evtable: u64,
    pub ectable_addr: u64,
    pub ectable: Seq<ExceptionConfigurationEntry>,
}

/// The flags value after an update.
pub open spec fn updated_flags(f: u64, u: FlagUpdate) -> u64 {
    let f1 = match u.carry {
        Some(b) => with_bit(f, CARRY_BIT, b),
        None => f,
    };
    let f2 = match u.zero {
        Some(b) => with_bit(f1, ZERO_BIT, b),
        None => f1,
    };
    let f3 = match u.overflow {
        Some(b) => with_bit(f2, OVERFLOW_BIT, b),
        None => f2,
    };
    match u.sign {
        Some(b) => with_bit(f3, SIGN_BIT, b),
        None => f3,
    }
}

/// The entry of an exception configuration table read from memory.
pub open spec fn entry_at(bytes: Seq<u8>, i: int) -> ExceptionConfigurationEntry {
    ExceptionConfigurationEntry {
        flags: le_value(bytes.subrange(24 * i, 24 * i + 8)),
        stack_pointer: le_value(bytes.subrange(24 * i + 8, 24 * i + 16)),
        stack_size: le_value(bytes.subrange(24 * i + 16, 24 * i + 24)),
    }
}

/// The sixteen entries of a table laid out in `bytes`.
pub open spec fn table_of(bytes: Seq<u8>) -> Seq<ExceptionConfigurationEntry> {
    Seq::new(16, |i: int| entry_at(bytes, i))
}

/// The condition of a `cond|null` operand; 15 means none.
pub open spec fn opt_cond(v: u64) -> Option<Condition> {
    if v == 15 {
        None
    } else {
        Condition::from_code(v)
    }
}

/// A jump to `target`, refused where it is not a multiple of four.
pub open spec fn jump_to(target: u64) -> Flow {
    if target % 4 == 0 {
        Flow::Jump(target)
    } else {
        Flow::Raise(Exception::InvalidOperation)
    }
}

/// A relative target: `offset` instructions past the next one.
pub open spec fn relative(ip: u64, offset: u64) -> u64 {
    ip.wrapping_add(4).wrapping_add(offset.wrapping_mul(4))
}

impl State {
    /// The shape of a state that the machine can reach from its start.
    pub open spec fn wf(self) -> bool {
        &&& self.regs.len() == 16
        &&& self.ectable.len() == 16
        &&& self.ip % 4 == 0
        &&& self.elr % 4 == 0
        &&& self.evtable % 4 == 0
        &&& valid_flags(self.flags)
        &&& valid_flags(self.eflags)
    }

    pub open spec fn reg(self, i: u64) -> u64 {
        self.regs[i as int]
    }

    pub open spec fn flags_hold(self, c: Condition) -> bool {
        c.holds(bit(self.flags, CARRY_BIT), bit(self.flags, ZERO_BIT), bit(self.flags, OVERFLOW_BIT), bit(self.flags, SIGN_BIT))
    }

    pub open spec fn privilege(self) -> PrivilegeLevel {
        if bit(self.flags, PRIVILEGE_BIT) {
            PrivilegeLevel::PL1
        } else {
            PrivilegeLevel::PL0
        }
    }

    /// Register `i` written in full.
    pub open spec fn put_reg(self, i: u64, v: u64) -> State {
        State { regs: self.regs.update(i as int, v), ..self }
    }

    /// Register `i` written at `size`.
    pub open spec fn write_reg(self, i: u64, size: Size, v: u64) -> State {
        self.put_reg(i, merge_at(self.reg(i), size, v))
    }

    /// Register `i` written at `size`, unless `i` is the null register 31.
    pub open spec fn write_nreg(self, i: u64, size: Size, v: u64) -> State {
        if i == 31 {
            self
        } else {
            self.write_reg(i, size, v)
        }
    }

    /// The flags updated where `set`.
    pub open spec fn with_flags(self, set: bool, u: FlagUpdate) -> State {
        if set {
            State { flags: updated_flags(self.flags, u), ..self }
        } else {
            self
        }
    }

    /// Whether the `n` bytes from `a` are all in memory.
    pub open spec fn in_memory(self, a: u64, n: u64) -> bool {
        a + n <= self.memory.len()
    }

    pub open spec fn load(self, a: u64, n: u64) -> u64 {
        le_value(self.memory.subrange(a as int, a + n))
    }

    pub open spec fn store(self, a: u64, n: u64, v: u64) -> State {
        State { memory: le_store(self.memory, a as int, n as nat, v), ..self }
    }

    /// The state after taking exception `e` at the current instruction.
    pub open spec fn raise(self, e: Exception) -> State {
        let pl1 = bit(self.flags, PRIVILEGE_BIT);
        let entry = self.ectable[(if pl1 { 8int } else { 0int }) + e.code()];
        let sp = self.regs[SP as int];
        let top = entry.stack_pointer.wrapping_add(entry.stack_size);
        let switch = entry.flags & USE_STACK != 0 && (sp < entry.stack_pointer || sp > top);
        State {
            eflags: self.flags,
            elr: self.ip,
            esp: sp,
            flags: with_bit(with_bit(self.flags, EXCEPTIONS_BIT, false), PRIVILEGE_BIT, false),
            einfo: e.info_spec(),
            eaddr: e.address_spec(),
            regs: if switch {
                self.regs.update(SP as int, top)
            } else {
                self.regs
            },
            ip: self.evtable.wrapping_add(if pl1 { 256u64 } else { 0u64 }).wrapping_add((e.code() * 32) as u64),
            ..self
        }
    }

    /// Where control goes after an instruction that reported `flow`.
    pub open spec fn finish(self, flow: Flow) -> State {
        match flow {
            Flow::Next => State { ip: self.ip.wrapping_add(4), ..self },
            Flow::Jump(a) => State { ip: a, ..self },
            Flow::Raise(e) => self.raise(e),
        }
    }
}

/// A condition that may be absent holds where it is absent.
pub open spec fn cond_holds(s: State, c: Option<Condition>) -> bool {
    match c {
        None => true,
        Some(c) => s.flags_hold(c),
    }
}

/// Pushes `vals` (one or two) at `size` below the stack pointer.
pub open spec fn push_spec(s: State, size: Size, v1: u64, v2: Option<u64>) -> (State, Flow) {
    let n = size.bytes();
    let total: u64 = if v2.is_some() { (2 * n) as u64 } else { n };
    let sp = s.reg(SP as u64).wrapping_sub(total);
    if !s.in_memory(sp, total) {
        (s, Flow::Raise(Exception::DataLoadError { address: sp, write: true, byte_size: total as u16 }))
    } else {
        let t = s.store(sp, n, v1);
        let t = match v2 {
            Some(v) => t.store((sp + n) as u64, n, v),
            None => t,
        };
        (t.put_reg(SP as u64, sp), Flow::Next)
    }
}

/// The value of a `reg|null` operand read at `size`: zero for no register.
pub open spec fn nreg_value(s: State, i: u64, size: Size) -> u64 {
    if i == 31 {
        0
    } else {
        zero_ext(s.reg(i), size.bits())
    }
}

/// A computed result written to a `reg|null` destination, with its flags.
pub open spec fn alu_result(s: State, dst: u64, size: Size, out: AluOutput, set_flags: bool) -> State {
    s.write_nreg(dst, size, out.value).with_flags(set_flags, out.flags)
}

/// A conditional jump or call to `target`.
pub open spec fn branch(s: State, c: Option<Condition>, target: u64, link: bool) -> (State, Flow) {
    if !cond_holds(s, c) {
        (s, Flow::Next)
    } else if target % 4 != 0 {
        (s, Flow::Raise(Exception::InvalidOperation))
    } else if link {
        (s.put_reg(LR as u64, s.ip.wrapping_add(4)), Flow::Jump(target))
    } else {
        (s, Flow::Jump(target))
    }
}

/// Compare-and-jump: the flags of `lhs - rhs` at `size`, kept aside, decide.
pub open spec fn compare_branch(s: State, c: u64, size: Size, lhs: u64, rhs: u64, target: u64) -> (State, Flow) {
    let f = sub_spec(size, sign_ext(s.reg(lhs), size.bits()), sign_ext(s.reg(rhs), size.bits()), false).flags;
    let taken = match Condition::from_code(c) {
        Some(cc) => cc.holds(f.carry == Some(true), f.zero == Some(true), f.overflow == Some(true), f.sign == Some(true)),
        None => false,
    };
    if !taken {
        (s, Flow::Next)
    } else {
        (s, jump_to(target))
    }
}

/// The value of machine register `m` for `ldm`.
pub open spec fn machine_register_value(s: State, m: MachineRegisterID) -> u64 {
    match m {
        MachineRegisterID::flags => s.flags,
        MachineRegisterID::elr => s.elr,
        MachineRegisterID::esp => s.esp,
        MachineRegisterID::eflags => s.eflags,
        MachineRegisterID::einfo => s.einfo,
        MachineRegisterID::eaddr => s.eaddr,
        MachineRegisterID::evtable => s.evtable,
        MachineRegisterID::ectable => s.ectable_addr,
        MachineRegisterID::vm_console => 0,
    }
}

/// `stm`: writes `v` to machine register `m`; the console takes its low
/// byte as output.
pub open spec fn store_machine_register(s: State, m: MachineRegisterID, v: u64) -> (State, Flow, Option<u8>) {
    let invalid = (s, Flow::Raise(Exception::InvalidOperation), None);
    match m {
        MachineRegisterID::flags => if valid_flags(v) {
            (State { flags: v, ..s }, Flow::Next, None)
        } else {
            invalid
        },
        MachineRegisterID::elr => if v % 4 == 0 {
            (State { elr: v, ..s }, Flow::Next, None)
        } else {
            invalid
        },
        MachineRegisterID::esp => (State { esp: v, ..s }, Flow::Next, None),
        MachineRegisterID::eflags => if valid_flags(v) {
            (State { eflags: v, ..s }, Flow::Next, None)
        } else {
            invalid
        },
        MachineRegisterID::evtable => if v % 4 == 0 {
            (State { evtable: v, ..s }, Flow::Next, None)
        } else {
            invalid
        },
        MachineRegisterID::ectable => if !s.in_memory(v, TABLE_BYTES) {
            (s, Flow::Raise(Exception::DataLoadError { address: v, write: false, byte_size: TABLE_BYTES as u16 }), None)
        } else {
            let t = table_of(s.memory.subrange(v as int, v + TABLE_BYTES));
            if forall|i: int| 0 <= i < 16 ==> (#[trigger] t[i]).is_valid() {
                (State { ectable_addr: v, ectable: t, ..s }, Flow::Next, None)
            } else {
                invalid
            }
        },
        MachineRegisterID::vm_console => (s, Flow::Next, Some(v as u8)),
        _ => invalid,
    }
}

/// Stack, memory and register-move instructions.
pub open spec fn memory_spec(s: State, op: Opcode, o: Seq<u64>) -> (State, Flow, Option<u8>) {
    let sz = Size::from_code(o[0]);
    match op {
        Opcode::Pushs => {
            let (t, f) = push_spec(s, sz, nreg_value(s, o[1], sz), None);
            (t, f, None)
        },
        Opcode::Pushp => {
            let (t, f) = push_spec(s, sz, nreg_value(s, o[1], sz), Some(nreg_value(s, o[2], sz)));
            (t, f, None)
        },
        Opcode::Pops => {
            let n = sz.bytes();
            let sp = s.reg(SP as u64);
            if !s.in_memory(sp, n) {
                (s, Flow::Raise(Exception::DataLoadError { address: sp, write: false, byte_size: n as u16 }), None)
            } else {
                (s.write_nreg(o[1], sz, s.load(sp, n)).put_reg(SP as u64, sp.wrapping_add(n)), Flow::Next, None)
            }
        },
        Opcode::Popp => {
            let n = sz.bytes();
            let sp = s.reg(SP as u64);
            if !s.in_memory(sp, (2 * n) as u64) {
                (s, Flow::Raise(Exception::DataLoadError { address: sp, write: false, byte_size: (2 * n) as u16 }), None)
            } else {
                let v1 = s.load(sp, n);
                let v2 = s.load((sp + n) as u64, n);
                (
                    s.write_nreg(o[1], sz, v1).write_nreg(o[2], sz, v2).put_reg(SP as u64, sp.wrapping_add((2 * n) as u64)),
                    Flow::Next,
                    None,
                )
            }
        },
        Opcode::Lds => {
            let n = sz.bytes();
            let a = s.reg(o[2]);
            if !s.in_memory(a, n) {
                (s, Flow::Raise(Exception::DataLoadError { address: a, write: false, byte_size: n as u16 }), None)
            } else {
                (s.write_reg(o[1], sz, s.load(a, n)), Flow::Next, None)
            }
        },
        Opcode::Ldp => {
            let n = sz.bytes();
            let a = s.reg(o[3]);
            if !s.in_memory(a, (2 * n) as u64) {
                (s, Flow::Raise(Exception::DataLoadError { address: a, write: false, byte_size: (2 * n) as u16 }), None)
            } else {
                (s.write_reg(o[1], sz, s.load(a, n)).write_reg(o[2], sz, s.load((a + n) as u64, n)), Flow::Next, None)
            }
        },
        Opcode::Sts => {
            let n = sz.bytes();
            let a = s.reg(o[1]);
            if !s.in_memory(a, n) {
                (s, Flow::Raise(Exception::DataLoadError { address: a, write: true, byte_size: n as u16 }), None)
            } else {
                (s.store(a, n, s.reg(o[2])), Flow::Next, None)
            }
        },
        Opcode::Stp => {
            let n = sz.bytes();
            let a = s.reg(o[1]);
            if !s.in_memory(a, (2 * n) as u64) {
                (s, Flow::Raise(Exception::DataLoadError { address: a, write: true, byte_size: (2 * n) as u16 }), None)
            } else {
                (s.store(a, n, s.reg(o[2])).store((a + n) as u64, n, s.reg(o[3])), Flow::Next, None)
            }
        },
        Opcode::Ldi => (s.put_reg(o[0], ldi_spec(s.reg(o[0]), o[1], o[2], o[3])), Flow::Next, None),
        Opcode::Ldr => (s.put_reg(o[0], s.ip.wrapping_add(4).wrapping_add(sign_ext(o[1], 22))), Flow::Next, None),
        Opcode::Copy => (s.write_reg(o[1], sz, zero_ext(s.reg(o[2]), sz.bits())), Flow::Next, None),
        _ => (s, Flow::Next, None),
    }
}

/// Addition, subtraction, multiplication and division.
pub open spec fn arith_spec(s: State, op: Opcode, o: Seq<u64>) -> (State, Flow, Option<u8>) {
    let sz = Size::from_code(o[0]);
    match op {
        Opcode::AddReg => {
            let out = add_spec(sz, sign_ext(s.reg(o[2]), sz.bits()), sign_ext(s.reg(o[3]), sz.bits()), o[4] == 1 && bit(s.flags, CARRY_BIT));
            (alu_result(s, o[1], sz, out, o[5] == 1), Flow::Next, None)
        },
        Opcode::AddImm => {
            let out = add_spec(sz, sign_ext(s.reg(o[2]), sz.bits()), imm11_spec(o[3], o[4], o[5] == 1), o[6] == 1 && bit(s.flags, CARRY_BIT));
            (alu_result(s, o[1], sz, out, o[7] == 1), Flow::Next, None)
        },
        Opcode::SubReg => {
            let out = sub_spec(sz, sign_ext(s.reg(o[2]), sz.bits()), sign_ext(s.reg(o[3]), sz.bits()), o[4] == 1 && bit(s.flags, CARRY_BIT));
            (alu_result(s, o[1], sz, out, o[5] == 1), Flow::Next, None)
        },
        Opcode::SubImm => {
            let out = sub_spec(sz, sign_ext(s.reg(o[2]), sz.bits()), imm11_spec(o[3], o[4], o[5] == 1), o[6] == 1 && bit(s.flags, CARRY_BIT));
            (alu_result(s, o[1], sz, out, o[7] == 1), Flow::Next, None)
        },
        Opcode::Mul => {
            let dst_size = Size::from_code(o[1]);
            let out = mul_spec(sz, dst_size, s.reg(o[3]), s.reg(o[4]), o[5] == 1);
            (s.write_reg(o[2], dst_size, out.value).with_flags(o[6] == 1, out.flags), Flow::Next, None)
        },
        Opcode::Div => match div_spec(sz, s.reg(o[3]), s.reg(o[4]), o[5] == 1) {
            None => (s, Flow::Raise(Exception::InvalidOperation), None),
            Some((q, r)) => {
                let t = if o[1] != o[2] { s.write_reg(o[2], sz, r) } else { s };
                (t.write_reg(o[1], sz, q).with_flags(o[6] == 1, zero_sign_flags(q, sz)), Flow::Next, None)
            },
        },
        _ => (s, Flow::Next, None),
    }
}

/// Logical, shift, rotate, negate and byte-swap instructions.
pub open spec fn bitwise_spec(s: State, op: Opcode, o: Seq<u64>) -> (State, Flow, Option<u8>) {
    let sz = Size::from_code(o[0]);
    match op {
        Opcode::AndReg | Opcode::OrReg | Opcode::XorReg => {
            let lop = if op == Opcode::AndReg { LogicOp::And } else if op == Opcode::OrReg { LogicOp::Or } else { LogicOp::Xor };
            let out = logic_spec(lop, sz, zero_ext(s.reg(o[2]), sz.bits()), zero_ext(s.reg(o[3]), sz.bits()));
            (alu_result(s, o[1], sz, out, o[4] == 1), Flow::Next, None)
        },
        Opcode::AndImm | Opcode::OrImm | Opcode::XorImm => {
            let lop = if op == Opcode::AndImm { LogicOp::And } else if op == Opcode::OrImm { LogicOp::Or } else { LogicOp::Xor };
            let out = logic_spec(lop, sz, zero_ext(s.reg(o[2]), sz.bits()), imm11_spec(o[3], o[4], false));
            (alu_result(s, o[1], sz, out, o[5] == 1), Flow::Next, None)
        },
        Opcode::ShlReg => {
            let out = shl_spec(sz, zero_ext(s.reg(o[2]), sz.bits()), zero_ext(s.reg(o[3]), sz.bits()));
            (alu_result(s, o[1], sz, out, o[4] == 1), Flow::Next, None)
        },
        Opcode::ShlImm => {
            let out = shl_spec(sz, zero_ext(s.reg(o[2]), sz.bits()), o[3]);
            (alu_result(s, o[1], sz, out, o[4] == 1), Flow::Next, None)
        },
        Opcode::ShrReg => {
            let out = shr_spec(sz, zero_ext(s.reg(o[2]), sz.bits()), zero_ext(s.reg(o[3]), sz.bits()), o[4] == 1);
            (alu_result(s, o[1], sz, out, o[5] == 1), Flow::Next, None)
        },
        Opcode::ShrImm => {
            let out = shr_spec(sz, zero_ext(s.reg(o[2]), sz.bits()), o[3], o[4] == 1);
            (alu_result(s, o[1], sz, out, o[5] == 1), Flow::Next, None)
        },
        Opcode::RotReg => {
            let out = rot_spec(sz, zero_ext(s.reg(o[2]), sz.bits()), zero_ext(s.reg(o[3]), sz.bits()));
            (alu_result(s, o[1], sz, out, o[4] == 1), Flow::Next, None)
        },
        Opcode::RotImm => {
            let out = rot_spec(sz, zero_ext(s.reg(o[2]), sz.bits()), o[3]);
            (alu_result(s, o[1], sz, out, o[4] == 1), Flow::Next, None)
        },
        Opcode::Neg => {
            let out = neg_spec(sz, s.reg(o[2]));
            (s.write_reg(o[1], sz, out.value).with_flags(o[3] == 1, out.flags), Flow::Next, None)
        },
        Opcode::Bswap => {
            let out = bswap_spec(sz, zero_ext(s.reg(o[2]), sz.bits()));
            (s.write_reg(o[1], sz, out.value).with_flags(o[3] == 1, out.flags), Flow::Next, None)
        },
        _ => (s, Flow::Next, None),
    }
}

/// Jumps, calls, returns, exceptions and machine registers.
pub open spec fn control_spec(s: State, op: Opcode, o: Seq<u64>) -> (State, Flow, Option<u8>) {
    let sz = Size::from_code(o[0]);
    match op {
        Opcode::Jmpa => {
            let (t, f) = branch(s, opt_cond(o[0]), s.reg(o[1]), false);
            (t, f, None)
        },
        Opcode::JmprReg => {
            let (t, f) = branch(s, opt_cond(o[0]), relative(s.ip, s.reg(o[1])), false);
            (t, f, None)
        },
        Opcode::JmprRel => {
            let (t, f) = branch(s, opt_cond(o[0]), relative(s.ip, sign_ext(o[1], 22)), false);
            (t, f, None)
        },
        Opcode::Cjmpa => {
            let size = Size::from_code(o[1]);
            let (t, f) = compare_branch(s, o[0], size, o[3], o[4], s.reg(o[2]));
            (t, f, None)
        },
        Opcode::CjmprReg => {
            let size = Size::from_code(o[1]);
            let (t, f) = compare_branch(s, o[0], size, o[3], o[4], relative(s.ip, s.reg(o[2])));
            (t, f, None)
        },
        Opcode::CjmprRel => {
            let size = Size::from_code(o[1]);
            let (t, f) = compare_branch(s, o[0], size, o[3], o[4], relative(s.ip, sign_ext(o[2], 13)));
            (t, f, None)
        },
        Opcode::Calla => {
            let (t, f) = branch(s, opt_cond(o[0]), s.reg(o[1]), true);
            (t, f, None)
        },
        Opcode::CallrReg => {
            let (t, f) = branch(s, opt_cond(o[0]), relative(s.ip, s.reg(o[1])), true);
            (t, f, None)
        },
        Opcode::CallrRel => {
            let (t, f) = branch(s, opt_cond(o[0]), relative(s.ip, sign_ext(o[1], 22)), true);
            (t, f, None)
        },
        Opcode::Ret => (s, jump_to(s.reg(LR as u64)), None),
        Opcode::Eret => if s.privilege() != PrivilegeLevel::PL0 {
            (s, Flow::Raise(Exception::InvalidOperation), None)
        } else {
            (State { flags: s.eflags, ..s }.put_reg(SP as u64, s.esp), Flow::Jump(s.elr), None)
        },
        Opcode::Udf => (s, Flow::Raise(Exception::InvalidInstruction), None),
        Opcode::Dbg => (s, Flow::Raise(Exception::Debug), None),
        Opcode::Exc => (State { ip: s.ip.wrapping_add(4), ..s }, Flow::Raise(Exception::User(o[0] as u16)), None),
        Opcode::Nop => (s, Flow::Next, None),
        Opcode::Ldm => match MachineRegisterID::from_id_spec(o[1]) {
            Some(m) if m.access_allowed(s.privilege(), false) => (s.put_reg(o[0], machine_register_value(s, m)), Flow::Next, None),
            _ => (s, Flow::Raise(Exception::InvalidOperation), None),
        },
        Opcode::Stm => match MachineRegisterID::from_id_spec(o[0]) {
            Some(m) if m.access_allowed(s.privilege(), true) => store_machine_register(s, m, s.reg(o[1])),
            _ => (s, Flow::Raise(Exception::InvalidOperation), None),
        },
        _ => (s, Flow::Next, None),
    }
}

/// What instruction `op` with operands `o` does to state `s`: the state
/// after it (the instruction pointer not yet moved), how control goes on,
/// and a byte of console output if any.
pub open spec fn exec_spec(s: State, op: Opcode, o: Seq<u64>) -> (State, Flow, Option<u8>) {
    match op {
        Opcode::Pushs | Opcode::Pushp | Opcode::Pops | Opcode::Popp | Opcode::Lds | Opcode::Ldp | Opcode::Sts | Opcode::Stp | Opcode::Ldi | Opcode::Ldr | Opcode::Copy => memory_spec(s, op, o),
        Opcode::AddReg | Opcode::AddImm | Opcode::SubReg | Opcode::SubImm | Opcode::Mul | Opcode::Div => arith_spec(s, op, o),
        Opcode::AndReg | Opcode::OrReg | Opcode::XorReg | Opcode::AndImm | Opcode::OrImm | Opcode::XorImm | Opcode::ShlReg | Opcode::ShlImm | Opcode::ShrReg | Opcode::ShrImm | Opcode::RotReg | Opcode::RotImm | Opcode::Neg | Opcode::Bswap => bitwise_spec(s, op, o),
        Opcode::Jmpa | Opcode::JmprReg | Opcode::JmprRel | Opcode::Cjmpa | Opcode::CjmprReg | Opcode::CjmprRel | Opcode::Calla | Opcode::CallrReg | Opcode::CallrRel | Opcode::Ret | Opcode::Eret | Opcode::Udf | Opcode::Dbg | Opcode::Exc | Opcode::Nop | Opcode::Ldm | Opcode::Stm => control_spec(s, op, o),
    }
}

/// One fetch-decode-execute step, with the console output it produces.
pub open spec fn step(s: State) -> (State, Option<u8>) {
    if !s.in_memory(s.ip, 4) {
        (s.raise(Exception::InstructionLoadError), None)
    } else {
        match decode_spec(s.load(s.ip, 4) as u32) {
            None => (s.raise(Exception::InvalidInstruction), None),
            Some((op, o)) => {
                let (t, flow, out) = exec_spec(s, op, o);
                (t.finish(flow), out)
            },
        }
    }
}

/// Whether `o` is an operand vector that the decoder can hand out for `op`:
/// one value per field, each within its field's width and valid for it.
pub open spec fn operands_fit(op: Opcode, o: Seq<u64>) -> bool {
    &&& o.len() == layout(op).1.len()
    &&& forall|k: int|
        0 <= k < o.len() ==> o[k] <= mask32(#[trigger] layout(op).1[k].width) as u64 && field_valid(
            layout(op).1[k],
            o[k],
        )
}

proof fn lemma_mask32_values()
    ensures
        mask32(1) == 1,
        mask32(2) == 3,
        mask32(3) == 7,
        mask32(4) == 15,
        mask32(5) == 31,
        mask32(6) == 63,
        mask32(7) == 127,
        mask32(11) == 0x7ff,
        mask32(13) == 0x1fff,
        mask32(16) == 0xffff,
        mask32(22) == 0x3f_ffff,
{
    assert(mask32(1) == 1 && mask32(2) == 3 && mask32(3) == 7 && mask32(4) == 15 && mask32(5) == 31 && mask32(6)
        == 63 && mask32(7) == 127 && mask32(11) == 0x7ff && mask32(13) == 0x1fff && mask32(16) == 0xffff
        && mask32(22) == 0x3f_ffff) by (bit_vector);
}

/// Decoded operands fit their fields.
proof fn lemma_decoded_operands_fit(w: u32)
    ensures
        decode_spec(w) matches Some((op, o)) ==> operands_fit(op, o),
{
    if let Some((op, o)) = decode_spec(w) {
        assert forall|k: int| 0 <= k < o.len() implies o[k] <= mask32(#[trigger] layout(op).1[k].width) as u64 by {
            let f = layout(op).1[k];
            let x = w >> f.lo;
            let m = mask32(f.width);
            assert(x & m <= m) by (bit_vector);
        }
    }
}

fn table_valid(t: &Vec<ExceptionConfigurationEntry>) -> (r: bool)
    requires
        t@.len() == 16,
    ensures
        r == forall|i: int| 0 <= i < 16 ==> (#[trigger] t@[i]).is_valid(),
{
    let mut i: usize = 0;
    while i < 16
        invariant
            i <= 16,
            t@.len() == 16,
            forall|k: int| 0 <= k < i ==> (#[trigger] t@[k]).is_valid(),
        decreases 16 - i,
    {
        if !t[i].validate() {
            return false;
        }
        i = i + 1;
    }
    true
}

/// The emulated machine.
pub struct VM {
    pub print_instructions: bool,
    pub memory: Vec<u8>,
    pub register_file: RegisterFile,
    pub flags: CPUFlags,
    pub instruction_pointer: u64,
    pub elr: u64,
    pub esp: u64,
    pub eflags: CPUFlags,
    pub einfo: u64,
    pub eaddr: u64,
    pub evtable_addr: u64,
    pub ectable_addr: u64,
    pub ectable: Vec<ExceptionConfigurationEntry>,
}

impl View for VM {
    type V = State;

    open spec fn view(&self) -> State {
        State {
            memory: self.memory@,
            regs: self.register_file.0@,
            flags: self.flags.0,
            ip: self.instruction_pointer,
            elr: self.elr,
            esp: self.esp,
            eflags: self.eflags.0,
            einfo: self.einfo,
            eaddr: self.eaddr,
            evtable: self.evtable_addr,
            ectable_addr: self.ectable_addr,
            ectable: self.ectable@,
        }
    }
}

impl VM {
    /// A machine with `memory_size` bytes of zeroed memory, zeroed registers
    /// and flags, an empty exception configuration, about to execute at
    /// 0x400.
    pub fn new(memory_size: usize) -> (r: Option<VM>)
        ensures
            r matches Some(vm) && vm@.wf() && vm@.memory == Seq::new(memory_size as nat, |i: int| 0u8)
                && vm@.regs == Seq::new(16, |i: int| 0u64) && vm@.flags == 0 && vm@.ip == START_ADDRESS
                && vm@.elr == 0 && vm@.esp == 0 && vm@.eflags == 0 && vm@.einfo == 0 && vm@.eaddr == 0
                && vm@.evtable == 0 && vm@.ectable_addr == 0 && vm@.ectable == Seq::new(
                16,
                |i: int| ExceptionConfigurationEntry { flags: 0, stack_pointer: 0, stack_size: 0 },
            ) && !vm.print_instructions,
    {
        let mut memory: Vec<u8> = Vec::new();
        while memory.len() < memory_size
            invariant
                memory@.len() <= memory_size,
                forall|i: int| 0 <= i < memory@.len() ==> memory@[i] == 0,
            decreases memory_size - memory@.len(),
        {
            memory.push(0);
        }
        let mut ectable: Vec<ExceptionConfigurationEntry> = Vec::new();
        while ectable.len() < 16
            invariant
                ectable@.len() <= 16,
                forall|i: int| 0 <= i < ectable@.len() ==> ectable@[i] == (ExceptionConfigurationEntry {
                    flags: 0,
                    stack_pointer: 0,
                    stack_size: 0,
                }),
            decreases 16 - ectable@.len(),
        {
            ectable.push(ExceptionConfigurationEntry::default());
        }
        let vm = VM {
            print_instructions: false,
            memory,
            register_file: RegisterFile::new(),
            flags: CPUFlags::new(),
            instruction_pointer: START_ADDRESS,
            elr: 0,
            esp: 0,
            eflags: CPUFlags::new(),
            einfo: 0,
            eaddr: 0,
            evtable_addr: 0,
            ectable_addr: 0,
            ectable,
        };
        assert(vm@.memory =~= Seq::new(memory_size as nat, |i: int| 0u8));
        assert(vm@.regs =~= Seq::new(16, |i: int| 0u64));
        assert(vm@.ectable =~= Seq::new(
            16,
            |i: int| ExceptionConfigurationEntry { flags: 0, stack_pointer: 0, stack_size: 0 },
        ));
        assert(valid_flags(0u64)) by (bit_vector);
        Some(vm)
    }

    /// Whether each executed instruction should be traced.
    pub fn set_print_instructions(&mut self, print_instructions: bool)
        ensures
            final(self)@ == old(self)@,
            final(self).print_instructions == print_instructions,
    {
        self.print_instructions = print_instructions;
    }

    pub fn prints_instructions(&self) -> (r: bool)
        ensures
            r == self.print_instructions,
    {
        self.print_instructions
    }

    fn reg(&self, i: u64) -> (r: u64)
        requires
            i < 16,
        ensures
            r == self@.reg(i),
    {
        self.register_file.0[i as usize]
    }

    fn put_reg(&mut self, i: u64, v: u64)
        requires
            i < 16,
        ensures
            final(self)@ == old(self)@.put_reg(i, v),
            final(self).ectable@ == old(self).ectable@,
    {
        self.register_file.0[i as usize] = v;
        assert(self@.regs =~= old(self)@.regs.update(i as int, v));
    }

    fn write_reg(&mut self, i: u64, size: Size, v: u64)
        requires
            i < 16,
        ensures
            final(self)@ == old(self)@.write_reg(i, size, v),
            final(self).ectable@ == old(self).ectable@,
    {
        let mut r = crate::machine::Register(self.reg(i));
        r.set(size, v);
        self.put_reg(i, r.0);
    }

    fn write_nreg(&mut self, i: u64, size: Size, v: u64)
        requires
            i < 16 || i == 31,
        ensures
            final(self)@ == old(self)@.write_nreg(i, size, v),
            final(self).ectable@ == old(self).ectable@,
    {
        if i != 31 {
            self.write_reg(i, size, v);
        }
    }

    fn apply_flags(&mut self, set: bool, u: FlagUpdate)
        ensures
            final(self)@ == old(self)@.with_flags(set, u),
            final(self).ectable@ == old(self).ectable@,
    {
        if set {
            if let Some(b) = u.carry {
                self.flags.set_carry(b);
            }
            if let Some(b) = u.zero {
                self.flags.set_zero(b);
            }
            if let Some(b) = u.overflow {
                self.flags.set_overflow(b);
            }
            if let Some(b) = u.sign {
                self.flags.set_sign(b);
            }
        }
    }

    fn in_memory(&self, a: u64, n: u64) -> (r: bool)
        ensures
            r == self@.in_memory(a, n),
    {
        let len = self.memory.len() as u64;
        a <= len && n <= len - a
    }

    fn load(&self, a: u64, n: u64) -> (r: u64)
        requires
            self@.in_memory(a, n),
            n <= 8,
        ensures
            r == self@.load(a, n),
    {
        let len = self.memory.len();
        assert(a + n <= len);
        let start = a as usize;
        let end = start + n as usize;
        let mut acc: u64 = 0;
        let mut i: usize = end;
        while i > start
            invariant
                start <= i <= end,
                end <= self.memory@.len(),
                start == a,
                end == a + n,
                n <= 8,
                acc == le_value(self.memory@.subrange(i as int, end as int)),
            decreases i,
        {
            assert(self.memory@.subrange(i - 1, end as int).drop_first() =~= self.memory@.subrange(
                i as int,
                end as int,
            ));
            acc = (acc << 8u64) | (self.memory[i - 1] as u64);
            i = i - 1;
        }
        acc
    }

    fn store(&mut self, a: u64, n: u64, v: u64)
        requires
            old(self)@.in_memory(a, n),
            n <= 8,
        ensures
            final(self)@ == old(self)@.store(a, n, v),
            final(self).ectable@ == old(self).ectable@,
    {
        let len = self.memory.len();
        assert(a + n <= len);
        let start = a as usize;
        let end = start + n as usize;
        let mut i: usize = start;
        while i < end
            invariant
                start <= i <= end,
                end <= self.memory@.len(),
                start == a,
                end == a + n,
                n <= 8,
                self.memory@.len() == old(self).memory@.len(),
                forall|k: int| start <= k < i ==> self.memory@[k] == crate::machine::byte_of(v, (k - start) as nat),
                forall|k: int| 0 <= k < self.memory@.len() && !(start <= k < i) ==> self.memory@[k] == old(self).memory@[k],
                self.ectable@ == old(self).ectable@,
                self.register_file == old(self).register_file,
                self.flags == old(self).flags,
                self.instruction_pointer == old(self).instruction_pointer,
                self.elr == old(self).elr,
                self.esp == old(self).esp,
                self.eflags == old(self).eflags,
                self.einfo == old(self).einfo,
                self.eaddr == old(self).eaddr,
                self.evtable_addr == old(self).evtable_addr,
                self.ectable_addr == old(self).ectable_addr,
            decreases end - i,
        {
            let k = (i - start) as u64;
            assert(k < 8);
            self.memory.set(i, ((v >> (8 * k)) & 0xff) as u8);
            i = i + 1;
        }
        assert(self@.memory =~= le_store(old(self)@.memory, a as int, n as nat, v));
        assert(self@.regs =~= old(self)@.regs);
    }

    /// Takes exception `e` at the current instruction: saves the return
    /// address, flags and stack pointer, records what happened, switches to
    /// PL0 with exceptions disabled, moves to the entry's stack where asked,
    /// and continues at the exception's vector.
    pub fn take_exception(&mut self, e: Exception)
        requires
            old(self).ectable@.len() == 16,
        ensures
            final(self)@ == old(self)@.raise(e),
            final(self).ectable@ == old(self).ectable@,
    {
        let saved = self.flags;
        let pl1 = saved.privilege_level() == PrivilegeLevel::PL1;
        let id = e.id() as usize;
        let idx: usize = if pl1 { 8 + id } else { id };
        let entry = self.ectable[idx];
        let sp = self.register_file.0[13];
        self.eflags = saved;
        self.elr = self.instruction_pointer;
        self.esp = sp;
        self.flags.set_exceptions_enabled(false);
        self.flags.set_privilege_level(PrivilegeLevel::PL0);
        self.einfo = e.info();
        self.eaddr = e.address();
        let top = entry.stack_pointer.wrapping_add(entry.stack_size);
        if (entry.flags & USE_STACK) != 0 && (sp < entry.stack_pointer || sp > top) {
            self.register_file.0[13] = top;
        }
        let pl_offset: u64 = if pl1 { 256 } else { 0 };
        self.instruction_pointer = self.evtable_addr.wrapping_add(pl_offset).wrapping_add(id as u64 * 32);
        proof {
            let s = old(self)@;
            let t = s.raise(e);
            assert(self@.regs =~= t.regs);
        }
    }

    fn finish(&mut self, flow: Flow)
        requires
            old(self).ectable@.len() == 16,
        ensures
            final(self)@ == old(self)@.finish(flow),
            final(self).ectable@ == old(self).ectable@,
    {
        match flow {
            Flow::Next => {
                self.instruction_pointer = self.instruction_pointer.wrapping_add(4);
            },
            Flow::Jump(a) => {
                self.instruction_pointer = a;
            },
            Flow::Raise(e) => {
                self.take_exception(e);
            },
        }
    }

    fn nreg_value(&self, i: u64, size: Size) -> (r: u64)
        requires
            i < 16 || i == 31,
        ensures
            r == nreg_value(self@, i, size),
    {
        if i == 31 {
            0
        } else {
            crate::bits::zero_extend_immediate(self.reg(i), size.bit_size() as u64)
        }
    }

    fn push(&mut self, size: Size, v1: u64, v2: Option<u64>) -> (r: Flow)
        ensures
            (final(self)@, r) == push_spec(old(self)@, size, v1, v2),
            final(self).ectable@ == old(self).ectable@,
    {
        let _len = self.memory.len();
        let n = size.byte_size() as u64;
        let total: u64 = if v2.is_some() { 2 * n } else { n };
        let sp = self.reg(SP as u64).wrapping_sub(total);
        if !self.in_memory(sp, total) {
            return Flow::Raise(Exception::DataLoadError { address: sp, write: true, byte_size: total as u16 });
        }
        self.store(sp, n, v1);
        if let Some(v) = v2 {
            self.store(sp + n, n, v);
        }
        self.put_reg(SP as u64, sp);
        Flow::Next
    }

    fn alu_write(&mut self, dst: u64, size: Size, out: AluOutput, set_flags: bool)
        requires
            dst < 16 || dst == 31,
        ensures
            final(self)@ == alu_result(old(self)@, dst, size, out, set_flags),
            final(self).ectable@ == old(self).ectable@,
    {
        self.write_nreg(dst, size, out.value);
        self.apply_flags(set_flags, out.flags);
    }

    fn branch(&mut self, c: Option<Condition>, target: u64, link: bool) -> (r: Flow)
        ensures
            (final(self)@, r) == branch(old(self)@, c, target, link),
            final(self).ectable@ == old(self).ectable@,
    {
        let taken = match c {
            None => true,
            Some(c) => self.flags.test_condition(c),
        };
        if !taken {
            Flow::Next
        } else if target % 4 != 0 {
            Flow::Raise(Exception::InvalidOperation)
        } else {
            if link {
                let link_addr = self.instruction_pointer.wrapping_add(4);
                self.put_reg(LR as u64, link_addr);
            }
            Flow::Jump(target)
        }
    }

    fn compare_branch(&self, c: u64, size: Size, lhs: u64, rhs: u64, target: u64) -> (r: Flow)
        requires
            c < 8,
            lhs < 16,
            rhs < 16,
        ensures
            (self@, r) == compare_branch(self@, c, size, lhs, rhs, target),
    {
        let w = size.bit_size() as u64;
        let f = alu::sub(
            size,
            crate::bits::sign_extend_immediate(self.reg(lhs), w),
            crate::bits::sign_extend_immediate(self.reg(rhs), w),
            false,
        ).flags;
        let cond = Condition::from_bits(c);
        let taken = match cond {
            Some(cc) => cc.test(f.carry == Some(true), f.zero == Some(true), f.overflow == Some(true), f.sign == Some(true)),
            None => false,
        };
        if !taken {
            Flow::Next
        } else if target % 4 == 0 {
            Flow::Jump(target)
        } else {
            Flow::Raise(Exception::InvalidOperation)
        }
    }

    fn load_table(&self, a: u64) -> (r: Vec<ExceptionConfigurationEntry>)
        requires
            self@.in_memory(a, TABLE_BYTES),
        ensures
            r@ == table_of(self@.memory.subrange(a as int, a + TABLE_BYTES)),
    {
        let len = self.memory.len();
        let ghost bytes = self@.memory.subrange(a as int, a + TABLE_BYTES);
        let mut r: Vec<ExceptionConfigurationEntry> = Vec::new();
        let mut i: u64 = 0;
        while i < 16
            invariant
                i <= 16,
                len == self@.memory.len(),
                self@.in_memory(a, TABLE_BYTES),
                bytes == self@.memory.subrange(a as int, a + TABLE_BYTES),
                r@.len() == i,
                forall|k: int| 0 <= k < i ==> r@[k] == entry_at(bytes, k),
            decreases 16 - i,
        {
            let at = a + 24 * i;
            let flags = self.load(at, 8);
            let stack_pointer = self.load(at + 8, 8);
            let stack_size = self.load(at + 16, 8);
            assert(self@.memory.subrange(at as int, at + 8) =~= bytes.subrange(24 * i, 24 * i + 8));
            assert(self@.memory.subrange(at + 8, at + 16) =~= bytes.subrange(24 * i + 8, 24 * i + 16));
            assert(self@.memory.subrange(at + 16, at + 24) =~= bytes.subrange(24 * i + 16, 24 * i + 24));
            r.push(ExceptionConfigurationEntry { flags, stack_pointer, stack_size });
            i = i + 1;
        }
        assert(r@ =~= table_of(bytes));
        r
    }

    fn store_machine_register(&mut self, m: MachineRegisterID, v: u64) -> (r: (Flow, Option<u8>))
        ensures
            (final(self)@, r.0, r.1) == store_machine_register(old(self)@, m, v),
            final(self).ectable@.len() == old(self).ectable@.len() || final(self).ectable@.len() == 16,
    {
        match m {
            MachineRegisterID::flags => match CPUFlags::from_bits(v) {
                Some(f) => {
                    self.flags = f;
                    (Flow::Next, None)
                },
                None => (Flow::Raise(Exception::InvalidOperation), None),
            },
            MachineRegisterID::elr => if v % 4 == 0 {
                self.elr = v;
                (Flow::Next, None)
            } else {
                (Flow::Raise(Exception::InvalidOperation), None)
            },
            MachineRegisterID::esp => {
                self.esp = v;
                (Flow::Next, None)
            },
            MachineRegisterID::eflags => match CPUFlags::from_bits(v) {
                Some(f) => {
                    self.eflags = f;
                    (Flow::Next, None)
                },
                None => (Flow::Raise(Exception::InvalidOperation), None),
            },
            MachineRegisterID::evtable => if v % 4 == 0 {
                self.evtable_addr = v;
                (Flow::Next, None)
            } else {
                (Flow::Raise(Exception::InvalidOperation), None)
            },
            MachineRegisterID::ectable => {
                if !self.in_memory(v, TABLE_BYTES) {
                    return (
                        Flow::Raise(Exception::DataLoadError { address: v, write: false, byte_size: TABLE_BYTES as u16 }),
                        None,
                    );
                }
                let t = self.load_table(v);
                if !table_valid(&t) {
                    return (Flow::Raise(Exception::InvalidOperation), None);
                }
                self.ectable_addr = v;
                self.ectable = t;
                (Flow::Next, None)
            },
            MachineRegisterID::vm_console => (Flow::Next, Some(#[verifier::truncate] (v as u8))),
            _ => (Flow::Raise(Exception::InvalidOperation), None),
        }
    }

    fn sext_reg(&self, i: u64, size: Size) -> (r: u64)
        requires
            i < 16,
        ensures
            r == sign_ext(self@.reg(i), size.bits()),
    {
        crate::bits::sign_extend_immediate(self.reg(i), size.bit_size() as u64)
    }

    fn zext_reg(&self, i: u64, size: Size) -> (r: u64)
        requires
            i < 16,
        ensures
            r == zero_ext(self@.reg(i), size.bits()),
    {
        crate::bits::zero_extend_immediate(self.reg(i), size.bit_size() as u64)
    }

    fn relative_target(&self, offset: u64) -> (r: u64)
        ensures
            r == relative(self@.ip, offset),
    {
        self.instruction_pointer.wrapping_add(4).wrapping_add(offset.wrapping_mul(4))
    }

    #[verifier::rlimit(50)]
    fn execute_memory(&mut self, op: Opcode, o: &Vec<u64>) -> (r: (Flow, Option<u8>))
        requires
            operands_fit(op, o@),
            op == Opcode::Pushs || op == Opcode::Pushp || op == Opcode::Pops || op == Opcode::Popp || op == Opcode::Lds || op == Opcode::Ldp || op == Opcode::Sts || op == Opcode::Stp || op == Opcode::Ldi || op == Opcode::Ldr || op == Opcode::Copy,
        ensures
            (final(self)@, r.0, r.1) == memory_spec(old(self)@, op, o@),
            final(self).ectable@.len() == old(self).ectable@.len() || final(self).ectable@.len() == 16,
    {
        proof {
            lemma_mask32_values();
            if o@.len() > 0 {
                assert(o@[0] <= mask32(layout(op).1[0].width) as u64 && field_valid(layout(op).1[0], o@[0]));
            }
            if o@.len() > 1 {
                assert(o@[1] <= mask32(layout(op).1[1].width) as u64 && field_valid(layout(op).1[1], o@[1]));
            }
            if o@.len() > 2 {
                assert(o@[2] <= mask32(layout(op).1[2].width) as u64 && field_valid(layout(op).1[2], o@[2]));
            }
            if o@.len() > 3 {
                assert(o@[3] <= mask32(layout(op).1[3].width) as u64 && field_valid(layout(op).1[3], o@[3]));
            }
            if o@.len() > 4 {
                assert(o@[4] <= mask32(layout(op).1[4].width) as u64 && field_valid(layout(op).1[4], o@[4]));
            }
            if o@.len() > 5 {
                assert(o@[5] <= mask32(layout(op).1[5].width) as u64 && field_valid(layout(op).1[5], o@[5]));
            }
            if o@.len() > 6 {
                assert(o@[6] <= mask32(layout(op).1[6].width) as u64 && field_valid(layout(op).1[6], o@[6]));
            }
            if o@.len() > 7 {
                assert(o@[7] <= mask32(layout(op).1[7].width) as u64 && field_valid(layout(op).1[7], o@[7]));
            }
        }
        match op {
            Opcode::Pushs => {
                let size = Size::from_bits(o[0]);
                let v = self.nreg_value(o[1], size);
                (self.push(size, v, None), None)
            },
            Opcode::Pushp => {
                let size = Size::from_bits(o[0]);
                let v1 = self.nreg_value(o[1], size);
                let v2 = self.nreg_value(o[2], size);
                (self.push(size, v1, Some(v2)), None)
            },
            Opcode::Pops => {
                let _len = self.memory.len();
                let size = Size::from_bits(o[0]);
                let n = size.byte_size() as u64;
                let sp = self.reg(SP as u64);
                if !self.in_memory(sp, n) {
                    return (Flow::Raise(Exception::DataLoadError { address: sp, write: false, byte_size: n as u16 }), None);
                }
                let v = self.load(sp, n);
                self.write_nreg(o[1], size, v);
                self.put_reg(SP as u64, sp.wrapping_add(n));
                (Flow::Next, None)
            },
            Opcode::Popp => {
                let _len = self.memory.len();
                let size = Size::from_bits(o[0]);
                let n = size.byte_size() as u64;
                let sp = self.reg(SP as u64);
                if !self.in_memory(sp, 2 * n) {
                    return (Flow::Raise(Exception::DataLoadError { address: sp, write: false, byte_size: (2 * n) as u16 }), None);
                }
                let v1 = self.load(sp, n);
                let v2 = self.load(sp + n, n);
                self.write_nreg(o[1], size, v1);
                self.write_nreg(o[2], size, v2);
                self.put_reg(SP as u64, sp.wrapping_add(2 * n));
                (Flow::Next, None)
            },
            Opcode::Lds => {
                let size = Size::from_bits(o[0]);
                let n = size.byte_size() as u64;
                let a = self.reg(o[2]);
                if !self.in_memory(a, n) {
                    return (Flow::Raise(Exception::DataLoadError { address: a, write: false, byte_size: n as u16 }), None);
                }
                let v = self.load(a, n);
                self.write_reg(o[1], size, v);
                (Flow::Next, None)
            },
            Opcode::Ldp => {
                let _len = self.memory.len();
                let size = Size::from_bits(o[0]);
                let n = size.byte_size() as u64;
                let a = self.reg(o[3]);
                if !self.in_memory(a, 2 * n) {
                    return (Flow::Raise(Exception::DataLoadError { address: a, write: false, byte_size: (2 * n) as u16 }), None);
                }
                let v1 = self.load(a, n);
                let v2 = self.load(a + n, n);
                self.write_reg(o[1], size, v1);
                self.write_reg(o[2], size, v2);
                (Flow::Next, None)
            },
            Opcode::Sts => {
                let size = Size::from_bits(o[0]);
                let n = size.byte_size() as u64;
                let a = self.reg(o[1]);
                if !self.in_memory(a, n) {
                    return (Flow::Raise(Exception::DataLoadError { address: a, write: true, byte_size: n as u16 }), None);
                }
                let v = self.reg(o[2]);
                self.store(a, n, v);
                (Flow::Next, None)
            },
            Opcode::Stp => {
                let _len = self.memory.len();
                let size = Size::from_bits(o[0]);
                let n = size.byte_size() as u64;
                let a = self.reg(o[1]);
                if !self.in_memory(a, 2 * n) {
                    return (Flow::Raise(Exception::DataLoadError { address: a, write: true, byte_size: (2 * n) as u16 }), None);
                }
                let v1 = self.reg(o[2]);
                let v2 = self.reg(o[3]);
                self.store(a, n, v1);
                self.store(a + n, n, v2);
                (Flow::Next, None)
            },
            Opcode::Ldi => {
                let v = alu::ldi_value(self.reg(o[0]), o[1], o[2], o[3]);
                self.put_reg(o[0], v);
                (Flow::Next, None)
            },
            Opcode::Ldr => {
                let v = self.instruction_pointer.wrapping_add(4).wrapping_add(crate::bits::sign_extend_immediate(o[1], 22));
                self.put_reg(o[0], v);
                (Flow::Next, None)
            },
            Opcode::Copy => {
                let size = Size::from_bits(o[0]);
                let v = self.zext_reg(o[2], size);
                self.write_reg(o[1], size, v);
                (Flow::Next, None)
            },
            _ => (Flow::Next, None),
        }
    }

    #[verifier::rlimit(50)]
    fn execute_arith(&mut self, op: Opcode, o: &Vec<u64>) -> (r: (Flow, Option<u8>))
        requires
            operands_fit(op, o@),
            op == Opcode::AddReg || op == Opcode::AddImm || op == Opcode::SubReg || op == Opcode::SubImm || op == Opcode::Mul || op == Opcode::Div,
        ensures
            (final(self)@, r.0, r.1) == arith_spec(old(self)@, op, o@),
            final(self).ectable@.len() == old(self).ectable@.len() || final(self).ectable@.len() == 16,
    {
        proof {
            lemma_mask32_values();
            if o@.len() > 0 {
                assert(o@[0] <= mask32(layout(op).1[0].width) as u64 && field_valid(layout(op).1[0], o@[0]));
            }
            if o@.len() > 1 {
                assert(o@[1] <= mask32(layout(op).1[1].width) as u64 && field_valid(layout(op).1[1], o@[1]));
            }
            if o@.len() > 2 {
                assert(o@[2] <= mask32(layout(op).1[2].width) as u64 && field_valid(layout(op).1[2], o@[2]));
            }
            if o@.len() > 3 {
                assert(o@[3] <= mask32(layout(op).1[3].width) as u64 && field_valid(layout(op).1[3], o@[3]));
            }
            if o@.len() > 4 {
                assert(o@[4] <= mask32(layout(op).1[4].width) as u64 && field_valid(layout(op).1[4], o@[4]));
            }
            if o@.len() > 5 {
                assert(o@[5] <= mask32(layout(op).1[5].width) as u64 && field_valid(layout(op).1[5], o@[5]));
            }
            if o@.len() > 6 {
                assert(o@[6] <= mask32(layout(op).1[6].width) as u64 && field_valid(layout(op).1[6], o@[6]));
            }
            if o@.len() > 7 {
                assert(o@[7] <= mask32(layout(op).1[7].width) as u64 && field_valid(layout(op).1[7], o@[7]));
            }
        }
        match op {
            Opcode::AddReg | Opcode::SubReg => {
                let size = Size::from_bits(o[0]);
                let a = self.sext_reg(o[2], size);
                let b = self.sext_reg(o[3], size);
                let c = o[4] == 1 && self.flags.carry();
                let out = if op == Opcode::AddReg { alu::add(size, a, b, c) } else { alu::sub(size, a, b, c) };
                self.alu_write(o[1], size, out, o[5] == 1);
                (Flow::Next, None)
            },
            Opcode::AddImm | Opcode::SubImm => {
                let size = Size::from_bits(o[0]);
                let a = self.sext_reg(o[2], size);
                let b = alu::imm11_with_shift_factor(o[3], o[4], o[5] == 1);
                let c = o[6] == 1 && self.flags.carry();
                let out = if op == Opcode::AddImm { alu::add(size, a, b, c) } else { alu::sub(size, a, b, c) };
                self.alu_write(o[1], size, out, o[7] == 1);
                (Flow::Next, None)
            },
            Opcode::Mul => {
                let size = Size::from_bits(o[0]);
                let dst_size = Size::from_bits(o[1]);
                let out = alu::mul(size, dst_size, self.reg(o[3]), self.reg(o[4]), o[5] == 1);
                self.write_reg(o[2], dst_size, out.value);
                self.apply_flags(o[6] == 1, out.flags);
                (Flow::Next, None)
            },
            Opcode::Div => {
                let size = Size::from_bits(o[0]);
                match alu::div(size, self.reg(o[3]), self.reg(o[4]), o[5] == 1) {
                    None => (Flow::Raise(Exception::InvalidOperation), None),
                    Some((q, r)) => {
                        if o[1] != o[2] {
                            self.write_reg(o[2], size, r);
                        }
                        self.write_reg(o[1], size, q);
                        self.apply_flags(o[6] == 1, alu::zero_sign_flags_of(q, size));
                        (Flow::Next, None)
                    },
                }
            },
            _ => (Flow::Next, None),
        }
    }

    #[verifier::rlimit(50)]
    fn execute_bitwise(&mut self, op: Opcode, o: &Vec<u64>) -> (r: (Flow, Option<u8>))
        requires
            operands_fit(op, o@),
            op == Opcode::AndReg || op == Opcode::OrReg || op == Opcode::XorReg || op == Opcode::AndImm || op == Opcode::OrImm || op == Opcode::XorImm || op == Opcode::ShlReg || op == Opcode::ShlImm || op == Opcode::ShrReg || op == Opcode::ShrImm || op == Opcode::RotReg || op == Opcode::RotImm || op == Opcode::Neg || op == Opcode::Bswap,
        ensures
            (final(self)@, r.0, r.1) == bitwise_spec(old(self)@, op, o@),
            final(self).ectable@.len() == old(self).ectable@.len() || final(self).ectable@.len() == 16,
    {
        proof {
            lemma_mask32_values();
            if o@.len() > 0 {
                assert(o@[0] <= mask32(layout(op).1[0].width) as u64 && field_valid(layout(op).1[0], o@[0]));
            }
            if o@.len() > 1 {
                assert(o@[1] <= mask32(layout(op).1[1].width) as u64 && field_valid(layout(op).1[1], o@[1]));
            }
            if o@.len() > 2 {
                assert(o@[2] <= mask32(layout(op).1[2].width) as u64 && field_valid(layout(op).1[2], o@[2]));
            }
            if o@.len() > 3 {
                assert(o@[3] <= mask32(layout(op).1[3].width) as u64 && field_valid(layout(op).1[3], o@[3]));
            }
            if o@.len() > 4 {
                assert(o@[4] <= mask32(layout(op).1[4].width) as u64 && field_valid(layout(op).1[4], o@[4]));
            }
            if o@.len() > 5 {
                assert(o@[5] <= mask32(layout(op).1[5].width) as u64 && field_valid(layout(op).1[5], o@[5]));
            }
            if o@.len() > 6 {
                assert(o@[6] <= mask32(layout(op).1[6].width) as u64 && field_valid(layout(op).1[6], o@[6]));
            }
            if o@.len() > 7 {
                assert(o@[7] <= mask32(layout(op).1[7].width) as u64 && field_valid(layout(op).1[7], o@[7]));
            }
        }
        match op {
            Opcode::AndReg | Opcode::OrReg | Opcode::XorReg => {
                let size = Size::from_bits(o[0]);
                let lop = if op == Opcode::AndReg {
                    LogicOp::And
                } else if op == Opcode::OrReg {
                    LogicOp::Or
                } else {
                    LogicOp::Xor
                };
                let out = alu::logic(lop, size, self.zext_reg(o[2], size), self.zext_reg(o[3], size));
                self.alu_write(o[1], size, out, o[4] == 1);
                (Flow::Next, None)
            },
            Opcode::AndImm | Opcode::OrImm | Opcode::XorImm => {
                let size = Size::from_bits(o[0]);
                let lop = if op == Opcode::AndImm {
                    LogicOp::And
                } else if op == Opcode::OrImm {
                    LogicOp::Or
                } else {
                    LogicOp::Xor
                };
                let b = alu::imm11_with_shift_factor(o[3], o[4], false);
                let out = alu::logic(lop, size, self.zext_reg(o[2], size), b);
                self.alu_write(o[1], size, out, o[5] == 1);
                (Flow::Next, None)
            },
            Opcode::ShlReg | Opcode::RotReg => {
                let size = Size::from_bits(o[0]);
                let a = self.zext_reg(o[2], size);
                let n = self.zext_reg(o[3], size);
                let out = if op == Opcode::ShlReg { alu::shl(size, a, n) } else { alu::rot(size, a, n) };
                self.alu_write(o[1], size, out, o[4] == 1);
                (Flow::Next, None)
            },
            Opcode::ShlImm | Opcode::RotImm => {
                let size = Size::from_bits(o[0]);
                let a = self.zext_reg(o[2], size);
                let out = if op == Opcode::ShlImm { alu::shl(size, a, o[3]) } else { alu::rot(size, a, o[3]) };
                self.alu_write(o[1], size, out, o[4] == 1);
                (Flow::Next, None)
            },
            Opcode::ShrReg => {
                let size = Size::from_bits(o[0]);
                let out = alu::shr(size, self.zext_reg(o[2], size), self.zext_reg(o[3], size), o[4] == 1);
                self.alu_write(o[1], size, out, o[5] == 1);
                (Flow::Next, None)
            },
            Opcode::ShrImm => {
                let size = Size::from_bits(o[0]);
                let out = alu::shr(size, self.zext_reg(o[2], size), o[3], o[4] == 1);
                self.alu_write(o[1], size, out, o[5] == 1);
                (Flow::Next, None)
            },
            Opcode::Neg | Opcode::Bswap => {
                let size = Size::from_bits(o[0]);
                let out = if op == Opcode::Neg {
                    alu::neg(size, self.reg(o[2]))
                } else {
                    alu::bswap(size, self.zext_reg(o[2], size))
                };
                self.write_reg(o[1], size, out.value);
                self.apply_flags(o[3] == 1, out.flags);
                (Flow::Next, None)
            },
            _ => (Flow::Next, None),
        }
    }

    #[verifier::rlimit(50)]
    fn execute_control(&mut self, op: Opcode, o: &Vec<u64>) -> (r: (Flow, Option<u8>))
        requires
            operands_fit(op, o@),
            op == Opcode::Jmpa || op == Opcode::JmprReg || op == Opcode::JmprRel || op == Opcode::Cjmpa || op == Opcode::CjmprReg || op == Opcode::CjmprRel || op == Opcode::Calla || op == Opcode::CallrReg || op == Opcode::CallrRel || op == Opcode::Ret || op == Opcode::Eret || op == Opcode::Udf || op == Opcode::Dbg || op == Opcode::Exc || op == Opcode::Nop || op == Opcode::Ldm || op == Opcode::Stm,
        ensures
            (final(self)@, r.0, r.1) == control_spec(old(self)@, op, o@),
            final(self).ectable@.len() == old(self).ectable@.len() || final(self).ectable@.len() == 16,
    {
        proof {
            lemma_mask32_values();
            if o@.len() > 0 {
                assert(o@[0] <= mask32(layout(op).1[0].width) as u64 && field_valid(layout(op).1[0], o@[0]));
            }
            if o@.len() > 1 {
                assert(o@[1] <= mask32(layout(op).1[1].width) as u64 && field_valid(layout(op).1[1], o@[1]));
            }
            if o@.len() > 2 {
                assert(o@[2] <= mask32(layout(op).1[2].width) as u64 && field_valid(layout(op).1[2], o@[2]));
            }
            if o@.len() > 3 {
                assert(o@[3] <= mask32(layout(op).1[3].width) as u64 && field_valid(layout(op).1[3], o@[3]));
            }
            if o@.len() > 4 {
                assert(o@[4] <= mask32(layout(op).1[4].width) as u64 && field_valid(layout(op).1[4], o@[4]));
            }
            if o@.len() > 5 {
                assert(o@[5] <= mask32(layout(op).1[5].width) as u64 && field_valid(layout(op).1[5], o@[5]));
            }
            if o@.len() > 6 {
                assert(o@[6] <= mask32(layout(op).1[6].width) as u64 && field_valid(layout(op).1[6], o@[6]));
            }
            if o@.len() > 7 {
                assert(o@[7] <= mask32(layout(op).1[7].width) as u64 && field_valid(layout(op).1[7], o@[7]));
            }
        }
        match op {
            Opcode::Jmpa | Opcode::Calla => {
                let target = self.reg(o[1]);
                (self.branch(opt_cond_of(o[0]), target, op == Opcode::Calla), None)
            },
            Opcode::JmprReg | Opcode::CallrReg => {
                let target = self.relative_target(self.reg(o[1]));
                (self.branch(opt_cond_of(o[0]), target, op == Opcode::CallrReg), None)
            },
            Opcode::JmprRel | Opcode::CallrRel => {
                let target = self.relative_target(crate::bits::sign_extend_immediate(o[1], 22));
                (self.branch(opt_cond_of(o[0]), target, op == Opcode::CallrRel), None)
            },
            Opcode::Cjmpa => {
                let target = self.reg(o[2]);
                (self.compare_branch(o[0], Size::from_bits(o[1]), o[3], o[4], target), None)
            },
            Opcode::CjmprReg => {
                let target = self.relative_target(self.reg(o[2]));
                (self.compare_branch(o[0], Size::from_bits(o[1]), o[3], o[4], target), None)
            },
            Opcode::CjmprRel => {
                let target = self.relative_target(crate::bits::sign_extend_immediate(o[2], 13));
                (self.compare_branch(o[0], Size::from_bits(o[1]), o[3], o[4], target), None)
            },
            Opcode::Ret => {
                let target = self.reg(LR as u64);
                if target % 4 == 0 {
                    (Flow::Jump(target), None)
                } else {
                    (Flow::Raise(Exception::InvalidOperation), None)
                }
            },
            Opcode::Eret => {
                if self.flags.privilege_level() != PrivilegeLevel::PL0 {
                    return (Flow::Raise(Exception::InvalidOperation), None);
                }
                self.flags = self.eflags;
                let esp = self.esp;
                self.put_reg(SP as u64, esp);
                (Flow::Jump(self.elr), None)
            },
            Opcode::Udf => (Flow::Raise(Exception::InvalidInstruction), None),
            Opcode::Dbg => (Flow::Raise(Exception::Debug), None),
            Opcode::Exc => {
                self.instruction_pointer = self.instruction_pointer.wrapping_add(4);
                (Flow::Raise(Exception::User(#[verifier::truncate] (o[0] as u16))), None)
            },
            Opcode::Nop => (Flow::Next, None),
            Opcode::Ldm => {
                if let Some(m) = MachineRegisterID::from_id(o[1]) {
                    if m.check_access(self.flags.privilege_level(), false) {
                        let v = match m {
                            MachineRegisterID::flags => self.flags.0,
                            MachineRegisterID::elr => self.elr,
                            MachineRegisterID::esp => self.esp,
                            MachineRegisterID::eflags => self.eflags.0,
                            MachineRegisterID::einfo => self.einfo,
                            MachineRegisterID::eaddr => self.eaddr,
                            MachineRegisterID::evtable => self.evtable_addr,
                            MachineRegisterID::ectable => self.ectable_addr,
                            MachineRegisterID::vm_console => 0,
                        };
                        self.put_reg(o[0], v);
                        return (Flow::Next, None);
                    }
                }
                (Flow::Raise(Exception::InvalidOperation), None)
            },
            Opcode::Stm => {
                if let Some(m) = MachineRegisterID::from_id(o[0]) {
                    if m.check_access(self.flags.privilege_level(), true) {
                        let v = self.reg(o[1]);
                        return self.store_machine_register(m, v);
                    }
                }
                (Flow::Raise(Exception::InvalidOperation), None)
            },
            _ => (Flow::Next, None),
        }
    }

    /// Executes one decoded instruction, leaving the instruction pointer for
    /// `finish`.
    pub fn execute(&mut self, op: Opcode, o: &Vec<u64>) -> (r: (Flow, Option<u8>))
        requires
            operands_fit(op, o@),
        ensures
            (final(self)@, r.0, r.1) == exec_spec(old(self)@, op, o@),
            final(self).ectable@.len() == old(self).ectable@.len() || final(self).ectable@.len() == 16,
    {
        match op {
            Opcode::Pushs | Opcode::Pushp | Opcode::Pops | Opcode::Popp | Opcode::Lds | Opcode::Ldp | Opcode::Sts | Opcode::Stp | Opcode::Ldi | Opcode::Ldr | Opcode::Copy => self.execute_memory(op, o),
            Opcode::AddReg | Opcode::AddImm | Opcode::SubReg | Opcode::SubImm | Opcode::Mul | Opcode::Div => self.execute_arith(op, o),
            Opcode::AndReg | Opcode::OrReg | Opcode::XorReg | Opcode::AndImm | Opcode::OrImm | Opcode::XorImm | Opcode::ShlReg | Opcode::ShlImm | Opcode::ShrReg | Opcode::ShrImm | Opcode::RotReg | Opcode::RotImm | Opcode::Neg | Opcode::Bswap => self.execute_bitwise(op, o),
            Opcode::Jmpa | Opcode::JmprReg | Opcode::JmprRel | Opcode::Cjmpa | Opcode::CjmprReg | Opcode::CjmprRel | Opcode::Calla | Opcode::CallrReg | Opcode::CallrRel | Opcode::Ret | Opcode::Eret | Opcode::Udf | Opcode::Dbg | Opcode::Exc | Opcode::Nop | Opcode::Ldm | Opcode::Stm => self.execute_control(op, o),
        }
    }

    /// Copies `contents` into memory from `dest_addr` on; fails, changing
    /// nothing, where they do not fit.
    pub fn load_file(&mut self, contents: &Vec<u8>, dest_addr: crate::machine::VMAddress) -> (r: Result<(), LoadError>)
        ensures
            r is Ok <==> old(self)@.in_memory(dest_addr.0, contents@.len() as u64) && contents@.len() <= u64::MAX,
            r is Ok ==> final(self)@ == (State {
                memory: Seq::new(
                    old(self)@.memory.len(),
                    |k: int|
                        if dest_addr.0 <= k < dest_addr.0 + contents@.len() {
                            contents@[k - dest_addr.0]
                        } else {
                            old(self)@.memory[k]
                        },
                ),
                ..old(self)@
            }),
            r is Err ==> final(self)@ == old(self)@,
            final(self).ectable@ == old(self).ectable@,
    {
        let len = self.memory.len();
        let n = contents.len();
        let a = dest_addr.0;
        if (n as u64) as usize != n || !self.in_memory(a, n as u64) {
            return Err(LoadError::TooLarge);
        }
        let start = a as usize;
        let mut i: usize = 0;
        while i < n
            invariant
                i <= n,
                n == contents@.len(),
                start == a,
                a + n <= self.memory@.len(),
                len == self.memory@.len(),
                self.memory@.len() == old(self).memory@.len(),
                forall|k: int| start <= k < start + i ==> self.memory@[k] == contents@[k - start],
                forall|k: int| 0 <= k < self.memory@.len() && !(start <= k < start + i) ==> self.memory@[k] == old(self).memory@[k],
                self.ectable@ == old(self).ectable@,
                self.register_file == old(self).register_file,
                self.flags == old(self).flags,
                self.instruction_pointer == old(self).instruction_pointer,
                self.elr == old(self).elr,
                self.esp == old(self).esp,
                self.eflags == old(self).eflags,
                self.einfo == old(self).einfo,
                self.eaddr == old(self).eaddr,
                self.evtable_addr == old(self).evtable_addr,
                self.ectable_addr == old(self).ectable_addr,
            decreases n - i,
        {
            self.memory.set(start + i, contents[i]);
            i = i + 1;
        }
        assert(self@.memory =~= Seq::new(
            old(self)@.memory.len(),
            |k: int|
                if dest_addr.0 <= k < dest_addr.0 + contents@.len() {
                    contents@[k - dest_addr.0]
                } else {
                    old(self)@.memory[k]
                },
        ));
        Ok(())
    }

    /// Runs up to `max_steps` steps and returns the console output.
    pub fn run(&mut self, max_steps: u64) -> (r: Vec<u8>)
        requires
            old(self)@.wf(),
        ensures
            (final(self)@, r@) == run_spec(old(self)@, max_steps as nat),
            final(self)@.wf(),
    {
        let mut out: Vec<u8> = Vec::new();
        let mut i: u64 = 0;
        while i < max_steps
            invariant
                i <= max_steps,
                self@.wf(),
                (self@, out@) == run_spec(old(self)@, i as nat),
            decreases max_steps - i,
        {
            if let Some(b) = self.execute_one() {
                out.push(b);
            }
            i = i + 1;
        }
        out
    }

    /// Fetches, decodes and executes the instruction at the instruction
    /// pointer; returns the byte written to the console, if any.
    pub fn execute_one(&mut self) -> (r: Option<u8>)
        requires
            old(self)@.wf(),
        ensures
            (final(self)@, r) == step(old(self)@),
            final(self)@.wf(),
    {
        proof {
            lemma_step_keeps_wf(old(self)@);
        }
        let ip = self.instruction_pointer;
        if !self.in_memory(ip, 4) {
            self.take_exception(Exception::InstructionLoadError);
            return None;
        }
        let word = #[verifier::truncate] (self.load(ip, 4) as u32);
        proof {
            lemma_decoded_operands_fit(word);
        }
        match decode(word) {
            None => {
                self.take_exception(Exception::InvalidInstruction);
                None
            },
            Some(d) => {
                let (flow, out) = self.execute(d.op, &d.operands);
                self.finish(flow);
                out
            },
        }
    }
}

/// `n` steps from `s`: the state reached and the console output, in order.
pub open spec fn run_spec(s: State, n: nat) -> (State, Seq<u8>)
    decreases n,
{
    if n == 0 {
        (s, Seq::empty())
    } else {
        let (t, acc) = run_spec(s, (n - 1) as nat);
        let (u, out) = step(t);
        (
            u,
            match out {
                Some(b) => acc.push(b),
                None => acc,
            },
        )
    }
}

/// Why an image could not be loaded.
#[derive(Debug, Clone, Copy, PartialEq, Eq, Structural)]
pub enum LoadError {
    /// The image does not fit in memory at the given address.
    TooLarge,
}

/// The condition of a `cond|null` operand.
fn opt_cond_of(v: u64) -> (r: Option<Condition>)
    ensures
        r == opt_cond(v),
{
    if v == 15 {
        None
    } else {
        Condition::from_bits(v)
    }
}

proof fn lemma_updated_flags_valid_all()
    ensures
        forall|f: u64, u: FlagUpdate| valid_flags(f) ==> valid_flags(#[trigger] updated_flags(f, u)),
{
    assert forall|f: u64, u: FlagUpdate| valid_flags(f) implies valid_flags(#[trigger] updated_flags(f, u)) by {
        let f1 = match u.carry {
            Some(b) => with_bit(f, CARRY_BIT, b),
            None => f,
        };
        if let Some(b) = u.carry {
            crate::machine::lemma_with_bit_valid(f, CARRY_BIT, b);
        }
        let f2 = match u.zero {
            Some(b) => with_bit(f1, ZERO_BIT, b),
            None => f1,
        };
        if let Some(b) = u.zero {
            crate::machine::lemma_with_bit_valid(f1, ZERO_BIT, b);
        }
        let f3 = match u.overflow {
            Some(b) => with_bit(f2, OVERFLOW_BIT, b),
            None => f2,
        };
        if let Some(b) = u.overflow {
            crate::machine::lemma_with_bit_valid(f2, OVERFLOW_BIT, b);
        }
        if let Some(b) = u.sign {
            crate::machine::lemma_with_bit_valid(f3, SIGN_BIT, b);
        }
    }
}

proof fn lemma_wrapping_add_aligned(a: u64, b: u64)
    requires
        a % 4 == 0,
        b % 4 == 0,
    ensures
        a.wrapping_add(b) % 4 == 0,
{
}

proof fn lemma_raise_wf(s: State, e: Exception)
    requires
        s.wf(),
    ensures
        s.raise(e).wf(),
{
    let pl1 = bit(s.flags, PRIVILEGE_BIT);
    lemma_wrapping_add_aligned(s.evtable, if pl1 { 256u64 } else { 0u64 });
    lemma_wrapping_add_aligned(s.evtable.wrapping_add(if pl1 { 256u64 } else { 0u64 }), (e.code() * 32) as u64);
    crate::machine::lemma_with_bit_valid(s.flags, EXCEPTIONS_BIT, false);
    crate::machine::lemma_with_bit_valid(with_bit(s.flags, EXCEPTIONS_BIT, false), PRIVILEGE_BIT, false);
}

proof fn lemma_operand_bounds(op: Opcode, o: Seq<u64>)
    requires
        operands_fit(op, o),
    ensures
        o.len() > 0 ==> o[0] <= mask32(layout(op).1[0].width) as u64 && field_valid(layout(op).1[0], o[0]),
        o.len() > 1 ==> o[1] <= mask32(layout(op).1[1].width) as u64 && field_valid(layout(op).1[1], o[1]),
        o.len() > 2 ==> o[2] <= mask32(layout(op).1[2].width) as u64 && field_valid(layout(op).1[2], o[2]),
        o.len() > 3 ==> o[3] <= mask32(layout(op).1[3].width) as u64 && field_valid(layout(op).1[3], o[3]),
        o.len() > 4 ==> o[4] <= mask32(layout(op).1[4].width) as u64 && field_valid(layout(op).1[4], o[4]),
        o.len() > 5 ==> o[5] <= mask32(layout(op).1[5].width) as u64 && field_valid(layout(op).1[5], o[5]),
        o.len() > 6 ==> o[6] <= mask32(layout(op).1[6].width) as u64 && field_valid(layout(op).1[6], o[6]),
        o.len() > 7 ==> o[7] <= mask32(layout(op).1[7].width) as u64 && field_valid(layout(op).1[7], o[7]),
        mask32(1) == 1,
        mask32(2) == 3,
        mask32(3) == 7,
        mask32(4) == 15,
        mask32(5) == 31,
        mask32(6) == 63,
{
    lemma_mask32_values();
    assert forall|k: int| 0 <= k < o.len() implies o[k] <= mask32(#[trigger] layout(op).1[k].width) as u64 && field_valid(layout(op).1[k], o[k]) by {}
}

/// What a handler leaves behind is well formed, and a jump it asks for
/// lands on a multiple of four.
pub open spec fn handler_ok(r: (State, Flow, Option<u8>)) -> bool {
    &&& r.0.wf()
    &&& (r.1 matches Flow::Jump(a) ==> a % 4 == 0)
}

proof fn lemma_memory_wf(s: State, op: Opcode, o: Seq<u64>)
    requires
        s.wf(),
        operands_fit(op, o),
    ensures
        handler_ok(memory_spec(s, op, o)),
{
    lemma_operand_bounds(op, o);
}

proof fn lemma_arith_wf(s: State, op: Opcode, o: Seq<u64>)
    requires
        s.wf(),
        operands_fit(op, o),
    ensures
        handler_ok(arith_spec(s, op, o)),
{
    lemma_operand_bounds(op, o);
    lemma_updated_flags_valid_all();
}

proof fn lemma_bitwise_wf(s: State, op: Opcode, o: Seq<u64>)
    requires
        s.wf(),
        operands_fit(op, o),
    ensures
        handler_ok(bitwise_spec(s, op, o)),
{
    lemma_operand_bounds(op, o);
    lemma_updated_flags_valid_all();
}

#[verifier::rlimit(50)]
proof fn lemma_control_wf(s: State, op: Opcode, o: Seq<u64>)
    requires
        s.wf(),
        operands_fit(op, o),
    ensures
        handler_ok(control_spec(s, op, o)),
{
    lemma_operand_bounds(op, o);
    lemma_wrapping_add_aligned(s.ip, 4);
    match op {
        Opcode::Stm => {
            if let Some(m) = MachineRegisterID::from_id_spec(o[0]) {
                let v = s.reg(o[1]);
                if m == MachineRegisterID::ectable && s.in_memory(v, TABLE_BYTES) {
                    assert(table_of(s.memory.subrange(v as int, v + TABLE_BYTES)).len() == 16);
                }
            }
        },
        Opcode::Ldm => {},
        Opcode::Eret => {},
        Opcode::Exc => {},
        Opcode::Jmpa | Opcode::Calla | Opcode::JmprReg | Opcode::CallrReg | Opcode::JmprRel | Opcode::CallrRel => {},
        _ => {},
    }
}

/// Every step keeps the machine in a reachable shape; in particular the
/// instruction pointer stays a multiple of four after every step, whether
/// the instruction completed, jumped or raised an exception.
pub proof fn lemma_step_keeps_wf(s: State)
    requires
        s.wf(),
    ensures
        step(s).0.wf(),
{
    lemma_raise_wf(s, Exception::InstructionLoadError);
    lemma_raise_wf(s, Exception::InvalidInstruction);
    if s.in_memory(s.ip, 4) {
        if let Some((op, o)) = decode_spec(s.load(s.ip, 4) as u32) {
            lemma_decoded_operands_fit(s.load(s.ip, 4) as u32);
            lemma_memory_wf(s, op, o);
            lemma_arith_wf(s, op, o);
            lemma_bitwise_wf(s, op, o);
            lemma_control_wf(s, op, o);
            let (t, flow, out) = exec_spec(s, op, o);
            assert(handler_ok((t, flow, out)));
            lemma_wrapping_add_aligned(t.ip, 4);
            if let Flow::Raise(e) = flow {
                lemma_raise_wf(t, e);
            }
        }
    }
}

} // verus!
