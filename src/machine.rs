//! The machine's basic vocabulary: operand sizes, conditions, registers,
//! CPU flags, machine registers and exceptions.
use vstd::prelude::*;

use crate::bits::{bit, low_bits_mask, low_mask, sign_ext, sign_extend_immediate, zero_ext, zero_extend_immediate};

verus! {

/// The width of an operation.
#[derive(Debug, Clone, Copy, PartialEq, Eq, Structural)]
pub enum Size {
    Byte,
    DoubleByte,
    QuadByte,
    Word,
}

impl Size {
    /// Number of bytes.
    pub open spec fn bytes(self) -> u64 {
        match self {
            Size::Byte => 1,
            Size::DoubleByte => 2,
            Size::QuadByte => 4,
            Size::Word => 8,
        }
    }

    /// Number of bits.
    pub open spec fn bits(self) -> u64 {
        match self {
            Size::Byte => 8,
            Size::DoubleByte => 16,
            Size::QuadByte => 32,
            Size::Word => 64,
        }
    }

    /// The 2-bit code of the size.
    pub open spec fn code(self) -> u64 {
        match self {
            Size::Byte => 0,
            Size::DoubleByte => 1,
            Size::QuadByte => 2,
            Size::Word => 3,
        }
    }

    pub open spec fn from_code(v: u64) -> Size {
        if v == 0 {
            Size::Byte
        } else if v == 1 {
            Size::DoubleByte
        } else if v == 2 {
            Size::QuadByte
        } else {
            Size::Word
        }
    }

    /// The size with the given 2-bit code.
    pub fn from_bits(v: u64) -> (r: Size)
        requires
            v < 4,
        ensures
            r == Size::from_code(v),
            r.code() == v,
    {
        if v == 0 {
            Size::Byte
        } else if v == 1 {
            Size::DoubleByte
        } else if v == 2 {
            Size::QuadByte
        } else {
            Size::Word
        }
    }

    pub fn code_of(&self) -> (r: u64)
        ensures
            r == self.code(),
    {
        match self {
            Size::Byte => 0,
            Size::DoubleByte => 1,
            Size::QuadByte => 2,
            Size::Word => 3,
        }
    }

    pub fn byte_size(&self) -> (r: u8)
        ensures
            r as u64 == self.bytes(),
    {
        match self {
            Size::Byte => 1,
            Size::DoubleByte => 2,
            Size::QuadByte => 4,
            Size::Word => 8,
        }
    }

    pub fn bit_size(&self) -> (r: u8)
        ensures
            r as u64 == self.bits(),
    {
        self.byte_size() * 8
    }

    pub fn msb_index(&self) -> (r: u8)
        ensures
            r as u64 == (self.bits() - 1) as u64,
    {
        self.bit_size() - 1
    }

    /// The mask of the most significant bit at this size.
    pub fn msb_mask(&self) -> (r: u64)
        ensures
            r == 1u64 << ((self.bits() - 1) as u64),
    {
        1u64 << (self.msb_index() as u64)
    }

    /// The mask of all the bits at this size.
    pub fn mask(&self) -> (r: u64)
        ensures
            r == low_mask(self.bits()),
    {
        low_bits_mask(self.bit_size() as u64)
    }

    /// Reads a little-endian value of this size from the start of `src`,
    /// zero- or sign-extended to 64 bits.
    pub fn read(&self, src: &[u8], sign_extend: bool) -> (r: u64)
        requires
            src@.len() >= self.bytes(),
        ensures
            r == (if sign_extend {
                sign_ext(le_value(src@.subrange(0, self.bytes() as int)), self.bits())
            } else {
                le_value(src@.subrange(0, self.bytes() as int))
            }),
    {
        let n = self.byte_size() as usize;
        let mut acc: u64 = 0;
        let mut i: usize = n;
        while i > 0
            invariant
                0 <= i <= n,
                n <= src@.len(),
                acc == le_value(src@.subrange(i as int, n as int)),
            decreases i,
        {
            let ghost s = src@.subrange(i - 1, n as int);
            assert(s.drop_first() =~= src@.subrange(i as int, n as int));
            acc = (acc << 8u64) | (src[i - 1] as u64);
            i = i - 1;
        }
        if sign_extend {
            sign_extend_immediate(acc, self.bit_size() as u64)
        } else {
            acc
        }
    }

    /// Writes the low bytes of `src` at this size, little-endian, to the
    /// start of `dst`.
    pub fn write(&self, src: u64, dst: &mut [u8])
        requires
            old(dst)@.len() >= self.bytes(),
        ensures
            final(dst)@ == le_store(old(dst)@, 0, self.bytes() as nat, src),
    {
        let n = self.byte_size() as usize;
        let mut i: usize = 0;
        while i < n
            invariant
                0 <= i <= n,
                n == self.bytes(),
                dst@.len() == old(dst)@.len(),
                n <= dst@.len(),
                forall|k: int| 0 <= k < i ==> dst@[k] == byte_of(src, k as nat),
                forall|k: int| i <= k < dst@.len() ==> dst@[k] == old(dst)@[k],
            decreases n - i,
        {
            dst[i] = ((src >> (8 * i as u64)) & 0xff) as u8;
            i = i + 1;
        }
        assert(dst@ =~= le_store(old(dst)@, 0, n as nat, src));
    }
}

/// The value of bytes read little-endian (at most eight of them).
pub open spec fn le_value(s: Seq<u8>) -> u64
    decreases s.len(),
{
    if s.len() == 0 {
        0
    } else {
        (le_value(s.drop_first()) << 8u64) | (s[0] as u64)
    }
}

/// Byte `k` of `v`, counted from the least significant.
pub open spec fn byte_of(v: u64, k: nat) -> u8 {
    ((v >> (8 * k) as u64) & 0xff) as u8
}

/// `mem` with the low `n` bytes of `v` stored little-endian at `at`.
pub open spec fn le_store(mem: Seq<u8>, at: int, n: nat, v: u64) -> Seq<u8> {
    Seq::new(mem.len(), |k: int| if at <= k < at + n { byte_of(v, (k - at) as nat) } else { mem[k] })
}

/// Branch conditions over the CPU flags.
#[derive(Debug, Clone, Copy, PartialEq, Eq, Structural)]
pub enum Condition {
    C,
    NC,
    Z,
    NZ,
    O,
    NO,
    S,
    NS,
    L,
    NL,
}

impl Condition {
    pub open spec fn holds(self, carry: bool, zero: bool, overflow: bool, sign: bool) -> bool {
        match self {
            Condition::C => carry,
            Condition::NC => !carry,
            Condition::Z => zero,
            Condition::NZ => !zero,
            Condition::O => overflow,
            Condition::NO => !overflow,
            Condition::S => sign,
            Condition::NS => !sign,
            Condition::L => sign != overflow,
            Condition::NL => sign == overflow,
        }
    }

    /// The condition with code `v`; codes from 10 up name none.
    pub open spec fn from_code(v: u64) -> Option<Condition> {
        if v == 0 {
            Some(Condition::C)
        } else if v == 1 {
            Some(Condition::NC)
        } else if v == 2 {
            Some(Condition::Z)
        } else if v == 3 {
            Some(Condition::NZ)
        } else if v == 4 {
            Some(Condition::O)
        } else if v == 5 {
            Some(Condition::NO)
        } else if v == 6 {
            Some(Condition::S)
        } else if v == 7 {
            Some(Condition::NS)
        } else if v == 8 {
            Some(Condition::L)
        } else if v == 9 {
            Some(Condition::NL)
        } else {
            None
        }
    }

    pub open spec fn code(self) -> u64 {
        match self {
            Condition::C => 0,
            Condition::NC => 1,
            Condition::Z => 2,
            Condition::NZ => 3,
            Condition::O => 4,
            Condition::NO => 5,
            Condition::S => 6,
            Condition::NS => 7,
            Condition::L => 8,
            Condition::NL => 9,
        }
    }

    pub fn test(&self, carry: bool, zero: bool, overflow: bool, sign: bool) -> (r: bool)
        ensures
            r == self.holds(carry, zero, overflow, sign),
    {
        match self {
            Condition::C => carry,
            Condition::NC => !carry,
            Condition::Z => zero,
            Condition::NZ => !zero,
            Condition::O => overflow,
            Condition::NO => !overflow,
            Condition::S => sign,
            Condition::NS => !sign,
            Condition::L => sign ^ overflow,
            Condition::NL => !(sign ^ overflow),
        }
    }

    pub fn from_bits(v: u64) -> (r: Option<Condition>)
        ensures
            r == Condition::from_code(v),
    {
        if v == 0 {
            Some(Condition::C)
        } else if v == 1 {
            Some(Condition::NC)
        } else if v == 2 {
            Some(Condition::Z)
        } else if v == 3 {
            Some(Condition::NZ)
        } else if v == 4 {
            Some(Condition::O)
        } else if v == 5 {
            Some(Condition::NO)
        } else if v == 6 {
            Some(Condition::S)
        } else if v == 7 {
            Some(Condition::NS)
        } else if v == 8 {
            Some(Condition::L)
        } else if v == 9 {
            Some(Condition::NL)
        } else {
            None
        }
    }

    pub fn code_of(&self) -> (r: u64)
        ensures
            r == self.code(),
    {
        match self {
            Condition::C => 0,
            Condition::NC => 1,
            Condition::Z => 2,
            Condition::NZ => 3,
            Condition::O => 4,
            Condition::NO => 5,
            Condition::S => 6,
            Condition::NS => 7,
            Condition::L => 8,
            Condition::NL => 9,
        }
    }
}

/// The two privilege levels; `PL0` is the privileged one.
#[derive(Debug, Clone, Copy, PartialEq, Eq, Structural)]
pub enum PrivilegeLevel {
    PL0,
    PL1,
}

/// A general register number, below 16.
#[derive(Debug, Clone, Copy, PartialEq, Eq, Structural)]
pub struct RegisterID(pub u8);

/// The stack pointer's register number.
pub const SP: u8 = 13;
/// The frame pointer's register number.
pub const FP: u8 = 14;
/// The link register's number.
pub const LR: u8 = 15;

/// A 64-bit general register.
#[derive(Debug, Clone, Copy, PartialEq, Eq, Structural)]
pub struct Register(pub u64);

/// The value a register holds after a write of `value` at `size`: the low
/// bits are replaced, the high ones kept.
pub open spec fn merge_at(old: u64, size: Size, value: u64) -> u64 {
    (old & !low_mask(size.bits())) | (value & low_mask(size.bits()))
}

impl Register {
    pub fn get_unsigned(&self, size: Size) -> (r: u64)
        ensures
            r == zero_ext(self.0, size.bits()),
    {
        zero_extend_immediate(self.0, size.bit_size() as u64)
    }

    /// The value at `size`, sign-extended, as a 64-bit two's-complement
    /// number.
    pub fn get_signed(&self, size: Size) -> (r: i64)
        ensures
            (#[verifier::truncate] (r as u64)) == sign_ext(self.0, size.bits()),
    {
        let v = sign_extend_immediate(self.0, size.bit_size() as u64);
        proof {
            assert((#[verifier::truncate] ((#[verifier::truncate] (v as i64)) as u64)) == v) by (bit_vector);
        }
        #[verifier::truncate] (v as i64)
    }

    pub fn get(&self) -> (r: u64)
        ensures
            r == self.0,
    {
        self.0
    }

    pub fn get_address(&self) -> (r: VMAddress)
        ensures
            r.0 == self.0,
    {
        VMAddress(self.0)
    }

    pub fn set(&mut self, size: Size, value: u64)
        ensures
            final(self).0 == merge_at(old(self).0, size, value),
    {
        let keep = !size.mask();
        self.0 = (self.0 & keep) | (value & !keep);
        proof {
            let m = low_mask(size.bits());
            assert(!!m == m) by (bit_vector);
        }
    }
}

/// An address in the machine's memory.
#[derive(Debug, Clone, Copy, PartialEq, Eq, Structural)]
pub struct VMAddress(pub u64);

impl VMAddress {
    pub fn new(address: u64) -> (r: VMAddress)
        ensures
            r.0 == address,
    {
        VMAddress(address)
    }

    /// Instructions sit at multiples of four.
    pub fn is_valid_instruction_pointer(&self) -> (r: bool)
        ensures
            r == (self.0 % 4 == 0),
    {
        proof {
            let a = self.0;
            assert((a & 3 == 0) == (a % 4 == 0)) by (bit_vector);
        }
        (self.0 & 3) == 0
    }
}

/// The sixteen general registers.
#[derive(Debug, Clone, Copy)]
pub struct RegisterFile(pub [u64; 16]);

impl RegisterFile {
    pub fn new() -> (r: RegisterFile)
        ensures
            forall|i: int| 0 <= i < 16 ==> r.0@[i] == 0,
    {
        RegisterFile([0u64; 16])
    }
}

/// The CPU flags register; only its six low bits may be set.
#[derive(Debug, Clone, Copy, PartialEq, Eq, Structural)]
pub struct CPUFlags(pub u64);

/// The bits that a flags value may have set.
pub const FLAGS_VALID_MASK: u64 = 0x3f;

pub const CARRY_BIT: u64 = 0;
pub const ZERO_BIT: u64 = 1;
pub const OVERFLOW_BIT: u64 = 2;
pub const SIGN_BIT: u64 = 3;
pub const EXCEPTIONS_BIT: u64 = 4;
pub const PRIVILEGE_BIT: u64 = 5;

/// `v` with bit `index` set to `value`.
pub open spec fn with_bit(v: u64, index: u64, value: bool) -> u64 {
    if value {
        v | (1u64 << index)
    } else {
        v & !(1u64 << index)
    }
}

/// Whether a value may stand in the flags register.
pub open spec fn valid_flags(v: u64) -> bool {
    v & !FLAGS_VALID_MASK == 0
}

fn set_bit(v: u64, index: u64, value: bool) -> (r: u64)
    requires
        index < 64,
    ensures
        r == with_bit(v, index, value),
{
    if value {
        v | (1u64 << index)
    } else {
        v & !(1u64 << index)
    }
}

fn get_bit(v: u64, index: u64) -> (r: bool)
    requires
        index < 64,
    ensures
        r == bit(v, index),
{
    proof {
        assert(((v & (1u64 << index)) != 0) == ((v >> index) & 1 == 1)) by (bit_vector)
            requires
                index < 64,
        ;
    }
    (v & (1u64 << index)) != 0
}

pub proof fn lemma_with_bit_valid(v: u64, index: u64, value: bool)
    requires
        valid_flags(v),
        index < 6,
    ensures
        valid_flags(with_bit(v, index, value)),
{
    assert(v & !0x3fu64 == 0 && index < 6 ==> (v | (1u64 << index)) & !0x3fu64 == 0) by (bit_vector);
    assert(v & !0x3fu64 == 0 ==> (v & !(1u64 << index)) & !0x3fu64 == 0) by (bit_vector);
}

impl CPUFlags {
    pub open spec fn flag(self, index: u64) -> bool {
        bit(self.0, index)
    }

    pub open spec fn privilege(self) -> PrivilegeLevel {
        if self.flag(PRIVILEGE_BIT) {
            PrivilegeLevel::PL1
        } else {
            PrivilegeLevel::PL0
        }
    }

    /// Whether `c` holds of these flags.
    pub open spec fn satisfies(self, c: Condition) -> bool {
        c.holds(self.flag(CARRY_BIT), self.flag(ZERO_BIT), self.flag(OVERFLOW_BIT), self.flag(SIGN_BIT))
    }

    pub fn new() -> (r: CPUFlags)
        ensures
            r.0 == 0,
    {
        CPUFlags(0)
    }

    /// Flags from a raw value; `None` where bits outside the six defined
    /// ones are set.
    pub fn from_bits(value: u64) -> (r: Option<CPUFlags>)
        ensures
            r == (if valid_flags(value) {
                Some(CPUFlags(value))
            } else {
                None
            }),
    {
        if (value & !FLAGS_VALID_MASK) != 0 {
            None
        } else {
            Some(CPUFlags(value))
        }
    }

    pub fn bits(&self) -> (r: u64)
        ensures
            r == self.0,
    {
        self.0
    }

    pub fn carry(&self) -> (r: bool)
        ensures
            r == self.flag(CARRY_BIT),
    {
        get_bit(self.0, CARRY_BIT)
    }

    pub fn zero(&self) -> (r: bool)
        ensures
            r == self.flag(ZERO_BIT),
    {
        get_bit(self.0, ZERO_BIT)
    }

    pub fn overflow(&self) -> (r: bool)
        ensures
            r == self.flag(OVERFLOW_BIT),
    {
        get_bit(self.0, OVERFLOW_BIT)
    }

    pub fn sign(&self) -> (r: bool)
        ensures
            r == self.flag(SIGN_BIT),
    {
        get_bit(self.0, SIGN_BIT)
    }

    pub fn exceptions_enabled(&self) -> (r: bool)
        ensures
            r == self.flag(EXCEPTIONS_BIT),
    {
        get_bit(self.0, EXCEPTIONS_BIT)
    }

    pub fn privilege_level(&self) -> (r: PrivilegeLevel)
        ensures
            r == self.privilege(),
    {
        if get_bit(self.0, PRIVILEGE_BIT) {
            PrivilegeLevel::PL1
        } else {
            PrivilegeLevel::PL0
        }
    }

    pub fn set_carry(&mut self, value: bool)
        ensures
            final(self).0 == with_bit(old(self).0, CARRY_BIT, value),
    {
        self.0 = set_bit(self.0, CARRY_BIT, value);
    }

    pub fn set_zero(&mut self, value: bool)
        ensures
            final(self).0 == with_bit(old(self).0, ZERO_BIT, value),
    {
        self.0 = set_bit(self.0, ZERO_BIT, value);
    }

    pub fn set_overflow(&mut self, value: bool)
        ensures
            final(self).0 == with_bit(old(self).0, OVERFLOW_BIT, value),
    {
        self.0 = set_bit(self.0, OVERFLOW_BIT, value);
    }

    pub fn set_sign(&mut self, value: bool)
        ensures
            final(self).0 == with_bit(old(self).0, SIGN_BIT, value),
    {
        self.0 = set_bit(self.0, SIGN_BIT, value);
    }

    pub fn set_exceptions_enabled(&mut self, value: bool)
        ensures
            final(self).0 == with_bit(old(self).0, EXCEPTIONS_BIT, value),
    {
        self.0 = set_bit(self.0, EXCEPTIONS_BIT, value);
    }

    pub fn set_privilege_level(&mut self, value: PrivilegeLevel)
        ensures
            final(self).0 == with_bit(old(self).0, PRIVILEGE_BIT, value == PrivilegeLevel::PL1),
    {
        self.0 = set_bit(self.0, PRIVILEGE_BIT, value == PrivilegeLevel::PL1);
    }

    pub fn test_condition(&self, cond: Condition) -> (r: bool)
        ensures
            r == self.satisfies(cond),
    {
        cond.test(self.carry(), self.zero(), self.overflow(), self.sign())
    }
}

/// The machine registers that `ldm` and `stm` reach.
#[allow(non_camel_case_types)]
#[derive(Debug, Clone, Copy, PartialEq, Eq, Structural)]
pub enum MachineRegisterID {
    flags,
    elr,
    esp,
    eflags,
    einfo,
    eaddr,
    evtable,
    ectable,
    vm_console,
}

/// The identifier of the console machine register.
pub const VM_CONSOLE_ID: u64 = 0xdead1;

impl MachineRegisterID {
    pub open spec fn from_id_spec(id: u64) -> Option<MachineRegisterID> {
        if id == 0 {
            Some(MachineRegisterID::flags)
        } else if id == 1 {
            Some(MachineRegisterID::elr)
        } else if id == 2 {
            Some(MachineRegisterID::esp)
        } else if id == 3 {
            Some(MachineRegisterID::eflags)
        } else if id == 4 {
            Some(MachineRegisterID::einfo)
        } else if id == 5 {
            Some(MachineRegisterID::eaddr)
        } else if id == 6 {
            Some(MachineRegisterID::evtable)
        } else if id == 7 {
            Some(MachineRegisterID::ectable)
        } else if id == VM_CONSOLE_ID {
            Some(MachineRegisterID::vm_console)
        } else {
            None
        }
    }

    pub open spec fn access_allowed(self, priv_level: PrivilegeLevel, write: bool) -> bool {
        match self {
            MachineRegisterID::flags => !write || priv_level == PrivilegeLevel::PL0,
            MachineRegisterID::einfo | MachineRegisterID::eaddr => !write && priv_level
                == PrivilegeLevel::PL0,
            MachineRegisterID::vm_console => write,
            _ => priv_level == PrivilegeLevel::PL0,
        }
    }

    /// The machine register with identifier `id`, if any.
    pub fn from_id(id: u64) -> (r: Option<MachineRegisterID>)
        ensures
            r == MachineRegisterID::from_id_spec(id),
    {
        if id == 0 {
            Some(MachineRegisterID::flags)
        } else if id == 1 {
            Some(MachineRegisterID::elr)
        } else if id == 2 {
            Some(MachineRegisterID::esp)
        } else if id == 3 {
            Some(MachineRegisterID::eflags)
        } else if id == 4 {
            Some(MachineRegisterID::einfo)
        } else if id == 5 {
            Some(MachineRegisterID::eaddr)
        } else if id == 6 {
            Some(MachineRegisterID::evtable)
        } else if id == 7 {
            Some(MachineRegisterID::ectable)
        } else if id == VM_CONSOLE_ID {
            Some(MachineRegisterID::vm_console)
        } else {
            None
        }
    }

    /// Whether code at `priv_level` may read (or, with `write`, write) this
    /// register.
    pub fn check_access(&self, priv_level: PrivilegeLevel, write: bool) -> (r: bool)
        ensures
            r == self.access_allowed(priv_level, write),
    {
        match self {
            MachineRegisterID::flags => !write || priv_level == PrivilegeLevel::PL0,
            MachineRegisterID::elr
            | MachineRegisterID::esp
            | MachineRegisterID::eflags
            | MachineRegisterID::evtable
            | MachineRegisterID::ectable => priv_level == PrivilegeLevel::PL0,
            MachineRegisterID::einfo | MachineRegisterID::eaddr => !write && priv_level
                == PrivilegeLevel::PL0,
            MachineRegisterID::vm_console => write,
        }
    }
}

} // verus!
