//! The arithmetic and logic unit: results and flag updates of every
//! computing instruction, as pure functions of their operands.
use vstd::prelude::*;

use crate::bits::{bit, low_mask, sign_ext, zero_ext, ALL_BITS};
use crate::machine::{merge_at, Size};

verus! {

/// Which flags an operation sets, and to what; `None` leaves a flag as it is.
#[derive(Debug, Clone, Copy, PartialEq, Eq, Structural)]
pub struct FlagUpdate {
    pub carry: Option<bool>,
    pub zero: Option<bool>,
    pub overflow: Option<bool>,
    pub sign: Option<bool>,
}

/// A computed value with the flags that it implies.
#[derive(Debug, Clone, Copy, PartialEq, Eq, Structural)]
pub struct AluOutput {
    pub value: u64,
    pub flags: FlagUpdate,
}

/// The most significant bit of `v` at `size`.
pub open spec fn msb(v: u64, size: Size) -> bool {
    bit(v, (size.bits() - 1) as u64)
}

/// Whether `v` is zero at `size`.
pub open spec fn is_zero_at(v: u64, size: Size) -> bool {
    v & low_mask(size.bits()) == 0
}

pub open spec fn add_spec(size: Size, a: u64, b: u64, carry_in: bool) -> AluOutput {
    let r = a.wrapping_add(b).wrapping_add(if carry_in { 1u64 } else { 0u64 });
    let (am, bm, rm) = (msb(a, size), msb(b, size), msb(r, size));
    AluOutput {
        value: r,
        flags: FlagUpdate {
            carry: Some((am && bm) || ((am || bm) && !rm)),
            zero: Some(is_zero_at(r, size)),
            overflow: Some(am == bm && rm != am),
            sign: Some(rm),
        },
    }
}

pub open spec fn sub_spec(size: Size, a: u64, b: u64, borrow_in: bool) -> AluOutput {
    let r = a.wrapping_sub(b).wrapping_sub(if borrow_in { 1u64 } else { 0u64 });
    let (am, bm, rm) = (msb(a, size), msb(b, size), msb(r, size));
    AluOutput {
        value: r,
        flags: FlagUpdate {
            carry: Some((!am && bm) || (rm && bm) || (rm && !am)),
            zero: Some(is_zero_at(r, size)),
            overflow: Some(am != bm && rm != am),
            sign: Some(rm),
        },
    }
}

/// Flags of a logical result: overflow cleared, zero and sign from the value.
pub open spec fn logic_flags(r: u64, size: Size) -> FlagUpdate {
    FlagUpdate { carry: None, zero: Some(is_zero_at(r, size)), overflow: Some(false), sign: Some(msb(r, size)) }
}

/// Flags that only report zero and sign.
pub open spec fn zero_sign_flags(r: u64, size: Size) -> FlagUpdate {
    FlagUpdate { carry: None, zero: Some(is_zero_at(r, size)), overflow: None, sign: Some(msb(r, size)) }
}

/// Flags that only report the sign.
pub open spec fn sign_flags(r: u64, size: Size) -> FlagUpdate {
    FlagUpdate { carry: None, zero: None, overflow: None, sign: Some(msb(r, size)) }
}

/// The bitwise operations.
#[derive(Debug, Clone, Copy, PartialEq, Eq, Structural)]
pub enum LogicOp {
    And,
    Or,
    Xor,
}

pub open spec fn logic_spec(op: LogicOp, size: Size, a: u64, b: u64) -> AluOutput {
    let r = match op {
        LogicOp::And => a & b,
        LogicOp::Or => a | b,
        LogicOp::Xor => a ^ b,
    };
    AluOutput { value: r, flags: logic_flags(r, size) }
}

/// Left shift of `a` (already cut to `size`) by `n`; amounts from the width
/// up give zero. The carry is the last bit shifted out, left alone for `n == 0`.
pub open spec fn shl_spec(size: Size, a: u64, n: u64) -> AluOutput {
    let too_big = n >= size.bits();
    let r = if too_big { 0 } else { a << n };
    let f = logic_flags(r, size);
    AluOutput {
        value: r,
        flags: FlagUpdate {
            carry: if n == 0 {
                None
            } else {
                Some(bit(a, if too_big { 0 } else { (size.bits() - n) as u64 }))
            },
            ..f
        },
    }
}

/// `a` shifted right by `n < 64`, filling with ones where `fill`.
pub open spec fn shift_right_fill(a: u64, n: u64, fill: bool) -> u64 {
    if fill {
        !((!a) >> n)
    } else {
        a >> n
    }
}

/// Right shift of `a` (already cut to `size`) by `n`, logical or arithmetic
/// at `size`; amounts from the width up give zero or all sign bits.
pub open spec fn shr_spec(size: Size, a: u64, n: u64, signed: bool) -> AluOutput {
    let too_big = n >= size.bits();
    let neg = signed && msb(a, size);
    let r = if too_big {
        if neg { ALL_BITS } else { 0 }
    } else {
        shift_right_fill(if neg { sign_ext(a, size.bits()) } else { a }, n, neg)
    };
    let f = logic_flags(r, size);
    AluOutput {
        value: r,
        flags: FlagUpdate {
            carry: if n == 0 {
                None
            } else {
                Some(bit(a, if too_big { (size.bits() - 1) as u64 } else { (n - 1) as u64 }))
            },
            ..f
        },
    }
}

/// Rotation to the right of `a` (already cut to `size`) by `n` modulo the width.
pub open spec fn rot_spec(size: Size, a: u64, n: u64) -> AluOutput {
    let k = n % size.bits();
    let r = if k == 0 {
        a
    } else {
        ((a >> k) | (a << ((size.bits() - k) as u64))) & low_mask(size.bits())
    };
    AluOutput { value: r, flags: sign_flags(r, size) }
}

/// Product at the width of `src` (operands read signed or unsigned),
/// flags taken at `dst`.
pub open spec fn mul_spec(src: Size, dst: Size, a: u64, b: u64, signed: bool) -> AluOutput {
    let r = if signed {
        sign_ext(a, src.bits()).wrapping_mul(sign_ext(b, src.bits()))
    } else {
        zero_ext(a, src.bits()).wrapping_mul(zero_ext(b, src.bits()))
    };
    AluOutput { value: r, flags: zero_sign_flags(r, dst) }
}

/// A 64-bit pattern read as a two's-complement number.
pub open spec fn signed_value(v: u64) -> int {
    if v >= 0x8000_0000_0000_0000 {
        v as int - 0x1_0000_0000_0000_0000
    } else {
        v as int
    }
}

/// An integer reduced to 64 bits.
pub open spec fn wrap64(x: int) -> u64 {
    (x % 0x1_0000_0000_0000_0000) as u64
}

/// Absolute value.
pub open spec fn abs(x: int) -> nat {
    if x < 0 {
        (-x) as nat
    } else {
        x as nat
    }
}

/// Quotient rounded toward zero.
pub open spec fn trunc_div(a: int, b: int) -> int {
    if (a < 0) == (b < 0) {
        (abs(a) / abs(b)) as int
    } else {
        -((abs(a) / abs(b)) as int)
    }
}

/// Remainder of the division rounded toward zero; it has the sign of `a`.
pub open spec fn trunc_rem(a: int, b: int) -> int {
    if a < 0 {
        -((abs(a) % abs(b)) as int)
    } else {
        (abs(a) % abs(b)) as int
    }
}

/// Quotient and remainder at `size`, signed or unsigned; `None` for a zero
/// divisor.
pub open spec fn div_spec(size: Size, a: u64, b: u64, signed: bool) -> Option<(u64, u64)> {
    if zero_ext(b, size.bits()) == 0 {
        None
    } else if signed {
        let x = signed_value(sign_ext(a, size.bits()));
        let y = signed_value(sign_ext(b, size.bits()));
        Some((wrap64(trunc_div(x, y)), wrap64(trunc_rem(x, y))))
    } else {
        let x = zero_ext(a, size.bits());
        let y = zero_ext(b, size.bits());
        Some((x / y, x % y))
    }
}

/// Negation of the value at `size`, read signed.
pub open spec fn neg_spec(size: Size, a: u64) -> AluOutput {
    let r = 0u64.wrapping_sub(sign_ext(a, size.bits()));
    AluOutput { value: r, flags: zero_sign_flags(r, size) }
}

/// The low `k` bytes of `v` in reverse order.
pub open spec fn rev_bytes(v: u64, k: nat) -> u64
    decreases k,
{
    if k == 0 {
        0
    } else {
        (rev_bytes(v, (k - 1) as nat) << 8u64) | ((v >> (8 * (k - 1)) as u64) & 0xff)
    }
}

pub open spec fn bswap_spec(size: Size, a: u64) -> AluOutput {
    let r = rev_bytes(a, size.bytes() as nat);
    AluOutput { value: r, flags: sign_flags(r, size) }
}

/// `ldi`: places a 16-bit immediate at bit `shift` of `old`; `clear` picks
/// what else is cleared: nothing (0), the bits below (1), the bits above
/// (2) or all of them (3).
pub open spec fn ldi_spec(old: u64, src: u64, shift: u64, clear: u64) -> u64 {
    let mask = 0xffffu64 << shift;
    let shifted = src << shift;
    let kept = old & !mask;
    let cleared = if clear == 0 {
        kept
    } else if clear == 1 {
        kept & (ALL_BITS << shift)
    } else if clear == 2 {
        kept & !(if shift + 16 >= 64 { 0 } else { ALL_BITS << ((shift + 16) as u64) })
    } else {
        0
    };
    cleared | shifted
}

/// An 11-bit immediate scaled by `2^(11 * factor)`, sign-extended from its
/// top bit where asked and where that bit lies below bit 63.
pub open spec fn imm11_spec(imm: u64, factor: u64, sign_extend: bool) -> u64 {
    let sh = (factor * 11) as u64;
    let v = if sh >= 64 { 0 } else { imm << sh };
    let top = (sh + 10) as u64;
    if sign_extend && top < 63 && bit(v, top) {
        v | (ALL_BITS << ((sh + 11) as u64))
    } else {
        v
    }
}

fn msb_of(v: u64, size: Size) -> (r: bool)
    ensures
        r == msb(v, size),
{
    let i = size.msb_index() as u64;
    ((v >> i) & 1) == 1
}

fn zero_at(v: u64, size: Size) -> (r: bool)
    ensures
        r == is_zero_at(v, size),
{
    (v & size.mask()) == 0
}

/// The zero and sign flags of `v` at `size`.
pub fn zero_sign_flags_of(v: u64, size: Size) -> (r: FlagUpdate)
    ensures
        r == zero_sign_flags(v, size),
{
    FlagUpdate { carry: None, zero: Some(zero_at(v, size)), overflow: None, sign: Some(msb_of(v, size)) }
}

/// Addition with an optional incoming carry.
pub fn add(size: Size, a: u64, b: u64, carry_in: bool) -> (r: AluOutput)
    ensures
        r == add_spec(size, a, b, carry_in),
{
    let c: u64 = if carry_in { 1 } else { 0 };
    let r = a.wrapping_add(b).wrapping_add(c);
    let (am, bm, rm) = (msb_of(a, size), msb_of(b, size), msb_of(r, size));
    AluOutput {
        value: r,
        flags: FlagUpdate {
            carry: Some((am && bm) || ((am || bm) && !rm)),
            zero: Some(zero_at(r, size)),
            overflow: Some(am == bm && rm != am),
            sign: Some(rm),
        },
    }
}

/// Subtraction with an optional incoming borrow.
pub fn sub(size: Size, a: u64, b: u64, borrow_in: bool) -> (r: AluOutput)
    ensures
        r == sub_spec(size, a, b, borrow_in),
{
    let c: u64 = if borrow_in { 1 } else { 0 };
    let r = a.wrapping_sub(b).wrapping_sub(c);
    let (am, bm, rm) = (msb_of(a, size), msb_of(b, size), msb_of(r, size));
    AluOutput {
        value: r,
        flags: FlagUpdate {
            carry: Some((!am && bm) || (rm && bm) || (rm && !am)),
            zero: Some(zero_at(r, size)),
            overflow: Some(am != bm && rm != am),
            sign: Some(rm),
        },
    }
}

pub fn logic(op: LogicOp, size: Size, a: u64, b: u64) -> (r: AluOutput)
    ensures
        r == logic_spec(op, size, a, b),
{
    let v = match op {
        LogicOp::And => a & b,
        LogicOp::Or => a | b,
        LogicOp::Xor => a ^ b,
    };
    AluOutput {
        value: v,
        flags: FlagUpdate { carry: None, zero: Some(zero_at(v, size)), overflow: Some(false), sign: Some(msb_of(v, size)) },
    }
}

pub fn shl(size: Size, a: u64, n: u64) -> (r: AluOutput)
    ensures
        r == shl_spec(size, a, n),
{
    let bits = size.bit_size() as u64;
    let too_big = n >= bits;
    let v = if too_big { 0 } else { a << n };
    let carry = if n == 0 {
        None
    } else {
        let i = if too_big { 0 } else { bits - n };
        Some(((a >> i) & 1) == 1)
    };
    AluOutput {
        value: v,
        flags: FlagUpdate { carry, zero: Some(zero_at(v, size)), overflow: Some(false), sign: Some(msb_of(v, size)) },
    }
}

pub fn shr(size: Size, a: u64, n: u64, signed: bool) -> (r: AluOutput)
    ensures
        r == shr_spec(size, a, n, signed),
{
    let bits = size.bit_size() as u64;
    let too_big = n >= bits;
    let neg = signed && msb_of(a, size);
    let v = if too_big {
        if neg { ALL_BITS } else { 0 }
    } else if neg {
        let wide = a | !size.mask();
        proof {
            assert(sign_ext(a, size.bits()) == a | !low_mask(size.bits()));
        }
        !((!wide) >> n)
    } else {
        a >> n
    };
    let carry = if n == 0 {
        None
    } else {
        let i = if too_big { bits - 1 } else { n - 1 };
        Some(((a >> i) & 1) == 1)
    };
    AluOutput {
        value: v,
        flags: FlagUpdate { carry, zero: Some(zero_at(v, size)), overflow: Some(false), sign: Some(msb_of(v, size)) },
    }
}

pub fn rot(size: Size, a: u64, n: u64) -> (r: AluOutput)
    ensures
        r == rot_spec(size, a, n),
{
    let bits = size.bit_size() as u64;
    let k = n % bits;
    let v = if k == 0 {
        a
    } else {
        ((a >> k) | (a << (bits - k))) & size.mask()
    };
    AluOutput { value: v, flags: FlagUpdate { carry: None, zero: None, overflow: None, sign: Some(msb_of(v, size)) } }
}

pub fn mul(src: Size, dst: Size, a: u64, b: u64, signed: bool) -> (r: AluOutput)
    ensures
        r == mul_spec(src, dst, a, b, signed),
{
    let w = src.bit_size() as u64;
    let v = if signed {
        crate::bits::sign_extend_immediate(a, w).wrapping_mul(crate::bits::sign_extend_immediate(b, w))
    } else {
        crate::bits::zero_extend_immediate(a, w).wrapping_mul(crate::bits::zero_extend_immediate(b, w))
    };
    AluOutput { value: v, flags: FlagUpdate { carry: None, zero: Some(zero_at(v, dst)), overflow: None, sign: Some(msb_of(v, dst)) } }
}

pub fn neg(size: Size, a: u64) -> (r: AluOutput)
    ensures
        r == neg_spec(size, a),
{
    let v = 0u64.wrapping_sub(crate::bits::sign_extend_immediate(a, size.bit_size() as u64));
    AluOutput { value: v, flags: FlagUpdate { carry: None, zero: Some(zero_at(v, size)), overflow: None, sign: Some(msb_of(v, size)) } }
}

pub fn bswap(size: Size, a: u64) -> (r: AluOutput)
    ensures
        r == bswap_spec(size, a),
{
    let n = size.byte_size() as u64;
    let mut acc: u64 = 0;
    let mut i: u64 = 0;
    while i < n
        invariant
            i <= n,
            n == size.bytes(),
            n <= 8,
            acc == rev_bytes(a, i as nat),
        decreases n - i,
    {
        acc = (acc << 8u64) | ((a >> (8 * i)) & 0xff);
        i = i + 1;
    }
    AluOutput { value: acc, flags: FlagUpdate { carry: None, zero: None, overflow: None, sign: Some(msb_of(acc, size)) } }
}

pub fn ldi_value(old: u64, src: u64, shift: u64, clear: u64) -> (r: u64)
    requires
        shift < 64,
        clear < 4,
    ensures
        r == ldi_spec(old, src, shift, clear),
{
    let mask = 0xffffu64 << shift;
    let shifted = src << shift;
    let kept = old & !mask;
    let cleared = if clear == 0 {
        kept
    } else if clear == 1 {
        kept & (ALL_BITS << shift)
    } else if clear == 2 {
        kept & !(if shift + 16 >= 64 { 0 } else { ALL_BITS << (shift + 16) })
    } else {
        0
    };
    cleared | shifted
}

/// The value of an 11-bit immediate with its 3-bit shift factor.
pub fn imm11_with_shift_factor(imm: u64, factor: u64, sign_extend: bool) -> (r: u64)
    requires
        factor < 8,
    ensures
        r == imm11_spec(imm, factor, sign_extend),
{
    let sh = factor * 11;
    let v = if sh >= 64 { 0 } else { imm << sh };
    let top = sh + 10;
    if sign_extend && top < 63 && ((v >> top) & 1) == 1 {
        v | (ALL_BITS << (sh + 11))
    } else {
        v
    }
}

/// Quotient and remainder; `None` for a zero divisor.
pub fn div(size: Size, a: u64, b: u64, signed: bool) -> (r: Option<(u64, u64)>)
    ensures
        r == div_spec(size, a, b, signed),
{
    let w = size.bit_size() as u64;
    let yz = crate::bits::zero_extend_immediate(b, w);
    if yz == 0 {
        return None;
    }
    if signed {
        let x = crate::bits::sign_extend_immediate(a, w);
        let y = crate::bits::sign_extend_immediate(b, w);
        proof {
            let m = low_mask(size.bits());
            let wm1 = (size.bits() - 1) as u64;
            assert(b & m != 0 ==> (if bit(b, wm1) { b | !m } else { b & m }) != 0) by (bit_vector);
        }
        let xn = x >= 0x8000_0000_0000_0000u64;
        let yn = y >= 0x8000_0000_0000_0000u64;
        let xm = if xn { 0u64.wrapping_sub(x) } else { x };
        let ym = if yn { 0u64.wrapping_sub(y) } else { y };
        assert(xm as int == abs(signed_value(x)));
        assert(ym as int == abs(signed_value(y)));
        let qm = xm / ym;
        let rm = xm % ym;
        let q = if xn != yn { 0u64.wrapping_sub(qm) } else { qm };
        let r = if xn { 0u64.wrapping_sub(rm) } else { rm };
        proof {
            let sx = signed_value(x);
            let sy = signed_value(y);
            assert(q == wrap64(trunc_div(sx, sy)));
            assert(r == wrap64(trunc_rem(sx, sy)));
        }
        Some((q, r))
    } else {
        let x = crate::bits::zero_extend_immediate(a, w);
        Some((x / yz, x % yz))
    }
}

/// `2^bits` of a size.
pub open spec fn modulus(size: Size) -> int {
    match size {
        Size::Byte => 0x100,
        Size::DoubleByte => 0x1_0000,
        Size::QuadByte => 0x1_0000_0000,
        Size::Word => 0x1_0000_0000_0000_0000,
    }
}

/// `v` read as an unsigned number at `size`.
pub open spec fn unsigned_at(v: u64, size: Size) -> int {
    zero_ext(v, size.bits()) as int
}

/// `v` read as a two's-complement number at `size`.
pub open spec fn signed_at(v: u64, size: Size) -> int {
    if 2 * unsigned_at(v, size) >= modulus(size) {
        unsigned_at(v, size) - modulus(size)
    } else {
        unsigned_at(v, size)
    }
}

proof fn lemma_add_flags_8(a: u64, b: u64, c: u64)
    by (bit_vector)
    requires
        c <= 1,
    ensures
        (2 * zero_ext(a, 8) >= 0x100) == bit(a, 7),
        (2 * zero_ext(b, 8) >= 0x100) == bit(b, 7),
        ({ let r = a.wrapping_add(b).wrapping_add(c); (2 * zero_ext(r, 8) >= 0x100) == bit(r, 7) }),
        ({ let r = a.wrapping_add(b).wrapping_add(c); ((bit(a, 7) && bit(b, 7)) || ((bit(a, 7) || bit(b, 7)) && !bit(r, 7))) == (zero_ext(a, 8) + zero_ext(b, 8) + c >= 0x100) }),
        ({ let r = a.wrapping_add(b).wrapping_add(c); zero_ext(r, 8) == (zero_ext(a, 8) + zero_ext(b, 8) + c) % 0x100 }),
        ({ let r = a.wrapping_add(b).wrapping_add(c); zero_ext(r, 8) + 0 == (if zero_ext(a, 8) + zero_ext(b, 8) + c >= 0x100 { zero_ext(a, 8) + zero_ext(b, 8) + c - 0x100 } else { zero_ext(a, 8) + zero_ext(b, 8) + c }) }),
        zero_ext(a, 8) + 0 < 0x100,
        zero_ext(b, 8) + 0 < 0x100,
{
}

proof fn lemma_sub_flags_8(a: u64, b: u64, c: u64)
    by (bit_vector)
    requires
        c <= 1,
    ensures
        (2 * zero_ext(a, 8) >= 0x100) == bit(a, 7),
        (2 * zero_ext(b, 8) >= 0x100) == bit(b, 7),
        ({ let r = a.wrapping_sub(b).wrapping_sub(c); (2 * zero_ext(r, 8) >= 0x100) == bit(r, 7) }),
        ({ let r = a.wrapping_sub(b).wrapping_sub(c); ((!bit(a, 7) && bit(b, 7)) || (bit(r, 7) && bit(b, 7)) || (bit(r, 7) && !bit(a, 7))) == (zero_ext(a, 8) + 0 < zero_ext(b, 8) + c) }),
        ({ let r = a.wrapping_sub(b).wrapping_sub(c); zero_ext(r, 8) == (zero_ext(a, 8) + 0x100 - zero_ext(b, 8) - c) % 0x100 }),
        ({ let r = a.wrapping_sub(b).wrapping_sub(c); zero_ext(r, 8) + 0 == (if zero_ext(a, 8) + 0 < zero_ext(b, 8) + c { zero_ext(a, 8) + 0x100 - zero_ext(b, 8) - c } else { zero_ext(a, 8) - zero_ext(b, 8) - c }) }),
        zero_ext(a, 8) + 0 < 0x100,
        zero_ext(b, 8) + 0 < 0x100,
{
}

proof fn lemma_add_flags_16(a: u64, b: u64, c: u64)
    by (bit_vector)
    requires
        c <= 1,
    ensures
        (2 * zero_ext(a, 16) >= 0x1_0000) == bit(a, 15),
        (2 * zero_ext(b, 16) >= 0x1_0000) == bit(b, 15),
        ({ let r = a.wrapping_add(b).wrapping_add(c); (2 * zero_ext(r, 16) >= 0x1_0000) == bit(r, 15) }),
        ({ let r = a.wrapping_add(b).wrapping_add(c); ((bit(a, 15) && bit(b, 15)) || ((bit(a, 15) || bit(b, 15)) && !bit(r, 15))) == (zero_ext(a, 16) + zero_ext(b, 16) + c >= 0x1_0000) }),
        ({ let r = a.wrapping_add(b).wrapping_add(c); zero_ext(r, 16) == (zero_ext(a, 16) + zero_ext(b, 16) + c) % 0x1_0000 }),
        ({ let r = a.wrapping_add(b).wrapping_add(c); zero_ext(r, 16) + 0 == (if zero_ext(a, 16) + zero_ext(b, 16) + c >= 0x1_0000 { zero_ext(a, 16) + zero_ext(b, 16) + c - 0x1_0000 } else { zero_ext(a, 16) + zero_ext(b, 16) + c }) }),
        zero_ext(a, 16) + 0 < 0x1_0000,
        zero_ext(b, 16) + 0 < 0x1_0000,
{
}

proof fn lemma_sub_flags_16(a: u64, b: u64, c: u64)
    by (bit_vector)
    requires
        c <= 1,
    ensures
        (2 * zero_ext(a, 16) >= 0x1_0000) == bit(a, 15),
        (2 * zero_ext(b, 16) >= 0x1_0000) == bit(b, 15),
        ({ let r = a.wrapping_sub(b).wrapping_sub(c); (2 * zero_ext(r, 16) >= 0x1_0000) == bit(r, 15) }),
        ({ let r = a.wrapping_sub(b).wrapping_sub(c); ((!bit(a, 15) && bit(b, 15)) || (bit(r, 15) && bit(b, 15)) || (bit(r, 15) && !bit(a, 15))) == (zero_ext(a, 16) + 0 < zero_ext(b, 16) + c) }),
        ({ let r = a.wrapping_sub(b).wrapping_sub(c); zero_ext(r, 16) == (zero_ext(a, 16) + 0x1_0000 - zero_ext(b, 16) - c) % 0x1_0000 }),
        ({ let r = a.wrapping_sub(b).wrapping_sub(c); zero_ext(r, 16) + 0 == (if zero_ext(a, 16) + 0 < zero_ext(b, 16) + c { zero_ext(a, 16) + 0x1_0000 - zero_ext(b, 16) - c } else { zero_ext(a, 16) - zero_ext(b, 16) - c }) }),
        zero_ext(a, 16) + 0 < 0x1_0000,
        zero_ext(b, 16) + 0 < 0x1_0000,
{
}

proof fn lemma_add_flags_32(a: u64, b: u64, c: u64)
    by (bit_vector)
    requires
        c <= 1,
    ensures
        (2 * zero_ext(a, 32) >= 0x1_0000_0000) == bit(a, 31),
        (2 * zero_ext(b, 32) >= 0x1_0000_0000) == bit(b, 31),
        ({ let r = a.wrapping_add(b).wrapping_add(c); (2 * zero_ext(r, 32) >= 0x1_0000_0000) == bit(r, 31) }),
        ({ let r = a.wrapping_add(b).wrapping_add(c); ((bit(a, 31) && bit(b, 31)) || ((bit(a, 31) || bit(b, 31)) && !bit(r, 31))) == (zero_ext(a, 32) + zero_ext(b, 32) + c >= 0x1_0000_0000) }),
        ({ let r = a.wrapping_add(b).wrapping_add(c); zero_ext(r, 32) == (zero_ext(a, 32) + zero_ext(b, 32) + c) % 0x1_0000_0000 }),
        ({ let r = a.wrapping_add(b).wrapping_add(c); zero_ext(r, 32) + 0 == (if zero_ext(a, 32) + zero_ext(b, 32) + c >= 0x1_0000_0000 { zero_ext(a, 32) + zero_ext(b, 32) + c - 0x1_0000_0000 } else { zero_ext(a, 32) + zero_ext(b, 32) + c }) }),
        zero_ext(a, 32) + 0 < 0x1_0000_0000,
        zero_ext(b, 32) + 0 < 0x1_0000_0000,
{
}

proof fn lemma_sub_flags_32(a: u64, b: u64, c: u64)
    by (bit_vector)
    requires
        c <= 1,
    ensures
        (2 * zero_ext(a, 32) >= 0x1_0000_0000) == bit(a, 31),
        (2 * zero_ext(b, 32) >= 0x1_0000_0000) == bit(b, 31),
        ({ let r = a.wrapping_sub(b).wrapping_sub(c); (2 * zero_ext(r, 32) >= 0x1_0000_0000) == bit(r, 31) }),
        ({ let r = a.wrapping_sub(b).wrapping_sub(c); ((!bit(a, 31) && bit(b, 31)) || (bit(r, 31) && bit(b, 31)) || (bit(r, 31) && !bit(a, 31))) == (zero_ext(a, 32) + 0 < zero_ext(b, 32) + c) }),
        ({ let r = a.wrapping_sub(b).wrapping_sub(c); zero_ext(r, 32) == (zero_ext(a, 32) + 0x1_0000_0000 - zero_ext(b, 32) - c) % 0x1_0000_0000 }),
        ({ let r = a.wrapping_sub(b).wrapping_sub(c); zero_ext(r, 32) + 0 == (if zero_ext(a, 32) + 0 < zero_ext(b, 32) + c { zero_ext(a, 32) + 0x1_0000_0000 - zero_ext(b, 32) - c } else { zero_ext(a, 32) - zero_ext(b, 32) - c }) }),
        zero_ext(a, 32) + 0 < 0x1_0000_0000,
        zero_ext(b, 32) + 0 < 0x1_0000_0000,
{
}

proof fn lemma_add_flags_64(a: u64, b: u64, c: u64)
    by (bit_vector)
    requires
        c <= 1,
    ensures
        (2 * zero_ext(a, 64) >= 0x1_0000_0000_0000_0000) == bit(a, 63),
        (2 * zero_ext(b, 64) >= 0x1_0000_0000_0000_0000) == bit(b, 63),
        ({ let r = a.wrapping_add(b).wrapping_add(c); (2 * zero_ext(r, 64) >= 0x1_0000_0000_0000_0000) == bit(r, 63) }),
        ({ let r = a.wrapping_add(b).wrapping_add(c); ((bit(a, 63) && bit(b, 63)) || ((bit(a, 63) || bit(b, 63)) && !bit(r, 63))) == (zero_ext(a, 64) + zero_ext(b, 64) + c >= 0x1_0000_0000_0000_0000) }),
        ({ let r = a.wrapping_add(b).wrapping_add(c); zero_ext(r, 64) == (zero_ext(a, 64) + zero_ext(b, 64) + c) % 0x1_0000_0000_0000_0000 }),
        ({ let r = a.wrapping_add(b).wrapping_add(c); zero_ext(r, 64) + 0 == (if zero_ext(a, 64) + zero_ext(b, 64) + c >= 0x1_0000_0000_0000_0000 { zero_ext(a, 64) + zero_ext(b, 64) + c - 0x1_0000_0000_0000_0000 } else { zero_ext(a, 64) + zero_ext(b, 64) + c }) }),
        zero_ext(a, 64) + 0 < 0x1_0000_0000_0000_0000,
        zero_ext(b, 64) + 0 < 0x1_0000_0000_0000_0000,
{
}

proof fn lemma_sub_flags_64(a: u64, b: u64, c: u64)
    by (bit_vector)
    requires
        c <= 1,
    ensures
        (2 * zero_ext(a, 64) >= 0x1_0000_0000_0000_0000) == bit(a, 63),
        (2 * zero_ext(b, 64) >= 0x1_0000_0000_0000_0000) == bit(b, 63),
        ({ let r = a.wrapping_sub(b).wrapping_sub(c); (2 * zero_ext(r, 64) >= 0x1_0000_0000_0000_0000) == bit(r, 63) }),
        ({ let r = a.wrapping_sub(b).wrapping_sub(c); ((!bit(a, 63) && bit(b, 63)) || (bit(r, 63) && bit(b, 63)) || (bit(r, 63) && !bit(a, 63))) == (zero_ext(a, 64) + 0 < zero_ext(b, 64) + c) }),
        ({ let r = a.wrapping_sub(b).wrapping_sub(c); zero_ext(r, 64) == (zero_ext(a, 64) + 0x1_0000_0000_0000_0000 - zero_ext(b, 64) - c) % 0x1_0000_0000_0000_0000 }),
        ({ let r = a.wrapping_sub(b).wrapping_sub(c); zero_ext(r, 64) + 0 == (if zero_ext(a, 64) + 0 < zero_ext(b, 64) + c { zero_ext(a, 64) + 0x1_0000_0000_0000_0000 - zero_ext(b, 64) - c } else { zero_ext(a, 64) - zero_ext(b, 64) - c }) }),
        zero_ext(a, 64) + 0 < 0x1_0000_0000_0000_0000,
        zero_ext(b, 64) + 0 < 0x1_0000_0000_0000_0000,
{
}

proof fn lemma_add_overflow_int(ua: int, ub: int, c: int, zr: int, m: int, h: int, am: bool, bm: bool, rm: bool)
    requires
        h > 0,
        m == 2 * h,
        0 <= ua < m,
        0 <= ub < m,
        0 <= c <= 1,
        am == (2 * ua >= m),
        bm == (2 * ub >= m),
        rm == (2 * zr >= m),
        zr == (if ua + ub + c >= m { ua + ub + c - m } else { ua + ub + c }),
    ensures
        (am == bm && rm != am) == !(-m <= 2 * ((if am { ua - m } else { ua }) + (if bm { ub - m } else { ub }) + c)
            < m),
{
}

proof fn lemma_sub_overflow_int(ua: int, ub: int, c: int, zr: int, m: int, h: int, am: bool, bm: bool, rm: bool)
    requires
        h > 0,
        m == 2 * h,
        0 <= ua < m,
        0 <= ub < m,
        0 <= c <= 1,
        am == (2 * ua >= m),
        bm == (2 * ub >= m),
        rm == (2 * zr >= m),
        zr == (if ua < ub + c { ua + m - ub - c } else { ua - ub - c }),
    ensures
        (am != bm && rm != am) == !(-m <= 2 * ((if am { ua - m } else { ua }) - (if bm { ub - m } else { ub }) - c)
            < m),
{
}

/// Addition at `size` follows two's-complement arithmetic: the carry says
/// whether the unsigned sum reaches `2^bits`, the overflow whether the signed
/// sum leaves the signed range, and the value, zero and sign flags are those
/// of the sum modulo `2^bits`.
pub proof fn lemma_add_flags_twos_complement(size: Size, a: u64, b: u64, carry_in: bool)
    ensures
        ({
            let o = add_spec(size, a, b, carry_in);
            let c: int = if carry_in { 1 } else { 0 };
            let u = unsigned_at(a, size) + unsigned_at(b, size) + c;
            let sg = signed_at(a, size) + signed_at(b, size) + c;
            &&& o.flags.carry == Some(u >= modulus(size))
            &&& o.flags.overflow == Some(!(-modulus(size) <= 2 * sg < modulus(size)))
            &&& unsigned_at(o.value, size) == u % modulus(size)
            &&& o.flags.zero == Some(u % modulus(size) == 0)
            &&& o.flags.sign == Some(2 * (u % modulus(size)) >= modulus(size))
        }),
{
    let c: u64 = if carry_in { 1 } else { 0 };
    match size {
        Size::Byte => lemma_add_flags_8(a, b, c),
        Size::DoubleByte => lemma_add_flags_16(a, b, c),
        Size::QuadByte => lemma_add_flags_32(a, b, c),
        Size::Word => lemma_add_flags_64(a, b, c),
    }
    let r = a.wrapping_add(b).wrapping_add(c);
    lemma_add_overflow_int(
        unsigned_at(a, size),
        unsigned_at(b, size),
        c as int,
        unsigned_at(r, size),
        modulus(size),
        modulus(size) / 2,
        msb(a, size),
        msb(b, size),
        msb(r, size),
    );
}

/// Subtraction at `size` follows two's-complement arithmetic: the carry is
/// the borrow of the unsigned difference, the overflow says whether the
/// signed difference leaves the signed range, and the value, zero and sign
/// flags are those of the difference modulo `2^bits`.
pub proof fn lemma_sub_flags_twos_complement(size: Size, a: u64, b: u64, borrow_in: bool)
    ensures
        ({
            let o = sub_spec(size, a, b, borrow_in);
            let c: int = if borrow_in { 1 } else { 0 };
            let u = unsigned_at(a, size) - unsigned_at(b, size) - c;
            let sg = signed_at(a, size) - signed_at(b, size) - c;
            &&& o.flags.carry == Some(u < 0)
            &&& o.flags.overflow == Some(!(-modulus(size) <= 2 * sg < modulus(size)))
            &&& unsigned_at(o.value, size) == u % modulus(size)
            &&& o.flags.zero == Some(u % modulus(size) == 0)
            &&& o.flags.sign == Some(2 * (u % modulus(size)) >= modulus(size))
        }),
{
    let c: u64 = if borrow_in { 1 } else { 0 };
    match size {
        Size::Byte => lemma_sub_flags_8(a, b, c),
        Size::DoubleByte => lemma_sub_flags_16(a, b, c),
        Size::QuadByte => lemma_sub_flags_32(a, b, c),
        Size::Word => lemma_sub_flags_64(a, b, c),
    }
    let r = a.wrapping_sub(b).wrapping_sub(c);
    lemma_sub_overflow_int(
        unsigned_at(a, size),
        unsigned_at(b, size),
        c as int,
        unsigned_at(r, size),
        modulus(size),
        modulus(size) / 2,
        msb(a, size),
        msb(b, size),
        msb(r, size),
    );
    let m = modulus(size);
    let u = unsigned_at(a, size) - unsigned_at(b, size) - c;
    assert((u + m) % m == u % m) by {
        vstd::arithmetic::div_mod::lemma_mod_add_multiples_vanish(u, m);
    }
}

proof fn lemma_merge_same_low_bits(x: u64, v: u64, m: u64)
    requires
        v & m == x & m,
    ensures
        (x & !m) | (v & m) == x,
{
    assert(v & m == x & m ==> (x & !m) | (v & m) == x) by (bit_vector);
}

/// Shifting a register left or right by zero writes back the value it held
/// and leaves the carry flag alone.
pub proof fn lemma_shift_by_zero_is_identity(size: Size, x: u64, signed: bool)
    ensures
        ({
            let a = zero_ext(x, size.bits());
            let l = shl_spec(size, a, 0);
            let r = shr_spec(size, a, 0, signed);
            &&& merge_at(x, size, l.value) == x
            &&& l.flags.carry.is_none()
            &&& merge_at(x, size, r.value) == x
            &&& r.flags.carry.is_none()
        }),
{
    let m = low_mask(size.bits());
    let a = x & m;
    assert(a << 0u64 == a) by (bit_vector);
    assert(a >> 0u64 == a) by (bit_vector);
    assert(!(!(a | !m) >> 0u64) == a | !m) by (bit_vector);
    assert((a & m) == x & m) by (bit_vector)
        requires
            a == x & m,
    ;
    assert((a | !m) & m == x & m) by (bit_vector)
        requires
            a == x & m,
    ;
    lemma_merge_same_low_bits(x, a, m);
    lemma_merge_same_low_bits(x, a | !m, m);
}

/// Rotating a register by a multiple of its width writes back the value it
/// held.
pub proof fn lemma_full_rotation_is_identity(size: Size, x: u64, n: u64)
    requires
        n % size.bits() == 0,
    ensures
        merge_at(x, size, rot_spec(size, zero_ext(x, size.bits()), n).value) == x,
{
    let m = low_mask(size.bits());
    assert((x & m) & m == x & m) by (bit_vector);
    lemma_merge_same_low_bits(x, x & m, m);
}

} // verus!
