//! Bit-level helpers shared by the encoder and the emulator: masks,
//! zero- and sign-extension of narrow immediates.
use vstd::prelude::*;

verus! {

/// All 64 bits set.
pub const ALL_BITS: u64 = 0xffff_ffff_ffff_ffff;

/// The mask of the low `width` bits (`width <= 64`).
pub open spec fn low_mask(width: u64) -> u64 {
    if width == 0 {
        0
    } else if width >= 64 {
        ALL_BITS
    } else {
        ALL_BITS >> ((64 - width) as u64)
    }
}

/// Whether bit `index` (below 64) of `v` is set.
pub open spec fn bit(v: u64, index: u64) -> bool {
    (v >> index) & 1 == 1
}

/// `v` cut down to its low `width` bits.
pub open spec fn zero_ext(v: u64, width: u64) -> u64 {
    v & low_mask(width)
}

/// `v` cut down to its low `width` bits (`1 <= width <= 64`), then with bit
/// `width - 1` copied into every higher bit.
pub open spec fn sign_ext(v: u64, width: u64) -> u64 {
    if bit(v, (width - 1) as u64) {
        v | !low_mask(width)
    } else {
        v & low_mask(width)
    }
}

/// Computes the low-bits mask.
pub fn low_bits_mask(width: u64) -> (r: u64)
    requires
        width <= 64,
    ensures
        r == low_mask(width),
{
    if width == 0 {
        0
    } else if width == 64 {
        ALL_BITS
    } else {
        ALL_BITS >> (64 - width)
    }
}

/// Keeps the low `width` bits of `immediate`.
pub fn zero_extend_immediate(immediate: u64, width: u64) -> (r: u64)
    requires
        width <= 64,
    ensures
        r == zero_ext(immediate, width),
{
    immediate & low_bits_mask(width)
}

/// Interprets the low `width` bits of `immediate` as a two's-complement
/// number and widens it to 64 bits.
pub fn sign_extend_immediate(immediate: u64, width: u64) -> (r: u64)
    requires
        1 <= width <= 64,
    ensures
        r == sign_ext(immediate, width),
{
    let mask = low_bits_mask(width);
    let masked = immediate & mask;
    let msb: u64 = 1u64 << (width - 1);
    proof {
        let w1 = (width - 1) as u64;
        assert(((immediate & mask) & (1u64 << w1) != 0) == ((immediate >> w1) & 1 == 1)) by (bit_vector)
            requires
                1 <= width <= 64,
                w1 == (width - 1) as u64,
                mask == low_mask(width),
        ;
        assert((immediate & mask) | !mask == immediate | !mask) by (bit_vector);
    }
    if (masked & msb) != 0 {
        masked | !mask
    } else {
        masked
    }
}

/// Truncates `immediate` to a field of `bits` bits; with `sign_extend`
/// the field is read back as a signed value.
pub fn truncate_immediate(immediate: u64, bits: u8, sign_extend: bool) -> (r: u64)
    requires
        1 <= bits <= 64,
    ensures
        r == (if sign_extend {
            sign_ext(immediate, bits as u64)
        } else {
            zero_ext(immediate, bits as u64)
        }),
{
    if sign_extend {
        sign_extend_immediate(immediate, bits as u64)
    } else {
        zero_extend_immediate(immediate, bits as u64)
    }
}

} // verus!
