//! Bit-level vocabulary shared by the aggregator and the scan responder:
//! single-bit and byte-lane views of the fixed-width words, and the
//! bit-vector lemmas that the proofs about them rest on.

use vstd::prelude::*;

verus! {

/// Bit `b` of the byte `w`.
pub open spec fn u8_bit(w: u8, b: u8) -> bool {
    (w >> b) & 1 == 1
}

/// Bit `b` of the 16-bit word `w`.
pub open spec fn u16_bit(w: u16, b: u16) -> bool {
    (w >> b) & 1 == 1
}

/// Bit `b` of the 32-bit word `w`.
pub open spec fn u32_bit(w: u32, b: u32) -> bool {
    (w >> b) & 1 == 1
}

/// Byte lane `l` (0 is the least significant) of the 32-bit word `w`.
pub open spec fn lane(w: u32, l: int) -> u8 {
    (w >> (8 * l) as u32) as u8
}

/// Two 32-bit words that agree on every bit are equal.
pub proof fn lemma_u32_bit_ext(x: u32, y: u32)
    requires
        forall|b: u32| b < 32 ==> u32_bit(x, b) == u32_bit(y, b),
    ensures
        x == y,
{
    assert(x == y) by (bit_vector)
        requires
            u32_bit(x, 0) == u32_bit(y, 0),
            u32_bit(x, 1) == u32_bit(y, 1),
            u32_bit(x, 2) == u32_bit(y, 2),
            u32_bit(x, 3) == u32_bit(y, 3),
            u32_bit(x, 4) == u32_bit(y, 4),
            u32_bit(x, 5) == u32_bit(y, 5),
            u32_bit(x, 6) == u32_bit(y, 6),
            u32_bit(x, 7) == u32_bit(y, 7),
            u32_bit(x, 8) == u32_bit(y, 8),
            u32_bit(x, 9) == u32_bit(y, 9),
            u32_bit(x, 10) == u32_bit(y, 10),
            u32_bit(x, 11) == u32_bit(y, 11),
            u32_bit(x, 12) == u32_bit(y, 12),
            u32_bit(x, 13) == u32_bit(y, 13),
            u32_bit(x, 14) == u32_bit(y, 14),
            u32_bit(x, 15) == u32_bit(y, 15),
            u32_bit(x, 16) == u32_bit(y, 16),
            u32_bit(x, 17) == u32_bit(y, 17),
            u32_bit(x, 18) == u32_bit(y, 18),
            u32_bit(x, 19) == u32_bit(y, 19),
            u32_bit(x, 20) == u32_bit(y, 20),
            u32_bit(x, 21) == u32_bit(y, 21),
            u32_bit(x, 22) == u32_bit(y, 22),
            u32_bit(x, 23) == u32_bit(y, 23),
            u32_bit(x, 24) == u32_bit(y, 24),
            u32_bit(x, 25) == u32_bit(y, 25),
            u32_bit(x, 26) == u32_bit(y, 26),
            u32_bit(x, 27) == u32_bit(y, 27),
            u32_bit(x, 28) == u32_bit(y, 28),
            u32_bit(x, 29) == u32_bit(y, 29),
            u32_bit(x, 30) == u32_bit(y, 30),
            u32_bit(x, 31) == u32_bit(y, 31),
    ;
}

/// Two bytes that agree on every bit are equal.
pub proof fn lemma_u8_bit_ext(x: u8, y: u8)
    requires
        forall|b: u8| b < 8 ==> u8_bit(x, b) == u8_bit(y, b),
    ensures
        x == y,
{
    assert(x == y) by (bit_vector)
        requires
            u8_bit(x, 0) == u8_bit(y, 0),
            u8_bit(x, 1) == u8_bit(y, 1),
            u8_bit(x, 2) == u8_bit(y, 2),
            u8_bit(x, 3) == u8_bit(y, 3),
            u8_bit(x, 4) == u8_bit(y, 4),
            u8_bit(x, 5) == u8_bit(y, 5),
            u8_bit(x, 6) == u8_bit(y, 6),
            u8_bit(x, 7) == u8_bit(y, 7),
    ;
}

/// The zero word has no bit set.
pub proof fn lemma_u32_zero_bits()
    by (bit_vector)
    ensures
        forall|b: u32| !u32_bit(0u32, b),
{
}

/// The zero byte has no bit set.
pub proof fn lemma_u8_zero_bits()
    by (bit_vector)
    ensures
        forall|b: u8| !u8_bit(0u8, b),
{
}

/// The all-ones byte has every bit set.
pub proof fn lemma_u8_ones_bits()
    by (bit_vector)
    ensures
        forall|b: u8| b < 8 ==> u8_bit(0xFFu8, b),
{
}

/// Complementing a byte flips each of its bits.
pub proof fn lemma_u8_not(x: u8)
    by (bit_vector)
    ensures
        forall|b: u8| b < 8 ==> u8_bit(!x, b) == !u8_bit(x, b),
{
}

/// Or-ing a shifted byte into a word sets exactly that byte's bits, and
/// leaves every bit outside the byte's lane unchanged.
pub proof fn lemma_or_shifted_byte(w: u32, m: u8, s: u32)
    by (bit_vector)
    requires
        s < 32,
        s % 8 == 0,
    ensures
        forall|b: u32|
            b < 32 && s <= b < s + 8 ==> #[trigger] u32_bit(w | ((m as u32) << s), b) == (u32_bit(
                w,
                b,
            ) || u8_bit(m, (b - s) as u8)),
        forall|b: u32|
            b < 32 && !(s <= b < s + 8) ==> #[trigger] u32_bit(w | ((m as u32) << s), b) == u32_bit(
                w,
                b,
            ),
{
}

} // verus!
