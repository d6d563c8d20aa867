//! The matrix scan responder: one iteration of the answer the adapter
//! gives to the host's column scan.
//!
//! The host drives column-select lines low; the raw input word is inverted,
//! so a set bit of `cols_in` means "this column is being scanned".  Each
//! 4-bit slice of the select pattern is widened through the expansion
//! lookup into a 32-bit mask whose byte lanes are 0xFF exactly for the
//! selected columns of that slice's word.  Masking the column-state words
//! and or-ing everything down to one byte yields, per row output line, "a
//! pressed key sits on a scanned column"; the byte is complemented for the
//! active-low output convention.

use vstd::prelude::*;

verus! {

use crate::bits::{
    lane,
    u16_bit,
    u32_bit,
    u8_bit,
    lemma_u8_not,
    lemma_u8_ones_bits,
    lemma_u32_zero_bits,
};
use crate::state::{cw_bit, ColumnWords};
use crate::PINS_OUT_SHIFT;

/// The expansion lookup table as a function: each set bit of the 4-bit
/// input selects the corresponding byte lane of the result, 0xFF per
/// selected lane.
pub open spec fn expand_spec(n: u8) -> u32 {
    if n == 0 {
        0x0000_0000u32
    } else if n == 1 {
        0x0000_00FFu32
    } else if n == 2 {
        0x0000_FF00u32
    } else if n == 3 {
        0x0000_FFFFu32
    } else if n == 4 {
        0x00FF_0000u32
    } else if n == 5 {
        0x00FF_00FFu32
    } else if n == 6 {
        0x00FF_FF00u32
    } else if n == 7 {
        0x00FF_FFFFu32
    } else if n == 8 {
        0xFF00_0000u32
    } else if n == 9 {
        0xFF00_00FFu32
    } else if n == 10 {
        0xFF00_FF00u32
    } else if n == 11 {
        0xFF00_FFFFu32
    } else if n == 12 {
        0xFFFF_0000u32
    } else if n == 13 {
        0xFFFF_00FFu32
    } else if n == 14 {
        0xFFFF_FF00u32
    } else {
        0xFFFF_FFFFu32
    }
}

/// Expansion table correctness: byte lane `i` of the expansion of a 4-bit
/// input is 0xFF exactly when bit `i` of the input is set, and 0x00
/// otherwise.
pub proof fn lemma_expand_lanes(n: u8)
    by (bit_vector)
    requires
        n < 16,
    ensures
        forall|i: u8|
            i < 4 ==> #[trigger] lane(expand_spec(n), i as int) == (if u8_bit(n, i) {
                0xFFu8
            } else {
                0u8
            }),
{
}

/// Masking a word with an expansion: bit `t` of lane `l` survives exactly
/// when it was set and lane `l`'s column is selected in the 4-bit input.
pub proof fn lemma_masked_word_bits(w: u32, n: u8)
    by (bit_vector)
    requires
        n < 16,
    ensures
        forall|l: u32, t: u32|
            l < 4 && t < 8 ==> (#[trigger] u32_bit(w & expand_spec(n), (8 * l + t) as u32)
                == (u32_bit(w, (8 * l + t) as u32) && u8_bit(n, l as u8))),
{
}

/// A bit of an or of four words is the or of the four bits.
pub proof fn lemma_or4_bits(x0: u32, x1: u32, x2: u32, x3: u32)
    by (bit_vector)
    ensures
        forall|b: u32|
            b < 32 ==> (#[trigger] u32_bit(x0 | x1 | x2 | x3, b) == (u32_bit(x0, b) || u32_bit(
                x1,
                b,
            ) || u32_bit(x2, b) || u32_bit(x3, b))),
{
}

/// Or-ing the four bytes of a word: bit `t` of the result is set exactly
/// when bit `t` of some byte lane is.
pub proof fn lemma_fold_lanes(a: u32)
    by (bit_vector)
    ensures
        forall|t: u8|
            t < 8 ==> (#[trigger] u8_bit(
                (a as u8) | ((a >> 8) as u8) | ((a >> 16) as u8) | ((a >> 24) as u8),
                t,
            ) == (u32_bit(a, t as u32) || u32_bit(a, (t + 8) as u32) || u32_bit(a, (t + 16) as u32)
                || u32_bit(a, (t + 24) as u32))),
{
}

/// Bit `l` of 4-bit slice `s`.. of a 16-bit word is bit `s + l` of the word.
pub proof fn lemma_nibble_bits(c: u16, s: u16)
    by (bit_vector)
    requires
        s <= 12,
    ensures
        forall|l: u16|
            l < 4 ==> (#[trigger] u8_bit(((c >> s) & 0xF) as u8, l as u8) == u16_bit(
                c,
                (s + l) as u16,
            )),
        (((c >> s) & 0xF) as u8) < 16,
{
}

/// The expansion lookup, as data: sixteen entries, one per 4-bit select
/// pattern, each set input bit widened to a full 0xFF byte lane.
pub fn expand(nibble: u8) -> (r: u32)
    requires
        nibble < 16,
    ensures
        r == expand_spec(nibble),
{
    match nibble {
        0 => 0x0000_0000,
        1 => 0x0000_00FF,
        2 => 0x0000_FF00,
        3 => 0x0000_FFFF,
        4 => 0x00FF_0000,
        5 => 0x00FF_00FF,
        6 => 0x00FF_FF00,
        7 => 0x00FF_FFFF,
        8 => 0xFF00_0000,
        9 => 0xFF00_00FF,
        10 => 0xFF00_FF00,
        11 => 0xFF00_FFFF,
        12 => 0xFFFF_0000,
        13 => 0xFFFF_00FF,
        14 => 0xFFFF_FF00,
        _ => 0xFFFF_FFFF,
    }
}

/// What `respond` answers: row output bit `line` is clear (active low)
/// exactly when some currently scanned column has a pressed key on row
/// `line`.
pub open spec fn respond_post(cols_in: u16, cw: ColumnWords, out: u8) -> bool {
    forall|line: int|
        0 <= line < 8 ==> (#[trigger] u8_bit(out, line as u8) <==> !(exists|col: int|
            0 <= col < 16 && u16_bit(cols_in, col as u16) && cw_bit(cw, col, line)))
}

/// One scan answer: given the (already inverted) column-select pattern and
/// a snapshot of the column-state words, the active-low byte for the row
/// output lines.  Row bit `line` is driven low exactly when a pressed key
/// sits on row `line` of a scanned column.
pub fn respond(cols_in: u16, words: ColumnWords) -> (out: u8)
    ensures
        respond_post(cols_in, words, out),
{
    let n0 = (cols_in & 0xF) as u8;
    let n1 = ((cols_in >> 4) & 0xF) as u8;
    let n2 = ((cols_in >> 8) & 0xF) as u8;
    let n3 = ((cols_in >> 12) & 0xF) as u8;
    proof {
        assert(cols_in & 0xF == (cols_in >> 0) & 0xF) by (bit_vector);
        lemma_nibble_bits(cols_in, 0);
        lemma_nibble_bits(cols_in, 4);
        lemma_nibble_bits(cols_in, 8);
        lemma_nibble_bits(cols_in, 12);
    }
    let m0 = expand(n0);
    let m1 = expand(n1);
    let m2 = expand(n2);
    let m3 = expand(n3);
    let a0 = words.w0 & m0;
    let a1 = words.w1 & m1;
    let a2 = words.w2 & m2;
    let a3 = words.w3 & m3;
    let acc = a0 | a1 | a2 | a3;
    let b0 = acc as u8;
    let b1 = (acc >> 8) as u8;
    let b2 = (acc >> 16) as u8;
    let b3 = (acc >> 24) as u8;
    let folded = b0 | b1 | b2 | b3;
    let out = !folded;
    proof {
        lemma_masked_word_bits(words.w0, n0);
        lemma_masked_word_bits(words.w1, n1);
        lemma_masked_word_bits(words.w2, n2);
        lemma_masked_word_bits(words.w3, n3);
        lemma_or4_bits(a0, a1, a2, a3);
        lemma_fold_lanes(acc);
        lemma_u8_not(folded);
        assert forall|line: int| 0 <= line < 8 implies (#[trigger] u8_bit(out, line as u8) <==> !(
        exists|col: int|
            0 <= col < 16 && u16_bit(cols_in, col as u16) && cw_bit(words, col, line))) by {
            let t = line as u8;
            assert(u8_bit(out, t) == !u8_bit(folded, t));
            if exists|col: int|
                0 <= col < 16 && u16_bit(cols_in, col as u16) && cw_bit(words, col, line) {
                let col = choose|col: int|
                    0 <= col < 16 && u16_bit(cols_in, col as u16) && cw_bit(words, col, line);
                let j = col / 4;
                let l = col % 4;
                let b = ((col % 4) * 8 + line) as u32;
                assert(b == 8 * (l as u32) + (t as u32));
                if j == 0 {
                    assert(u8_bit(n0, l as u8) == u16_bit(cols_in, (0 + col % 4) as u16));
                    assert(u32_bit(words.w0, b) && u8_bit(n0, l as u8));
                    assert(u32_bit(a0, b));
                } else if j == 1 {
                    assert(u8_bit(n1, l as u8) == u16_bit(cols_in, (4 + col % 4) as u16));
                    assert(u32_bit(words.w1, b) && u8_bit(n1, l as u8));
                    assert(u32_bit(a1, b));
                } else if j == 2 {
                    assert(u8_bit(n2, l as u8) == u16_bit(cols_in, (8 + col % 4) as u16));
                    assert(u32_bit(words.w2, b) && u8_bit(n2, l as u8));
                    assert(u32_bit(a2, b));
                } else {
                    assert(j == 3);
                    assert(u8_bit(n3, l as u8) == u16_bit(cols_in, (12 + col % 4) as u16));
                    assert(u32_bit(words.w3, b) && u8_bit(n3, l as u8));
                    assert(u32_bit(a3, b));
                }
                assert(u32_bit(acc, b));
                assert(u8_bit(folded, t));
            }
            if u8_bit(folded, t) {
                assert(u32_bit(acc, t as u32) || u32_bit(acc, (t + 8) as u32) || u32_bit(
                    acc,
                    (t + 16) as u32,
                ) || u32_bit(acc, (t + 24) as u32));
                let l: u32 = if u32_bit(acc, t as u32) {
                    0
                } else if u32_bit(acc, (t + 8) as u32) {
                    1
                } else if u32_bit(acc, (t + 16) as u32) {
                    2
                } else {
                    3
                };
                let b: u32 = (8 * l + (t as u32)) as u32;
                assert(u32_bit(acc, b));
                let j: u32 = if u32_bit(a0, b) {
                    0
                } else if u32_bit(a1, b) {
                    1
                } else if u32_bit(a2, b) {
                    2
                } else {
                    3
                };
                let col = 4 * (j as int) + (l as int);
                assert(0 <= col < 16);
                assert(col / 4 == j as int && col % 4 == l as int);
                if j == 0 {
                    assert(u32_bit(words.w0, b) && u8_bit(n0, l as u8));
                    assert(u16_bit(cols_in, (0 + l) as u16));
                } else if j == 1 {
                    assert(u32_bit(words.w1, b) && u8_bit(n1, l as u8));
                    assert(u16_bit(cols_in, (4 + l) as u16));
                } else if j == 2 {
                    assert(u32_bit(words.w2, b) && u8_bit(n2, l as u8));
                    assert(u16_bit(cols_in, (8 + l) as u16));
                } else {
                    assert(u32_bit(a3, b));
                    assert(u32_bit(words.w3, b) && u8_bit(n3, l as u8));
                    assert(u16_bit(cols_in, (12 + l) as u16));
                }
                assert(u16_bit(cols_in, col as u16));
                assert(cw_bit(words, col, line));
            }
        }
    }
    out
}


/// Relates the raw level of a select line to the decoded pattern: the
/// active-low input is complemented and truncated to the sixteen lines.
pub proof fn lemma_select_decode(r: u32)
    by (bit_vector)
    ensures
        forall|c: u16| c < 16 ==> (#[trigger] u16_bit(!r as u16, c) == !u32_bit(r, c as u32)),
{
}

/// Placing the answer byte at the output lines of the port word: bits
/// below and above the byte's window stay clear.
pub proof fn lemma_port_bits(o: u8, s: u8)
    by (bit_vector)
    requires
        s == 16,
    ensures
        forall|t: u32|
            t < 8 ==> (#[trigger] u32_bit((o as u32) << s, (16 + t) as u32) == u8_bit(o, t as u8)),
        forall|b: u32| b < 16 ==> !(#[trigger] u32_bit((o as u32) << s, b)),
        forall|b: u32| 24 <= b < 32 ==> !(#[trigger] u32_bit((o as u32) << s, b)),
{
}

/// One full scan iteration on a port snapshot: decodes the active-low
/// column-select lines from the raw input word, computes the scan answer,
/// and places the active-low row byte at the output lines of the port
/// word.  Output bit `16 + line` is low exactly when a pressed key sits on
/// row `line` of a column whose select line reads low; all other port bits
/// are clear.
pub fn scan_response(raw_in: u32, words: ColumnWords) -> (port: u32)
    ensures
        forall|line: int|
            0 <= line < 8 ==> (#[trigger] u32_bit(port, (16 + line) as u32) <==> !(exists|col: int|
                0 <= col < 16 && !u32_bit(raw_in, col as u32) && cw_bit(words, col, line))),
        forall|b: u32| b < 16 ==> !(#[trigger] u32_bit(port, b)),
        forall|b: u32| 24 <= b < 32 ==> !(#[trigger] u32_bit(port, b)),
{
    let cols_in: u16 = !raw_in as u16;
    let out = respond(cols_in, words);
    let port = (out as u32) << PINS_OUT_SHIFT;
    proof {
        lemma_select_decode(raw_in);
        lemma_port_bits(out, PINS_OUT_SHIFT);
        assert forall|line: int| 0 <= line < 8 implies (#[trigger] u32_bit(
            port,
            (16 + line) as u32,
        ) <==> !(exists|col: int|
            0 <= col < 16 && !u32_bit(raw_in, col as u32) && cw_bit(words, col, line))) by {
            assert(u32_bit(port, (16 + line) as u32) == u8_bit(out, line as u8));
            if exists|col: int|
                0 <= col < 16 && u16_bit(cols_in, col as u16) && cw_bit(words, col, line) {
                let col = choose|col: int|
                    0 <= col < 16 && u16_bit(cols_in, col as u16) && cw_bit(words, col, line);
                assert(!u32_bit(raw_in, col as u32) && cw_bit(words, col, line));
            }
            if exists|col: int|
                0 <= col < 16 && !u32_bit(raw_in, col as u32) && cw_bit(words, col, line) {
                let col = choose|col: int|
                    0 <= col < 16 && !u32_bit(raw_in, col as u32) && cw_bit(words, col, line);
                assert(u16_bit(cols_in, col as u16) && cw_bit(words, col, line));
            }
        }
    }
    port
}

/// With no key pressed anywhere — all column-state words zero — the scan
/// answer is the idle all-high byte, whatever columns are selected.
pub proof fn lemma_idle_response(cols_in: u16, out: u8)
    requires
        respond_post(cols_in, ColumnWords { w0: 0u32, w1: 0u32, w2: 0u32, w3: 0u32 }, out),
    ensures
        out == 0xFF,
{
    lemma_u32_zero_bits();
    lemma_u8_ones_bits();
    let zero = ColumnWords { w0: 0u32, w1: 0u32, w2: 0u32, w3: 0u32 };
    assert forall|b: u8| b < 8 implies u8_bit(out, b) == u8_bit(0xFFu8, b) by {
        let line = b as int;
        assert((line as u8) == b);
        if exists|col: int| 0 <= col < 16 && u16_bit(cols_in, col as u16) && cw_bit(zero, col, line) {
            let col = choose|col: int|
                0 <= col < 16 && u16_bit(cols_in, col as u16) && cw_bit(zero, col, line);
            assert(!u32_bit(zero.spec_word(col / 4), ((col % 4) * 8 + line) as u32));
            assert(false);
        }
        assert(u8_bit(out, b));
    }
    crate::bits::lemma_u8_bit_ext(out, 0xFF);
}


} // verus!
