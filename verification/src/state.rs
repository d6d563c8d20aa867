//! The key-state aggregator: folds the set of currently pressed HID key
//! codes, plus the synthesized modifier pseudo-keys, into the four 32-bit
//! column-state words.
//!
//! Each of the sixteen physical output columns owns one byte lane: column
//! `c` is byte lane `c % 4` of word `c / 4`.  A pressed key contributes its
//! row mask, or-ed into its column's lane.  The words are computed afresh
//! on every report, so a released key simply stops appearing: the new
//! snapshot replaces the old one and carries no residue from it.

use vstd::prelude::*;

verus! {

use crate::bits::{
    u32_bit,
    u8_bit,
    lemma_or_shifted_byte,
    lemma_u32_bit_ext,
    lemma_u32_zero_bits,
    lemma_u8_zero_bits,
};
use crate::keys::{inv_wf, KEY_LEFTCTRL, KEY_LEFTSHIFT};

/// The four column-state words: one byte lane per physical output column,
/// sixteen lanes in all, each holding the or of the row masks of the
/// pressed keys mapped to that column.
#[derive(Clone, Copy, PartialEq, Eq, Structural, Debug)]
pub struct ColumnWords {
    pub w0: u32,
    pub w1: u32,
    pub w2: u32,
    pub w3: u32,
}

/// The modifier status of a HID report, as boolean flags.
#[derive(Clone, Copy, PartialEq, Eq, Structural, Debug)]
pub struct Modifiers {
    pub left_shift: bool,
    pub right_shift: bool,
    pub left_ctrl: bool,
    pub right_ctrl: bool,
}

impl ColumnWords {
    /// Word `j` of the four.
    pub open spec fn spec_word(self, j: int) -> u32 {
        if j == 0 {
            self.w0
        } else if j == 1 {
            self.w1
        } else if j == 2 {
            self.w2
        } else {
            self.w3
        }
    }
}

/// Row bit `line` of output column `col` within the column-state words:
/// bit `line` of byte lane `col % 4` of word `col / 4`.
pub open spec fn cw_bit(cw: ColumnWords, col: int, line: int) -> bool {
    u32_bit(cw.spec_word(col / 4), ((col % 4) * 8 + line) as u32)
}

/// What `key_set` does: the key's row mask appears in its column's lane,
/// and every other bit is unchanged.
pub open spec fn key_set_post(
    inv: Seq<(u8, u8)>,
    key: u8,
    before: ColumnWords,
    after: ColumnWords,
) -> bool {
    forall|col: int, line: int|
        0 <= col < 16 && 0 <= line < 8 ==> (#[trigger] cw_bit(after, col, line) <==> (cw_bit(
            before,
            col,
            line,
        ) || (inv[key as int].0 == col && u8_bit(inv[key as int].1, line as u8))))
}

/// Looks `key` up in the inverse keymap and ors its row mask into the byte
/// lane of its output column.  An unmapped key carries the inert coordinate
/// (0, 0): its zero row mask sets no bit.
pub fn key_set(key: u8, inv: &Vec<(u8, u8)>, words: &mut ColumnWords)
    requires
        inv_wf(inv@),
    ensures
        key_set_post(inv@, key, *old(words), *final(words)),
{
    let (col, row_bits) = inv[key as usize];
    let j: u8 = col / 4;
    let s: u32 = 8 * ((col % 4) as u32);
    let m: u32 = (row_bits as u32) << s;
    if j == 0 {
        words.w0 = words.w0 | m;
    } else if j == 1 {
        words.w1 = words.w1 | m;
    } else if j == 2 {
        words.w2 = words.w2 | m;
    } else {
        words.w3 = words.w3 | m;
    }
    proof {
        let iv = inv@[key as int];
        let jj = iv.0 as int / 4;
        lemma_or_shifted_byte(old(words).spec_word(jj), iv.1, s);
        assert forall|col2: int, line: int| 0 <= col2 < 16 && 0 <= line < 8 implies (
        #[trigger] cw_bit(*words, col2, line) <==> (cw_bit(*old(words), col2, line) || (
        iv.0 == col2 && u8_bit(iv.1, line as u8)))) by {
            let b = ((col2 % 4) * 8 + line) as u32;
            if col2 / 4 == jj {
                assert(words.spec_word(col2 / 4) == old(words).spec_word(jj) | ((iv.1 as u32)
                    << s));
                if col2 == iv.0 as int {
                    assert(s <= b < s + 8 && b - s == line);
                } else {
                    assert(col2 % 4 != iv.0 as int % 4);
                    assert(!(s <= b < s + 8));
                }
            } else {
                assert(words.spec_word(col2 / 4) == old(words).spec_word(col2 / 4));
                assert(iv.0 != col2);
            }
        }
    }
}

/// Some key among the first `n` of `pressed` is mapped to output column
/// `col` with row bit `line` set.
pub open spec fn prefix_hit(
    inv: Seq<(u8, u8)>,
    pressed: Seq<u8>,
    n: int,
    col: int,
    line: int,
) -> bool {
    exists|i: int|
        0 <= i < n && (#[trigger] inv[pressed[i] as int]).0 == col && u8_bit(
            inv[pressed[i] as int].1,
            line as u8,
        )
}

/// `k` counts as held for this report: either it is in the pressed-key
/// set, or it is the pseudo-key synthesized from a modifier flag (either
/// shift variant yields left shift, either control variant left control).
pub open spec fn effective_key(pressed: Seq<u8>, m: Modifiers, k: u8) -> bool {
    ||| pressed.contains(k)
    ||| ((m.left_shift || m.right_shift) && k == KEY_LEFTSHIFT)
    ||| ((m.left_ctrl || m.right_ctrl) && k == KEY_LEFTCTRL)
}

/// What `apply` computes: a bit of the column-state words is set exactly
/// when some effectively held key is mapped to that column with that row
/// bit.
pub open spec fn apply_post(
    inv: Seq<(u8, u8)>,
    pressed: Seq<u8>,
    m: Modifiers,
    cw: ColumnWords,
) -> bool {
    forall|col: int, line: int|
        0 <= col < 16 && 0 <= line < 8 ==> (#[trigger] cw_bit(cw, col, line) <==> exists|k: u8|
            effective_key(pressed, m, k) && (#[trigger] inv[k as int]).0 == col && u8_bit(
                inv[k as int].1,
                line as u8,
            ))
}

/// Computes a fresh snapshot of the four column-state words from the
/// complete set of currently pressed keys and the modifier flags.  The
/// result depends on nothing but these arguments; publishing it replaces
/// the previous snapshot in full.
pub fn apply(inv: &Vec<(u8, u8)>, pressed: &Vec<u8>, mods: Modifiers) -> (cw: ColumnWords)
    requires
        inv_wf(inv@),
    ensures
        apply_post(inv@, pressed@, mods, cw),
{
    let mut cw = ColumnWords { w0: 0, w1: 0, w2: 0, w3: 0 };
    proof {
        lemma_u32_zero_bits();
    }
    let mut i: usize = 0;
    while i < pressed.len()
        invariant
            inv_wf(inv@),
            i <= pressed.len(),
            forall|col: int, line: int|
                0 <= col < 16 && 0 <= line < 8 ==> (#[trigger] cw_bit(cw, col, line)
                    <==> prefix_hit(inv@, pressed@, i as int, col, line)),
        decreases pressed.len() - i,
    {
        let key = pressed[i];
        key_set(key, inv, &mut cw);
        proof {
            assert forall|col: int, line: int| 0 <= col < 16 && 0 <= line < 8 implies (
            #[trigger] cw_bit(cw, col, line) <==> prefix_hit(
                inv@,
                pressed@,
                i + 1,
                col,
                line,
            )) by {
                if cw_bit(cw, col, line) {
                    if prefix_hit(inv@, pressed@, i as int, col, line) {
                        let idx = choose|idx: int|
                            0 <= idx < i && (#[trigger] inv@[pressed@[idx] as int]).0 == col
                                && u8_bit(inv@[pressed@[idx] as int].1, line as u8);
                        assert(0 <= idx < i + 1 && inv@[pressed@[idx] as int].0 == col && u8_bit(
                            inv@[pressed@[idx] as int].1,
                            line as u8,
                        ));
                    } else {
                        assert(inv@[pressed@[i as int] as int].0 == col && u8_bit(
                            inv@[pressed@[i as int] as int].1,
                            line as u8,
                        ));
                    }
                }
                if prefix_hit(inv@, pressed@, i + 1, col, line) {
                    let idx = choose|idx: int|
                        0 <= idx < i + 1 && (#[trigger] inv@[pressed@[idx] as int]).0 == col
                            && u8_bit(inv@[pressed@[idx] as int].1, line as u8);
                    if idx < i {
                        assert(prefix_hit(inv@, pressed@, i as int, col, line));
                    }
                    assert(cw_bit(cw, col, line));
                }
            }
        }
        i += 1;
    }
    let ghost cw1 = cw;
    if mods.left_shift || mods.right_shift {
        key_set(KEY_LEFTSHIFT, inv, &mut cw);
    }
    let ghost cw2 = cw;
    if mods.left_ctrl || mods.right_ctrl {
        key_set(KEY_LEFTCTRL, inv, &mut cw);
    }
    proof {
        let n = pressed@.len() as int;
        let shift_on = mods.left_shift || mods.right_shift;
        let ctrl_on = mods.left_ctrl || mods.right_ctrl;
        assert forall|col: int, line: int| 0 <= col < 16 && 0 <= line < 8 implies (
        #[trigger] cw_bit(cw, col, line) <==> exists|k: u8|
            effective_key(pressed@, mods, k) && (#[trigger] inv@[k as int]).0 == col && u8_bit(
                inv@[k as int].1,
                line as u8,
            )) by {
            // bits after the two modifier writes
            assert(cw_bit(cw2, col, line) <==> (cw_bit(cw1, col, line) || (shift_on && inv@[
                KEY_LEFTSHIFT as int].0 == col && u8_bit(inv@[KEY_LEFTSHIFT as int].1,
                line as u8,
            ))));
            assert(cw_bit(cw, col, line) <==> (cw_bit(cw2, col, line) || (ctrl_on && inv@[
                KEY_LEFTCTRL as int].0 == col && u8_bit(inv@[KEY_LEFTCTRL as int].1,
                line as u8,
            ))));
            if cw_bit(cw, col, line) {
                if prefix_hit(inv@, pressed@, n, col, line) {
                    let idx = choose|idx: int|
                        0 <= idx < n && (#[trigger] inv@[pressed@[idx] as int]).0 == col && u8_bit(
                            inv@[pressed@[idx] as int].1,
                            line as u8,
                        );
                    let k = pressed@[idx];
                    assert(pressed@.contains(k));
                    assert(effective_key(pressed@, mods, k) && inv@[k as int].0 == col && u8_bit(
                        inv@[k as int].1,
                        line as u8,
                    ));
                } else if cw_bit(cw1, col, line) {
                    assert(false);
                } else if shift_on && inv@[KEY_LEFTSHIFT as int].0 == col && u8_bit(
                    inv@[KEY_LEFTSHIFT as int].1,
                    line as u8,
                ) {
                    assert(effective_key(pressed@, mods, KEY_LEFTSHIFT));
                } else {
                    assert(effective_key(pressed@, mods, KEY_LEFTCTRL));
                }
            }
            if exists|k: u8|
                effective_key(pressed@, mods, k) && (#[trigger] inv@[k as int]).0 == col && u8_bit(
                    inv@[k as int].1,
                    line as u8,
                ) {
                let k = choose|k: u8|
                    effective_key(pressed@, mods, k) && (#[trigger] inv@[k as int]).0 == col
                        && u8_bit(inv@[k as int].1, line as u8);
                if pressed@.contains(k) {
                    let idx = choose|idx: int| 0 <= idx < n && pressed@[idx] == k;
                    assert(0 <= idx < n && inv@[pressed@[idx] as int].0 == col && u8_bit(
                        inv@[pressed@[idx] as int].1,
                        line as u8,
                    ));
                    assert(prefix_hit(inv@, pressed@, n, col, line));
                    assert(cw_bit(cw1, col, line));
                }
                assert(cw_bit(cw, col, line));
            }
        }
    }
    cw
}


/// Column-state words that agree on every column's every row bit are
/// bit-identical.
proof fn lemma_cw_bits_equal(cw1: ColumnWords, cw2: ColumnWords)
    requires
        forall|col: int, line: int|
            0 <= col < 16 && 0 <= line < 8 ==> (#[trigger] cw_bit(cw1, col, line) == cw_bit(
                cw2,
                col,
                line,
            )),
    ensures
        cw1 == cw2,
{
    assert forall|j: int| 0 <= j < 4 implies cw1.spec_word(j) == cw2.spec_word(j) by {
        assert forall|b: u32| b < 32 implies u32_bit(cw1.spec_word(j), b) == u32_bit(
            cw2.spec_word(j),
            b,
        ) by {
            let col = 4 * j + b as int / 8;
            let line = b as int % 8;
            assert(0 <= col < 16 && 0 <= line < 8);
            assert(col / 4 == j && (col % 4) * 8 + line == b as int) by (nonlinear_arith)
                requires
                    0 <= j < 4,
                    b < 32,
                    col == 4 * j + b as int / 8,
                    line == b as int % 8,
            ;
            assert(cw_bit(cw1, col, line) == cw_bit(cw2, col, line));
            assert(((col % 4) * 8 + line) as u32 == b);
        }
        lemma_u32_bit_ext(cw1.spec_word(j), cw2.spec_word(j));
    }
    assert(cw1.spec_word(0) == cw2.spec_word(0) && cw1.spec_word(1) == cw2.spec_word(1)
        && cw1.spec_word(2) == cw2.spec_word(2) && cw1.spec_word(3) == cw2.spec_word(3));
}

/// Idempotence: two applications of the same pressed-key set and modifier
/// flags yield bit-identical column-state words.
pub proof fn lemma_apply_idempotent(
    inv: Seq<(u8, u8)>,
    pressed: Seq<u8>,
    m: Modifiers,
    cw1: ColumnWords,
    cw2: ColumnWords,
)
    requires
        apply_post(inv, pressed, m, cw1),
        apply_post(inv, pressed, m, cw2),
    ensures
        cw1 == cw2,
{
    lemma_cw_bits_equal(cw1, cw2);
}

/// Replacement, not merge: whatever snapshot stood before, a new
/// application yields exactly the words of its own pressed-key set — the
/// same words as an application that never saw the earlier set.
pub proof fn lemma_apply_replaces(
    inv: Seq<(u8, u8)>,
    first: Seq<u8>,
    m1: Modifiers,
    cw1: ColumnWords,
    second: Seq<u8>,
    m2: Modifiers,
    cw2: ColumnWords,
    alone: ColumnWords,
)
    requires
        apply_post(inv, first, m1, cw1),
        apply_post(inv, second, m2, cw2),
        apply_post(inv, second, m2, alone),
    ensures
        cw2 == alone,
{
    lemma_cw_bits_equal(cw2, alone);
}

/// A key at the inert coordinate (0, 0) — every unmapped key — leaves the
/// column-state words untouched: its zero row mask has no bit to
/// contribute under any column.
pub proof fn lemma_unmapped_key_inert(
    inv: Seq<(u8, u8)>,
    key: u8,
    before: ColumnWords,
    after: ColumnWords,
)
    requires
        0 <= (key as int) < inv.len(),
        inv[key as int] == (0u8, 0u8),
        key_set_post(inv, key, before, after),
    ensures
        after == before,
{
    lemma_u8_zero_bits();
    lemma_cw_bits_equal(after, before);
}

/// An empty pressed-key set with no modifier held yields the all-zero
/// column-state words.
pub proof fn lemma_apply_empty(
    inv: Seq<(u8, u8)>,
    pressed: Seq<u8>,
    m: Modifiers,
    cw: ColumnWords,
)
    requires
        pressed.len() == 0,
        !m.left_shift && !m.right_shift && !m.left_ctrl && !m.right_ctrl,
        apply_post(inv, pressed, m, cw),
    ensures
        cw == (ColumnWords { w0: 0u32, w1: 0u32, w2: 0u32, w3: 0u32 }),
{
    lemma_u32_zero_bits();
    let zero = ColumnWords { w0: 0u32, w1: 0u32, w2: 0u32, w3: 0u32 };
    assert forall|col: int, line: int| 0 <= col < 16 && 0 <= line < 8 implies (
    #[trigger] cw_bit(cw, col, line) == cw_bit(zero, col, line)) by {
        assert(!cw_bit(zero, col, line));
        if cw_bit(cw, col, line) {
            let k = choose|k: u8|
                effective_key(pressed, m, k) && (#[trigger] inv[k as int]).0 == col && u8_bit(
                    inv[k as int].1,
                    line as u8,
                );
            assert(pressed.contains(k));
            assert(false);
        }
    }
    lemma_cw_bits_equal(cw, zero);
}

} // verus!
