//! The fixed keymap table and the inverse keymap derived from it.
//!
//! The keymap table is a small grid, one row per row output line and one
//! column per column-select input line, whose cells hold USB HID key codes
//! (0 for an unwired position).  The inverse keymap is a 256-entry table
//! from HID key code to matrix coordinate: the physical output-column index
//! (the two 8-wide column halves are swapped for trace layout) and a
//! single-bit row mask.  Key codes that the table does not mention resolve
//! to the inert coordinate (0, 0), whose zero row mask guarantees that
//! applying it changes nothing.

use vstd::prelude::*;

verus! {

/// The physical output column wired to table column `c`: the two 8-wide
/// halves of the sixteen columns are swapped.
pub open spec fn swap_col(c: int) -> int {
    if c <= 7 {
        c + 8
    } else {
        c - 8
    }
}

/// The single-bit row mask of row `r`.
pub open spec fn row_mask(r: int) -> u8 {
    1u8 << (r as u8)
}

/// A well-formed keymap table: at most eight rows, so that every row index
/// has a distinct single-bit mask within the 8-bit row-select width, and
/// exactly sixteen cells per row, one per column-select line.
pub open spec fn km_wf(km: Seq<Seq<u8>>) -> bool {
    &&& km.len() <= 8
    &&& forall|r: int| 0 <= r < km.len() ==> (#[trigger] km[r]).len() == 16
}

/// Cell (`r`, `c`) of the table holds the key code `k`.
pub open spec fn entry_at(km: Seq<Seq<u8>>, k: u8, r: int, c: int) -> bool {
    &&& 0 <= r < km.len()
    &&& 0 <= c < 16
    &&& km[r][c] == k
}

/// Position (`r2`, `c2`) comes strictly before position (`r`, `c`) in
/// row-major order.
pub open spec fn before_pos(r2: int, c2: int, r: int, c: int) -> bool {
    r2 < r || (r2 == r && c2 < c)
}

/// The key code `k` has at least one non-zero cell in the table.
pub open spec fn mapped(km: Seq<Seq<u8>>, k: u8) -> bool {
    k != 0 && exists|r: int, c: int| entry_at(km, k, r, c)
}

/// Cell (`r`, `c`) holds `k` and no cell after it in row-major order does;
/// with duplicate cells the construction keeps this last one.
pub open spec fn last_entry_at(km: Seq<Seq<u8>>, k: u8, r: int, c: int) -> bool {
    &&& entry_at(km, k, r, c)
    &&& forall|r2: int, c2: int| #[trigger] entry_at(km, k, r2, c2) ==> !before_pos(r, c, r2, c2)
}

/// `inv` is the inverse keymap of the table `km`: 256 entries, the inert
/// coordinate (0, 0) for every key code without a cell, and for every key
/// code with one the swapped column and the row mask of its last cell.
pub open spec fn inverse_of(km: Seq<Seq<u8>>, inv: Seq<(u8, u8)>) -> bool {
    &&& inv.len() == 256
    &&& forall|k: u8| !mapped(km, k) ==> #[trigger] inv[k as int] == (0u8, 0u8)
    &&& forall|k: u8, r: int, c: int|
        k != 0 && #[trigger] last_entry_at(km, k, r, c) ==> inv[k as int] == (
            swap_col(c) as u8,
            row_mask(r),
        )
}

/// A well-formed inverse keymap: 256 entries, each column index within the
/// sixteen physical columns.
pub open spec fn inv_wf(inv: Seq<(u8, u8)>) -> bool {
    &&& inv.len() == 256
    &&& forall|k: int| 0 <= k < 256 ==> (#[trigger] inv[k]).0 < 16
}

/// Cell (`r2`, `c2`) holds `k` and lies before position (`r`, `c`).
spec fn entry_before(km: Seq<Seq<u8>>, k: u8, r2: int, c2: int, r: int, c: int) -> bool {
    entry_at(km, k, r2, c2) && before_pos(r2, c2, r, c)
}

/// `k` has a cell before position (`r`, `c`).
spec fn mapped_before(km: Seq<Seq<u8>>, k: u8, r: int, c: int) -> bool {
    k != 0 && exists|r2: int, c2: int| entry_before(km, k, r2, c2, r, c)
}

/// Cell (`r2`, `c2`) is the last cell of `k` before position (`r`, `c`).
spec fn last_entry_before(km: Seq<Seq<u8>>, k: u8, r2: int, c2: int, r: int, c: int) -> bool {
    &&& entry_before(km, k, r2, c2, r, c)
    &&& forall|r3: int, c3: int|
        #[trigger] entry_at(km, k, r3, c3) && before_pos(r3, c3, r, c) ==> !before_pos(
            r2,
            c2,
            r3,
            c3,
        )
}

/// `inv` inverts exactly the cells before position (`r`, `c`).
spec fn partial_inverse(km: Seq<Seq<u8>>, inv: Seq<(u8, u8)>, r: int, c: int) -> bool {
    &&& inv.len() == 256
    &&& forall|k: u8| !mapped_before(km, k, r, c) ==> #[trigger] inv[k as int] == (0u8, 0u8)
    &&& forall|k: u8, r2: int, c2: int|
        k != 0 && #[trigger] last_entry_before(km, k, r2, c2, r, c) ==> inv[k as int] == (
            swap_col(c2) as u8,
            row_mask(r2),
        )
}

/// Builds the inverse keymap of `keymap`: every key code starts at the
/// inert coordinate (0, 0); each non-zero cell then writes its key code's
/// coordinate, so with duplicate cells the last one in row-major order
/// wins.  The row bound of `km_wf` keeps every row mask a single bit of the
/// 8-bit row-select width.
pub fn create_inverse_keymap(keymap: &Vec<Vec<u8>>) -> (inv: Vec<(u8, u8)>)
    requires
        km_wf(keymap.deep_view()),
    ensures
        inverse_of(keymap.deep_view(), inv@),
        inv_wf(inv@),
{
    let ghost km = keymap.deep_view();
    let mut inv: Vec<(u8, u8)> = Vec::new();
    let mut i: usize = 0;
    while i < 256
        invariant
            i <= 256,
            inv@.len() == i,
            forall|j: int| 0 <= j < i ==> inv@[j] == (0u8, 0u8),
        decreases 256 - i,
    {
        inv.push((0, 0));
        i += 1;
    }
    assert(partial_inverse(km, inv@, 0, 0));
    let mut row: usize = 0;
    while row < keymap.len()
        invariant
            km == keymap.deep_view(),
            km_wf(km),
            row <= keymap.len(),
            partial_inverse(km, inv@, row as int, 0),
            inv_wf(inv@),
        decreases keymap.len() - row,
    {
        let mut col: usize = 0;
        while col < 16
            invariant
                km == keymap.deep_view(),
                km_wf(km),
                row < keymap.len(),
                col <= 16,
                partial_inverse(km, inv@, row as int, col as int),
                inv_wf(inv@),
            decreases 16 - col,
        {
            proof {
                assert(km[row as int] == keymap@[row as int].deep_view());
                assert(keymap@[row as int]@.len() == km[row as int].len());
            }
            let key = keymap[row][col];
            proof {
                assert(key == km[row as int][col as int]);
            }
            if key != 0 {
                let actual_col: usize = if col <= 7 {
                    col + 8
                } else {
                    col - 8
                };
                let rmask: u8 = 1u8 << (row as u8);
                inv[key as usize] = (actual_col as u8, rmask);
                proof {
                    lemma_step_entry(km, inv@, row as int, col as int, key);
                }
            } else {
                proof {
                    lemma_step_zero(km, inv@, row as int, col as int);
                }
            }
            col += 1;
        }
        proof {
            lemma_row_wrap(km, inv@, row as int);
        }
        row += 1;
    }
    proof {
        lemma_complete(km, inv@, row as int);
    }
    inv
}

/// A processed non-zero cell becomes its key code's last cell so far; every
/// other key code's picture is unchanged.
proof fn lemma_step_entry(km: Seq<Seq<u8>>, inv: Seq<(u8, u8)>, r: int, c: int, k: u8)
    requires
        km_wf(km),
        0 <= r < km.len(),
        0 <= c < 16,
        km[r][c] == k,
        k != 0,
        inv.len() == 256,
        inv[k as int] == (swap_col(c) as u8, row_mask(r)),
        forall|k2: u8| k2 != k && !mapped_before(km, k2, r, c) ==> #[trigger] inv[k2 as int] == (
            0u8,
            0u8,
        ),
        forall|k2: u8, r2: int, c2: int|
            k2 != k && k2 != 0 && #[trigger] last_entry_before(km, k2, r2, c2, r, c) ==> inv[k2 as int] == (swap_col(c2) as u8, row_mask(r2)),
    ensures
        partial_inverse(km, inv, r, c + 1),
{
    assert forall|k2: u8| !mapped_before(km, k2, r, c + 1) implies #[trigger] inv[k2 as int] == (
        0u8,
        0u8,
    ) by {
        if k2 == k {
            assert(entry_before(km, k, r, c, r, c + 1));
            assert(false);
        } else {
            if mapped_before(km, k2, r, c) {
                let (r2, c2): (int, int) = choose|r2: int, c2: int|
                    entry_before(km, k2, r2, c2, r, c);
                assert(entry_before(km, k2, r2, c2, r, c + 1));
            }
        }
    }
    assert forall|k2: u8, r2: int, c2: int|
        k2 != 0 && #[trigger] last_entry_before(km, k2, r2, c2, r, c + 1) implies inv[k2 as int]
        == (swap_col(c2) as u8, row_mask(r2)) by {
        if k2 == k {
            // the cell just written is the last one before (r, c + 1)
            assert(entry_at(km, k, r, c));
            assert(before_pos(r, c, r, c + 1));
            assert(!before_pos(r2, c2, r, c));
            assert(r2 == r && c2 == c);
        } else {
            // (r, c) holds k != k2, so k2's cells before (r, c + 1) are
            // those before (r, c)
            assert(entry_before(km, k2, r2, c2, r, c));
            assert(last_entry_before(km, k2, r2, c2, r, c));
        }
    }
}

/// A processed zero cell maps no key code, so the picture is unchanged.
proof fn lemma_step_zero(km: Seq<Seq<u8>>, inv: Seq<(u8, u8)>, r: int, c: int)
    requires
        km_wf(km),
        0 <= r < km.len(),
        0 <= c < 16,
        km[r][c] == 0,
        partial_inverse(km, inv, r, c),
    ensures
        partial_inverse(km, inv, r, c + 1),
{
    assert forall|k2: u8| !mapped_before(km, k2, r, c + 1) implies #[trigger] inv[k2 as int] == (
        0u8,
        0u8,
    ) by {
        if mapped_before(km, k2, r, c) {
            let (r2, c2): (int, int) = choose|r2: int, c2: int|
                entry_before(km, k2, r2, c2, r, c);
            assert(entry_before(km, k2, r2, c2, r, c + 1));
        }
    }
    assert forall|k2: u8, r2: int, c2: int|
        k2 != 0 && #[trigger] last_entry_before(km, k2, r2, c2, r, c + 1) implies inv[k2 as int]
        == (swap_col(c2) as u8, row_mask(r2)) by {
        assert(entry_before(km, k2, r2, c2, r, c));
        assert(last_entry_before(km, k2, r2, c2, r, c));
    }
}

/// Positions before (`r`, 16) are exactly those before (`r` + 1, 0).
proof fn lemma_row_wrap(km: Seq<Seq<u8>>, inv: Seq<(u8, u8)>, r: int)
    requires
        km_wf(km),
        partial_inverse(km, inv, r, 16),
    ensures
        partial_inverse(km, inv, r + 1, 0),
{
    assert forall|k2: u8| !mapped_before(km, k2, r + 1, 0) implies #[trigger] inv[k2 as int] == (
        0u8,
        0u8,
    ) by {
        if mapped_before(km, k2, r, 16) {
            let (r2, c2): (int, int) = choose|r2: int, c2: int|
                entry_before(km, k2, r2, c2, r, 16);
            assert(entry_before(km, k2, r2, c2, r + 1, 0));
        }
    }
    assert forall|k2: u8, r2: int, c2: int|
        k2 != 0 && #[trigger] last_entry_before(km, k2, r2, c2, r + 1, 0) implies inv[k2 as int]
        == (swap_col(c2) as u8, row_mask(r2)) by {
        assert(entry_before(km, k2, r2, c2, r, 16));
        assert forall|r3: int, c3: int|
            entry_at(km, k2, r3, c3) && before_pos(r3, c3, r, 16) implies !before_pos(
            r2,
            c2,
            r3,
            c3,
        ) by {
            assert(before_pos(r3, c3, r + 1, 0));
        }
        assert(last_entry_before(km, k2, r2, c2, r, 16));
    }
}

/// Once every row is processed, the partial picture is the whole one.
proof fn lemma_complete(km: Seq<Seq<u8>>, inv: Seq<(u8, u8)>, r: int)
    requires
        km_wf(km),
        r == km.len(),
        partial_inverse(km, inv, r, 0),
    ensures
        inverse_of(km, inv),
{
    assert forall|k: u8| !mapped(km, k) implies #[trigger] inv[k as int] == (0u8, 0u8) by {
        if mapped_before(km, k, r, 0) {
            let (r2, c2): (int, int) = choose|r2: int, c2: int| entry_before(km, k, r2, c2, r, 0);
            assert(entry_at(km, k, r2, c2));
            assert(mapped(km, k));
        }
    }
    assert forall|k: u8, r2: int, c2: int|
        k != 0 && #[trigger] last_entry_at(km, k, r2, c2) implies inv[k as int] == (
        swap_col(c2) as u8,
        row_mask(r2),
    ) by {
        assert(entry_before(km, k, r2, c2, r, 0));
        assert(last_entry_before(km, k, r2, c2, r, 0));
    }
}

/// Round trip: a key code written at the table's cell (`r`, `c`) — its last
/// cell, with duplicates — is sent by the inverse keymap back to exactly
/// that cell: undoing the column swap recovers `c`, and the row mask is the
/// single bit of `r`.
pub proof fn lemma_inverse_round_trip(km: Seq<Seq<u8>>, inv: Seq<(u8, u8)>, r: int, c: int)
    requires
        km_wf(km),
        inverse_of(km, inv),
        0 <= r < km.len(),
        0 <= c < 16,
        km[r][c] != 0,
        last_entry_at(km, km[r][c], r, c),
    ensures
        swap_col(inv[km[r][c] as int].0 as int) == c,
        inv[km[r][c] as int].1 == row_mask(r),
{
    assert(inv[km[r][c] as int] == (swap_col(c) as u8, row_mask(r)));
    assert(swap_col(swap_col(c)) == c);
}

/// Distinct rows get distinct row masks, so the row too is recovered from
/// the inverse keymap alone.
pub proof fn lemma_row_mask_injective(r1: int, r2: int)
    requires
        0 <= r1 < 8,
        0 <= r2 < 8,
        r1 != r2,
    ensures
        row_mask(r1) != row_mask(r2),
{
    let s1 = r1 as u8;
    let s2 = r2 as u8;
    assert(s1 < 8 && s2 < 8 && s1 != s2 ==> 1u8 << s1 != 1u8 << s2) by (bit_vector);
}

/// A key code with no cell in the table resolves to the inert coordinate
/// (0, 0).
pub proof fn lemma_unmapped_inverse(km: Seq<Seq<u8>>, inv: Seq<(u8, u8)>, k: u8)
    requires
        inverse_of(km, inv),
        !mapped(km, k),
    ensures
        inv[k as int] == (0u8, 0u8),
{
}


// The USB HID keyboard usage codes.

/// No key pressed
pub const KEY_NONE: u8 = 0x00;

///  Keyboard Error Roll Over - used for all slots if too many keys are pressed ("Phantom key")
pub const KEY_ERR_OVF: u8 = 0x01;

/// Keyboard a and A
pub const KEY_A: u8 = 0x04;

/// Keyboard b and B
pub const KEY_B: u8 = 0x05;

/// Keyboard c and C
pub const KEY_C: u8 = 0x06;

/// Keyboard d and D
pub const KEY_D: u8 = 0x07;

/// Keyboard e and E
pub const KEY_E: u8 = 0x08;

/// Keyboard f and F
pub const KEY_F: u8 = 0x09;

/// Keyboard g and G
pub const KEY_G: u8 = 0x0a;

/// Keyboard h and H
pub const KEY_H: u8 = 0x0b;

/// Keyboard i and I
pub const KEY_I: u8 = 0x0c;

/// Keyboard j and J
pub const KEY_J: u8 = 0x0d;

/// Keyboard k and K
pub const KEY_K: u8 = 0x0e;

/// Keyboard l and L
pub const KEY_L: u8 = 0x0f;

/// Keyboard m and M
pub const KEY_M: u8 = 0x10;

/// Keyboard n and N
pub const KEY_N: u8 = 0x11;

/// Keyboard o and O
pub const KEY_O: u8 = 0x12;

/// Keyboard p and P
pub const KEY_P: u8 = 0x13;

/// Keyboard q and Q
pub const KEY_Q: u8 = 0x14;

/// Keyboard r and R
pub const KEY_R: u8 = 0x15;

/// Keyboard s and S
pub const KEY_S: u8 = 0x16;

/// Keyboard t and T
pub const KEY_T: u8 = 0x17;

/// Keyboard u and U
pub const KEY_U: u8 = 0x18;

/// Keyboard v and V
pub const KEY_V: u8 = 0x19;

/// Keyboard w and W
pub const KEY_W: u8 = 0x1a;

/// Keyboard x and X
pub const KEY_X: u8 = 0x1b;

/// Keyboard y and Y
pub const KEY_Y: u8 = 0x1c;

/// Keyboard z and Z
pub const KEY_Z: u8 = 0x1d;

/// Keyboard 1 and !
pub const KEY_1: u8 = 0x1e;

/// Keyboard 2 and @
pub const KEY_2: u8 = 0x1f;

/// Keyboard 3 and #
pub const KEY_3: u8 = 0x20;

/// Keyboard 4 and $
pub const KEY_4: u8 = 0x21;

/// Keyboard 5 and %
pub const KEY_5: u8 = 0x22;

/// Keyboard 6 and ^
pub const KEY_6: u8 = 0x23;

/// Keyboard 7 and &
pub const KEY_7: u8 = 0x24;

/// Keyboard 8 and *
pub const KEY_8: u8 = 0x25;

/// Keyboard 9 and (
pub const KEY_9: u8 = 0x26;

/// Keyboard 0 and )
pub const KEY_0: u8 = 0x27;

/// Keyboard Return (ENTER)
pub const KEY_ENTER: u8 = 0x28;

/// Keyboard ESCAPE
pub const KEY_ESC: u8 = 0x29;

/// Keyboard DELETE (Backspace)
pub const KEY_BACKSPACE: u8 = 0x2a;

/// Keyboard Tab
pub const KEY_TAB: u8 = 0x2b;

/// Keyboard Spacebar
pub const KEY_SPACE: u8 = 0x2c;

/// Keyboard - and _
pub const KEY_MINUS: u8 = 0x2d;

/// Keyboard = and +
pub const KEY_EQUAL: u8 = 0x2e;

/// Keyboard [ and {
pub const KEY_LEFTBRACE: u8 = 0x2f;

/// Keyboard ] and }
pub const KEY_RIGHTBRACE: u8 = 0x30;

/// Keyboard \ and |
pub const KEY_BACKSLASH: u8 = 0x31;

/// Keyboard Non-US # and ~
pub const KEY_HASHTILDE: u8 = 0x32;

/// Keyboard ; and :
pub const KEY_SEMICOLON: u8 = 0x33;

/// Keyboard ' and "
pub const KEY_APOSTROPHE: u8 = 0x34;

/// Keyboard ` and ~
pub const KEY_GRAVE: u8 = 0x35;

/// Keyboard , and <
pub const KEY_COMMA: u8 = 0x36;

/// Keyboard . and >
pub const KEY_DOT: u8 = 0x37;

/// Keyboard / and ?
pub const KEY_SLASH: u8 = 0x38;

/// Keyboard Caps Lock
pub const KEY_CAPSLOCK: u8 = 0x39;

/// Keyboard F1
pub const KEY_F1: u8 = 0x3a;

/// Keyboard F2
pub const KEY_F2: u8 = 0x3b;

/// Keyboard F3
pub const KEY_F3: u8 = 0x3c;

/// Keyboard F4
pub const KEY_F4: u8 = 0x3d;

/// Keyboard F5
pub const KEY_F5: u8 = 0x3e;

/// Keyboard F6
pub const KEY_F6: u8 = 0x3f;

/// Keyboard F7
pub const KEY_F7: u8 = 0x40;

/// Keyboard F8
pub const KEY_F8: u8 = 0x41;

/// Keyboard F9
pub const KEY_F9: u8 = 0x42;

/// Keyboard F10
pub const KEY_F10: u8 = 0x43;

/// Keyboard F11
pub const KEY_F11: u8 = 0x44;

/// Keyboard F12
pub const KEY_F12: u8 = 0x45;

/// Keyboard Print Screen
pub const KEY_SYSRQ: u8 = 0x46;

/// Keyboard Scroll Lock
pub const KEY_SCROLLLOCK: u8 = 0x47;

/// Keyboard Pause
pub const KEY_PAUSE: u8 = 0x48;

/// Keyboard Insert
pub const KEY_INSERT: u8 = 0x49;

/// Keyboard Home
pub const KEY_HOME: u8 = 0x4a;

/// Keyboard Page Up
pub const KEY_PAGEUP: u8 = 0x4b;

/// Keyboard Delete Forward
pub const KEY_DELETE: u8 = 0x4c;

/// Keyboard End
pub const KEY_END: u8 = 0x4d;

/// Keyboard Page Down
pub const KEY_PAGEDOWN: u8 = 0x4e;

/// Keyboard Right Arrow
pub const KEY_RIGHT: u8 = 0x4f;

/// Keyboard Left Arrow
pub const KEY_LEFT: u8 = 0x50;

/// Keyboard Down Arrow
pub const KEY_DOWN: u8 = 0x51;

/// Keyboard Up Arrow
pub const KEY_UP: u8 = 0x52;

/// Keyboard Num Lock and Clear
pub const KEY_NUMLOCK: u8 = 0x53;

/// Keypad /
pub const KEY_KPSLASH: u8 = 0x54;

/// Keypad *
pub const KEY_KPASTERISK: u8 = 0x55;

/// Keypad -
pub const KEY_KPMINUS: u8 = 0x56;

/// Keypad +
pub const KEY_KPPLUS: u8 = 0x57;

/// Keypad ENTER
pub const KEY_KPENTER: u8 = 0x58;

/// Keypad 1 and End
pub const KEY_KP1: u8 = 0x59;

/// Keypad 2 and Down Arrow
pub const KEY_KP2: u8 = 0x5a;

/// Keypad 3 and PageDn
pub const KEY_KP3: u8 = 0x5b;

/// Keypad 4 and Left Arrow
pub const KEY_KP4: u8 = 0x5c;

/// Keypad 5
pub const KEY_KP5: u8 = 0x5d;

/// Keypad 6 and Right Arrow
pub const KEY_KP6: u8 = 0x5e;

/// Keypad 7 and Home
pub const KEY_KP7: u8 = 0x5f;

/// Keypad 8 and Up Arrow
pub const KEY_KP8: u8 = 0x60;

/// Keypad 9 and Page Up
pub const KEY_KP9: u8 = 0x61;

/// Keypad 0 and Insert
pub const KEY_KP0: u8 = 0x62;

/// Keypad . and Delete
pub const KEY_KPDOT: u8 = 0x63;

/// Keyboard Non-US \ and |
pub const KEY_102ND: u8 = 0x64;

/// Keyboard Application
pub const KEY_COMPOSE: u8 = 0x65;

/// Keyboard Power
pub const KEY_POWER: u8 = 0x66;

/// Keypad =
pub const KEY_KPEQUAL: u8 = 0x67;

/// Keyboard F13
pub const KEY_F13: u8 = 0x68;

/// Keyboard F14
pub const KEY_F14: u8 = 0x69;

/// Keyboard F15
pub const KEY_F15: u8 = 0x6a;

/// Keyboard F16
pub const KEY_F16: u8 = 0x6b;

/// Keyboard F17
pub const KEY_F17: u8 = 0x6c;

/// Keyboard F18
pub const KEY_F18: u8 = 0x6d;

/// Keyboard F19
pub const KEY_F19: u8 = 0x6e;

/// Keyboard F20
pub const KEY_F20: u8 = 0x6f;

/// Keyboard F21
pub const KEY_F21: u8 = 0x70;

/// Keyboard F22
pub const KEY_F22: u8 = 0x71;

/// Keyboard F23
pub const KEY_F23: u8 = 0x72;

/// Keyboard F24
pub const KEY_F24: u8 = 0x73;

/// Keyboard Execute
pub const KEY_OPEN: u8 = 0x74;

/// Keyboard Help
pub const KEY_HELP: u8 = 0x75;

/// Keyboard Menu
pub const KEY_PROPS: u8 = 0x76;

/// Keyboard Select
pub const KEY_FRONT: u8 = 0x77;

/// Keyboard Stop
pub const KEY_STOP: u8 = 0x78;

/// Keyboard Again
pub const KEY_AGAIN: u8 = 0x79;

/// Keyboard Undo
pub const KEY_UNDO: u8 = 0x7a;

/// Keyboard Cut
pub const KEY_CUT: u8 = 0x7b;

/// Keyboard Copy
pub const KEY_COPY: u8 = 0x7c;

/// Keyboard Paste
pub const KEY_PASTE: u8 = 0x7d;

/// Keyboard Find
pub const KEY_FIND: u8 = 0x7e;

/// Keyboard Mute
pub const KEY_MUTE: u8 = 0x7f;

/// Keyboard Volume Up
pub const KEY_VOLUMEUP: u8 = 0x80;

/// Keyboard Volume Down
pub const KEY_VOLUMEDOWN: u8 = 0x81;

/// Keypad Comma
pub const KEY_KPCOMMA: u8 = 0x85;

/// Keyboard International1
pub const KEY_RO: u8 = 0x87;

/// Keyboard International2
pub const KEY_KATAKANAHIRAGANA: u8 = 0x88;

/// Keyboard International3
pub const KEY_YEN: u8 = 0x89;

/// Keyboard International4
pub const KEY_HENKAN: u8 = 0x8a;

/// Keyboard International5
pub const KEY_MUHENKAN: u8 = 0x8b;

/// Keyboard International6
pub const KEY_KPJPCOMMA: u8 = 0x8c;

/// Keyboard LANG1
pub const KEY_HANGEUL: u8 = 0x90;

/// Keyboard LANG2
pub const KEY_HANJA: u8 = 0x91;

/// Keyboard LANG3
pub const KEY_KATAKANA: u8 = 0x92;

/// Keyboard LANG4
pub const KEY_HIRAGANA: u8 = 0x93;

/// Keyboard LANG5
pub const KEY_ZENKAKUHANKAKU: u8 = 0x94;

/// Keypad (
pub const KEY_KPLEFTPAREN: u8 = 0xb6;

/// Keypad )
pub const KEY_KPRIGHTPAREN: u8 = 0xb7;

/// Keyboard Left Control
pub const KEY_LEFTCTRL: u8 = 0xe0;

/// Keyboard Left Shift
pub const KEY_LEFTSHIFT: u8 = 0xe1;

/// Keyboard Left Alt
pub const KEY_LEFTALT: u8 = 0xe2;

/// Keyboard Left GUI
pub const KEY_LEFTMETA: u8 = 0xe3;

/// Keyboard Right Control
pub const KEY_RIGHTCTRL: u8 = 0xe4;

/// Keyboard Right Shift
pub const KEY_RIGHTSHIFT: u8 = 0xe5;

/// Keyboard Right Alt
pub const KEY_RIGHTALT: u8 = 0xe6;

/// Keyboard Right GUI
pub const KEY_RIGHTMETA: u8 = 0xe7;


/// The keymap table as specification data, row by row.
pub open spec fn keymap_spec() -> Seq<Seq<u8>> {
    seq![
        seq![
            KEY_F1, KEY_F2, KEY_F3, KEY_F4, KEY_F5, KEY_F6, KEY_F7, KEY_F8, KEY_F9, KEY_F10,
            KEY_DOWN, KEY_UP, KEY_HOME, 0u8, KEY_F12, KEY_PAUSE,
        ],
        seq![
            KEY_ESC, KEY_1, KEY_2, KEY_3, KEY_4, KEY_5, KEY_7, KEY_8, KEY_9, KEY_0, KEY_EQUAL,
            KEY_LEFT, KEY_INSERT, 0u8, KEY_KPASTERISK, KEY_KPSLASH,
        ],
        seq![
            KEY_TAB, KEY_Q, KEY_W, KEY_E, KEY_R, KEY_6, KEY_U, KEY_I, KEY_O, KEY_MINUS,
            KEY_BACKSLASH, KEY_RIGHT, KEY_KP7, KEY_KP8, KEY_KP9, KEY_KPMINUS,
        ],
        seq![
            0u8, KEY_A, KEY_S, KEY_D, KEY_T, KEY_Y, KEY_J, KEY_K, KEY_L, KEY_P, KEY_RIGHTBRACE,
            KEY_BACKSPACE, KEY_KP4, KEY_KP5, KEY_KP6, KEY_KPPLUS,
        ],
        seq![
            KEY_LEFTSHIFT, KEY_Z, KEY_X, KEY_F, KEY_G, KEY_H, KEY_M, KEY_COMMA, KEY_SEMICOLON,
            KEY_LEFTBRACE, KEY_ENTER, KEY_RIGHTMETA, KEY_KP1, KEY_KP2, KEY_KP3, KEY_KPENTER,
        ],
        seq![
            KEY_LEFTCTRL, 0u8, KEY_C, KEY_V, KEY_B, KEY_N, KEY_SPACE, KEY_DOT, KEY_SLASH,
            KEY_APOSTROPHE, KEY_RIGHTALT, 0u8, KEY_KP0, KEY_KPDOT, 0u8, 0u8,
        ],
    ]
}

/// The keymap table of the target machine: six row output lines by sixteen
/// column-select lines.  A zero cell is an unwired position.  The layout
/// follows the target keyboard's switch matrix; the column swap of the
/// inverse keymap is not yet applied here.
pub fn keymap() -> (km: Vec<Vec<u8>>)
    ensures
        km.deep_view() == keymap_spec(),
        km_wf(km.deep_view()),
{
    let km: Vec<Vec<u8>> = vec![
        vec![KEY_F1, KEY_F2, KEY_F3, KEY_F4, KEY_F5, KEY_F6, KEY_F7, KEY_F8, KEY_F9, KEY_F10,
            KEY_DOWN, KEY_UP, KEY_HOME, 0, KEY_F12, KEY_PAUSE],
        vec![KEY_ESC, KEY_1, KEY_2, KEY_3, KEY_4, KEY_5, KEY_7, KEY_8, KEY_9, KEY_0, KEY_EQUAL,
            KEY_LEFT, KEY_INSERT, 0, KEY_KPASTERISK, KEY_KPSLASH],
        vec![KEY_TAB, KEY_Q, KEY_W, KEY_E, KEY_R, KEY_6, KEY_U, KEY_I, KEY_O, KEY_MINUS,
            KEY_BACKSLASH, KEY_RIGHT, KEY_KP7, KEY_KP8, KEY_KP9, KEY_KPMINUS],
        vec![0, KEY_A, KEY_S, KEY_D, KEY_T, KEY_Y, KEY_J, KEY_K, KEY_L, KEY_P, KEY_RIGHTBRACE,
            KEY_BACKSPACE, KEY_KP4, KEY_KP5, KEY_KP6, KEY_KPPLUS],
        vec![KEY_LEFTSHIFT, KEY_Z, KEY_X, KEY_F, KEY_G, KEY_H, KEY_M, KEY_COMMA, KEY_SEMICOLON,
            KEY_LEFTBRACE, KEY_ENTER, KEY_RIGHTMETA, KEY_KP1, KEY_KP2, KEY_KP3, KEY_KPENTER],
        vec![KEY_LEFTCTRL, 0, KEY_C, KEY_V, KEY_B, KEY_N, KEY_SPACE, KEY_DOT, KEY_SLASH,
            KEY_APOSTROPHE, KEY_RIGHTALT, 0, KEY_KP0, KEY_KPDOT, 0, 0],
    ];
    proof {
        let kd = km.deep_view();
        let ks = keymap_spec();
        assert forall|r: int| 0 <= r < 6 implies kd[r] =~= ks[r] by {
            assert(kd[r] == km@[r].deep_view());
        }
        assert(kd =~= ks);
    }
    km
}

} // verus!
