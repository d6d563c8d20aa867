use kbmatrix::keys::{create_inverse_keymap, keymap};
use kbmatrix::keys::{KEY_A, KEY_CAPSLOCK, KEY_F1, KEY_F11, KEY_KPENTER, KEY_LEFTCTRL, KEY_LEFTSHIFT, KEY_NONE, KEY_PAUSE};

#[test]
fn inverse_has_256_entries() {
    let km = keymap();
    let inv = create_inverse_keymap(&km);
    assert_eq!(inv.len(), 256);
}

#[test]
fn inverse_spot_checks() {
    let km = keymap();
    let inv = create_inverse_keymap(&km);
    // row 0, col 0: swapped to physical column 8, row mask 1 << 0
    assert_eq!(inv[KEY_F1 as usize], (8, 0x01));
    // row 3, col 1: swapped to physical column 9, row mask 1 << 3
    assert_eq!(inv[KEY_A as usize], (9, 0x08));
    // row 4, col 0
    assert_eq!(inv[KEY_LEFTSHIFT as usize], (8, 0x10));
    // row 5, col 0
    assert_eq!(inv[KEY_LEFTCTRL as usize], (8, 0x20));
    // row 0, col 15: swapped to physical column 7
    assert_eq!(inv[KEY_PAUSE as usize], (7, 0x01));
    // row 4, col 15
    assert_eq!(inv[KEY_KPENTER as usize], (7, 0x10));
}

#[test]
fn inverse_round_trip_all_entries() {
    let km = keymap();
    let inv = create_inverse_keymap(&km);
    for r in 0..km.len() {
        for c in 0..km[r].len() {
            let k = km[r][c];
            if k != 0 {
                let (actual_col, mask) = inv[k as usize];
                // undo the column swap
                let orig_col = if actual_col <= 7 { actual_col + 8 } else { actual_col - 8 };
                assert_eq!(orig_col as usize, c);
                assert_eq!(mask, 1u8 << r);
            }
        }
    }
}

#[test]
fn unmapped_keys_inert_coordinate() {
    let km = keymap();
    let inv = create_inverse_keymap(&km);
    let mut in_table = [false; 256];
    for r in 0..km.len() {
        for c in 0..km[r].len() {
            in_table[km[r][c] as usize] = true;
        }
    }
    for k in 0..256usize {
        if !in_table[k] {
            assert_eq!(inv[k], (0, 0));
        }
    }
    // a few known holes of the table
    assert_eq!(inv[KEY_NONE as usize], (0, 0));
    assert_eq!(inv[KEY_CAPSLOCK as usize], (0, 0));
    assert_eq!(inv[KEY_F11 as usize], (0, 0));
}

#[test]
fn duplicate_cell_last_wins() {
    let mut km: Vec<Vec<u8>> = Vec::new();
    for _ in 0..6 {
        km.push(vec![0u8; 16]);
    }
    km[0][0] = KEY_A;
    km[2][5] = KEY_A;
    let inv = create_inverse_keymap(&km);
    // the later cell in row-major order, (2, 5), defines the coordinate
    assert_eq!(inv[KEY_A as usize], (13, 0x04));
}

#[test]
fn small_table_accepted() {
    // fewer than six rows is fine; only the sixteen-cell row width is fixed
    let km: Vec<Vec<u8>> = vec![vec![0u8; 16], {
        let mut row = vec![0u8; 16];
        row[3] = KEY_F1;
        row
    }];
    let inv = create_inverse_keymap(&km);
    assert_eq!(inv[KEY_F1 as usize], (11, 0x02));
}
