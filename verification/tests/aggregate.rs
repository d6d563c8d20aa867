use kbmatrix::keys::{create_inverse_keymap, keymap, KEY_A, KEY_B, KEY_CAPSLOCK, KEY_F1};
use kbmatrix::state::{apply, key_set, ColumnWords, Modifiers};

fn no_mods() -> Modifiers {
    Modifiers { left_shift: false, right_shift: false, left_ctrl: false, right_ctrl: false }
}

#[test]
fn apply_empty_all_zero() {
    let inv = create_inverse_keymap(&keymap());
    let cw = apply(&inv, &Vec::new(), no_mods());
    assert_eq!(cw, ColumnWords { w0: 0, w1: 0, w2: 0, w3: 0 });
}

#[test]
fn apply_single_key_sets_one_bit() {
    let inv = create_inverse_keymap(&keymap());
    // KEY_A sits at physical column 9 with row mask 0x08:
    // byte lane 1 of word 2
    let cw = apply(&inv, &vec![KEY_A], no_mods());
    assert_eq!(cw, ColumnWords { w0: 0, w1: 0, w2: 0x0000_0800, w3: 0 });
}

#[test]
fn apply_idempotent() {
    let inv = create_inverse_keymap(&keymap());
    let pressed = vec![KEY_A, KEY_F1, KEY_B];
    let mods = Modifiers { left_shift: true, right_shift: false, left_ctrl: false, right_ctrl: true };
    let cw1 = apply(&inv, &pressed, mods);
    let cw2 = apply(&inv, &pressed, mods);
    assert_eq!(cw1, cw2);
}

#[test]
fn apply_replaces_not_merges() {
    let inv = create_inverse_keymap(&keymap());
    let _first = apply(&inv, &vec![KEY_A], no_mods());
    let second = apply(&inv, &vec![KEY_B], no_mods());
    let alone = apply(&inv, &vec![KEY_B], no_mods());
    // the second snapshot is exactly what KEY_B alone produces
    assert_eq!(second, alone);
    // KEY_A's bit (lane 1 of word 2, row 3) left no residue
    assert_eq!(second.w2 & 0x0000_0800, 0);
    // KEY_B sits at row 5, col 4: physical column 12, lane 0 of word 3
    assert_eq!(second, ColumnWords { w0: 0, w1: 0, w2: 0, w3: 0x0000_0020 });
}

#[test]
fn apply_modifier_and_regular_key() {
    let inv = create_inverse_keymap(&keymap());
    let mods = Modifiers { left_shift: true, right_shift: false, left_ctrl: false, right_ctrl: false };
    let cw = apply(&inv, &vec![KEY_A], mods);
    // KEY_A: lane 1 of word 2, bit 3; left shift pseudo-key: physical
    // column 8, lane 0 of word 2, bit 4 — both in the same snapshot
    assert_eq!(cw, ColumnWords { w0: 0, w1: 0, w2: 0x0000_0810, w3: 0 });
}

#[test]
fn right_modifiers_map_to_left_pseudo_keys() {
    let inv = create_inverse_keymap(&keymap());
    let right = Modifiers { left_shift: false, right_shift: true, left_ctrl: false, right_ctrl: true };
    let left = Modifiers { left_shift: true, right_shift: false, left_ctrl: true, right_ctrl: false };
    let cw_right = apply(&inv, &Vec::new(), right);
    let cw_left = apply(&inv, &Vec::new(), left);
    assert_eq!(cw_right, cw_left);
    // left shift: word 2 lane 0 bit 4; left control: word 2 lane 0 bit 5
    assert_eq!(cw_right, ColumnWords { w0: 0, w1: 0, w2: 0x0000_0030, w3: 0 });
}

#[test]
fn unmapped_key_contributes_nothing() {
    let inv = create_inverse_keymap(&keymap());
    let cw = apply(&inv, &vec![KEY_CAPSLOCK], no_mods());
    assert_eq!(cw, ColumnWords { w0: 0, w1: 0, w2: 0, w3: 0 });
    let with_a = apply(&inv, &vec![KEY_A, KEY_CAPSLOCK], no_mods());
    assert_eq!(with_a, apply(&inv, &vec![KEY_A], no_mods()));
}

#[test]
fn key_set_ors_into_existing_words() {
    let inv = create_inverse_keymap(&keymap());
    let mut cw = ColumnWords { w0: 0, w1: 0, w2: 0, w3: 0 };
    key_set(KEY_A, &inv, &mut cw);
    assert_eq!(cw, ColumnWords { w0: 0, w1: 0, w2: 0x0000_0800, w3: 0 });
    // setting the same key again is idempotent on the words
    key_set(KEY_A, &inv, &mut cw);
    assert_eq!(cw, ColumnWords { w0: 0, w1: 0, w2: 0x0000_0800, w3: 0 });
    // KEY_F1: physical column 8, lane 0 of word 2, row 0
    key_set(KEY_F1, &inv, &mut cw);
    assert_eq!(cw, ColumnWords { w0: 0, w1: 0, w2: 0x0000_0801, w3: 0 });
}

#[test]
fn multiple_keys_same_column_share_a_lane() {
    let inv = create_inverse_keymap(&keymap());
    // KEY_A (row 3) and KEY_Z (row 4) both sit in table column 1, so both
    // land in byte lane 1 of word 2
    let cw = apply(&inv, &vec![KEY_A, kbmatrix::keys::KEY_Z], no_mods());
    assert_eq!(cw, ColumnWords { w0: 0, w1: 0, w2: 0x0000_1800, w3: 0 });
}
