use kbmatrix::keys::{create_inverse_keymap, keymap, KEY_A};
use kbmatrix::scan::{expand, respond, scan_response};
use kbmatrix::state::{apply, ColumnWords, Modifiers};

fn no_mods() -> Modifiers {
    Modifiers { left_shift: false, right_shift: false, left_ctrl: false, right_ctrl: false }
}

fn zero_words() -> ColumnWords {
    ColumnWords { w0: 0, w1: 0, w2: 0, w3: 0 }
}

#[test]
fn expansion_table_all_sixteen() {
    let expected: [u32; 16] = [
        0x0000_0000, 0x0000_00FF, 0x0000_FF00, 0x0000_FFFF, 0x00FF_0000, 0x00FF_00FF,
        0x00FF_FF00, 0x00FF_FFFF, 0xFF00_0000, 0xFF00_00FF, 0xFF00_FF00, 0xFF00_FFFF,
        0xFFFF_0000, 0xFFFF_00FF, 0xFFFF_FF00, 0xFFFF_FFFF,
    ];
    for n in 0..16u8 {
        assert_eq!(expand(n), expected[n as usize]);
        // byte lane i is 0xFF exactly when bit i of n is set
        let r = expand(n);
        for i in 0..4u32 {
            let lane = ((r >> (8 * i)) & 0xFF) as u8;
            if n & (1 << i) != 0 {
                assert_eq!(lane, 0xFF);
            } else {
                assert_eq!(lane, 0x00);
            }
        }
    }
}

#[test]
fn respond_empty_words_all_high() {
    // with nothing pressed the answer is all-high whatever is scanned
    for cols in [0x0000u16, 0xFFFF, 0x0001, 0x8000, 0x1234, 0x0200] {
        assert_eq!(respond(cols, zero_words()), 0xFF);
    }
}

#[test]
fn respond_single_key() {
    let inv = create_inverse_keymap(&keymap());
    // KEY_A: physical column 9, row 3
    let cw = apply(&inv, &vec![KEY_A], no_mods());
    // scanning column 9 pulls row line 3 low
    assert_eq!(respond(0x0200, cw), 0xF7);
    // scanning every column as well
    assert_eq!(respond(0xFFFF, cw), 0xF7);
}

#[test]
fn respond_selects_only_scanned_columns() {
    let inv = create_inverse_keymap(&keymap());
    let cw = apply(&inv, &vec![KEY_A], no_mods());
    // column 8 is scanned, column 9 is not: the key stays invisible
    assert_eq!(respond(0x0100, cw), 0xFF);
    assert_eq!(respond(0xFDFF, cw), 0xFF);
}

#[test]
fn end_to_end_letter_a() {
    // a table that wires the HID code for 'A' to row 1, column 1
    let mut km: Vec<Vec<u8>> = Vec::new();
    for _ in 0..6 {
        km.push(vec![0u8; 16]);
    }
    km[1][1] = KEY_A;
    let inv = create_inverse_keymap(&km);
    // column 1 swaps to physical column 9; row mask 1 << 1
    assert_eq!(inv[KEY_A as usize], (9, 0x02));
    let cw = apply(&inv, &vec![KEY_A], no_mods());
    // byte lane 1 of word 2 carries row bit 1
    assert_eq!(cw, ColumnWords { w0: 0, w1: 0, w2: 0x0000_0200, w3: 0 });
    // selecting physical column 9 and no other: row bit 1 is set before
    // inversion, clear after
    let out = respond(0x0200, cw);
    assert_eq!(!out, 0x02);
    assert_eq!(out, 0xFD);
    // the raw port word carries the select lines active low
    let port = scan_response(!0x0200u32, cw);
    assert_eq!(port, 0x00FD_0000);
}

#[test]
fn scan_response_idle() {
    // any select pattern over empty words answers the inverted zero byte,
    // shifted onto the output lines
    for raw in [0xFFFF_FFFFu32, 0x0000_0000, !0x0200u32, 0xABCD_1234] {
        assert_eq!(scan_response(raw, zero_words()), 0x00FF_0000);
    }
}

#[test]
fn scan_response_port_word() {
    let inv = create_inverse_keymap(&keymap());
    let cw = apply(&inv, &vec![KEY_A], no_mods());
    // column 9 driven low by the host
    assert_eq!(scan_response(!0x0200u32, cw), 0x00F7_0000);
    // all columns driven low
    assert_eq!(scan_response(!0xFFFFu32, cw), 0x00F7_0000);
    // no column driven low
    assert_eq!(scan_response(!0u32, cw), 0x00FF_0000);
}

#[test]
fn respond_combines_words() {
    let inv = create_inverse_keymap(&keymap());
    // KEY_F9 sits at table (0, 8): physical column 0, word 0, row 0;
    // KEY_A at physical column 9, word 2, row 3
    let cw = apply(&inv, &vec![kbmatrix::keys::KEY_F9, KEY_A], no_mods());
    assert_eq!(cw, ColumnWords { w0: 0x0000_0001, w1: 0, w2: 0x0000_0800, w3: 0 });
    // scanning both columns pulls both row lines low
    assert_eq!(respond(0x0201, cw), 0xF6);
    // scanning one of them shows only that key
    assert_eq!(respond(0x0001, cw), 0xFE);
    assert_eq!(respond(0x0200, cw), 0xF7);
}
