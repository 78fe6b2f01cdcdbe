//! The key matrix of the key pad.
//!
//! The scanner drives one row line at a time and samples every column line.
//! What it finds becomes the snapshot that the serial engine reports, and,
//! while no host is linked, a report of function keys for the keyboard
//! endpoint.

use crate::peripheral::KeyboardInputs;
use crate::peripheral::SwitchPosition;
use vstd::prelude::*;

verus! {

/// Row lines of the matrix.
pub const KEY_ROWS: usize = 3;

/// Column lines of the matrix.
pub const KEY_COLS: usize = 4;

/// Milliseconds between two scans.
pub const POLL_RATE: u32 = 5;

/// The usage code that stands for no key in a keyboard report.
pub const HID_NO_EVENT: u8 = 0x00;

/// The usage code of the function key F13; F14 to F24 follow it.
pub const HID_F13: u8 = 0x68;

/// The place of a switch among the twelve, by its row and column.
pub open spec fn spec_key_index(row: int, col: int) -> int {
    row * 4 + col
}

pub fn key_index(row: usize, col: usize) -> (i: usize)
    requires
        row < KEY_ROWS,
        col < KEY_COLS,
    ensures
        i == spec_key_index(row as int, col as int),
        i < 12,
{
    row * KEY_COLS + col
}

/// One scan of the matrix, as far as it has come.
pub struct MatrixScan {
    keys: [bool; 12],
}

impl View for MatrixScan {
    type V = Seq<bool>;

    /// For each of the twelve switches, whether it was found closed.
    closed spec fn view(&self) -> Seq<bool> {
        self.keys@
    }
}

impl MatrixScan {
    /// A scan that has found nothing yet.
    pub fn new() -> (s: Self)
        ensures
            s@ == Seq::new(12, |i: int| false),
    {
        let s = MatrixScan { keys: [false;12] };
        assert(s.keys@ =~= Seq::new(12, |i: int| false));
        s
    }

    /// Notes that the column line `col` was high while the row line `row`
    /// was driven.
    pub fn record(&mut self, row: usize, col: usize)
        requires
            row < KEY_ROWS,
            col < KEY_COLS,
        ensures
            final(self)@ == old(self)@.update(spec_key_index(row as int, col as int), true),
    {
        let i = key_index(row, col);
        self.keys.set(i, true);
    }

    /// What the scan found.
    pub fn get_pressed_keys(&self) -> (keys: [bool; 12])
        ensures
            keys@ == self@,
    {
        self.keys
    }
}

/// The switch position that a closed or an open contact stands for.
pub open spec fn spec_switch_of(closed: bool) -> SwitchPosition {
    if closed {
        SwitchPosition::Down
    } else {
        SwitchPosition::Up
    }
}

fn switch_of(closed: bool) -> (s: SwitchPosition)
    ensures
        s == spec_switch_of(closed),
{
    if closed {
        SwitchPosition::Down
    } else {
        SwitchPosition::Up
    }
}

/// The snapshot of a scan: the twelve switches of the matrix are keys 1 to
/// 12, and keys 13 to 16, which the matrix does not have, are up.
pub fn inputs_of_scan(pressed: &[bool; 12]) -> (inputs: KeyboardInputs)
    ensures
        forall|n: int| 1 <= n <= 12 ==> inputs.key(n) == spec_switch_of(pressed@[n - 1]),
        forall|n: int| 13 <= n <= 16 ==> inputs.key(n) == SwitchPosition::Up,
{
    KeyboardInputs {
        key1: switch_of(pressed[0]),
        key2: switch_of(pressed[1]),
        key3: switch_of(pressed[2]),
        key4: switch_of(pressed[3]),
        key5: switch_of(pressed[4]),
        key6: switch_of(pressed[5]),
        key7: switch_of(pressed[6]),
        key8: switch_of(pressed[7]),
        key9: switch_of(pressed[8]),
        key10: switch_of(pressed[9]),
        key11: switch_of(pressed[10]),
        key12: switch_of(pressed[11]),
        key13: SwitchPosition::Up,
        key14: SwitchPosition::Up,
        key15: SwitchPosition::Up,
        key16: SwitchPosition::Up,
    }
}

/// The usage code that the key numbered `n`, counting from 1, reports.
pub open spec fn spec_hid_code(serial_connected: bool, inputs: KeyboardInputs, n: int) -> u8 {
    if !serial_connected && inputs.key(n) == SwitchPosition::Down {
        (HID_F13 + (n - 1)) as u8
    } else {
        HID_NO_EVENT
    }
}

/// The keyboard report of the key pad. While a host is linked the pad
/// reports no key at all; otherwise each of the keys 1 to 12 that is held
/// reports its function key, F13 for key 1 up to F24 for key 12.
pub fn get_keyboard_keys(serial_connected: bool, inputs: &KeyboardInputs) -> (report: [u8; 12])
    ensures
        forall|n: int|
            1 <= n <= 12 ==> report@[n - 1] == #[trigger] spec_hid_code(
                serial_connected,
                *inputs,
                n,
            ),
{
    let mut report = [HID_NO_EVENT;12];
    if serial_connected {
        return report;
    }
    let mut i: u8 = 0;
    while i < 12
        invariant
            i <= 12,
            !serial_connected,
            forall|n: int|
                1 <= n <= i ==> report@[n - 1] == #[trigger] spec_hid_code(
                    serial_connected,
                    *inputs,
                    n,
                ),
            forall|m: int| i <= m < 12 ==> report@[m] == HID_NO_EVENT,
        decreases 12 - i,
    {
        if inputs.switch(i as usize + 1).is_down() {
            report.set(i as usize, HID_F13 + i);
        }
        i += 1;
    }
    report
}

} // verus!
