//! How a device shows on the bus, and how the host finds it.

use crate::peripheral::IDENT_KEY_INPUT;
use crate::peripheral::IDENT_KNOB_INPUT;
use crate::peripheral::IDENT_PEDAL_INPUT;
use vstd::prelude::*;

verus! {

/// The vendor id of every device.
pub const USB_VENDOR_ID: u16 = 0x1209;

/// The product id of a device that was built for no surface.
pub const USB_PRODUCT_ID_UNKNOWN: u16 = 0xF209;

/// The product id of a key pad.
pub const USB_PRODUCT_ID_KEYPAD: u16 = 0xF20A;

/// The product id of a knob pad.
pub const USB_PRODUCT_ID_KNOBPAD: u16 = 0xF20B;

/// The product id of a pedal pad.
pub const USB_PRODUCT_ID_PEDALPAD: u16 = 0xF20C;

/// Bits per second on the serial line; the line is 8N1.
pub const BAUD_RATE: u32 = 115200;

/// Milliseconds that one read on the host waits for a byte.
pub const READ_TIMEOUT: u64 = 10;

/// Milliseconds between two polls of the inputs.
pub const POLL_PERIOD: u64 = 25;

/// Milliseconds that the host waits before it looks for a device again.
pub const RECONNECT_DELAY: u64 = 1000;

/// The product id under which a device with the given surface enumerates.
pub open spec fn spec_product_id(identifier: u8) -> u16 {
    if identifier == IDENT_KEY_INPUT {
        USB_PRODUCT_ID_KEYPAD
    } else if identifier == IDENT_KNOB_INPUT {
        USB_PRODUCT_ID_KNOBPAD
    } else if identifier == IDENT_PEDAL_INPUT {
        USB_PRODUCT_ID_PEDALPAD
    } else {
        USB_PRODUCT_ID_UNKNOWN
    }
}

pub fn product_id(identifier: u8) -> (pid: u16)
    ensures
        pid == spec_product_id(identifier),
{
    if identifier == IDENT_KEY_INPUT {
        USB_PRODUCT_ID_KEYPAD
    } else if identifier == IDENT_KNOB_INPUT {
        USB_PRODUCT_ID_KNOBPAD
    } else if identifier == IDENT_PEDAL_INPUT {
        USB_PRODUCT_ID_PEDALPAD
    } else {
        USB_PRODUCT_ID_UNKNOWN
    }
}

/// Whether the ids are those of a device with one of the three surfaces.
pub open spec fn spec_is_jukebox(vid: u16, pid: u16) -> bool {
    vid == USB_VENDOR_ID && (pid == USB_PRODUCT_ID_KEYPAD || pid == USB_PRODUCT_ID_KNOBPAD || pid
        == USB_PRODUCT_ID_PEDALPAD)
}

pub fn is_jukebox(vid: u16, pid: u16) -> (b: bool)
    ensures
        b == spec_is_jukebox(vid, pid),
{
    vid == USB_VENDOR_ID && (pid == USB_PRODUCT_ID_KEYPAD || pid == USB_PRODUCT_ID_KNOBPAD || pid
        == USB_PRODUCT_ID_PEDALPAD)
}

/// Picks the port to open among the serial ports of the machine, each given
/// by its vendor and product id: the first that is a device.
pub fn choose_port(ports: &[(u16, u16)]) -> (choice: Option<usize>)
    ensures
        match choice {
            Some(i) => {
                &&& i < ports@.len()
                &&& spec_is_jukebox(ports@[i as int].0, ports@[i as int].1)
                &&& forall|j: int| 0 <= j < i ==> !spec_is_jukebox(ports@[j].0, ports@[j].1)
            },
            None => forall|j: int| 0 <= j < ports@.len() ==> !spec_is_jukebox(ports@[j].0, ports@[j].1),
        },
{
    let mut i: usize = 0;
    while i < ports.len()
        invariant
            i <= ports.len(),
            forall|j: int| 0 <= j < i ==> !spec_is_jukebox(ports@[j].0, ports@[j].1),
        decreases ports.len() - i,
    {
        if is_jukebox(ports[i].0, ports[i].1) {
            return Some(i);
        }
        i += 1;
    }
    None
}

/// A device enumerates under an id by which the host finds it exactly when
/// it was built for one of the three surfaces.
pub proof fn lemma_host_finds_surfaces(identifier: u8)
    ensures
        spec_is_jukebox(USB_VENDOR_ID, spec_product_id(identifier)) <==> (identifier
            == IDENT_KEY_INPUT || identifier == IDENT_KNOB_INPUT || identifier
            == IDENT_PEDAL_INPUT),
{
}

} // verus!
