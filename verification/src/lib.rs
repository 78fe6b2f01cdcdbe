//! Host-device link of the JukeBox macro pad: the framed command protocol,
//! the wire form of the input surfaces, and both ends of the connection
//! state machine.

pub mod device;
pub mod exit;
pub mod host;
pub mod keyset;
pub mod peripheral;
pub mod protocol;
pub mod reaction;
pub mod ring;
pub mod scanner;
pub mod usb;
pub mod version;
