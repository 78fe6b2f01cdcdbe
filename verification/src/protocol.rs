//! Wire vocabulary shared by the device and the host.
//!
//! The host sends commands, each a tag byte followed by `CMD_END`. The device
//! answers every command it understands with one response that ends in
//! `RSP_END`. The two terminators differ so that a response boundary cannot be
//! mistaken for a command boundary.

use crate::peripheral::JBInputs;
use crate::peripheral::IDENT_KEY_INPUT;
use crate::peripheral::IDENT_KNOB_INPUT;
use crate::peripheral::IDENT_PEDAL_INPUT;
use crate::peripheral::IDENT_UNKNOWN_INPUT;
use vstd::prelude::*;
use vstd::string::StringSliceAdditionalSpecFns;

verus! {

/// Tag of the command that opens a link.
pub const CMD_GREET: u8 = 0x05;

/// Tag of the command that asks for the current input snapshot.
pub const CMD_GET_INPUT_KEYS: u8 = 0x30;

/// Tag of the command that sends the device to its bootloader.
pub const CMD_UPDATE: u8 = 0x38;

/// Tag of the command that closes the link.
pub const CMD_DISCONNECT: u8 = 0x39;

/// Tag by which the host tells the device that its last response was not
/// understood.
pub const CMD_NEGATIVE_ACK: u8 = 0x15;

/// Tag that stands for every command the device does not know.
pub const CMD_UNKNOWN: u8 = 0x3F;

/// First byte of the response to a greeting.
pub const RSP_LINK_HEADER: u8 = 0x4C;

/// Byte before and after each field of the response to a greeting.
pub const RSP_LINK_DELIMITER: u8 = 0x2C;

/// First byte of the response that carries an input snapshot.
pub const RSP_INPUT_HEADER: u8 = 0x49;

/// The response to a command that did not parse.
pub const RSP_UNKNOWN: u8 = 0x3F;

/// The response after which the device stops talking.
pub const RSP_DISCONNECTED: u8 = 0x04;

/// The two bytes that end every command.
pub const CMD_END: [u8; 2] = [0x0D, 0x0A];

/// The four bytes that end every response.
pub const RSP_END: [u8; 4] = [0x0D, 0x0A, 0x0D, 0x0A];

/// `CMD_END` as a sequence.
pub open spec fn cmd_end() -> Seq<u8> {
    seq![0x0Du8, 0x0Au8]
}

/// `RSP_END` as a sequence.
pub open spec fn rsp_end() -> Seq<u8> {
    seq![0x0Du8, 0x0Au8, 0x0Du8, 0x0Au8]
}

/// Whether `s` ends in the bytes of `t`.
pub open spec fn ends_with(s: Seq<u8>, t: Seq<u8>) -> bool {
    s.len() >= t.len() && s.subrange(s.len() - t.len(), s.len() as int) == t
}

/// What the host may ask of the device.
#[derive(Clone, Copy, Debug, PartialEq, Eq, Structural)]
pub enum Command {
    Greeting,
    GetInputKeys,
    Update,
    Disconnect,
    NegativeAck,
    Unknown,
}

impl Command {
    /// The command that a tag byte names.
    pub open spec fn spec_decode(w: u8) -> Command {
        if w == CMD_GREET {
            Command::Greeting
        } else if w == CMD_GET_INPUT_KEYS {
            Command::GetInputKeys
        } else if w == CMD_UPDATE {
            Command::Update
        } else if w == CMD_DISCONNECT {
            Command::Disconnect
        } else if w == CMD_NEGATIVE_ACK {
            Command::NegativeAck
        } else {
            Command::Unknown
        }
    }

    /// The tag byte of a command.
    pub open spec fn spec_tag(self) -> u8 {
        match self {
            Command::Greeting => CMD_GREET,
            Command::GetInputKeys => CMD_GET_INPUT_KEYS,
            Command::Update => CMD_UPDATE,
            Command::Disconnect => CMD_DISCONNECT,
            Command::NegativeAck => CMD_NEGATIVE_ACK,
            Command::Unknown => CMD_UNKNOWN,
        }
    }

    /// The command of a whole frame: the one that its tag names if the frame
    /// is that tag and `CMD_END` and nothing else, `Unknown` for every other
    /// frame.
    pub open spec fn spec_decode_frame(frame: Seq<u8>) -> Command {
        if frame.len() == 3 && frame.subrange(1, 3) == cmd_end() {
            Self::spec_decode(frame[0])
        } else {
            Command::Unknown
        }
    }

    pub fn decode(w: u8) -> (cmd: Command)
        ensures
            cmd == Self::spec_decode(w),
    {
        if w == CMD_GREET {
            Command::Greeting
        } else if w == CMD_GET_INPUT_KEYS {
            Command::GetInputKeys
        } else if w == CMD_UPDATE {
            Command::Update
        } else if w == CMD_DISCONNECT {
            Command::Disconnect
        } else if w == CMD_NEGATIVE_ACK {
            Command::NegativeAck
        } else {
            Command::Unknown
        }
    }

    pub fn tag(self) -> (w: u8)
        ensures
            w == self.spec_tag(),
            Self::spec_decode(w) == self,
    {
        match self {
            Command::Greeting => CMD_GREET,
            Command::GetInputKeys => CMD_GET_INPUT_KEYS,
            Command::Update => CMD_UPDATE,
            Command::Disconnect => CMD_DISCONNECT,
            Command::NegativeAck => CMD_NEGATIVE_ACK,
            Command::Unknown => CMD_UNKNOWN,
        }
    }

    /// Reads one frame as the device does.
    pub fn decode_frame(frame: &[u8]) -> (cmd: Command)
        ensures
            cmd == Self::spec_decode_frame(frame@),
    {
        if frame.len() == 3 && frame[1] == CMD_END[0] && frame[2] == CMD_END[1] {
            assert(frame@.subrange(1, 3) =~= cmd_end());
            Self::decode(frame[0])
        } else {
            if frame.len() == 3 {
                assert(frame@.subrange(1, 3)[0] == frame@[1]);
                assert(frame@.subrange(1, 3)[1] == frame@[2]);
            }
            Command::Unknown
        }
    }
}

/// The frame of the command with tag `tag`.
pub open spec fn command_frame(tag: u8) -> Seq<u8> {
    seq![tag] + cmd_end()
}

/// The response to a greeting: header, then identifier, firmware version
/// and device uid, each between delimiters, then the terminator.
pub open spec fn link_frame(identifier: u8, version: Seq<u8>, uid: Seq<u8>) -> Seq<u8> {
    seq![RSP_LINK_HEADER, RSP_LINK_DELIMITER, identifier, RSP_LINK_DELIMITER] + version
        + seq![RSP_LINK_DELIMITER] + uid + seq![RSP_LINK_DELIMITER] + rsp_end()
}

/// The response that carries `payload` as an input snapshot.
pub open spec fn input_frame(payload: Seq<u8>) -> Seq<u8> {
    seq![RSP_INPUT_HEADER] + payload + rsp_end()
}

/// The response that is one byte and the terminator.
pub open spec fn short_frame(header: u8) -> Seq<u8> {
    seq![header] + rsp_end()
}

/// Appends the bytes of `s` to `v`.
pub fn append_bytes(v: &mut Vec<u8>, s: &[u8])
    ensures
        final(v)@ == old(v)@ + s@,
{
    let mut i: usize = 0;
    while i < s.len()
        invariant
            i <= s.len(),
            v@ == old(v)@ + s@.subrange(0, i as int),
        decreases s.len() - i,
    {
        v.push(s[i]);
        i += 1;
        assert(v@ =~= old(v)@ + s@.subrange(0, i as int));
    }
    assert(s@.subrange(0, i as int) =~= s@);
}

/// Builds the frame of a command, as the host sends it.
pub fn encode_command(tag: u8) -> (frame: Vec<u8>)
    ensures
        frame@ == command_frame(tag),
        Command::spec_decode_frame(frame@) == Command::spec_decode(tag),
{
    let mut frame: Vec<u8> = Vec::new();
    frame.push(tag);
    frame.push(CMD_END[0]);
    frame.push(CMD_END[1]);
    assert(frame@ =~= command_frame(tag));
    assert(frame@.subrange(1, 3) =~= cmd_end());
    frame
}

/// Builds the response to a greeting, as the device sends it.
pub fn link_response(identifier: u8, firmware_version: &str, device_uid: &str) -> (frame: Vec<u8>)
    ensures
        frame@ == link_frame(identifier, firmware_version.spec_bytes(), device_uid.spec_bytes()),
        ends_with(frame@, rsp_end()),
{
    let mut frame: Vec<u8> = Vec::new();
    frame.push(RSP_LINK_HEADER);
    frame.push(RSP_LINK_DELIMITER);
    frame.push(identifier);
    frame.push(RSP_LINK_DELIMITER);
    append_bytes(&mut frame, firmware_version.as_bytes());
    frame.push(RSP_LINK_DELIMITER);
    append_bytes(&mut frame, device_uid.as_bytes());
    frame.push(RSP_LINK_DELIMITER);
    append_bytes(&mut frame, RSP_END.as_slice());
    assert(RSP_END@ =~= rsp_end());
    assert(frame@ =~= link_frame(
        identifier,
        firmware_version.spec_bytes(),
        device_uid.spec_bytes(),
    ));
    assert(frame@.subrange(frame@.len() - 4, frame@.len() as int) =~= rsp_end());
    frame
}

/// Builds the response that carries an input snapshot, as the device sends
/// it.
pub fn input_response(inputs: JBInputs) -> (frame: Vec<u8>)
    ensures
        frame@ == input_frame(inputs.spec_encode()),
        ends_with(frame@, rsp_end()),
{
    let mut frame: Vec<u8> = Vec::new();
    frame.push(RSP_INPUT_HEADER);
    let payload = inputs.encode();
    append_bytes(&mut frame, payload.as_slice());
    append_bytes(&mut frame, RSP_END.as_slice());
    assert(RSP_END@ =~= rsp_end());
    assert(frame@ =~= input_frame(inputs.spec_encode()));
    assert(frame@.subrange(frame@.len() - 4, frame@.len() as int) =~= rsp_end());
    frame
}

/// Builds a response of one byte, as the device sends it.
pub fn short_response(header: u8) -> (frame: Vec<u8>)
    ensures
        frame@ == short_frame(header),
        ends_with(frame@, rsp_end()),
{
    let mut frame: Vec<u8> = Vec::new();
    frame.push(header);
    append_bytes(&mut frame, RSP_END.as_slice());
    assert(RSP_END@ =~= rsp_end());
    assert(frame@ =~= short_frame(header));
    assert(frame@.subrange(frame@.len() - 4, frame@.len() as int) =~= rsp_end());
    frame
}

/// A command's tag survives the trip through its frame.
pub proof fn lemma_command_round_trip(cmd: Command)
    ensures
        Command::spec_decode_frame(command_frame(cmd.spec_tag())) == cmd,
        ends_with(command_frame(cmd.spec_tag()), cmd_end()),
{
    let frame = command_frame(cmd.spec_tag());
    assert(frame.subrange(1, 3) =~= cmd_end());
}

/// A frame that does not end in `CMD_END` names no command.
pub proof fn lemma_unterminated_command_is_unknown(frame: Seq<u8>)
    requires
        !ends_with(frame, cmd_end()),
    ensures
        Command::spec_decode_frame(frame) == Command::Unknown,
{
    if frame.len() == 3 {
        assert(frame.subrange(frame.len() - 2, frame.len() as int) == frame.subrange(1, 3));
    }
}

/// No identifier of an input surface is the tag of a command, the header of
/// a response or the delimiter.
pub proof fn lemma_identifiers_are_set_apart(identifier: u8)
    requires
        identifier == IDENT_KEY_INPUT || identifier == IDENT_KNOB_INPUT || identifier
            == IDENT_PEDAL_INPUT || identifier == IDENT_UNKNOWN_INPUT,
    ensures
        Command::spec_decode(identifier) == Command::Unknown,
        identifier != CMD_UNKNOWN,
        identifier != RSP_LINK_HEADER,
        identifier != RSP_LINK_DELIMITER,
        identifier != RSP_INPUT_HEADER,
        identifier != RSP_UNKNOWN,
        identifier != RSP_DISCONNECTED,
{
}

} // verus!
