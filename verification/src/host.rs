//! The host's half of the link.
//!
//! The host reads what the device answers and runs one session at a time:
//! greet, then poll the inputs at a fixed pace until the user asks for an
//! update or a disconnect, or until something goes wrong. Neither the reading
//! nor the waiting is done here. `SerialSession` is told what happened and
//! says what to send, what to report and whether the session is over.

use crate::keyset::KeySet;
use crate::peripheral::DecodeError;
use crate::peripheral::JBInputs;
use crate::protocol::command_frame;
use crate::protocol::encode_command;
use crate::protocol::ends_with;
use crate::protocol::input_frame;
use crate::protocol::link_frame;
use crate::protocol::rsp_end;
use crate::protocol::short_frame;
use crate::protocol::CMD_DISCONNECT;
use crate::protocol::CMD_GET_INPUT_KEYS;
use crate::protocol::CMD_GREET;
use crate::protocol::CMD_NEGATIVE_ACK;
use crate::protocol::CMD_UPDATE;
use crate::protocol::RSP_DISCONNECTED;
use crate::protocol::RSP_END;
use crate::protocol::RSP_INPUT_HEADER;
use crate::protocol::RSP_LINK_DELIMITER;
use crate::protocol::RSP_LINK_HEADER;
use crate::protocol::RSP_UNKNOWN;
use crate::reaction::InputKey;
use vstd::prelude::*;
use vstd::slice::slice_subrange;
use vstd::slice::slice_to_vec;
use vstd::utf8::decode_utf8;
use vstd::utf8::valid_utf8;

verus! {

/// Why a response ends the session.
#[derive(Clone, Copy, Debug, PartialEq, Eq, Structural)]
pub enum LinkError {
    /// The device answered that it did not understand the command.
    NotUnderstood,
    /// The first byte is not the header of the response that was due.
    HeaderMismatch,
    /// The response does not end in `RSP_END`.
    Unterminated,
    /// The response to the greeting lacks a field or a delimiter.
    MissingField,
    /// The firmware version is not text.
    VersionNotText,
    /// The device uid is not text.
    UidNotText,
    /// The payload is no snapshot of the surface that the link advertised.
    BadSnapshot(DecodeError),
    /// The acknowledgement carries more than its one byte.
    Mismatch,
}

/// What a device says of itself when a link is made.
#[derive(Clone, Debug)]
pub struct SerialConnectionDetails {
    pub input_identifier: u8,
    pub firmware_version: String,
    pub device_uid: String,
}

/// `SerialConnectionDetails` as the contracts see it.
pub struct Details {
    pub input_identifier: u8,
    pub firmware_version: Seq<char>,
    pub device_uid: Seq<char>,
}

impl View for SerialConnectionDetails {
    type V = Details;

    open spec fn view(&self) -> Details {
        Details {
            input_identifier: self.input_identifier,
            firmware_version: self.firmware_version@,
            device_uid: self.device_uid@,
        }
    }
}

/// What the user may ask of a linked device.
#[derive(Clone, Copy, Debug, PartialEq, Eq, Structural)]
pub enum SerialCommand {
    UpdateDevice,
    DisconnectDevice,
}

/// What a session reports.
#[derive(Clone, Debug)]
pub enum SerialEvent {
    Connected(SerialConnectionDetails),
    GetInputKeys(KeySet),
    LostConnection,
    Disconnected,
}

/// `SerialEvent` as the contracts see it.
pub enum Event {
    Connected(Details),
    GetInputKeys(Set<InputKey>),
    LostConnection,
    Disconnected,
}

impl View for SerialEvent {
    type V = Event;

    open spec fn view(&self) -> Event {
        match self {
            SerialEvent::Connected(d) => Event::Connected(d@),
            SerialEvent::GetInputKeys(k) => Event::GetInputKeys(k@),
            SerialEvent::LostConnection => Event::LostConnection,
            SerialEvent::Disconnected => Event::Disconnected,
        }
    }
}

impl SerialEvent {
    /// The key set, if the event carries one, holds no key twice.
    pub open spec fn wf(&self) -> bool {
        self matches SerialEvent::GetInputKeys(k) ==> k.wf()
    }
}

/// What the user is shown of the link: the kind of the last event that
/// said something of it.
#[derive(Clone, Copy, Debug, PartialEq, Eq, Structural)]
pub enum ConnectionStatus {
    Connected,
    LostConnection,
    Disconnected,
}

impl ConnectionStatus {
    /// The status once `event` has been seen. A snapshot of the keys says
    /// nothing of the link and leaves the status as it is.
    pub open spec fn spec_after(self, event: Event) -> ConnectionStatus {
        match event {
            Event::Connected(_) => ConnectionStatus::Connected,
            Event::LostConnection => ConnectionStatus::LostConnection,
            Event::Disconnected => ConnectionStatus::Disconnected,
            Event::GetInputKeys(_) => self,
        }
    }

    pub fn after(self, event: &SerialEvent) -> (status: ConnectionStatus)
        ensures
            status == self.spec_after(event@),
    {
        match event {
            SerialEvent::Connected(_) => ConnectionStatus::Connected,
            SerialEvent::LostConnection => ConnectionStatus::LostConnection,
            SerialEvent::Disconnected => ConnectionStatus::Disconnected,
            SerialEvent::GetInputKeys(_) => self,
        }
    }
}

/// `String::from_utf8`: the string whose UTF-8 encoding the bytes are, and
/// none if the bytes are no UTF-8 encoding.
#[verifier::external_body]
fn string_from_utf8(bytes: Vec<u8>) -> (r: Option<String>)
    ensures
        r is Some <==> valid_utf8(bytes@),
        r matches Some(s) ==> s@ == decode_utf8(bytes@),
{
    String::from_utf8(bytes).ok()
}

/// The first place at or after `from` where `s` holds `b`; the length of `s`
/// if there is none.
pub open spec fn position_of(s: Seq<u8>, b: u8, from: int) -> int
    decreases s.len() - from,
{
    if from < 0 || from >= s.len() {
        s.len() as int
    } else if s[from] == b {
        from
    } else {
        position_of(s, b, from + 1)
    }
}

fn find_byte(s: &[u8], b: u8, from: usize) -> (at: usize)
    ensures
        at == position_of(s@, b, from as int),
        at <= s@.len(),
        from <= s@.len() ==> from <= at,
{
    let mut i: usize = from;
    while i < s.len()
        invariant
            from <= i,
            position_of(s@, b, from as int) == position_of(s@, b, i as int),
        decreases s.len() - i,
    {
        if s[i] == b {
            return i;
        }
        i += 1;
    }
    s.len()
}

/// Whether the host has read a response to its end: the bytes so far end in
/// `RSP_END`. The read stops at the first byte after which this holds, so
/// what is handed on is the shortest run of the bytes that arrived whose last
/// four are `RSP_END`.
pub fn response_complete(buf: &[u8]) -> (done: bool)
    ensures
        done == ends_with(buf@, rsp_end()),
{
    let n = buf.len();
    if n < RSP_END.len() {
        return false;
    }
    let done = buf[n - 4] == RSP_END[0] && buf[n - 3] == RSP_END[1] && buf[n - 2] == RSP_END[2]
        && buf[n - 1] == RSP_END[3];
    proof {
        let t = buf@.subrange(n - 4, n as int);
        if done {
            assert(t =~= rsp_end());
        } else {
            assert(t[0] == buf@[n - 4] && t[1] == buf@[n - 3] && t[2] == buf@[n - 2] && t[3]
                == buf@[n - 1]);
        }
    }
    done
}

/// Milliseconds after which a response that is still not whole is given up.
pub const RESPONSE_TIMEOUT: u64 = 3000;

/// The bytes of one response as they come in.
#[derive(Debug)]
pub struct ResponseReader {
    buffer: Vec<u8>,
    started: u64,
}

impl View for ResponseReader {
    type V = Seq<u8>;

    /// The bytes read so far.
    closed spec fn view(&self) -> Seq<u8> {
        self.buffer@
    }
}

impl ResponseReader {
    /// When the reading began, in milliseconds.
    pub closed spec fn started(&self) -> u64 {
        self.started
    }

    /// A reader that begins at the time `now` with nothing read.
    pub fn new(now: u64) -> (r: Self)
        ensures
            r@ == Seq::<u8>::empty(),
            r.started() == now,
    {
        ResponseReader { buffer: Vec::new(), started: now }
    }

    /// Whether the response is overdue at the time `now`.
    pub fn timed_out(&self, now: u64) -> (late: bool)
        ensures
            late == (now - self.started() >= RESPONSE_TIMEOUT),
    {
        now >= self.started && now - self.started >= RESPONSE_TIMEOUT
    }

    /// Takes one more byte and says whether the bytes taken so far end in
    /// `RSP_END`, which ends the read.
    pub fn push(&mut self, byte: u8) -> (done: bool)
        ensures
            final(self)@ == old(self)@.push(byte),
            final(self).started() == old(self).started(),
            done == ends_with(final(self)@, rsp_end()),
    {
        self.buffer.push(byte);
        response_complete(self.buffer.as_slice())
    }

    /// Hands the bytes out.
    pub fn into_bytes(self) -> (bytes: Vec<u8>)
        ensures
            bytes@ == self@,
    {
        self.buffer
    }
}

/// What is wrong with the frame of a response that should start with
/// `header`, if anything. Bytes that are `RSP_END` and nothing else have no
/// header: no header is the first byte of `RSP_END`.
pub open spec fn frame_fault(resp: Seq<u8>, header: u8) -> Option<LinkError> {
    if resp == short_frame(RSP_UNKNOWN) {
        Some(LinkError::NotUnderstood)
    } else if resp.len() == 0 || resp[0] != header {
        Some(LinkError::HeaderMismatch)
    } else if !ends_with(resp, rsp_end()) {
        Some(LinkError::Unterminated)
    } else {
        None
    }
}

/// A response without a fault holds its header before `RSP_END`: it is
/// longer than the terminator alone.
pub proof fn lemma_faultless_frame_has_a_header(resp: Seq<u8>, header: u8)
    requires
        frame_fault(resp, header) is None,
        header != rsp_end()[0],
    ensures
        resp.len() > 4,
        resp[0] == header,
        resp.subrange(resp.len() - 4, resp.len() as int) == rsp_end(),
{
    if resp.len() == 4 {
        assert(resp.subrange(0, 4)[0] == resp[0]);
    }
}

fn check_frame(resp: &[u8], header: u8) -> (fault: Option<LinkError>)
    ensures
        fault == frame_fault(resp@, header),
{
    let complete = response_complete(resp);
    if complete && resp.len() == 5 && resp[0] == RSP_UNKNOWN {
        assert(resp@ =~= short_frame(RSP_UNKNOWN)) by {
            assert(resp@.subrange(1, 5) == rsp_end());
            assert(resp@ =~= seq![resp@[0]] + resp@.subrange(1, 5));
        }
        return Some(LinkError::NotUnderstood);
    }
    proof {
        if resp@ == short_frame(RSP_UNKNOWN) {
            assert(resp@.subrange(1, 5) =~= rsp_end());
        }
    }
    if resp.len() == 0 || resp[0] != header {
        return Some(LinkError::HeaderMismatch);
    }
    if !complete {
        return Some(LinkError::Unterminated);
    }
    None
}

/// What the response to a poll holds, read against the identifier that the
/// link advertised.
pub open spec fn spec_parse_input(identifier: u8, resp: Seq<u8>) -> Result<JBInputs, LinkError> {
    match frame_fault(resp, RSP_INPUT_HEADER) {
        Some(e) => Err(e),
        None => match JBInputs::spec_decode(identifier, resp.subrange(1, resp.len() - 4)) {
            Ok(inputs) => Ok(inputs),
            Err(e) => Err(LinkError::BadSnapshot(e)),
        },
    }
}

/// Reads the response to a poll.
pub fn parse_input_response(identifier: u8, resp: &[u8]) -> (r: Result<JBInputs, LinkError>)
    ensures
        r == spec_parse_input(identifier, resp@),
{
    match check_frame(resp, RSP_INPUT_HEADER) {
        Some(e) => Err(e),
        None => {
            proof {
                lemma_faultless_frame_has_a_header(resp@, RSP_INPUT_HEADER);
            }
            let payload = slice_subrange(resp, 1, resp.len() - 4);
            match JBInputs::decode(identifier, payload) {
                Ok(inputs) => Ok(inputs),
                Err(e) => Err(LinkError::BadSnapshot(e)),
            }
        },
    }
}

/// The three fields of the response to a greeting, as bytes: the identifier,
/// the firmware version and the device uid. The response is taken to start
/// with its header and to end in `RSP_END`; between them stand a delimiter, the
/// one identifier byte, a delimiter, the version, a delimiter, the uid and a
/// last delimiter, and nothing else.
pub open spec fn link_fields(resp: Seq<u8>) -> Option<(u8, Seq<u8>, Seq<u8>)> {
    let end = resp.len() - 4;
    let p = position_of(resp, RSP_LINK_DELIMITER, 4);
    let q = position_of(resp, RSP_LINK_DELIMITER, p + 1);
    if 4 <= end && resp[1] == RSP_LINK_DELIMITER && resp[2] != RSP_LINK_DELIMITER && resp[3]
        == RSP_LINK_DELIMITER && p < end && q == end - 1 {
        Some((resp[2], resp.subrange(4, p), resp.subrange(p + 1, q)))
    } else {
        None
    }
}

/// What the response to a greeting holds.
pub open spec fn spec_parse_link(resp: Seq<u8>) -> Result<Details, LinkError> {
    match frame_fault(resp, RSP_LINK_HEADER) {
        Some(e) => Err(e),
        None => match link_fields(resp) {
            None => Err(LinkError::MissingField),
            Some((identifier, version, uid)) => if !valid_utf8(version) {
                Err(LinkError::VersionNotText)
            } else if !valid_utf8(uid) {
                Err(LinkError::UidNotText)
            } else {
                Ok(
                    Details {
                        input_identifier: identifier,
                        firmware_version: decode_utf8(version),
                        device_uid: decode_utf8(uid),
                    },
                )
            },
        },
    }
}

/// Reads the response to a greeting.
pub fn parse_link_response(resp: &[u8]) -> (r: Result<SerialConnectionDetails, LinkError>)
    ensures
        match spec_parse_link(resp@) {
            Ok(d) => r matches Ok(details) && details@ == d,
            Err(e) => r matches Err(f) && f == e,
        },
{
    match check_frame(resp, RSP_LINK_HEADER) {
        Some(e) => {
            return Err(e);
        },
        None => {},
    }
    proof {
        lemma_faultless_frame_has_a_header(resp@, RSP_LINK_HEADER);
    }
    let end = resp.len() - 4;
    if end < 4 || resp[1] != RSP_LINK_DELIMITER || resp[2] == RSP_LINK_DELIMITER || resp[3]
        != RSP_LINK_DELIMITER {
        return Err(LinkError::MissingField);
    }
    let p = find_byte(resp, RSP_LINK_DELIMITER, 4);
    if p >= end {
        return Err(LinkError::MissingField);
    }
    let q = find_byte(resp, RSP_LINK_DELIMITER, p + 1);
    if q != end - 1 {
        return Err(LinkError::MissingField);
    }
    let version = match string_from_utf8(slice_to_vec(slice_subrange(resp, 4, p))) {
        Some(s) => s,
        None => {
            return Err(LinkError::VersionNotText);
        },
    };
    let uid = match string_from_utf8(slice_to_vec(slice_subrange(resp, p + 1, q))) {
        Some(s) => s,
        None => {
            return Err(LinkError::UidNotText);
        },
    };
    Ok(
        SerialConnectionDetails {
            input_identifier: resp[2],
            firmware_version: version,
            device_uid: uid,
        },
    )
}

/// What is wrong with the acknowledgement of an update or a disconnect, if
/// anything: it must be `RSP_DISCONNECTED` and the terminator.
pub open spec fn spec_check_goodbye(resp: Seq<u8>) -> Result<(), LinkError> {
    match frame_fault(resp, RSP_DISCONNECTED) {
        Some(e) => Err(e),
        None => if resp.len() == 5 {
            Ok(())
        } else {
            Err(LinkError::Mismatch)
        },
    }
}

/// Reads the acknowledgement of an update or a disconnect.
pub fn check_goodbye(resp: &[u8]) -> (r: Result<(), LinkError>)
    ensures
        r == spec_check_goodbye(resp@),
        r is Ok <==> resp@ == short_frame(RSP_DISCONNECTED),
{
    proof {
        if resp@ == short_frame(RSP_DISCONNECTED) {
            assert(resp@.subrange(1, 5) =~= rsp_end());
        }
    }
    match check_frame(resp, RSP_DISCONNECTED) {
        Some(e) => Err(e),
        None => if resp.len() == 5 {
            assert(resp@ =~= short_frame(RSP_DISCONNECTED)) by {
                assert(resp@.subrange(1, 5) == rsp_end());
                assert(resp@ =~= seq![resp@[0]] + resp@.subrange(1, 5));
            }
            Ok(())
        } else {
            Err(LinkError::Mismatch)
        },
    }
}

/// Where a session stands.
#[derive(Clone, Copy, Debug, PartialEq, Eq, Structural)]
pub enum SessionState {
    /// Nothing has been sent yet.
    Idle,
    /// The greeting is out and its response is due.
    Greeting,
    /// The link stands and no command is out. The byte is the identifier
    /// that the device advertised.
    Linked(u8),
    /// A poll is out and its response is due.
    Polling(u8),
    /// An update or a disconnect is out and its acknowledgement is due.
    Closing,
    /// The session is over.
    Ended,
}

/// What a session is told.
#[derive(Debug)]
pub enum SessionInput {
    /// The port is open.
    Start,
    /// A whole response has been read.
    Response(Vec<u8>),
    /// A write or a flush failed, or no whole response came in time.
    TransportFailed,
    /// It is time for the next poll.
    PollDue,
    /// The user asks for something.
    Command(SerialCommand),
}

/// `SessionInput` as the contracts see it.
pub enum Input {
    Start,
    Response(Seq<u8>),
    TransportFailed,
    PollDue,
    Command(SerialCommand),
}

impl View for SessionInput {
    type V = Input;

    open spec fn view(&self) -> Input {
        match self {
            SessionInput::Start => Input::Start,
            SessionInput::Response(r) => Input::Response(r@),
            SessionInput::TransportFailed => Input::TransportFailed,
            SessionInput::PollDue => Input::PollDue,
            SessionInput::Command(c) => Input::Command(*c),
        }
    }
}

/// What a session asks of its caller.
#[derive(Debug)]
pub struct SessionOutput {
    /// The bytes to write to the device and flush; empty for nothing.
    pub send: Vec<u8>,
    /// Whether a response to what was sent is to be read.
    pub await_response: bool,
    /// What to report, if anything.
    pub event: Option<SerialEvent>,
    /// Whether the session is over and the port is to be dropped.
    pub finished: bool,
}

/// `SessionOutput` as the contracts see it.
pub struct Output {
    pub send: Seq<u8>,
    pub await_response: bool,
    pub event: Option<Event>,
    pub finished: bool,
}

impl View for SessionOutput {
    type V = Output;

    open spec fn view(&self) -> Output {
        Output {
            send: self.send@,
            await_response: self.await_response,
            event: match self.event {
                Some(e) => Some(e@),
                None => None,
            },
            finished: self.finished,
        }
    }
}

/// The output that sends the command with tag `tag` and waits for its
/// response.
pub open spec fn ask(tag: u8) -> Output {
    Output { send: command_frame(tag), await_response: true, event: None, finished: false }
}

/// The output that reports `event` and goes on.
pub open spec fn report(event: Event) -> Output {
    Output { send: Seq::<u8>::empty(), await_response: false, event: Some(event), finished: false }
}

/// The output that asks for nothing.
pub open spec fn nothing(finished: bool) -> Output {
    Output { send: Seq::<u8>::empty(), await_response: false, event: None, finished }
}

/// The output that ends a session whose device can still be told: a
/// negative acknowledgement goes out and the loss is reported.
pub open spec fn refuse() -> Output {
    Output {
        send: command_frame(CMD_NEGATIVE_ACK),
        await_response: false,
        event: Some(Event::LostConnection),
        finished: true,
    }
}

/// The output that ends a session whose transport failed: the loss is
/// reported and nothing is sent.
pub open spec fn lose() -> Output {
    Output {
        send: Seq::<u8>::empty(),
        await_response: false,
        event: Some(Event::LostConnection),
        finished: true,
    }
}

/// The output that ends a session in good order.
pub open spec fn part() -> Output {
    Output {
        send: Seq::<u8>::empty(),
        await_response: false,
        event: Some(Event::Disconnected),
        finished: true,
    }
}

/// One step of a session: the state it goes to and what it asks for. An
/// input that the state has no use for is ignored.
pub open spec fn session_step(state: SessionState, input: Input) -> (SessionState, Output) {
    match (state, input) {
        (SessionState::Ended, _) => (state, nothing(true)),
        (_, Input::TransportFailed) => (SessionState::Ended, lose()),
        (SessionState::Idle, Input::Start) => (SessionState::Greeting, ask(CMD_GREET)),
        (SessionState::Greeting, Input::Response(r)) => match spec_parse_link(r) {
            Ok(d) => (SessionState::Linked(d.input_identifier), report(Event::Connected(d))),
            Err(_) => (SessionState::Ended, refuse()),
        },
        (SessionState::Linked(id), Input::PollDue) => (
            SessionState::Polling(id),
            ask(CMD_GET_INPUT_KEYS),
        ),
        (SessionState::Linked(_), Input::Command(SerialCommand::UpdateDevice)) => (
            SessionState::Closing,
            ask(CMD_UPDATE),
        ),
        (SessionState::Linked(_), Input::Command(SerialCommand::DisconnectDevice)) => (
            SessionState::Closing,
            ask(CMD_DISCONNECT),
        ),
        (SessionState::Polling(id), Input::Response(r)) => match spec_parse_input(id, r) {
            Ok(inputs) => (
                SessionState::Linked(id),
                report(Event::GetInputKeys(InputKey::spec_trans_inputs(inputs))),
            ),
            Err(_) => (SessionState::Ended, refuse()),
        },
        (SessionState::Closing, Input::Response(r)) => match spec_check_goodbye(r) {
            Ok(_) => (SessionState::Ended, part()),
            Err(_) => (SessionState::Ended, refuse()),
        },
        _ => (state, nothing(false)),
    }
}

/// One session of the host with a device.
#[derive(Debug)]
pub struct SerialSession {
    state: SessionState,
}

impl SerialSession {
    /// Where the session stands.
    pub closed spec fn spec_state(&self) -> SessionState {
        self.state
    }

    /// A session that has not begun.
    pub fn new() -> (s: Self)
        ensures
            s.spec_state() == SessionState::Idle,
    {
        SerialSession { state: SessionState::Idle }
    }

    pub fn state(&self) -> (s: SessionState)
        ensures
            s == self.spec_state(),
    {
        self.state
    }

    fn ask(tag: u8) -> (out: SessionOutput)
        ensures
            out@ == ask(tag),
    {
        SessionOutput {
            send: encode_command(tag),
            await_response: true,
            event: None,
            finished: false,
        }
    }

    fn refuse() -> (out: SessionOutput)
        ensures
            out@ == refuse(),
    {
        SessionOutput {
            send: encode_command(CMD_NEGATIVE_ACK),
            await_response: false,
            event: Some(SerialEvent::LostConnection),
            finished: true,
        }
    }

    /// Takes one input and says what is to be done.
    pub fn step(&mut self, input: SessionInput) -> (out: SessionOutput)
        ensures
            (final(self).spec_state(), out@) == session_step(old(self).spec_state(), input@),
            out.event matches Some(e) ==> e.wf(),
    {
        match (self.state, input) {
            (SessionState::Ended, _) => SessionOutput {
                send: Vec::new(),
                await_response: false,
                event: None,
                finished: true,
            },
            (_, SessionInput::TransportFailed) => {
                self.state = SessionState::Ended;
                SessionOutput {
                    send: Vec::new(),
                    await_response: false,
                    event: Some(SerialEvent::LostConnection),
                    finished: true,
                }
            },
            (SessionState::Idle, SessionInput::Start) => {
                self.state = SessionState::Greeting;
                Self::ask(CMD_GREET)
            },
            (SessionState::Greeting, SessionInput::Response(r)) => {
                match parse_link_response(r.as_slice()) {
                    Ok(details) => {
                        self.state = SessionState::Linked(details.input_identifier);
                        SessionOutput {
                            send: Vec::new(),
                            await_response: false,
                            event: Some(SerialEvent::Connected(details)),
                            finished: false,
                        }
                    },
                    Err(_) => {
                        self.state = SessionState::Ended;
                        Self::refuse()
                    },
                }
            },
            (SessionState::Linked(id), SessionInput::PollDue) => {
                self.state = SessionState::Polling(id);
                Self::ask(CMD_GET_INPUT_KEYS)
            },
            (SessionState::Linked(_), SessionInput::Command(SerialCommand::UpdateDevice)) => {
                self.state = SessionState::Closing;
                Self::ask(CMD_UPDATE)
            },
            (SessionState::Linked(_), SessionInput::Command(SerialCommand::DisconnectDevice)) => {
                self.state = SessionState::Closing;
                Self::ask(CMD_DISCONNECT)
            },
            (SessionState::Polling(id), SessionInput::Response(r)) => {
                match parse_input_response(id, r.as_slice()) {
                    Ok(inputs) => {
                        self.state = SessionState::Linked(id);
                        SessionOutput {
                            send: Vec::new(),
                            await_response: false,
                            event: Some(SerialEvent::GetInputKeys(InputKey::trans_inputs(inputs))),
                            finished: false,
                        }
                    },
                    Err(_) => {
                        self.state = SessionState::Ended;
                        Self::refuse()
                    },
                }
            },
            (SessionState::Closing, SessionInput::Response(r)) => {
                self.state = SessionState::Ended;
                match check_goodbye(r.as_slice()) {
                    Ok(_) => SessionOutput {
                        send: Vec::new(),
                        await_response: false,
                        event: Some(SerialEvent::Disconnected),
                        finished: true,
                    },
                    Err(_) => Self::refuse(),
                }
            },
            _ => SessionOutput {
                send: Vec::new(),
                await_response: false,
                event: None,
                finished: false,
            },
        }
    }
}

/// Whether a session in this state is waiting for a response.
pub open spec fn awaits_response(state: SessionState) -> bool {
    state is Greeting || state is Polling || state is Closing
}

/// A session has at most one command out. It sends a command that wants a
/// response only when none is due, and is then waiting for that response;
/// while it waits it sends nothing but the negative acknowledgement that ends
/// it.
pub proof fn lemma_one_command_at_a_time(state: SessionState, input: Input)
    ensures
        ({
            let (next, out) = session_step(state, input);
            &&& out.await_response ==> !awaits_response(state) && awaits_response(next)
            &&& awaits_response(state) ==> out.send.len() == 0 || (out.send == command_frame(
                CMD_NEGATIVE_ACK,
            ) && next == SessionState::Ended)
            &&& out.finished <==> next == SessionState::Ended
        }),
{
}

/// An update or a disconnect is the last command of a session: once one is
/// out, the session polls no more and greets no more, whatever it is told.
pub proof fn lemma_closing_is_final(state: SessionState, input: Input)
    requires
        state == SessionState::Closing || state == SessionState::Ended,
    ensures
        ({
            let (next, out) = session_step(state, input);
            &&& next == SessionState::Closing || next == SessionState::Ended
            &&& out.send.len() == 0 || out.send == command_frame(CMD_NEGATIVE_ACK)
            &&& !out.await_response
        }),
{
}

proof fn lemma_position_of(s: Seq<u8>, b: u8, from: int, at: int)
    requires
        0 <= from <= at <= s.len(),
        forall|j: int| from <= j < at ==> s[j] != b,
        at < s.len() ==> s[at] == b,
    ensures
        position_of(s, b, from) == at,
    decreases at - from,
{
    if from < at {
        lemma_position_of(s, b, from + 1, at);
    }
}

/// Reading the response that carries a snapshot, against the identifier of
/// the snapshot's own surface, gives the snapshot back.
pub proof fn lemma_input_round_trip(inputs: JBInputs)
    ensures
        spec_parse_input(inputs.spec_identifier(), input_frame(inputs.spec_encode())) == Ok::<
            JBInputs,
            LinkError,
        >(inputs),
{
    let payload = inputs.spec_encode();
    let frame = input_frame(payload);
    crate::peripheral::lemma_snapshot_round_trip(inputs);
    assert(frame.subrange(frame.len() - 4, frame.len() as int) =~= rsp_end());
    assert(frame.subrange(1, frame.len() - 4) =~= payload);
    assert(frame[0] == RSP_INPUT_HEADER);
    assert(short_frame(RSP_UNKNOWN)[0] == RSP_UNKNOWN);
}

/// Reading the response to a greeting gives back the identifier, the
/// firmware version and the device uid that it was built from, provided that
/// none of them holds the delimiter.
pub proof fn lemma_link_round_trip(identifier: u8, version: Seq<char>, uid: Seq<char>)
    requires
        identifier != RSP_LINK_DELIMITER,
        !vstd::utf8::encode_utf8(version).contains(RSP_LINK_DELIMITER),
        !vstd::utf8::encode_utf8(uid).contains(RSP_LINK_DELIMITER),
    ensures
        spec_parse_link(
            link_frame(identifier, vstd::utf8::encode_utf8(version), vstd::utf8::encode_utf8(uid)),
        ) == Ok::<Details, LinkError>(
            Details { input_identifier: identifier, firmware_version: version, device_uid: uid },
        ),
{
    let v = vstd::utf8::encode_utf8(version);
    let u = vstd::utf8::encode_utf8(uid);
    let frame = link_frame(identifier, v, u);
    let p: int = 4 + v.len() as int;
    let q: int = p + 1 + u.len() as int;
    let end = frame.len() - 4;
    assert(q == end - 1);
    assert(frame[0] == RSP_LINK_HEADER);
    assert(short_frame(RSP_UNKNOWN)[0] == RSP_UNKNOWN);
    assert(frame.subrange(frame.len() - 4, frame.len() as int) =~= rsp_end());
    assert forall|j: int| 4 <= j < p implies frame[j] != RSP_LINK_DELIMITER by {
        assert(frame[j] == v[j - 4]);
        assert(v.contains(v[j - 4]));
    }
    assert(frame[p] == RSP_LINK_DELIMITER);
    lemma_position_of(frame, RSP_LINK_DELIMITER, 4, p);
    assert forall|j: int| p + 1 <= j < q implies frame[j] != RSP_LINK_DELIMITER by {
        assert(frame[j] == u[j - p - 1]);
        assert(u.contains(u[j - p - 1]));
    }
    assert(frame[q] == RSP_LINK_DELIMITER);
    lemma_position_of(frame, RSP_LINK_DELIMITER, p + 1, q);
    assert(frame.subrange(4, p) =~= v);
    assert(frame.subrange(p + 1, q) =~= u);
    vstd::utf8::encode_utf8_valid_utf8(version);
    vstd::utf8::encode_utf8_valid_utf8(uid);
    vstd::utf8::encode_utf8_decode_utf8(version);
    vstd::utf8::encode_utf8_decode_utf8(uid);
}

/// No reader takes a response that does not end in `RSP_END`.
pub proof fn lemma_unterminated_response_is_refused(identifier: u8, resp: Seq<u8>)
    requires
        !ends_with(resp, rsp_end()),
    ensures
        spec_parse_link(resp) is Err,
        spec_parse_input(identifier, resp) is Err,
        spec_check_goodbye(resp) is Err,
{
}

} // verus!
