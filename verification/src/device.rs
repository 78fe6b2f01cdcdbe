//! The device's half of the link.
//!
//! `SerialMod` gathers the bytes that arrive from the host, cuts the earliest
//! command off them, and decides what to answer and which state to go to. It
//! does no input or output itself: each call of `update` is told the time and
//! the bytes that came in, and says what is to be written back.

use crate::peripheral::Connection;
use crate::peripheral::JBInputs;
use crate::protocol::cmd_end;
use crate::protocol::input_frame;
use crate::protocol::input_response;
use crate::protocol::link_frame;
use crate::protocol::link_response;
use crate::protocol::short_frame;
use crate::protocol::short_response;
use crate::protocol::Command;
use crate::protocol::CMD_END;
use crate::protocol::RSP_DISCONNECTED;
use crate::protocol::RSP_UNKNOWN;
use crate::ring::pushed;
use crate::ring::ByteRing;
use crate::ring::BUFFER_SIZE;
use vstd::prelude::*;
use vstd::string::StringSliceAdditionalSpecFns;

verus! {

/// How long, in milliseconds, a link lasts without a valid command.
pub const KEEPALIVE: u64 = 250;

/// What the device says in answer to a command.
#[derive(Clone, Copy, Debug, PartialEq, Eq, Structural)]
pub enum Reply {
    /// Nothing at all.
    Silent,
    /// Identifier, firmware version and device uid.
    Link,
    /// The current input snapshot.
    Input,
    /// The command was not understood, or not allowed in this state.
    Unknown,
    /// The link is closed.
    Disconnected,
}

/// What a command does to the link.
#[derive(Clone, Copy, Debug, PartialEq, Eq, Structural)]
pub struct Outcome {
    /// The state after the command.
    pub state: Connection,
    /// What is said in answer.
    pub reply: Reply,
    /// Whether the device is to shut down for an update.
    pub arm_update: bool,
    /// Whether the command counts as a sign of life from the host.
    pub valid: bool,
}

/// The transition table of the link.
pub open spec fn spec_dispatch(state: Connection, cmd: Command) -> Outcome {
    if cmd == Command::Update {
        Outcome {
            state: Connection::NotConnected(true),
            reply: Reply::Disconnected,
            arm_update: true,
            valid: true,
        }
    } else if state != Connection::Connected && cmd == Command::Greeting {
        Outcome { state: Connection::Connected, reply: Reply::Link, arm_update: false, valid: true }
    } else if state == Connection::Connected && cmd == Command::GetInputKeys {
        Outcome { state: Connection::Connected, reply: Reply::Input, arm_update: false, valid: true }
    } else if state == Connection::Connected && cmd == Command::Disconnect {
        Outcome {
            state: Connection::NotConnected(true),
            reply: Reply::Disconnected,
            arm_update: false,
            valid: true,
        }
    } else if state == Connection::Connected && cmd == Command::NegativeAck {
        Outcome {
            state: Connection::NotConnected(false),
            reply: Reply::Silent,
            arm_update: false,
            valid: false,
        }
    } else {
        Outcome { state, reply: Reply::Unknown, arm_update: false, valid: false }
    }
}

/// Looks a command up in the transition table.
pub fn dispatch(state: Connection, cmd: Command) -> (out: Outcome)
    ensures
        out == spec_dispatch(state, cmd),
{
    match (state, cmd) {
        (_, Command::Update) => Outcome {
            state: Connection::NotConnected(true),
            reply: Reply::Disconnected,
            arm_update: true,
            valid: true,
        },
        (Connection::NotConnected(_), Command::Greeting) => Outcome {
            state: Connection::Connected,
            reply: Reply::Link,
            arm_update: false,
            valid: true,
        },
        (Connection::Connected, Command::GetInputKeys) => Outcome {
            state: Connection::Connected,
            reply: Reply::Input,
            arm_update: false,
            valid: true,
        },
        (Connection::Connected, Command::Disconnect) => Outcome {
            state: Connection::NotConnected(true),
            reply: Reply::Disconnected,
            arm_update: false,
            valid: true,
        },
        (Connection::Connected, Command::NegativeAck) => Outcome {
            state: Connection::NotConnected(false),
            reply: Reply::Silent,
            arm_update: false,
            valid: false,
        },
        _ => Outcome { state, reply: Reply::Unknown, arm_update: false, valid: false },
    }
}

/// Whether the keepalive window that began at `from` has run out at `now`.
pub open spec fn keepalive_expired(from: u64, now: u64) -> bool {
    now - from >= KEEPALIVE
}

/// The state once the keepalive has been looked at: a link whose window has
/// run out is dropped and marked as failed.
pub open spec fn after_expiry(state: Connection, from: u64, now: u64) -> Connection {
    if state == Connection::Connected && keepalive_expired(from, now) {
        Connection::NotConnected(false)
    } else {
        state
    }
}

/// The youngest `BUFFER_SIZE` bytes of `s`.
pub open spec fn keep_last(s: Seq<u8>) -> Seq<u8> {
    if s.len() <= BUFFER_SIZE {
        s
    } else {
        s.subrange(s.len() - BUFFER_SIZE, s.len() as int)
    }
}

/// Where the earliest command in `s` that starts its terminator at `from` or
/// later ends: one past the first `CMD_END`.
pub open spec fn scan_command_end(s: Seq<u8>, from: int) -> Option<int>
    decreases s.len() - from,
{
    if from < 0 || from + 1 >= s.len() {
        None
    } else if s[from] == 0x0D && s[from + 1] == 0x0A {
        Some(from + 2)
    } else {
        scan_command_end(s, from + 1)
    }
}

/// The length of the earliest command in `s`, terminator included.
pub open spec fn first_command_end(s: Seq<u8>) -> Option<int> {
    scan_command_end(s, 0)
}

/// The bytes of a reply.
pub open spec fn reply_bytes(
    reply: Reply,
    identifier: u8,
    version: Seq<u8>,
    uid: Seq<u8>,
    snapshot: Seq<u8>,
) -> Seq<u8> {
    match reply {
        Reply::Silent => Seq::<u8>::empty(),
        Reply::Link => link_frame(identifier, version, uid),
        Reply::Input => input_frame(snapshot),
        Reply::Unknown => short_frame(RSP_UNKNOWN),
        Reply::Disconnected => short_frame(RSP_DISCONNECTED),
    }
}

/// The engine as the contracts see it.
pub struct Engine {
    /// The state of the link.
    pub state: Connection,
    /// The bytes received and not yet consumed, oldest first.
    pub buffer: Seq<u8>,
    /// When the keepalive window last began.
    pub keepalive_from: u64,
    /// The identifier of the device's input surface.
    pub identifier: u8,
}

/// What one update is given.
pub struct Tick {
    /// The time, in milliseconds.
    pub now: u64,
    /// The bytes that arrived since the last update.
    pub received: Seq<u8>,
    /// The firmware version, as bytes.
    pub version: Seq<u8>,
    /// The device uid, as bytes.
    pub uid: Seq<u8>,
    /// The wire form of the current input snapshot.
    pub snapshot: Seq<u8>,
}

/// What one update comes to.
pub struct Step {
    /// The engine after the update.
    pub engine: Engine,
    /// The command that was cut off the buffer, if one was complete.
    pub command: Option<Command>,
    /// Whether that command counted as a sign of life.
    pub valid: bool,
    /// The bytes to send to the host; none for silence.
    pub response: Seq<u8>,
    /// Whether the device is to shut down for an update.
    pub update_requested: bool,
}

/// One update: the keepalive is looked at, the new bytes join the buffer, and
/// the earliest complete command, if there is one, is cut off and answered.
pub open spec fn step(e: Engine, t: Tick) -> Step {
    let state = after_expiry(e.state, e.keepalive_from, t.now);
    let buffer = keep_last(e.buffer + t.received);
    match first_command_end(buffer) {
        None => Step {
            engine: Engine { state, buffer, keepalive_from: e.keepalive_from, identifier: e.identifier },
            command: None,
            valid: false,
            response: Seq::<u8>::empty(),
            update_requested: false,
        },
        Some(n) => {
            let cmd = Command::spec_decode_frame(buffer.subrange(0, n));
            let out = spec_dispatch(state, cmd);
            Step {
                engine: Engine {
                    state: out.state,
                    buffer: buffer.subrange(n, buffer.len() as int),
                    keepalive_from: if out.valid {
                        t.now
                    } else {
                        e.keepalive_from
                    },
                    identifier: e.identifier,
                },
                command: Some(cmd),
                valid: out.valid,
                response: reply_bytes(out.reply, e.identifier, t.version, t.uid, t.snapshot),
                update_requested: out.arm_update,
            }
        },
    }
}

/// What the engine asks of its caller after an update.
pub struct SerialReply {
    /// The bytes to write to the host, in one or more chunks; empty when
    /// nothing is to be said.
    pub response: Vec<u8>,
    /// Whether the update trigger is to be set.
    pub update_requested: bool,
}

/// The device's serial engine.
pub struct SerialMod {
    buffer: ByteRing,
    state: Connection,
    keepalive_from: u64,
    identifier: u8,
}

impl View for SerialMod {
    type V = Engine;

    closed spec fn view(&self) -> Engine {
        Engine {
            state: self.state,
            buffer: self.buffer@,
            keepalive_from: self.keepalive_from,
            identifier: self.identifier,
        }
    }
}

impl SerialMod {
    /// The receive buffer is in order.
    pub closed spec fn wf(&self) -> bool {
        self.buffer.wf()
    }

    /// The engine never holds more than the receive buffer takes.
    pub proof fn lemma_buffer_bounded(&self)
        requires
            self.wf(),
        ensures
            self@.buffer.len() <= BUFFER_SIZE,
    {
        self.buffer.lemma_bounded();
    }

    /// An engine for a device with the input surface `identifier`, started at
    /// the time `now`: idle, with nothing received.
    pub fn new(identifier: u8, now: u64) -> (s: Self)
        ensures
            s.wf(),
            s@ == (Engine {
                state: Connection::NotConnected(true),
                buffer: Seq::<u8>::empty(),
                keepalive_from: now,
                identifier,
            }),
    {
        SerialMod {
            buffer: ByteRing::new(),
            state: Connection::NotConnected(true),
            keepalive_from: now,
            identifier,
        }
    }

    pub fn get_connection_status(&self) -> (c: Connection)
        ensures
            c == self@.state,
    {
        self.state
    }

    /// Takes the received bytes into the buffer.
    fn receive(&mut self, received: &[u8])
        requires
            old(self).wf(),
        ensures
            final(self).wf(),
            final(self)@ == (Engine { buffer: keep_last(old(self)@.buffer + received@), ..old(self)@ }),
    {
        proof {
            self.buffer.lemma_bounded();
        }
        let mut i: usize = 0;
        while i < received.len()
            invariant
                i <= received.len(),
                self.buffer.wf(),
                old(self)@.buffer.len() <= BUFFER_SIZE,
                self.state == old(self).state,
                self.keepalive_from == old(self).keepalive_from,
                self.identifier == old(self).identifier,
                self.buffer@ == keep_last(old(self)@.buffer + received@.subrange(0, i as int)),
            decreases received.len() - i,
        {
            let ghost before = old(self)@.buffer + received@.subrange(0, i as int);
            self.buffer.push(received[i]);
            i += 1;
            assert(old(self)@.buffer + received@.subrange(0, i as int) =~= before.push(
                received@[i - 1],
            ));
            assert(pushed(keep_last(before), received@[i - 1]) =~= keep_last(
                before.push(received@[i - 1]),
            ));
        }
        assert(received@.subrange(0, i as int) =~= received@);
        assert(old(self)@.buffer + Seq::<u8>::empty() =~= old(self)@.buffer);
    }

    /// Looks for the earliest complete command in the buffer and gives its
    /// length, terminator included: one past the first place where `CMD_END`
    /// ends. A buffer that holds no `CMD_END` holds no command. The buffer is
    /// left as it is.
    pub fn check_cmd(&self) -> (size: Option<usize>)
        requires
            self.wf(),
        ensures
            match size {
                Some(n) => {
                    &&& first_command_end(self@.buffer) == Some(n as int)
                    &&& is_command_end(self@.buffer, n as int)
                    &&& forall|m: int| m < n ==> !is_command_end(self@.buffer, m)
                },
                None => {
                    &&& first_command_end(self@.buffer) is None
                    &&& forall|m: int| !is_command_end(self@.buffer, m)
                },
            },
    {
        let pairs = self.buffer.pairs();
        proof {
            self.buffer.lemma_bounded();
        }
        let mut i: usize = 0;
        while i < pairs.len()
            invariant
                i <= pairs.len(),
                self.buffer@.len() <= BUFFER_SIZE,
                pairs@.len() == (if self.buffer@.len() == 0 {
                    0
                } else {
                    self.buffer@.len() - 1
                }),
                forall|k: int|
                    0 <= k < pairs@.len() ==> #[trigger] pairs@[k] == (
                        self.buffer@[k],
                        self.buffer@[k + 1],
                    ),
                first_command_end(self.buffer@) == scan_command_end(self.buffer@, i as int),
            decreases pairs.len() - i,
        {
            let pair = pairs[i];
            assert(pair == (self.buffer@[i as int], self.buffer@[i + 1]));
            if pair.0 == CMD_END[0] && pair.1 == CMD_END[1] {
                proof {
                    lemma_first_command_end(self.buffer@);
                }
                return Some(i + 2);
            }
            i += 1;
        }
        proof {
            lemma_first_command_end(self.buffer@);
        }
        None
    }

    /// Cuts the first `size` bytes off the buffer and reads them as one
    /// command.
    fn decode_cmd(&mut self, size: usize) -> (cmd: Command)
        requires
            old(self).wf(),
            size <= old(self)@.buffer.len(),
        ensures
            final(self).wf(),
            cmd == Command::spec_decode_frame(old(self)@.buffer.subrange(0, size as int)),
            final(self)@ == (Engine {
                buffer: old(self)@.buffer.subrange(size as int, old(self)@.buffer.len() as int),
                ..old(self)@
            }),
    {
        let ghost frame = self@.buffer.subrange(0, size as int);
        let mut cmd = Command::Unknown;
        if size == 3 {
            let w1 = self.buffer.get(0);
            let w2 = self.buffer.get(1);
            let w3 = self.buffer.get(2);
            match (w1, w2, w3) {
                (Some(w1), Some(w2), Some(w3)) => {
                    if w2 == CMD_END[0] && w3 == CMD_END[1] {
                        assert(frame.subrange(1, 3) =~= cmd_end());
                        cmd = Command::decode(w1);
                    } else {
                        assert(frame.subrange(1, 3)[0] == frame[1]);
                        assert(frame.subrange(1, 3)[1] == frame[2]);
                    }
                },
                _ => {},
            }
        }
        let mut i: usize = 0;
        while i < size
            invariant
                i <= size <= old(self)@.buffer.len(),
                self.buffer.wf(),
                self.state == old(self).state,
                self.keepalive_from == old(self).keepalive_from,
                self.identifier == old(self).identifier,
                self.buffer@ == old(self)@.buffer.subrange(i as int, old(self)@.buffer.len() as int),
            decreases size - i,
        {
            let _ = self.buffer.dequeue();
            i += 1;
            assert(self.buffer@ =~= old(self)@.buffer.subrange(
                i as int,
                old(self)@.buffer.len() as int,
            ));
        }
        cmd
    }

    /// One turn of the engine. `now` is the time in milliseconds, `received`
    /// the bytes that arrived from the host since the last turn, `inputs` the
    /// snapshot that the scanner last published.
    ///
    /// A link that has heard no valid command for `KEEPALIVE` milliseconds is
    /// dropped without a word. Then the earliest complete command in the
    /// buffer, if there is one, is consumed and answered as the transition
    /// table says; a valid one starts the keepalive window anew.
    pub fn update(
        &mut self,
        now: u64,
        received: &[u8],
        firmware_version: &str,
        device_uid: &str,
        inputs: JBInputs,
    ) -> (reply: SerialReply)
        requires
            old(self).wf(),
        ensures
            final(self).wf(),
            ({
                let s = step(
                    old(self)@,
                    Tick {
                        now,
                        received: received@,
                        version: firmware_version.spec_bytes(),
                        uid: device_uid.spec_bytes(),
                        snapshot: inputs.spec_encode(),
                    },
                );
                &&& final(self)@ == s.engine
                &&& reply.response@ == s.response
                &&& reply.update_requested == s.update_requested
            }),
    {
        if self.state.connected() && now >= self.keepalive_from && now - self.keepalive_from
            >= KEEPALIVE {
            self.state = Connection::NotConnected(false);
        }
        self.receive(received);
        let size = match self.check_cmd() {
            None => {
                return SerialReply { response: Vec::new(), update_requested: false };
            },
            Some(size) => size,
        };
        let cmd = self.decode_cmd(size);
        let out = dispatch(self.state, cmd);
        let response = match out.reply {
            Reply::Silent => Vec::new(),
            Reply::Link => link_response(self.identifier, firmware_version, device_uid),
            Reply::Input => input_response(inputs),
            Reply::Unknown => short_response(RSP_UNKNOWN),
            Reply::Disconnected => short_response(RSP_DISCONNECTED),
        };
        self.state = out.state;
        if out.valid {
            self.keepalive_from = now;
        }
        SerialReply { response, update_requested: out.arm_update }
    }
}

/// The engine after a run of updates.
pub open spec fn run(e: Engine, ticks: Seq<Tick>) -> Engine
    decreases ticks.len(),
{
    if ticks.len() == 0 {
        e
    } else {
        run(step(e, ticks[0]).engine, ticks.drop_first())
    }
}

/// Whether no update of a run cuts a valid command off the buffer.
pub open spec fn hears_nothing_valid(e: Engine, ticks: Seq<Tick>) -> bool
    decreases ticks.len(),
{
    ticks.len() == 0 || (!step(e, ticks[0]).valid && hears_nothing_valid(
        step(e, ticks[0]).engine,
        ticks.drop_first(),
    ))
}

/// Whether the first `n` bytes of `s` end in `CMD_END`.
pub open spec fn is_command_end(s: Seq<u8>, n: int) -> bool {
    2 <= n <= s.len() && s[n - 2] == 0x0D && s[n - 1] == 0x0A
}

/// The length that `first_command_end` gives is where the earliest `CMD_END`
/// in the buffer ends, and it gives none only if the buffer holds no
/// `CMD_END` at all.
pub proof fn lemma_first_command_end(s: Seq<u8>)
    ensures
        match first_command_end(s) {
            Some(n) => is_command_end(s, n) && forall|m: int| m < n ==> !is_command_end(s, m),
            None => forall|m: int| !is_command_end(s, m),
        },
{
    lemma_scan_command_end(s, 0);
}

proof fn lemma_scan_command_end(s: Seq<u8>, from: int)
    requires
        0 <= from,
    ensures
        match scan_command_end(s, from) {
            Some(n) => from + 2 <= n && is_command_end(s, n) && forall|m: int|
                from + 2 <= m < n ==> !is_command_end(s, m),
            None => forall|m: int| from + 2 <= m ==> !is_command_end(s, m),
        },
    decreases s.len() - from,
{
    if from + 1 < s.len() && !(s[from] == 0x0D && s[from + 1] == 0x0A) {
        lemma_scan_command_end(s, from + 1);
    }
}

/// Every frame that the engine cuts off its buffer ends in `CMD_END`, and
/// every reply but silence ends in `RSP_END`.
pub proof fn lemma_frames_are_terminated(e: Engine, t: Tick)
    ensures
        ({
            let buffer = keep_last(e.buffer + t.received);
            first_command_end(buffer) matches Some(n) ==> crate::protocol::ends_with(
                buffer.subrange(0, n),
                cmd_end(),
            )
        }),
        step(e, t).response.len() == 0 || crate::protocol::ends_with(
            step(e, t).response,
            crate::protocol::rsp_end(),
        ),
{
    let buffer = keep_last(e.buffer + t.received);
    lemma_first_command_end(buffer);
    if let Some(n) = first_command_end(buffer) {
        let frame = buffer.subrange(0, n);
        assert(frame.subrange(frame.len() - 2, frame.len() as int) =~= cmd_end());
    }
    let r = step(e, t).response;
    if r.len() != 0 {
        assert(r.subrange(r.len() - 4, r.len() as int) =~= crate::protocol::rsp_end());
    }
}

/// A link that has heard no valid command for the whole keepalive window is
/// dropped and marked as failed at the next update; if that update completes
/// no command, nothing is sent and no update is asked for.
pub proof fn lemma_keepalive_unlinks(e: Engine, t: Tick)
    requires
        e.state == Connection::Connected,
        keepalive_expired(e.keepalive_from, t.now),
        !step(e, t).valid,
    ensures
        step(e, t).engine.state == Connection::NotConnected(false),
        step(e, t).engine.keepalive_from == e.keepalive_from,
        !step(e, t).update_requested,
        step(e, t).command is None ==> step(e, t).response.len() == 0,
{
}

/// An update that comes at or after the end of the keepalive window, brings
/// no bytes and finds no complete command waiting drops the link, marks it as
/// failed and is silent: nothing is sent, no update is asked for, and the
/// buffer and the window are left as they were.
pub proof fn lemma_keepalive_timeout_is_silent(e: Engine, t: Tick)
    requires
        e.state == Connection::Connected,
        e.buffer.len() <= BUFFER_SIZE,
        keepalive_expired(e.keepalive_from, t.now),
        t.received.len() == 0,
        first_command_end(e.buffer) is None,
    ensures
        step(e, t).engine == (Engine { state: Connection::NotConnected(false), ..e }),
        step(e, t).command is None,
        step(e, t).response.len() == 0,
        !step(e, t).update_requested,
{
    assert(e.buffer + t.received =~= e.buffer);
}

/// Whatever an update is given, the engine holds no more afterwards than the
/// receive buffer takes.
pub proof fn lemma_step_keeps_buffer_bounded(e: Engine, t: Tick)
    ensures
        step(e, t).engine.buffer.len() <= BUFFER_SIZE,
{
    let buffer = keep_last(e.buffer + t.received);
    lemma_first_command_end(buffer);
}

/// However many updates follow, and whatever they receive: as long as none of
/// them hears a valid command, a link is dropped and marked as failed once an
/// update comes at or after the end of the keepalive window, and it stays so.
/// Commands that are not valid, such as a steady stream of unknown ones, do
/// not put the end of the window off.
pub proof fn lemma_unlink_without_valid_command(e: Engine, ticks: Seq<Tick>)
    requires
        e.state == Connection::Connected,
        hears_nothing_valid(e, ticks),
        exists|i: int| 0 <= i < ticks.len() && keepalive_expired(e.keepalive_from, ticks[i].now),
    ensures
        run(e, ticks).state == Connection::NotConnected(false),
        run(e, ticks).keepalive_from == e.keepalive_from,
{
    lemma_quiet_run(e, ticks);
}

proof fn lemma_quiet_run(e: Engine, ticks: Seq<Tick>)
    requires
        e.state == Connection::Connected || e.state == Connection::NotConnected(false),
        hears_nothing_valid(e, ticks),
    ensures
        run(e, ticks).keepalive_from == e.keepalive_from,
        run(e, ticks).state == Connection::NotConnected(false) || (run(e, ticks).state
            == Connection::Connected && e.state == Connection::Connected && forall|i: int|
            0 <= i < ticks.len() ==> !keepalive_expired(e.keepalive_from, #[trigger] ticks[i].now)),
    decreases ticks.len(),
{
    if ticks.len() > 0 {
        let next = step(e, ticks[0]).engine;
        let rest = ticks.drop_first();
        lemma_quiet_run(next, rest);
        assert forall|i: int| 1 <= i < ticks.len() implies ticks[i] == rest[i - 1] by {}
        if run(e, ticks).state == Connection::Connected {
            assert forall|i: int| 0 <= i < ticks.len() implies !keepalive_expired(
                e.keepalive_from,
                #[trigger] ticks[i].now,
            ) by {
                if i > 0 {
                    assert(ticks[i] == rest[i - 1]);
                }
            }
        }
    }
}

/// Disconnect, wherever it arrives: an idle device answers that it did not
/// understand and stays as it is; a linked device acknowledges and goes idle;
/// and a second Disconnect then finds an idle device.
pub proof fn lemma_disconnect(fresh: bool)
    ensures
        spec_dispatch(Connection::NotConnected(fresh), Command::Disconnect) == (Outcome {
            state: Connection::NotConnected(fresh),
            reply: Reply::Unknown,
            arm_update: false,
            valid: false,
        }),
        spec_dispatch(Connection::Connected, Command::Disconnect) == (Outcome {
            state: Connection::NotConnected(true),
            reply: Reply::Disconnected,
            arm_update: false,
            valid: true,
        }),
        spec_dispatch(
            spec_dispatch(Connection::Connected, Command::Disconnect).state,
            Command::Disconnect,
        ) == (Outcome {
            state: Connection::NotConnected(true),
            reply: Reply::Unknown,
            arm_update: false,
            valid: false,
        }),
{
}

/// An engine with an empty buffer that receives exactly one command frame
/// cuts that frame off, reads the command that its tag names, and is left
/// with an empty buffer.
pub proof fn lemma_step_on_command(e: Engine, t: Tick, tag: u8)
    requires
        e.buffer.len() == 0,
        t.received == crate::protocol::command_frame(tag),
    ensures
        step(e, t).command == Some(Command::spec_decode(tag)),
        step(e, t).engine.buffer.len() == 0,
{
    let buffer = keep_last(e.buffer + t.received);
    assert(buffer =~= t.received);
    assert(scan_command_end(buffer, 1) == Some(3int));
    assert(first_command_end(buffer) == Some(3int));
    assert(buffer.subrange(0, 3) =~= buffer);
    assert(buffer.subrange(1, 3) =~= cmd_end());
}

} // verus!
