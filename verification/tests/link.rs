use jukebox::device::SerialMod;
use jukebox::host::ResponseReader;
use jukebox::host::SerialCommand;
use jukebox::host::SerialEvent;
use jukebox::host::SerialSession;
use jukebox::host::SessionInput;
use jukebox::host::SessionState;
use jukebox::peripheral::Connection;
use jukebox::peripheral::JBInputs;
use jukebox::peripheral::KeyboardInputs;
use jukebox::peripheral::PedalInputs;
use jukebox::peripheral::SwitchPosition;
use jukebox::peripheral::IDENT_KEY_INPUT;
use jukebox::peripheral::IDENT_PEDAL_INPUT;
use jukebox::reaction::InputKey;
use jukebox::reaction::ReactionWorker;

struct Wire {
    device: SerialMod,
    now: u64,
    update_armed: bool,
}

impl Wire {
    fn new(identifier: u8) -> Wire {
        Wire { device: SerialMod::new(identifier, 0), now: 0, update_armed: false }
    }

    fn exchange(&mut self, sent: &[u8], inputs: JBInputs) -> Option<Vec<u8>> {
        self.now += 25;
        let reply = self.device.update(self.now, sent, "0.1.0", "ABCDEF01", inputs);
        self.update_armed = self.update_armed || reply.update_requested;
        let mut reader = ResponseReader::new(self.now);
        for b in reply.response {
            if reader.push(b) {
                return Some(reader.into_bytes());
            }
        }
        None
    }
}

fn key_five() -> JBInputs {
    let mut pad = KeyboardInputs::default();
    pad.key5 = SwitchPosition::Down;
    JBInputs::KeyPad(pad)
}

#[test]
fn host_and_device_happy_link_one_poll() {
    let mut wire = Wire::new(IDENT_KEY_INPUT);
    let mut session = SerialSession::new();
    let mut worker = ReactionWorker::new();

    let out = session.step(SessionInput::Start);
    let resp = wire.exchange(&out.send, key_five()).unwrap();
    let out = session.step(SessionInput::Response(resp));
    match out.event {
        Some(SerialEvent::Connected(d)) => {
            assert_eq!(d.input_identifier, IDENT_KEY_INPUT);
            assert_eq!(d.firmware_version, "0.1.0");
            assert_eq!(d.device_uid, "ABCDEF01");
        }
        other => panic!("unexpected event {:?}", other),
    }
    assert_eq!(wire.device.get_connection_status(), Connection::Connected);

    let out = session.step(SessionInput::PollDue);
    let resp = wire.exchange(&out.send, key_five()).unwrap();
    let out = session.step(SessionInput::Response(resp));
    match out.event {
        Some(SerialEvent::GetInputKeys(keys)) => {
            let edges = worker.observe(keys);
            assert_eq!(edges.pressed.to_vec(), vec![InputKey::KeySwitch5]);
            assert!(edges.released.is_empty());
        }
        other => panic!("unexpected event {:?}", other),
    }

    let out = session.step(SessionInput::PollDue);
    let resp = wire
        .exchange(&out.send, JBInputs::KeyPad(KeyboardInputs::default()))
        .unwrap();
    let out = session.step(SessionInput::Response(resp));
    match out.event {
        Some(SerialEvent::GetInputKeys(keys)) => {
            let edges = worker.observe(keys);
            assert!(edges.pressed.is_empty());
            assert_eq!(edges.released.to_vec(), vec![InputKey::KeySwitch5]);
        }
        other => panic!("unexpected event {:?}", other),
    }
}

#[test]
fn host_and_device_update_handoff() {
    let mut wire = Wire::new(IDENT_KEY_INPUT);
    let mut session = SerialSession::new();
    let out = session.step(SessionInput::Start);
    let resp = wire.exchange(&out.send, key_five()).unwrap();
    session.step(SessionInput::Response(resp));

    let out = session.step(SessionInput::Command(SerialCommand::UpdateDevice));
    let resp = wire.exchange(&out.send, key_five()).unwrap();
    assert!(wire.update_armed);
    assert_eq!(
        wire.device.get_connection_status(),
        Connection::NotConnected(true)
    );
    let out = session.step(SessionInput::Response(resp));
    assert!(matches!(out.event, Some(SerialEvent::Disconnected)));
    assert!(out.finished);
    assert_eq!(session.state(), SessionState::Ended);
}

#[test]
fn host_and_device_part_on_request() {
    let mut wire = Wire::new(IDENT_PEDAL_INPUT);
    let mut session = SerialSession::new();
    let idle = JBInputs::PedalPad(PedalInputs::default());
    let out = session.step(SessionInput::Start);
    let resp = wire.exchange(&out.send, idle).unwrap();
    session.step(SessionInput::Response(resp));
    assert_eq!(session.state(), SessionState::Linked(IDENT_PEDAL_INPUT));

    let out = session.step(SessionInput::Command(SerialCommand::DisconnectDevice));
    let resp = wire.exchange(&out.send, idle).unwrap();
    assert!(!wire.update_armed);
    let out = session.step(SessionInput::Response(resp));
    assert!(matches!(out.event, Some(SerialEvent::Disconnected)));
    assert_eq!(
        wire.device.get_connection_status(),
        Connection::NotConnected(true)
    );
}

#[test]
fn host_that_slept_through_the_keepalive_reconnects() {
    let mut wire = Wire::new(IDENT_KEY_INPUT);
    let mut session = SerialSession::new();
    let out = session.step(SessionInput::Start);
    let resp = wire.exchange(&out.send, key_five()).unwrap();
    session.step(SessionInput::Response(resp));

    wire.now += 400;
    assert!(wire.exchange(&[], key_five()).is_none());
    assert_eq!(
        wire.device.get_connection_status(),
        Connection::NotConnected(false)
    );

    let out = session.step(SessionInput::PollDue);
    let resp = wire.exchange(&out.send, key_five()).unwrap();
    assert_eq!(resp, vec![b'?', b'\r', b'\n', b'\r', b'\n']);
    let out = session.step(SessionInput::Response(resp));
    assert!(matches!(out.event, Some(SerialEvent::LostConnection)));
    assert!(out.finished);
    assert!(wire.exchange(&out.send, key_five()).is_some());
    assert_eq!(
        wire.device.get_connection_status(),
        Connection::NotConnected(false)
    );

    let mut session = SerialSession::new();
    let out = session.step(SessionInput::Start);
    let resp = wire.exchange(&out.send, key_five()).unwrap();
    let out = session.step(SessionInput::Response(resp));
    assert!(matches!(out.event, Some(SerialEvent::Connected(_))));
    assert_eq!(wire.device.get_connection_status(), Connection::Connected);
}

#[test]
fn negative_ack_of_the_host_unlinks_the_device() {
    let mut wire = Wire::new(IDENT_KEY_INPUT);
    let mut session = SerialSession::new();
    let out = session.step(SessionInput::Start);
    let resp = wire.exchange(&out.send, key_five()).unwrap();
    session.step(SessionInput::Response(resp));
    session.step(SessionInput::PollDue);
    let out = session.step(SessionInput::Response(b"Zgarbage\r\n\r\n".to_vec()));
    assert!(matches!(out.event, Some(SerialEvent::LostConnection)));
    assert!(wire.exchange(&out.send, key_five()).is_none());
    assert_eq!(
        wire.device.get_connection_status(),
        Connection::NotConnected(false)
    );
}

#[test]
fn host_gives_up_when_the_device_buffer_overflowed() {
    let mut wire = Wire::new(IDENT_KEY_INPUT);
    let mut session = SerialSession::new();
    let out = session.step(SessionInput::Start);
    let resp = wire.exchange(&out.send, key_five()).unwrap();
    session.step(SessionInput::Response(resp));

    let noise = vec![b'n'; 2047];
    assert!(wire.exchange(&noise, key_five()).is_none());

    let out = session.step(SessionInput::PollDue);
    let resp = wire.exchange(&out.send, key_five()).unwrap();
    assert_eq!(resp, vec![b'?', b'\r', b'\n', b'\r', b'\n']);
    let out = session.step(SessionInput::Response(resp));
    assert!(matches!(out.event, Some(SerialEvent::LostConnection)));
    assert_eq!(out.send, vec![0x15, b'\r', b'\n']);
    assert!(out.finished);
}
