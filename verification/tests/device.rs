use jukebox::device::dispatch;
use jukebox::device::Outcome;
use jukebox::device::Reply;
use jukebox::device::SerialMod;
use jukebox::device::KEEPALIVE;
use jukebox::peripheral::inputs_default;
use jukebox::peripheral::Connection;
use jukebox::peripheral::JBInputs;
use jukebox::peripheral::KeyboardInputs;
use jukebox::peripheral::KnobDirection;
use jukebox::peripheral::KnobInputs;
use jukebox::peripheral::SwitchPosition;
use jukebox::peripheral::IDENT_KEY_INPUT;
use jukebox::peripheral::IDENT_KNOB_INPUT;
use jukebox::protocol::Command;
use jukebox::ring::BUFFER_SIZE;

const GREETING: [u8; 3] = [0x05, b'\r', b'\n'];
const GET_INPUT_KEYS: [u8; 3] = [0x30, b'\r', b'\n'];
const UPDATE: [u8; 3] = [0x38, b'\r', b'\n'];
const DISCONNECT: [u8; 3] = [0x39, b'\r', b'\n'];
const NEGATIVE_ACK: [u8; 3] = [0x15, b'\r', b'\n'];
const UNKNOWN: [u8; 5] = [b'?', b'\r', b'\n', b'\r', b'\n'];
const DISCONNECTED: [u8; 5] = [0x04, b'\r', b'\n', b'\r', b'\n'];

fn idle() -> JBInputs {
    inputs_default(IDENT_KEY_INPUT)
}

fn linked(now: u64) -> SerialMod {
    let mut dev = SerialMod::new(IDENT_KEY_INPUT, 0);
    let reply = dev.update(now, &GREETING, "0.1.0", "ABCDEF01", idle());
    assert!(!reply.response.is_empty());
    assert_eq!(dev.get_connection_status(), Connection::Connected);
    dev
}

#[test]
fn keepalive_is_a_quarter_second() {
    assert_eq!(KEEPALIVE, 250);
}

#[test]
fn transition_table_row_by_row() {
    for fresh in [true, false] {
        let idle = Connection::NotConnected(fresh);
        assert_eq!(
            dispatch(idle, Command::Greeting),
            Outcome { state: Connection::Connected, reply: Reply::Link, arm_update: false, valid: true }
        );
        assert_eq!(
            dispatch(idle, Command::Update),
            Outcome {
                state: Connection::NotConnected(true),
                reply: Reply::Disconnected,
                arm_update: true,
                valid: true
            }
        );
        for cmd in [
            Command::GetInputKeys,
            Command::Disconnect,
            Command::NegativeAck,
            Command::Unknown,
        ] {
            assert_eq!(
                dispatch(idle, cmd),
                Outcome { state: idle, reply: Reply::Unknown, arm_update: false, valid: false }
            );
        }
    }
    let up = Connection::Connected;
    assert_eq!(
        dispatch(up, Command::GetInputKeys),
        Outcome { state: up, reply: Reply::Input, arm_update: false, valid: true }
    );
    assert_eq!(
        dispatch(up, Command::Update),
        Outcome {
            state: Connection::NotConnected(true),
            reply: Reply::Disconnected,
            arm_update: true,
            valid: true
        }
    );
    assert_eq!(
        dispatch(up, Command::Disconnect),
        Outcome {
            state: Connection::NotConnected(true),
            reply: Reply::Disconnected,
            arm_update: false,
            valid: true
        }
    );
    assert_eq!(
        dispatch(up, Command::NegativeAck),
        Outcome {
            state: Connection::NotConnected(false),
            reply: Reply::Silent,
            arm_update: false,
            valid: false
        }
    );
    assert_eq!(
        dispatch(up, Command::Unknown),
        Outcome { state: up, reply: Reply::Unknown, arm_update: false, valid: false }
    );
    assert_eq!(
        dispatch(up, Command::Greeting),
        Outcome { state: up, reply: Reply::Unknown, arm_update: false, valid: false }
    );
}

#[test]
fn device_boots_idle() {
    let mut dev = SerialMod::new(IDENT_KEY_INPUT, 7);
    assert_eq!(dev.get_connection_status(), Connection::NotConnected(true));
    let reply = dev.update(8, &[], "0.1.0", "ABCDEF01", idle());
    assert!(reply.response.is_empty());
    assert!(!reply.update_requested);
    assert_eq!(dev.get_connection_status(), Connection::NotConnected(true));
}

#[test]
fn happy_link_one_poll() {
    let mut dev = SerialMod::new(IDENT_KEY_INPUT, 0);
    let reply = dev.update(1, &GREETING, "0.1.0", "ABCDEF01", idle());
    let mut link = vec![b'L', b',', IDENT_KEY_INPUT, b','];
    link.extend_from_slice(b"0.1.0,ABCDEF01,\r\n\r\n");
    assert_eq!(reply.response, link);
    assert!(!reply.update_requested);
    assert_eq!(dev.get_connection_status(), Connection::Connected);

    let mut pad = KeyboardInputs::default();
    pad.key5 = SwitchPosition::Down;
    let reply = dev.update(26, &GET_INPUT_KEYS, "0.1.0", "ABCDEF01", JBInputs::KeyPad(pad));
    assert_eq!(
        reply.response,
        vec![b'I', IDENT_KEY_INPUT, 0x00, 0x10, b'\r', b'\n', b'\r', b'\n']
    );
    assert!(!reply.update_requested);
    assert_eq!(dev.get_connection_status(), Connection::Connected);
}

#[test]
fn knob_device_reports_its_own_surface() {
    let mut dev = SerialMod::new(IDENT_KNOB_INPUT, 0);
    let reply = dev.update(1, &GREETING, "1.2.3", "X", inputs_default(IDENT_KNOB_INPUT));
    assert_eq!(reply.response[2], IDENT_KNOB_INPUT);
    let knobs = KnobInputs {
        left_switch: SwitchPosition::Down,
        left_direction: KnobDirection::Idle,
        right_switch: SwitchPosition::Up,
        right_direction: KnobDirection::Clockwise,
    };
    let reply = dev.update(2, &GET_INPUT_KEYS, "1.2.3", "X", JBInputs::KnobPad(knobs));
    assert_eq!(
        reply.response,
        vec![b'I', IDENT_KNOB_INPUT, 0x21, b'\r', b'\n', b'\r', b'\n']
    );
}

#[test]
fn update_handoff() {
    let mut dev = linked(1);
    let reply = dev.update(10, &UPDATE, "0.1.0", "ABCDEF01", idle());
    assert_eq!(reply.response, DISCONNECTED.to_vec());
    assert!(reply.update_requested);
    assert_eq!(dev.get_connection_status(), Connection::NotConnected(true));
}

#[test]
fn update_is_taken_without_a_link() {
    let mut dev = SerialMod::new(IDENT_KEY_INPUT, 0);
    let reply = dev.update(10, &UPDATE, "0.1.0", "ABCDEF01", idle());
    assert_eq!(reply.response, DISCONNECTED.to_vec());
    assert!(reply.update_requested);
    assert_eq!(dev.get_connection_status(), Connection::NotConnected(true));
}

#[test]
fn garbled_frame_negative_ack_marks_the_link_failed() {
    let mut dev = linked(1);
    let reply = dev.update(10, &NEGATIVE_ACK, "0.1.0", "ABCDEF01", idle());
    assert!(reply.response.is_empty());
    assert!(!reply.update_requested);
    assert_eq!(dev.get_connection_status(), Connection::NotConnected(false));
}

#[test]
fn keepalive_timeout() {
    let mut dev = linked(1000);
    let reply = dev.update(1000 + 249, &[], "0.1.0", "ABCDEF01", idle());
    assert!(reply.response.is_empty());
    assert_eq!(dev.get_connection_status(), Connection::Connected);

    let reply = dev.update(1000 + 400, &[], "0.1.0", "ABCDEF01", idle());
    assert!(reply.response.is_empty());
    assert!(!reply.update_requested);
    assert_eq!(dev.get_connection_status(), Connection::NotConnected(false));

    let reply = dev.update(1000 + 401, &GET_INPUT_KEYS, "0.1.0", "ABCDEF01", idle());
    assert_eq!(reply.response, UNKNOWN.to_vec());
    assert_eq!(dev.get_connection_status(), Connection::NotConnected(false));

    let reply = dev.update(1000 + 402, &GREETING, "0.1.0", "ABCDEF01", idle());
    assert_eq!(reply.response[0], b'L');
    assert_eq!(dev.get_connection_status(), Connection::Connected);
}

#[test]
fn keepalive_runs_out_exactly_at_its_end() {
    let mut dev = linked(1000);
    dev.update(1000 + KEEPALIVE - 1, &[], "v", "u", idle());
    assert_eq!(dev.get_connection_status(), Connection::Connected);
    dev.update(1000 + KEEPALIVE, &[], "v", "u", idle());
    assert_eq!(dev.get_connection_status(), Connection::NotConnected(false));
}

#[test]
fn valid_command_starts_the_keepalive_anew() {
    let mut dev = linked(1000);
    dev.update(1200, &GET_INPUT_KEYS, "v", "u", idle());
    dev.update(1400, &[], "v", "u", idle());
    assert_eq!(dev.get_connection_status(), Connection::Connected);
    dev.update(1449, &[], "v", "u", idle());
    assert_eq!(dev.get_connection_status(), Connection::Connected);
    dev.update(1450, &[], "v", "u", idle());
    assert_eq!(dev.get_connection_status(), Connection::NotConnected(false));
}

#[test]
fn clock_that_runs_backwards_does_not_unlink() {
    let mut dev = linked(1000);
    dev.update(10, &[], "v", "u", idle());
    assert_eq!(dev.get_connection_status(), Connection::Connected);
}

#[test]
fn unknown_commands_do_not_refresh_the_keepalive() {
    let mut dev = linked(1000);
    let mut now = 1000;
    while now + 100 < 1000 + KEEPALIVE {
        now += 100;
        let reply = dev.update(now, &[b'x', b'\r', b'\n'], "v", "u", idle());
        assert_eq!(reply.response, UNKNOWN.to_vec());
        assert_eq!(dev.get_connection_status(), Connection::Connected);
    }
    now += 100;
    let reply = dev.update(now, &[b'x', b'\r', b'\n'], "v", "u", idle());
    assert_eq!(reply.response, UNKNOWN.to_vec());
    assert_eq!(dev.get_connection_status(), Connection::NotConnected(false));
    now += 100;
    dev.update(now, &[b'x', b'\r', b'\n'], "v", "u", idle());
    assert_eq!(dev.get_connection_status(), Connection::NotConnected(false));
}

#[test]
fn disconnect_is_idempotent() {
    let mut dev = SerialMod::new(IDENT_KEY_INPUT, 0);
    let reply = dev.update(1, &DISCONNECT, "v", "u", idle());
    assert_eq!(reply.response, UNKNOWN.to_vec());
    assert_eq!(dev.get_connection_status(), Connection::NotConnected(true));

    let mut dev = linked(1);
    let reply = dev.update(2, &DISCONNECT, "v", "u", idle());
    assert_eq!(reply.response, DISCONNECTED.to_vec());
    assert!(!reply.update_requested);
    assert_eq!(dev.get_connection_status(), Connection::NotConnected(true));

    let reply = dev.update(3, &DISCONNECT, "v", "u", idle());
    assert_eq!(reply.response, UNKNOWN.to_vec());
    assert_eq!(dev.get_connection_status(), Connection::NotConnected(true));
}

#[test]
fn disconnect_after_a_failed_link_leaves_the_mark() {
    let mut dev = linked(1);
    dev.update(2, &NEGATIVE_ACK, "v", "u", idle());
    let reply = dev.update(3, &DISCONNECT, "v", "u", idle());
    assert_eq!(reply.response, UNKNOWN.to_vec());
    assert_eq!(dev.get_connection_status(), Connection::NotConnected(false));
}

#[test]
fn greeting_on_a_standing_link_is_not_understood() {
    let mut dev = linked(1);
    let reply = dev.update(2, &GREETING, "v", "u", idle());
    assert_eq!(reply.response, UNKNOWN.to_vec());
    assert_eq!(dev.get_connection_status(), Connection::Connected);
}

#[test]
fn command_may_arrive_in_pieces() {
    let mut dev = SerialMod::new(IDENT_KEY_INPUT, 0);
    assert!(dev.update(1, &[0x05], "v", "u", idle()).response.is_empty());
    assert!(dev.update(2, &[b'\r'], "v", "u", idle()).response.is_empty());
    let reply = dev.update(3, &[b'\n'], "v", "u", idle());
    assert_eq!(reply.response[0], b'L');
    assert_eq!(dev.get_connection_status(), Connection::Connected);
}

#[test]
fn one_command_is_answered_per_update() {
    let mut dev = SerialMod::new(IDENT_KEY_INPUT, 0);
    let mut both = GREETING.to_vec();
    both.extend_from_slice(&GET_INPUT_KEYS);
    let reply = dev.update(1, &both, "v", "u", idle());
    assert_eq!(reply.response[0], b'L');
    let reply = dev.update(2, &[], "v", "u", idle());
    assert_eq!(reply.response[0], b'I');
    let reply = dev.update(3, &[], "v", "u", idle());
    assert!(reply.response.is_empty());
}

#[test]
fn tag_with_bytes_before_the_terminator_is_unknown() {
    let mut dev = linked(1);
    let reply = dev.update(2, &[0x30, 0x00, b'\r', b'\n'], "v", "u", idle());
    assert_eq!(reply.response, UNKNOWN.to_vec());
    let reply = dev.update(3, &GET_INPUT_KEYS, "v", "u", idle());
    assert_eq!(reply.response[0], b'I');
}

#[test]
fn long_frame_is_consumed_whole() {
    let mut dev = linked(1);
    let mut long = vec![b'z'; 40];
    long.extend_from_slice(b"\r\n");
    let reply = dev.update(2, &long, "v", "u", idle());
    assert_eq!(reply.response, UNKNOWN.to_vec());
    let reply = dev.update(3, &[], "v", "u", idle());
    assert!(reply.response.is_empty());
    let reply = dev.update(4, &GET_INPUT_KEYS, "v", "u", idle());
    assert_eq!(reply.response[0], b'I');
}

#[test]
fn bare_terminator_is_unknown() {
    let mut dev = linked(1);
    let reply = dev.update(2, b"\r\n", "v", "u", idle());
    assert_eq!(reply.response, UNKNOWN.to_vec());
}

#[test]
fn buffer_drop_resync() {
    let mut dev = linked(1);
    let reply = dev.update(2, &[b'\r', b'\n'], "v", "u", idle());
    assert_eq!(reply.response, UNKNOWN.to_vec());
    let reply = dev.update(3, &[0x30, b'\n'], "v", "u", idle());
    assert!(reply.response.is_empty());
    let reply = dev.update(4, &GET_INPUT_KEYS, "v", "u", idle());
    assert_eq!(reply.response, UNKNOWN.to_vec());
    let reply = dev.update(5, &GET_INPUT_KEYS, "v", "u", idle());
    assert_eq!(reply.response[0], b'I');
}

#[test]
fn overflowing_buffer_drops_the_oldest_bytes() {
    let mut dev = linked(1);
    let mut flood = GET_INPUT_KEYS[..1].to_vec();
    flood.extend(std::iter::repeat(b'a').take(BUFFER_SIZE));
    let reply = dev.update(2, &flood, "v", "u", idle());
    assert!(reply.response.is_empty());
    let reply = dev.update(3, b"\r\n", "v", "u", idle());
    assert_eq!(reply.response, UNKNOWN.to_vec());
    let reply = dev.update(4, &[], "v", "u", idle());
    assert!(reply.response.is_empty());
    let reply = dev.update(5, &GET_INPUT_KEYS, "v", "u", idle());
    assert_eq!(reply.response[0], b'I');
}

#[test]
fn command_that_just_fits_is_still_read() {
    let mut dev = linked(1);
    let mut fill = vec![b'a'; BUFFER_SIZE - 2];
    fill.extend_from_slice(b"\r\n");
    dev.update(2, &fill, "v", "u", idle());
    let reply = dev.update(3, &GET_INPUT_KEYS, "v", "u", idle());
    assert_eq!(reply.response[0], b'I');
}

#[test]
fn scan_finds_the_earliest_terminator() {
    let mut dev = SerialMod::new(IDENT_KEY_INPUT, 0);
    assert_eq!(dev.check_cmd(), None);
    dev.update(1, b"abc", "v", "u", idle());
    assert_eq!(dev.check_cmd(), None);
    dev.update(2, b"\r", "v", "u", idle());
    assert_eq!(dev.check_cmd(), None);
    let reply = dev.update(3, b"\n", "v", "u", idle());
    assert_eq!(reply.response, UNKNOWN.to_vec());
    assert_eq!(dev.check_cmd(), None);

    dev.update(4, b"x\r\nyy\r\n\r\n", "v", "u", idle());
    assert_eq!(dev.check_cmd(), Some(4));
    dev.update(5, &[], "v", "u", idle());
    assert_eq!(dev.check_cmd(), Some(2));
    dev.update(6, b"\n\r", "v", "u", idle());
    assert_eq!(dev.check_cmd(), None);
    let reply = dev.update(7, b"\r\n", "v", "u", idle());
    assert_eq!(reply.response, UNKNOWN.to_vec());
    assert_eq!(dev.check_cmd(), None);
}

#[test]
fn scan_leaves_the_buffer_as_it_is() {
    let mut dev = SerialMod::new(IDENT_KEY_INPUT, 0);
    let mut two = GREETING.to_vec();
    two.extend_from_slice(&GET_INPUT_KEYS);
    dev.update(1, &two, "v", "u", idle());
    assert_eq!(dev.check_cmd(), Some(3));
    assert_eq!(dev.check_cmd(), Some(3));
    let reply = dev.update(2, &[], "v", "u", idle());
    assert_eq!(reply.response[0], b'I');
    assert_eq!(dev.check_cmd(), None);
}
