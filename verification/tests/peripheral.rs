use jukebox::peripheral::inputs_default;
use jukebox::peripheral::Connection;
use jukebox::peripheral::DecodeError;
use jukebox::peripheral::JBInputs;
use jukebox::peripheral::KeyboardInputs;
use jukebox::peripheral::KnobDirection;
use jukebox::peripheral::KnobInputs;
use jukebox::peripheral::PedalInputs;
use jukebox::peripheral::SwitchPosition;
use jukebox::peripheral::IDENT_KEY_INPUT;
use jukebox::peripheral::IDENT_KNOB_INPUT;
use jukebox::peripheral::IDENT_PEDAL_INPUT;
use jukebox::peripheral::IDENT_UNKNOWN_INPUT;

fn keys_down(down: &[usize]) -> KeyboardInputs {
    let at = |n: usize| {
        if down.contains(&n) {
            SwitchPosition::Down
        } else {
            SwitchPosition::Up
        }
    };
    KeyboardInputs {
        key1: at(1),
        key2: at(2),
        key3: at(3),
        key4: at(4),
        key5: at(5),
        key6: at(6),
        key7: at(7),
        key8: at(8),
        key9: at(9),
        key10: at(10),
        key11: at(11),
        key12: at(12),
        key13: at(13),
        key14: at(14),
        key15: at(15),
        key16: at(16),
    }
}

#[test]
fn connection_starts_idle_and_fresh() {
    assert_eq!(Connection::default(), Connection::NotConnected(true));
    assert!(!Connection::default().connected());
    assert!(!Connection::NotConnected(false).connected());
    assert!(Connection::Connected.connected());
}

#[test]
fn switch_encodes_to_its_bit() {
    assert_eq!(SwitchPosition::default(), SwitchPosition::Up);
    for pos in 0..8u8 {
        assert_eq!(SwitchPosition::Up.encode(pos), 0);
        assert_eq!(SwitchPosition::Down.encode(pos), 1 << pos);
    }
    assert_eq!(SwitchPosition::Down.encode(7), 0x80);
}

#[test]
fn switch_decodes_from_its_bit() {
    assert_eq!(SwitchPosition::decode(0b0001_0000, 4), SwitchPosition::Down);
    assert_eq!(SwitchPosition::decode(0b0001_0000, 3), SwitchPosition::Up);
    assert_eq!(SwitchPosition::decode(0xFF, 7), SwitchPosition::Down);
    assert_eq!(SwitchPosition::decode(0x7F, 7), SwitchPosition::Up);
    assert!(SwitchPosition::Down.is_down());
    assert!(!SwitchPosition::Up.is_down());
}

#[test]
fn knob_direction_encodes_to_two_bits() {
    assert_eq!(KnobDirection::default(), KnobDirection::Idle);
    assert_eq!(KnobDirection::Idle.encode(3), 0);
    assert_eq!(KnobDirection::Clockwise.encode(0), 0b01);
    assert_eq!(KnobDirection::CounterClockwise.encode(0), 0b10);
    assert_eq!(KnobDirection::Clockwise.encode(3), 0b0000_1000);
    assert_eq!(KnobDirection::CounterClockwise.encode(3), 0b0001_0000);
    assert_eq!(KnobDirection::Clockwise.encode(7), 0x80);
    assert_eq!(KnobDirection::CounterClockwise.encode(7), 0);
}

#[test]
fn knob_direction_decodes_both_spare_codes_as_idle() {
    assert_eq!(KnobDirection::decode(0b00, 0), KnobDirection::Idle);
    assert_eq!(KnobDirection::decode(0b01, 0), KnobDirection::Clockwise);
    assert_eq!(KnobDirection::decode(0b10, 0), KnobDirection::CounterClockwise);
    assert_eq!(KnobDirection::decode(0b11, 0), KnobDirection::Idle);
    assert_eq!(KnobDirection::decode(0b0001_0000, 3), KnobDirection::CounterClockwise);
    assert!(KnobDirection::Clockwise.is_clockwise());
    assert!(!KnobDirection::Clockwise.is_counter_clockwise());
    assert!(KnobDirection::CounterClockwise.is_counter_clockwise());
}

#[test]
fn idle_key_pad_encodes_to_zero_bytes() {
    assert_eq!(KeyboardInputs::default().encode(), [IDENT_KEY_INPUT, 0, 0]);
    assert_eq!(KeyboardInputs::default(), keys_down(&[]));
}

#[test]
fn key_pad_puts_high_byte_before_low_byte() {
    assert_eq!(keys_down(&[5]).encode(), [IDENT_KEY_INPUT, 0x00, 0x10]);
    assert_eq!(keys_down(&[1]).encode(), [IDENT_KEY_INPUT, 0x00, 0x01]);
    assert_eq!(keys_down(&[8]).encode(), [IDENT_KEY_INPUT, 0x00, 0x80]);
    assert_eq!(keys_down(&[9]).encode(), [IDENT_KEY_INPUT, 0x01, 0x00]);
    assert_eq!(keys_down(&[16]).encode(), [IDENT_KEY_INPUT, 0x80, 0x00]);
    assert_eq!(keys_down(&[1, 2, 10, 16]).encode(), [IDENT_KEY_INPUT, 0x82, 0x03]);
    let all: Vec<usize> = (1..=16).collect();
    assert_eq!(keys_down(&all).encode(), [IDENT_KEY_INPUT, 0xFF, 0xFF]);
}

#[test]
fn key_pad_round_trips_for_every_single_key() {
    for n in 1..=16usize {
        let pad = keys_down(&[n]);
        assert_eq!(KeyboardInputs::decode(&pad.encode()), Ok(pad));
        assert_eq!(pad.switch(n), SwitchPosition::Down);
        for m in 1..=16usize {
            if m != n {
                assert_eq!(pad.switch(m), SwitchPosition::Up);
            }
        }
    }
}

#[test]
fn key_pad_decodes_given_bytes() {
    assert_eq!(
        KeyboardInputs::decode(&[IDENT_KEY_INPUT, 0x01, 0x10]),
        Ok(keys_down(&[5, 9]))
    );
}

#[test]
fn key_pad_refuses_other_shapes() {
    assert_eq!(KeyboardInputs::decode(&[]), Err(DecodeError::WrongLength));
    assert_eq!(
        KeyboardInputs::decode(&[IDENT_KEY_INPUT, 0]),
        Err(DecodeError::WrongLength)
    );
    assert_eq!(
        KeyboardInputs::decode(&[IDENT_KEY_INPUT, 0, 0, 0]),
        Err(DecodeError::WrongLength)
    );
    assert_eq!(
        KeyboardInputs::decode(&[IDENT_KNOB_INPUT, 0, 0]),
        Err(DecodeError::WrongIdentifier)
    );
}

#[test]
fn knob_rotation() {
    let knobs = KnobInputs {
        left_switch: SwitchPosition::Down,
        left_direction: KnobDirection::Idle,
        right_switch: SwitchPosition::Up,
        right_direction: KnobDirection::Clockwise,
    };
    assert_eq!(knobs.encode(), [IDENT_KNOB_INPUT, 0b0010_0001]);
    assert_eq!(knobs.encode()[1], 0x21);
    assert_eq!(KnobInputs::decode(&[IDENT_KNOB_INPUT, 0x21]), Ok(knobs));
}

#[test]
fn knob_pad_packs_each_field_in_its_place() {
    let idle = KnobInputs::default();
    assert_eq!(idle.encode(), [IDENT_KNOB_INPUT, 0]);
    let mut k = idle;
    k.right_direction = KnobDirection::CounterClockwise;
    assert_eq!(k.encode()[1], 0b0000_0010);
    let mut k = idle;
    k.right_switch = SwitchPosition::Down;
    assert_eq!(k.encode()[1], 0b0000_0100);
    let mut k = idle;
    k.left_direction = KnobDirection::Clockwise;
    assert_eq!(k.encode()[1], 0b0000_1000);
    let mut k = idle;
    k.left_direction = KnobDirection::CounterClockwise;
    assert_eq!(k.encode()[1], 0b0001_0000);
    let mut k = idle;
    k.left_switch = SwitchPosition::Down;
    assert_eq!(k.encode()[1], 0b0010_0000);
}

#[test]
fn knob_pad_round_trips_for_every_value() {
    let switches = [SwitchPosition::Up, SwitchPosition::Down];
    let turns = [
        KnobDirection::Idle,
        KnobDirection::Clockwise,
        KnobDirection::CounterClockwise,
    ];
    for ls in switches {
        for ld in turns {
            for rs in switches {
                for rd in turns {
                    let k = KnobInputs {
                        left_switch: ls,
                        left_direction: ld,
                        right_switch: rs,
                        right_direction: rd,
                    };
                    assert_eq!(KnobInputs::decode(&k.encode()), Ok(k));
                }
            }
        }
    }
}

#[test]
fn knob_pad_ignores_the_two_spare_bits() {
    assert_eq!(
        KnobInputs::decode(&[IDENT_KNOB_INPUT, 0b1100_0000]),
        Ok(KnobInputs::default())
    );
    assert_eq!(
        KnobInputs::decode(&[IDENT_KNOB_INPUT, 0b0001_1011]),
        Ok(KnobInputs::default())
    );
}

#[test]
fn knob_pad_refuses_other_shapes() {
    assert_eq!(KnobInputs::decode(&[]), Err(DecodeError::WrongLength));
    assert_eq!(
        KnobInputs::decode(&[IDENT_KNOB_INPUT]),
        Err(DecodeError::WrongLength)
    );
    assert_eq!(
        KnobInputs::decode(&[IDENT_KNOB_INPUT, 0, 0]),
        Err(DecodeError::WrongLength)
    );
    assert_eq!(
        KnobInputs::decode(&[IDENT_PEDAL_INPUT, 0]),
        Err(DecodeError::WrongIdentifier)
    );
}

#[test]
fn pedal_pad_packs_right_middle_left() {
    let idle = PedalInputs::default();
    assert_eq!(idle.encode(), [IDENT_PEDAL_INPUT, 0]);
    let mut p = idle;
    p.right = SwitchPosition::Down;
    assert_eq!(p.encode(), [IDENT_PEDAL_INPUT, 0b001]);
    let mut p = idle;
    p.middle = SwitchPosition::Down;
    assert_eq!(p.encode(), [IDENT_PEDAL_INPUT, 0b010]);
    let mut p = idle;
    p.left = SwitchPosition::Down;
    assert_eq!(p.encode(), [IDENT_PEDAL_INPUT, 0b100]);
}

#[test]
fn pedal_pad_round_trips_for_every_value() {
    let switches = [SwitchPosition::Up, SwitchPosition::Down];
    for left in switches {
        for middle in switches {
            for right in switches {
                let p = PedalInputs { left, middle, right };
                assert_eq!(PedalInputs::decode(&p.encode()), Ok(p));
            }
        }
    }
}

#[test]
fn pedal_pad_refuses_other_shapes() {
    assert_eq!(PedalInputs::decode(&[]), Err(DecodeError::WrongLength));
    assert_eq!(
        PedalInputs::decode(&[IDENT_PEDAL_INPUT, 0, 0]),
        Err(DecodeError::WrongLength)
    );
    assert_eq!(
        PedalInputs::decode(&[IDENT_KEY_INPUT, 0]),
        Err(DecodeError::WrongIdentifier)
    );
}

#[test]
fn snapshot_encodes_as_its_surface_does() {
    let pad = JBInputs::KeyPad(keys_down(&[5]));
    assert_eq!(pad.identifier(), IDENT_KEY_INPUT);
    assert_eq!(pad.encode(), vec![IDENT_KEY_INPUT, 0x00, 0x10]);
    let knobs = JBInputs::KnobPad(KnobInputs::default());
    assert_eq!(knobs.identifier(), IDENT_KNOB_INPUT);
    assert_eq!(knobs.encode(), vec![IDENT_KNOB_INPUT, 0]);
    let pedals = JBInputs::PedalPad(PedalInputs::default());
    assert_eq!(pedals.identifier(), IDENT_PEDAL_INPUT);
    assert_eq!(pedals.encode(), vec![IDENT_PEDAL_INPUT, 0]);
}

#[test]
fn snapshot_round_trips_against_its_own_identifier() {
    let all = [
        JBInputs::KeyPad(keys_down(&[3, 12, 16])),
        JBInputs::KnobPad(KnobInputs {
            left_switch: SwitchPosition::Up,
            left_direction: KnobDirection::CounterClockwise,
            right_switch: SwitchPosition::Down,
            right_direction: KnobDirection::Idle,
        }),
        JBInputs::PedalPad(PedalInputs {
            left: SwitchPosition::Down,
            middle: SwitchPosition::Up,
            right: SwitchPosition::Down,
        }),
    ];
    for s in all {
        assert_eq!(JBInputs::decode(s.identifier(), &s.encode()), Ok(s));
    }
}

#[test]
fn snapshot_of_another_surface_is_refused() {
    let knobs = JBInputs::KnobPad(KnobInputs::default()).encode();
    assert_eq!(
        JBInputs::decode(IDENT_KEY_INPUT, &knobs),
        Err(DecodeError::WrongIdentifier)
    );
    assert_eq!(
        JBInputs::decode(IDENT_PEDAL_INPUT, &knobs),
        Err(DecodeError::WrongIdentifier)
    );
    assert_eq!(
        JBInputs::decode(IDENT_KNOB_INPUT, &[IDENT_KNOB_INPUT]),
        Err(DecodeError::WrongLength)
    );
}

#[test]
fn snapshot_for_an_unknown_surface_is_refused() {
    assert_eq!(
        JBInputs::decode(IDENT_UNKNOWN_INPUT, &[IDENT_UNKNOWN_INPUT, 0]),
        Err(DecodeError::UnknownSurface)
    );
    assert_eq!(
        JBInputs::decode(0x00, &[]),
        Err(DecodeError::UnknownSurface)
    );
}

#[test]
fn default_snapshot_follows_the_surface() {
    assert_eq!(
        inputs_default(IDENT_KEY_INPUT),
        JBInputs::KeyPad(KeyboardInputs::default())
    );
    assert_eq!(
        inputs_default(IDENT_KNOB_INPUT),
        JBInputs::KnobPad(KnobInputs::default())
    );
    assert_eq!(
        inputs_default(IDENT_PEDAL_INPUT),
        JBInputs::PedalPad(PedalInputs::default())
    );
    assert_eq!(
        inputs_default(IDENT_UNKNOWN_INPUT),
        JBInputs::KeyPad(KeyboardInputs::default())
    );
}

#[test]
fn identifiers_differ_from_one_another() {
    let ids = [
        IDENT_KEY_INPUT,
        IDENT_KNOB_INPUT,
        IDENT_PEDAL_INPUT,
        IDENT_UNKNOWN_INPUT,
    ];
    for (i, a) in ids.iter().enumerate() {
        for (j, b) in ids.iter().enumerate() {
            assert_eq!(i == j, a == b);
        }
    }
}
