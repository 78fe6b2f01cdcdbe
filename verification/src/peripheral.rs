//! Input surfaces and their wire form.
//!
//! A device carries exactly one surface: a pad of sixteen keys, a pair of
//! rotary knobs, or three foot pedals. A snapshot of a surface describes the
//! level of every input at one instant; it travels as an identifier byte
//! followed by one or two packed bytes.

use vstd::prelude::*;

verus! {

/// Identifier of the key pad.
pub const IDENT_KEY_INPUT: u8 = 0x80;

/// Identifier of the knob pad.
pub const IDENT_KNOB_INPUT: u8 = 0x82;

/// Identifier of the pedal pad.
pub const IDENT_PEDAL_INPUT: u8 = 0x85;

/// Identifier a device reports when it was built for no surface.
pub const IDENT_UNKNOWN_INPUT: u8 = 0xFF;

/// The value of bit `pos` of a byte.
pub open spec fn bit_weight(pos: u8) -> u8 {
    if pos == 0 {
        1
    } else if pos == 1 {
        2
    } else if pos == 2 {
        4
    } else if pos == 3 {
        8
    } else if pos == 4 {
        16
    } else if pos == 5 {
        32
    } else if pos == 6 {
        64
    } else {
        128
    }
}

/// Whether bit `pos` of `w` is set.
pub open spec fn bit_is_set(w: u8, pos: u8) -> bool {
    (w / bit_weight(pos)) % 2 == 1
}

/// The link as the device sees it. `NotConnected(true)` is the clean idle
/// state; `NotConnected(false)` records that the last link failed.
#[derive(Clone, Copy, Debug, PartialEq, Eq, Structural)]
pub enum Connection {
    NotConnected(bool),
    Connected,
}

impl Connection {
    pub fn default() -> (c: Self)
        ensures
            c == Connection::NotConnected(true),
    {
        Connection::NotConnected(true)
    }

    pub fn connected(&self) -> (b: bool)
        ensures
            b == (*self == Connection::Connected),
    {
        match self {
            Connection::NotConnected(_) => false,
            Connection::Connected => true,
        }
    }
}

/// One switch: released or held.
#[derive(Clone, Copy, Debug, PartialEq, Eq, Structural)]
pub enum SwitchPosition {
    Up,
    Down,
}

impl SwitchPosition {
    /// The byte that has bit `pos` set exactly when the switch is held.
    pub open spec fn spec_encode(self, pos: u8) -> u8 {
        match self {
            SwitchPosition::Up => 0,
            SwitchPosition::Down => bit_weight(pos),
        }
    }

    /// The switch that bit `pos` of `w` describes.
    pub open spec fn spec_decode(w: u8, pos: u8) -> SwitchPosition {
        if bit_is_set(w, pos) {
            SwitchPosition::Down
        } else {
            SwitchPosition::Up
        }
    }

    pub fn default() -> (s: Self)
        ensures
            s == SwitchPosition::Up,
    {
        SwitchPosition::Up
    }

    pub fn is_down(self) -> (b: bool)
        ensures
            b == (self == SwitchPosition::Down),
    {
        match self {
            SwitchPosition::Up => false,
            SwitchPosition::Down => true,
        }
    }

    pub fn encode(self, pos: u8) -> (w: u8)
        requires
            pos < 8,
        ensures
            w == self.spec_encode(pos),
    {
        match self {
            SwitchPosition::Up => 0,
            SwitchPosition::Down => {
                assert(1u8 << pos == bit_weight(pos)) by (bit_vector)
                    requires
                        pos < 8,
                ;
                1 << pos
            },
        }
    }

    pub fn decode(w: u8, pos: u8) -> (s: Self)
        requires
            pos < 8,
        ensures
            s == Self::spec_decode(w, pos),
    {
        assert(((w >> pos) & 1u8 == 1u8) == bit_is_set(w, pos)) by (bit_vector)
            requires
                pos < 8,
        ;
        if (w >> pos) & 1 == 1 {
            SwitchPosition::Down
        } else {
            SwitchPosition::Up
        }
    }
}

/// What a rotary knob did since the last scan.
#[derive(Clone, Copy, Debug, PartialEq, Eq, Structural)]
pub enum KnobDirection {
    Idle,
    Clockwise,
    CounterClockwise,
}

impl KnobDirection {
    /// The two-bit code of the rotation, 01 for clockwise and 10 for
    /// counter-clockwise, moved up to bit `pos`; what does not fit in the byte
    /// is lost.
    pub open spec fn spec_encode(self, pos: u8) -> u8 {
        match self {
            KnobDirection::Idle => 0,
            KnobDirection::Clockwise => bit_weight(pos),
            KnobDirection::CounterClockwise => if pos < 7 {
                bit_weight((pos + 1) as u8)
            } else {
                0
            },
        }
    }

    /// The rotation that the two bits of `w` from bit `pos` up describe.
    /// The codes 00 and 11 both mean no rotation.
    pub open spec fn spec_decode(w: u8, pos: u8) -> KnobDirection {
        let code = (w / bit_weight(pos)) % 4;
        if code == 1 {
            KnobDirection::Clockwise
        } else if code == 2 {
            KnobDirection::CounterClockwise
        } else {
            KnobDirection::Idle
        }
    }

    pub fn default() -> (d: Self)
        ensures
            d == KnobDirection::Idle,
    {
        KnobDirection::Idle
    }

    pub fn is_clockwise(self) -> (b: bool)
        ensures
            b == (self == KnobDirection::Clockwise),
    {
        match self {
            KnobDirection::Clockwise => true,
            _ => false,
        }
    }

    pub fn is_counter_clockwise(self) -> (b: bool)
        ensures
            b == (self == KnobDirection::CounterClockwise),
    {
        match self {
            KnobDirection::CounterClockwise => true,
            _ => false,
        }
    }

    pub fn encode(self, pos: u8) -> (w: u8)
        requires
            pos < 8,
        ensures
            w == self.spec_encode(pos),
    {
        match self {
            KnobDirection::Idle => 0,
            KnobDirection::Clockwise => {
                assert(1u8 << pos == bit_weight(pos)) by (bit_vector)
                    requires
                        pos < 8,
                ;
                1 << pos
            },
            KnobDirection::CounterClockwise => {
                assert(2u8 << pos == (if pos < 7 {
                    bit_weight((pos + 1) as u8)
                } else {
                    0
                })) by (bit_vector)
                    requires
                        pos < 8,
                ;
                2 << pos
            },
        }
    }

    pub fn decode(w: u8, pos: u8) -> (d: Self)
        requires
            pos < 8,
        ensures
            d == Self::spec_decode(w, pos),
    {
        assert((w >> pos) & 3u8 == (w / bit_weight(pos)) % 4) by (bit_vector)
            requires
                pos < 8,
        ;
        let code: u8 = (w >> pos) & 3;
        if code == 1 {
            KnobDirection::Clockwise
        } else if code == 2 {
            KnobDirection::CounterClockwise
        } else {
            KnobDirection::Idle
        }
    }
}

/// Why a byte string is no snapshot of the expected surface.
#[derive(Clone, Copy, Debug, PartialEq, Eq, Structural)]
pub enum DecodeError {
    /// The identifier names none of the three surfaces.
    UnknownSurface,
    /// The first byte is not the expected identifier.
    WrongIdentifier,
    /// The bytes are fewer or more than the surface's encoding.
    WrongLength,
}

/// Eight switches in one byte: the first in bit 0, the last in bit 7, a set
/// bit for a held switch.
pub open spec fn spec_pack_switches(
    k0: SwitchPosition,
    k1: SwitchPosition,
    k2: SwitchPosition,
    k3: SwitchPosition,
    k4: SwitchPosition,
    k5: SwitchPosition,
    k6: SwitchPosition,
    k7: SwitchPosition,
) -> u8 {
    (k0.spec_encode(0) + k1.spec_encode(1) + k2.spec_encode(2) + k3.spec_encode(3)
        + k4.spec_encode(4) + k5.spec_encode(5) + k6.spec_encode(6) + k7.spec_encode(7)) as u8
}

fn pack_switches(
    k0: SwitchPosition,
    k1: SwitchPosition,
    k2: SwitchPosition,
    k3: SwitchPosition,
    k4: SwitchPosition,
    k5: SwitchPosition,
    k6: SwitchPosition,
    k7: SwitchPosition,
) -> (w: u8)
    ensures
        w == spec_pack_switches(k0, k1, k2, k3, k4, k5, k6, k7),
{
    let t0 = k0.encode(0);
    let t1 = k1.encode(1);
    let t2 = k2.encode(2);
    let t3 = k3.encode(3);
    let t4 = k4.encode(4);
    let t5 = k5.encode(5);
    let t6 = k6.encode(6);
    let t7 = k7.encode(7);
    assert((t7 | t6 | t5 | t4 | t3 | t2 | t1 | t0) == t0 + t1 + t2 + t3 + t4 + t5 + t6 + t7)
        by (bit_vector)
        requires
            t0 == 0 || t0 == 1,
            t1 == 0 || t1 == 2,
            t2 == 0 || t2 == 4,
            t3 == 0 || t3 == 8,
            t4 == 0 || t4 == 16,
            t5 == 0 || t5 == 32,
            t6 == 0 || t6 == 64,
            t7 == 0 || t7 == 128,
    ;
    t7 | t6 | t5 | t4 | t3 | t2 | t1 | t0
}

/// The sixteen switches of the key pad.
#[derive(Clone, Copy, Debug, PartialEq, Eq, Structural)]
pub struct KeyboardInputs {
    pub key1: SwitchPosition,
    pub key2: SwitchPosition,
    pub key3: SwitchPosition,
    pub key4: SwitchPosition,
    pub key5: SwitchPosition,
    pub key6: SwitchPosition,
    pub key7: SwitchPosition,
    pub key8: SwitchPosition,
    pub key9: SwitchPosition,
    pub key10: SwitchPosition,
    pub key11: SwitchPosition,
    pub key12: SwitchPosition,
    pub key13: SwitchPosition,
    pub key14: SwitchPosition,
    pub key15: SwitchPosition,
    pub key16: SwitchPosition,
}

impl KeyboardInputs {
    /// The switch numbered `n`, counting from 1.
    pub open spec fn key(self, n: int) -> SwitchPosition {
        if n == 1 {
            self.key1
        } else if n == 2 {
            self.key2
        } else if n == 3 {
            self.key3
        } else if n == 4 {
            self.key4
        } else if n == 5 {
            self.key5
        } else if n == 6 {
            self.key6
        } else if n == 7 {
            self.key7
        } else if n == 8 {
            self.key8
        } else if n == 9 {
            self.key9
        } else if n == 10 {
            self.key10
        } else if n == 11 {
            self.key11
        } else if n == 12 {
            self.key12
        } else if n == 13 {
            self.key13
        } else if n == 14 {
            self.key14
        } else if n == 15 {
            self.key15
        } else {
            self.key16
        }
    }

    /// Keys 1 to 8: key 1 in bit 0, key 8 in bit 7.
    pub open spec fn low_byte(self) -> u8 {
        spec_pack_switches(
            self.key1,
            self.key2,
            self.key3,
            self.key4,
            self.key5,
            self.key6,
            self.key7,
            self.key8,
        )
    }

    /// Keys 9 to 16: key 9 in bit 0, key 16 in bit 7.
    pub open spec fn high_byte(self) -> u8 {
        spec_pack_switches(
            self.key9,
            self.key10,
            self.key11,
            self.key12,
            self.key13,
            self.key14,
            self.key15,
            self.key16,
        )
    }

    /// The wire form: identifier, high byte, low byte.
    pub open spec fn spec_encode(self) -> Seq<u8> {
        seq![IDENT_KEY_INPUT, self.high_byte(), self.low_byte()]
    }

    /// The pad that a high and a low byte describe.
    pub open spec fn from_bytes(high: u8, low: u8) -> KeyboardInputs {
        KeyboardInputs {
            key1: SwitchPosition::spec_decode(low, 0),
            key2: SwitchPosition::spec_decode(low, 1),
            key3: SwitchPosition::spec_decode(low, 2),
            key4: SwitchPosition::spec_decode(low, 3),
            key5: SwitchPosition::spec_decode(low, 4),
            key6: SwitchPosition::spec_decode(low, 5),
            key7: SwitchPosition::spec_decode(low, 6),
            key8: SwitchPosition::spec_decode(low, 7),
            key9: SwitchPosition::spec_decode(high, 0),
            key10: SwitchPosition::spec_decode(high, 1),
            key11: SwitchPosition::spec_decode(high, 2),
            key12: SwitchPosition::spec_decode(high, 3),
            key13: SwitchPosition::spec_decode(high, 4),
            key14: SwitchPosition::spec_decode(high, 5),
            key15: SwitchPosition::spec_decode(high, 6),
            key16: SwitchPosition::spec_decode(high, 7),
        }
    }

    /// What `decode` returns for `bytes`.
    pub open spec fn spec_decode(bytes: Seq<u8>) -> Result<KeyboardInputs, DecodeError> {
        if bytes.len() == 0 {
            Err(DecodeError::WrongLength)
        } else if bytes[0] != IDENT_KEY_INPUT {
            Err(DecodeError::WrongIdentifier)
        } else if bytes.len() != 3 {
            Err(DecodeError::WrongLength)
        } else {
            Ok(Self::from_bytes(bytes[1], bytes[2]))
        }
    }

    /// The switch numbered `n`, counting from 1.
    pub fn switch(&self, n: usize) -> (s: SwitchPosition)
        requires
            1 <= n <= 16,
        ensures
            s == self.key(n as int),
    {
        match n {
            1 => self.key1,
            2 => self.key2,
            3 => self.key3,
            4 => self.key4,
            5 => self.key5,
            6 => self.key6,
            7 => self.key7,
            8 => self.key8,
            9 => self.key9,
            10 => self.key10,
            11 => self.key11,
            12 => self.key12,
            13 => self.key13,
            14 => self.key14,
            15 => self.key15,
            _ => self.key16,
        }
    }

    pub fn default() -> (k: Self)
        ensures
            forall|n: int| 1 <= n <= 16 ==> k.key(n) == SwitchPosition::Up,
            k.spec_encode() == seq![IDENT_KEY_INPUT, 0u8, 0u8],
    {
        KeyboardInputs {
            key1: SwitchPosition::Up,
            key2: SwitchPosition::Up,
            key3: SwitchPosition::Up,
            key4: SwitchPosition::Up,
            key5: SwitchPosition::Up,
            key6: SwitchPosition::Up,
            key7: SwitchPosition::Up,
            key8: SwitchPosition::Up,
            key9: SwitchPosition::Up,
            key10: SwitchPosition::Up,
            key11: SwitchPosition::Up,
            key12: SwitchPosition::Up,
            key13: SwitchPosition::Up,
            key14: SwitchPosition::Up,
            key15: SwitchPosition::Up,
            key16: SwitchPosition::Up,
        }
    }

    pub fn encode(self) -> (w: [u8; 3])
        ensures
            w@ == self.spec_encode(),
    {
        let high = pack_switches(
            self.key9,
            self.key10,
            self.key11,
            self.key12,
            self.key13,
            self.key14,
            self.key15,
            self.key16,
        );
        let low = pack_switches(
            self.key1,
            self.key2,
            self.key3,
            self.key4,
            self.key5,
            self.key6,
            self.key7,
            self.key8,
        );
        let w = [IDENT_KEY_INPUT, high, low];
        assert(w@ =~= self.spec_encode());
        w
    }

    pub fn decode(bytes: &[u8]) -> (r: Result<KeyboardInputs, DecodeError>)
        ensures
            r == Self::spec_decode(bytes@),
    {
        if bytes.len() == 0 {
            return Err(DecodeError::WrongLength);
        }
        if bytes[0] != IDENT_KEY_INPUT {
            return Err(DecodeError::WrongIdentifier);
        }
        if bytes.len() != 3 {
            return Err(DecodeError::WrongLength);
        }
        let high = bytes[1];
        let low = bytes[2];
        Ok(KeyboardInputs {
            key1: SwitchPosition::decode(low, 0),
            key2: SwitchPosition::decode(low, 1),
            key3: SwitchPosition::decode(low, 2),
            key4: SwitchPosition::decode(low, 3),
            key5: SwitchPosition::decode(low, 4),
            key6: SwitchPosition::decode(low, 5),
            key7: SwitchPosition::decode(low, 6),
            key8: SwitchPosition::decode(low, 7),
            key9: SwitchPosition::decode(high, 0),
            key10: SwitchPosition::decode(high, 1),
            key11: SwitchPosition::decode(high, 2),
            key12: SwitchPosition::decode(high, 3),
            key13: SwitchPosition::decode(high, 4),
            key14: SwitchPosition::decode(high, 5),
            key15: SwitchPosition::decode(high, 6),
            key16: SwitchPosition::decode(high, 7),
        })
    }
}

/// The two knobs: each has a switch and a rotation.
#[derive(Clone, Copy, Debug, PartialEq, Eq, Structural)]
pub struct KnobInputs {
    pub left_switch: SwitchPosition,
    pub left_direction: KnobDirection,
    pub right_switch: SwitchPosition,
    pub right_direction: KnobDirection,
}

impl KnobInputs {
    /// Right rotation in bits 0 and 1, right switch in bit 2, left rotation
    /// in bits 3 and 4, left switch in bit 5.
    pub open spec fn packed(self) -> u8 {
        (self.left_switch.spec_encode(5) + self.left_direction.spec_encode(3)
            + self.right_switch.spec_encode(2) + self.right_direction.spec_encode(0)) as u8
    }

    /// The wire form: identifier, packed byte.
    pub open spec fn spec_encode(self) -> Seq<u8> {
        seq![IDENT_KNOB_INPUT, self.packed()]
    }

    /// The knobs that a packed byte describes.
    pub open spec fn from_byte(w: u8) -> KnobInputs {
        KnobInputs {
            left_switch: SwitchPosition::spec_decode(w, 5),
            left_direction: KnobDirection::spec_decode(w, 3),
            right_switch: SwitchPosition::spec_decode(w, 2),
            right_direction: KnobDirection::spec_decode(w, 0),
        }
    }

    /// What `decode` returns for `bytes`.
    pub open spec fn spec_decode(bytes: Seq<u8>) -> Result<KnobInputs, DecodeError> {
        if bytes.len() == 0 {
            Err(DecodeError::WrongLength)
        } else if bytes[0] != IDENT_KNOB_INPUT {
            Err(DecodeError::WrongIdentifier)
        } else if bytes.len() != 2 {
            Err(DecodeError::WrongLength)
        } else {
            Ok(Self::from_byte(bytes[1]))
        }
    }

    pub fn default() -> (k: Self)
        ensures
            k.left_switch == SwitchPosition::Up,
            k.left_direction == KnobDirection::Idle,
            k.right_switch == SwitchPosition::Up,
            k.right_direction == KnobDirection::Idle,
    {
        KnobInputs {
            left_switch: SwitchPosition::Up,
            left_direction: KnobDirection::Idle,
            right_switch: SwitchPosition::Up,
            right_direction: KnobDirection::Idle,
        }
    }

    pub fn encode(self) -> (w: [u8; 2])
        ensures
            w@ == self.spec_encode(),
    {
        let ls = self.left_switch.encode(5);
        let ld = self.left_direction.encode(3);
        let rs = self.right_switch.encode(2);
        let rd = self.right_direction.encode(0);
        assert((ls | ld | rs | rd) == ls + ld + rs + rd) by (bit_vector)
            requires
                ls == 0 || ls == 32,
                ld == 0 || ld == 8 || ld == 16,
                rs == 0 || rs == 4,
                rd == 0 || rd == 1 || rd == 2,
        ;
        let w = [IDENT_KNOB_INPUT, ls | ld | rs | rd];
        assert(w@ =~= self.spec_encode());
        w
    }

    pub fn decode(bytes: &[u8]) -> (r: Result<KnobInputs, DecodeError>)
        ensures
            r == Self::spec_decode(bytes@),
    {
        if bytes.len() == 0 {
            return Err(DecodeError::WrongLength);
        }
        if bytes[0] != IDENT_KNOB_INPUT {
            return Err(DecodeError::WrongIdentifier);
        }
        if bytes.len() != 2 {
            return Err(DecodeError::WrongLength);
        }
        let w = bytes[1];
        Ok(KnobInputs {
            left_switch: SwitchPosition::decode(w, 5),
            left_direction: KnobDirection::decode(w, 3),
            right_switch: SwitchPosition::decode(w, 2),
            right_direction: KnobDirection::decode(w, 0),
        })
    }
}

/// The three pedals.
#[derive(Clone, Copy, Debug, PartialEq, Eq, Structural)]
pub struct PedalInputs {
    pub left: SwitchPosition,
    pub middle: SwitchPosition,
    pub right: SwitchPosition,
}

impl PedalInputs {
    /// Right pedal in bit 0, middle in bit 1, left in bit 2.
    pub open spec fn packed(self) -> u8 {
        (self.left.spec_encode(2) + self.middle.spec_encode(1) + self.right.spec_encode(0)) as u8
    }

    /// The wire form: identifier, packed byte.
    pub open spec fn spec_encode(self) -> Seq<u8> {
        seq![IDENT_PEDAL_INPUT, self.packed()]
    }

    /// The pedals that a packed byte describes.
    pub open spec fn from_byte(w: u8) -> PedalInputs {
        PedalInputs {
            left: SwitchPosition::spec_decode(w, 2),
            middle: SwitchPosition::spec_decode(w, 1),
            right: SwitchPosition::spec_decode(w, 0),
        }
    }

    /// What `decode` returns for `bytes`.
    pub open spec fn spec_decode(bytes: Seq<u8>) -> Result<PedalInputs, DecodeError> {
        if bytes.len() == 0 {
            Err(DecodeError::WrongLength)
        } else if bytes[0] != IDENT_PEDAL_INPUT {
            Err(DecodeError::WrongIdentifier)
        } else if bytes.len() != 2 {
            Err(DecodeError::WrongLength)
        } else {
            Ok(Self::from_byte(bytes[1]))
        }
    }

    pub fn default() -> (p: Self)
        ensures
            p.left == SwitchPosition::Up,
            p.middle == SwitchPosition::Up,
            p.right == SwitchPosition::Up,
    {
        PedalInputs {
            left: SwitchPosition::Up,
            middle: SwitchPosition::Up,
            right: SwitchPosition::Up,
        }
    }

    pub fn encode(self) -> (w: [u8; 2])
        ensures
            w@ == self.spec_encode(),
    {
        let l = self.left.encode(2);
        let m = self.middle.encode(1);
        let r = self.right.encode(0);
        assert((l | m | r) == l + m + r) by (bit_vector)
            requires
                l == 0 || l == 4,
                m == 0 || m == 2,
                r == 0 || r == 1,
        ;
        let w = [IDENT_PEDAL_INPUT, l | m | r];
        assert(w@ =~= self.spec_encode());
        w
    }

    pub fn decode(bytes: &[u8]) -> (r: Result<PedalInputs, DecodeError>)
        ensures
            r == Self::spec_decode(bytes@),
    {
        if bytes.len() == 0 {
            return Err(DecodeError::WrongLength);
        }
        if bytes[0] != IDENT_PEDAL_INPUT {
            return Err(DecodeError::WrongIdentifier);
        }
        if bytes.len() != 2 {
            return Err(DecodeError::WrongLength);
        }
        let w = bytes[1];
        Ok(PedalInputs {
            left: SwitchPosition::decode(w, 2),
            middle: SwitchPosition::decode(w, 1),
            right: SwitchPosition::decode(w, 0),
        })
    }
}


/// A snapshot of the one surface that a device carries.
#[derive(Clone, Copy, Debug, PartialEq, Eq, Structural)]
pub enum JBInputs {
    KeyPad(KeyboardInputs),
    KnobPad(KnobInputs),
    PedalPad(PedalInputs),
}

/// Whether `bytes` has the form of a snapshot of the surface that
/// `identifier` names: the identifier first, then as many packed bytes as that
/// surface has.
pub open spec fn has_snapshot_shape(identifier: u8, bytes: Seq<u8>) -> bool {
    &&& identifier == IDENT_KEY_INPUT || identifier == IDENT_KNOB_INPUT || identifier
        == IDENT_PEDAL_INPUT
    &&& bytes.len() == (if identifier == IDENT_KEY_INPUT {
        3nat
    } else {
        2nat
    })
    &&& bytes[0] == identifier
}

impl JBInputs {
    /// The identifier of the snapshot's surface.
    pub open spec fn spec_identifier(self) -> u8 {
        match self {
            JBInputs::KeyPad(_) => IDENT_KEY_INPUT,
            JBInputs::KnobPad(_) => IDENT_KNOB_INPUT,
            JBInputs::PedalPad(_) => IDENT_PEDAL_INPUT,
        }
    }

    /// The wire form of the snapshot.
    pub open spec fn spec_encode(self) -> Seq<u8> {
        match self {
            JBInputs::KeyPad(k) => k.spec_encode(),
            JBInputs::KnobPad(k) => k.spec_encode(),
            JBInputs::PedalPad(p) => p.spec_encode(),
        }
    }

    /// What `decode` returns for `bytes` when the link advertised `identifier`.
    pub open spec fn spec_decode(identifier: u8, bytes: Seq<u8>) -> Result<JBInputs, DecodeError> {
        if identifier == IDENT_KEY_INPUT {
            match KeyboardInputs::spec_decode(bytes) {
                Ok(k) => Ok(JBInputs::KeyPad(k)),
                Err(e) => Err(e),
            }
        } else if identifier == IDENT_KNOB_INPUT {
            match KnobInputs::spec_decode(bytes) {
                Ok(k) => Ok(JBInputs::KnobPad(k)),
                Err(e) => Err(e),
            }
        } else if identifier == IDENT_PEDAL_INPUT {
            match PedalInputs::spec_decode(bytes) {
                Ok(p) => Ok(JBInputs::PedalPad(p)),
                Err(e) => Err(e),
            }
        } else {
            Err(DecodeError::UnknownSurface)
        }
    }

    pub fn identifier(&self) -> (id: u8)
        ensures
            id == self.spec_identifier(),
    {
        match self {
            JBInputs::KeyPad(_) => IDENT_KEY_INPUT,
            JBInputs::KnobPad(_) => IDENT_KNOB_INPUT,
            JBInputs::PedalPad(_) => IDENT_PEDAL_INPUT,
        }
    }

    pub fn encode(self) -> (w: Vec<u8>)
        ensures
            w@ == self.spec_encode(),
    {
        let mut w: Vec<u8> = Vec::new();
        match self {
            JBInputs::KeyPad(k) => {
                let a = k.encode();
                w.push(a[0]);
                w.push(a[1]);
                w.push(a[2]);
            },
            JBInputs::KnobPad(k) => {
                let a = k.encode();
                w.push(a[0]);
                w.push(a[1]);
            },
            JBInputs::PedalPad(p) => {
                let a = p.encode();
                w.push(a[0]);
                w.push(a[1]);
            },
        }
        assert(w@ =~= self.spec_encode());
        w
    }

    /// Reads a snapshot of the surface that the link advertised. Bytes of any
    /// other form are refused, and so is every identifier but the three
    /// surfaces'.
    pub fn decode(identifier: u8, bytes: &[u8]) -> (r: Result<JBInputs, DecodeError>)
        ensures
            r == Self::spec_decode(identifier, bytes@),
            r is Ok <==> has_snapshot_shape(identifier, bytes@),
    {
        if identifier == IDENT_KEY_INPUT {
            match KeyboardInputs::decode(bytes) {
                Ok(k) => Ok(JBInputs::KeyPad(k)),
                Err(e) => Err(e),
            }
        } else if identifier == IDENT_KNOB_INPUT {
            match KnobInputs::decode(bytes) {
                Ok(k) => Ok(JBInputs::KnobPad(k)),
                Err(e) => Err(e),
            }
        } else if identifier == IDENT_PEDAL_INPUT {
            match PedalInputs::decode(bytes) {
                Ok(p) => Ok(JBInputs::PedalPad(p)),
                Err(e) => Err(e),
            }
        } else {
            Err(DecodeError::UnknownSurface)
        }
    }
}

/// The snapshot a device holds before its first scan: every input of its
/// surface at rest. A device built for no surface holds an idle key pad.
pub fn inputs_default(identifier: u8) -> (inputs: JBInputs)
    ensures
        inputs == (if identifier == IDENT_KNOB_INPUT {
            JBInputs::KnobPad(
                KnobInputs {
                    left_switch: SwitchPosition::Up,
                    left_direction: KnobDirection::Idle,
                    right_switch: SwitchPosition::Up,
                    right_direction: KnobDirection::Idle,
                },
            )
        } else if identifier == IDENT_PEDAL_INPUT {
            JBInputs::PedalPad(
                PedalInputs {
                    left: SwitchPosition::Up,
                    middle: SwitchPosition::Up,
                    right: SwitchPosition::Up,
                },
            )
        } else {
            JBInputs::KeyPad(KeyboardInputs::from_bytes(0, 0))
        }),
{
    if identifier == IDENT_KNOB_INPUT {
        JBInputs::KnobPad(KnobInputs::default())
    } else if identifier == IDENT_PEDAL_INPUT {
        JBInputs::PedalPad(PedalInputs::default())
    } else {
        let k = KeyboardInputs::default();
        assert(forall|n: int| 1 <= n <= 16 ==> k.key(n) == SwitchPosition::Up);
        assert(k.key(1) == SwitchPosition::Up);
        JBInputs::KeyPad(k)
    }
}

/// Unpacking a byte of eight switches gives the switches back.
pub proof fn lemma_unpack_switches(
    k0: SwitchPosition,
    k1: SwitchPosition,
    k2: SwitchPosition,
    k3: SwitchPosition,
    k4: SwitchPosition,
    k5: SwitchPosition,
    k6: SwitchPosition,
    k7: SwitchPosition,
)
    ensures
        ({
            let w = spec_pack_switches(k0, k1, k2, k3, k4, k5, k6, k7);
            &&& SwitchPosition::spec_decode(w, 0) == k0
            &&& SwitchPosition::spec_decode(w, 1) == k1
            &&& SwitchPosition::spec_decode(w, 2) == k2
            &&& SwitchPosition::spec_decode(w, 3) == k3
            &&& SwitchPosition::spec_decode(w, 4) == k4
            &&& SwitchPosition::spec_decode(w, 5) == k5
            &&& SwitchPosition::spec_decode(w, 6) == k6
            &&& SwitchPosition::spec_decode(w, 7) == k7
        }),
{
    let t0 = k0.spec_encode(0);
    let t1 = k1.spec_encode(1);
    let t2 = k2.spec_encode(2);
    let t3 = k3.spec_encode(3);
    let t4 = k4.spec_encode(4);
    let t5 = k5.spec_encode(5);
    let t6 = k6.spec_encode(6);
    let t7 = k7.spec_encode(7);
    let w = spec_pack_switches(k0, k1, k2, k3, k4, k5, k6, k7);
    assert(bit_is_set(w, 0) == (t0 != 0) && bit_is_set(w, 1) == (t1 != 0) && bit_is_set(w, 2) == (t2
        != 0) && bit_is_set(w, 3) == (t3 != 0) && bit_is_set(w, 4) == (t4 != 0) && bit_is_set(w, 5)
        == (t5 != 0) && bit_is_set(w, 6) == (t6 != 0) && bit_is_set(w, 7) == (t7 != 0))
        by (bit_vector)
        requires
            t0 == 0 || t0 == 1,
            t1 == 0 || t1 == 2,
            t2 == 0 || t2 == 4,
            t3 == 0 || t3 == 8,
            t4 == 0 || t4 == 16,
            t5 == 0 || t5 == 32,
            t6 == 0 || t6 == 64,
            t7 == 0 || t7 == 128,
            w == t0 + t1 + t2 + t3 + t4 + t5 + t6 + t7,
    ;
}

/// Decoding what a key pad encodes to gives the key pad back.
pub proof fn lemma_key_round_trip(k: KeyboardInputs)
    ensures
        KeyboardInputs::spec_decode(k.spec_encode()) == Ok::<KeyboardInputs, DecodeError>(k),
{
    lemma_unpack_switches(k.key1, k.key2, k.key3, k.key4, k.key5, k.key6, k.key7, k.key8);
    lemma_unpack_switches(k.key9, k.key10, k.key11, k.key12, k.key13, k.key14, k.key15, k.key16);
}

/// Decoding what a knob pad encodes to gives the knob pad back.
pub proof fn lemma_knob_round_trip(k: KnobInputs)
    ensures
        KnobInputs::spec_decode(k.spec_encode()) == Ok::<KnobInputs, DecodeError>(k),
{
    let ls = k.left_switch.spec_encode(5);
    let ld = k.left_direction.spec_encode(3);
    let rs = k.right_switch.spec_encode(2);
    let rd = k.right_direction.spec_encode(0);
    let w = k.packed();
    assert(bit_is_set(w, 5) == (ls != 0) && (w / bit_weight(3)) % 4 == ld / 8 && bit_is_set(w, 2)
        == (rs != 0) && (w / bit_weight(0)) % 4 == rd) by (bit_vector)
        requires
            ls == 0 || ls == 32,
            ld == 0 || ld == 8 || ld == 16,
            rs == 0 || rs == 4,
            rd == 0 || rd == 1 || rd == 2,
            w == ls + ld + rs + rd,
    ;
}

/// Decoding what a pedal pad encodes to gives the pedal pad back.
pub proof fn lemma_pedal_round_trip(p: PedalInputs)
    ensures
        PedalInputs::spec_decode(p.spec_encode()) == Ok::<PedalInputs, DecodeError>(p),
{
}

/// Decoding the wire form of a snapshot, against the identifier of its own
/// surface, gives the snapshot back.
pub proof fn lemma_snapshot_round_trip(s: JBInputs)
    ensures
        JBInputs::spec_decode(s.spec_identifier(), s.spec_encode()) == Ok::<JBInputs, DecodeError>(
            s,
        ),
        has_snapshot_shape(s.spec_identifier(), s.spec_encode()),
{
    match s {
        JBInputs::KeyPad(k) => lemma_key_round_trip(k),
        JBInputs::KnobPad(k) => lemma_knob_round_trip(k),
        JBInputs::PedalPad(p) => lemma_pedal_round_trip(p),
    }
}

/// A byte string decodes exactly when it has the form of a snapshot of the
/// advertised surface, and a refusal names one fixed error.
pub proof fn lemma_decode_refuses_other_shapes(identifier: u8, bytes: Seq<u8>)
    ensures
        JBInputs::spec_decode(identifier, bytes) is Ok <==> has_snapshot_shape(identifier, bytes),
        !has_snapshot_shape(identifier, bytes) ==> JBInputs::spec_decode(identifier, bytes) == Err::<
            JBInputs,
            DecodeError,
        >(
            if identifier != IDENT_KEY_INPUT && identifier != IDENT_KNOB_INPUT && identifier
                != IDENT_PEDAL_INPUT {
                DecodeError::UnknownSurface
            } else if bytes.len() > 0 && bytes[0] != identifier {
                DecodeError::WrongIdentifier
            } else {
                DecodeError::WrongLength
            },
        ),
{
}

} // verus!
