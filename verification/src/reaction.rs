//! Logical keys, and what the host does when one goes down or comes up.
//!
//! The device reports levels. The host turns each snapshot into the set of
//! logical keys that are on, compares it with the set before, and looks up a
//! reaction for every key that was pressed or released.

use crate::host::SerialEvent;
use crate::keyset::KeySet;
use crate::peripheral::JBInputs;
use crate::peripheral::KeyboardInputs;
use crate::peripheral::KnobDirection;
use crate::peripheral::KnobInputs;
use crate::peripheral::PedalInputs;
use crate::peripheral::SwitchPosition;
use vstd::prelude::*;

verus! {

/// A key as the user's profile names it.
#[derive(Clone, Copy, Debug, PartialEq, Eq, Hash, Structural)]
pub enum InputKey {
    UnknownKey,
    KeySwitch1,
    KeySwitch2,
    KeySwitch3,
    KeySwitch4,
    KeySwitch5,
    KeySwitch6,
    KeySwitch7,
    KeySwitch8,
    KeySwitch9,
    KeySwitch10,
    KeySwitch11,
    KeySwitch12,
    KeySwitch13,
    KeySwitch14,
    KeySwitch15,
    KeySwitch16,
    KnobLeftSwitch,
    KnobLeftClockwise,
    KnobLeftCounterClockwise,
    KnobRightSwitch,
    KnobRightClockwise,
    KnobRightCounterClockwise,
    PedalLeft,
    PedalMiddle,
    PedalRight,
}

impl InputKey {
    /// The number of the switch that a logical key of the key pad stands for,
    /// counting from 1; 0 for every other logical key.
    pub open spec fn switch_number(self) -> int {
        match self {
            InputKey::KeySwitch1 => 1,
            InputKey::KeySwitch2 => 2,
            InputKey::KeySwitch3 => 3,
            InputKey::KeySwitch4 => 4,
            InputKey::KeySwitch5 => 5,
            InputKey::KeySwitch6 => 6,
            InputKey::KeySwitch7 => 7,
            InputKey::KeySwitch8 => 8,
            InputKey::KeySwitch9 => 9,
            InputKey::KeySwitch10 => 10,
            InputKey::KeySwitch11 => 11,
            InputKey::KeySwitch12 => 12,
            InputKey::KeySwitch13 => 13,
            InputKey::KeySwitch14 => 14,
            InputKey::KeySwitch15 => 15,
            InputKey::KeySwitch16 => 16,
            _ => 0,
        }
    }
}

/// The logical keys of the switches of a key pad, up to the switch numbered
/// `n`, that are held.
pub open spec fn keys_held_up_to(i: KeyboardInputs, n: int) -> Set<InputKey> {
    Set::new(
        |key: InputKey|
            1 <= key.switch_number() <= n && i.key(key.switch_number()) == SwitchPosition::Down,
    )
}

/// Two logical keys that stand for the same switch of the key pad are one
/// key.
proof fn lemma_one_key_per_switch(a: InputKey, b: InputKey)
    requires
        a.switch_number() == b.switch_number(),
        a.switch_number() != 0,
    ensures
        a == b,
{
}

impl InputKey {
    /// The logical keys of a key pad: one for each switch that is held.
    pub open spec fn spec_trans_keys(i: KeyboardInputs) -> Set<InputKey> {
        keys_held_up_to(i, 16)
    }

    /// The logical keys of a knob pad: one for each switch that is held and
    /// one for each knob that turns, by its direction.
    pub open spec fn spec_trans_knob(i: KnobInputs) -> Set<InputKey> {
        Set::new(
            |key: InputKey|
                {
                    ||| key == InputKey::KnobLeftSwitch && i.left_switch == SwitchPosition::Down
                    ||| key == InputKey::KnobLeftClockwise && i.left_direction
                        == KnobDirection::Clockwise
                    ||| key == InputKey::KnobLeftCounterClockwise && i.left_direction
                        == KnobDirection::CounterClockwise
                    ||| key == InputKey::KnobRightSwitch && i.right_switch == SwitchPosition::Down
                    ||| key == InputKey::KnobRightClockwise && i.right_direction
                        == KnobDirection::Clockwise
                    ||| key == InputKey::KnobRightCounterClockwise && i.right_direction
                        == KnobDirection::CounterClockwise
                },
        )
    }

    /// The logical keys of a pedal pad: one for each pedal that is held.
    pub open spec fn spec_trans_pedals(i: PedalInputs) -> Set<InputKey> {
        Set::new(
            |key: InputKey|
                {
                    ||| key == InputKey::PedalLeft && i.left == SwitchPosition::Down
                    ||| key == InputKey::PedalMiddle && i.middle == SwitchPosition::Down
                    ||| key == InputKey::PedalRight && i.right == SwitchPosition::Down
                },
        )
    }

    /// The logical keys of a snapshot.
    pub open spec fn spec_trans_inputs(inputs: JBInputs) -> Set<InputKey> {
        match inputs {
            JBInputs::KeyPad(i) => Self::spec_trans_keys(i),
            JBInputs::KnobPad(i) => Self::spec_trans_knob(i),
            JBInputs::PedalPad(i) => Self::spec_trans_pedals(i),
        }
    }

    /// The logical key of the key switch numbered `n`, counting from 1.
    pub fn key_switch(n: usize) -> (key: InputKey)
        requires
            1 <= n <= 16,
        ensures
            key.switch_number() == n,
    {
        match n {
            1 => InputKey::KeySwitch1,
            2 => InputKey::KeySwitch2,
            3 => InputKey::KeySwitch3,
            4 => InputKey::KeySwitch4,
            5 => InputKey::KeySwitch5,
            6 => InputKey::KeySwitch6,
            7 => InputKey::KeySwitch7,
            8 => InputKey::KeySwitch8,
            9 => InputKey::KeySwitch9,
            10 => InputKey::KeySwitch10,
            11 => InputKey::KeySwitch11,
            12 => InputKey::KeySwitch12,
            13 => InputKey::KeySwitch13,
            14 => InputKey::KeySwitch14,
            15 => InputKey::KeySwitch15,
            _ => InputKey::KeySwitch16,
        }
    }

    pub fn trans_keys(i: KeyboardInputs) -> (res: KeySet)
        ensures
            res.wf(),
            res@ == Self::spec_trans_keys(i),
    {
        let mut res = KeySet::new();
        assert(res@ =~= keys_held_up_to(i, 0));
        let mut n: usize = 1;
        while n <= 16
            invariant
                1 <= n <= 17,
                res.wf(),
                res@ == keys_held_up_to(i, n - 1),
            decreases 17 - n,
        {
            let key = Self::key_switch(n);
            res.insert_if(i.switch(n).is_down(), key);
            assert forall|k: InputKey| res@.contains(k) == keys_held_up_to(i, n as int).contains(
                k,
            ) by {
                if k.switch_number() == n {
                    lemma_one_key_per_switch(k, key);
                }
            }
            assert(res@ =~= keys_held_up_to(i, n as int));
            n += 1;
        }
        res
    }

    pub fn trans_knob(i: KnobInputs) -> (res: KeySet)
        ensures
            res.wf(),
            res@ == Self::spec_trans_knob(i),
    {
        let mut res = KeySet::new();
        res.insert_if(i.left_switch.is_down(), InputKey::KnobLeftSwitch);
        res.insert_if(i.left_direction.is_clockwise(), InputKey::KnobLeftClockwise);
        res.insert_if(i.left_direction.is_counter_clockwise(), InputKey::KnobLeftCounterClockwise);
        res.insert_if(i.right_switch.is_down(), InputKey::KnobRightSwitch);
        res.insert_if(i.right_direction.is_clockwise(), InputKey::KnobRightClockwise);
        res.insert_if(i.right_direction.is_counter_clockwise(), InputKey::KnobRightCounterClockwise);
        assert(res@ =~= Self::spec_trans_knob(i));
        res
    }

    pub fn trans_pedals(i: PedalInputs) -> (res: KeySet)
        ensures
            res.wf(),
            res@ == Self::spec_trans_pedals(i),
    {
        let mut res = KeySet::new();
        res.insert_if(i.left.is_down(), InputKey::PedalLeft);
        res.insert_if(i.middle.is_down(), InputKey::PedalMiddle);
        res.insert_if(i.right.is_down(), InputKey::PedalRight);
        assert(res@ =~= Self::spec_trans_pedals(i));
        res
    }

    /// The logical keys that are on in a snapshot, whatever its surface.
    pub fn trans_inputs(inputs: JBInputs) -> (res: KeySet)
        ensures
            res.wf(),
            res@ == Self::spec_trans_inputs(inputs),
    {
        match inputs {
            JBInputs::KeyPad(i) => Self::trans_keys(i),
            JBInputs::KnobPad(i) => Self::trans_knob(i),
            JBInputs::PedalPad(i) => Self::trans_pedals(i),
        }
    }
}

/// The reaction that only reports that it ran.
#[derive(Clone, Copy, Debug, PartialEq, Eq, Structural)]
pub struct ReactionMetaTest {}

/// What a profile may bind to a key.
#[derive(Clone, Copy, Debug, PartialEq, Eq, Structural)]
pub enum ReactionConfig {
    MetaTest(ReactionMetaTest),
    MetaSwitchProfile(),
    MetaCopyFromProfile(),
    InputPressKey(),
    InputClickMouse(),
    InputMoveMouse(),
    InputScrollMouse(),
    SystemLaunch(),
    SystemWebsite(),
    SystemAudioInputControl(),
    SystemAudioOutputControl(),
    SoundboardPlaySound(),
    DiscordToggleMute(),
    DiscordToggleDeafen(),
    DiscordPushToTalk(),
    DiscordPushToMute(),
    DiscordToggleCamera(),
    DiscordToggleStream(),
}

/// One line of a profile: the reaction of one key.
#[derive(Clone, Copy, Debug, PartialEq, Eq, Structural)]
pub struct KeyBinding {
    pub key: InputKey,
    pub reaction: ReactionConfig,
}

/// A reaction that is due: `reaction` is to be run for `key`, its press
/// handler if `pressed` holds and its release handler otherwise.
#[derive(Clone, Copy, Debug, PartialEq, Eq, Structural)]
pub struct ReactionCall {
    pub key: InputKey,
    pub pressed: bool,
    pub reaction: ReactionConfig,
}

/// The reaction that the first binding of `key` at or after `from` names.
pub open spec fn lookup_from(bindings: Seq<KeyBinding>, key: InputKey, from: int) -> Option<
    ReactionConfig,
>
    decreases bindings.len() - from,
{
    if from < 0 || from >= bindings.len() {
        None
    } else if bindings[from].key == key {
        Some(bindings[from].reaction)
    } else {
        lookup_from(bindings, key, from + 1)
    }
}

/// The reaction that a profile binds to `key`: that of the first binding
/// that names the key.
pub open spec fn lookup(bindings: Seq<KeyBinding>, key: InputKey) -> Option<ReactionConfig> {
    lookup_from(bindings, key, 0)
}

/// The calls that are due for `keys`, in their order: one for each key that
/// the profile binds.
pub open spec fn calls_for(bindings: Seq<KeyBinding>, keys: Seq<InputKey>, pressed: bool) -> Seq<
    ReactionCall,
>
    decreases keys.len(),
{
    if keys.len() == 0 {
        Seq::<ReactionCall>::empty()
    } else {
        let rest = calls_for(bindings, keys.drop_last(), pressed);
        match lookup(bindings, keys.last()) {
            Some(reaction) => rest.push(ReactionCall { key: keys.last(), pressed, reaction }),
            None => rest,
        }
    }
}

/// Looks up the reaction that a profile binds to a key.
pub fn find_reaction(bindings: &[KeyBinding], key: InputKey) -> (r: Option<ReactionConfig>)
    ensures
        r == lookup(bindings@, key),
{
    let mut i: usize = 0;
    while i < bindings.len()
        invariant
            lookup(bindings@, key) == lookup_from(bindings@, key, i as int),
        decreases bindings.len() - i,
    {
        if bindings[i].key == key {
            return Some(bindings[i].reaction);
        }
        i += 1;
    }
    None
}

fn collect_calls(calls: &mut Vec<ReactionCall>, bindings: &[KeyBinding], keys: &KeySet, pressed: bool)
    requires
        keys.wf(),
    ensures
        final(calls)@ == old(calls)@ + calls_for(bindings@, keys.order(), pressed),
{
    let list = keys.to_vec();
    let mut i: usize = 0;
    assert(list@.subrange(0, 0) =~= Seq::<InputKey>::empty());
    while i < list.len()
        invariant
            i <= list.len(),
            calls@ == old(calls)@ + calls_for(bindings@, list@.subrange(0, i as int), pressed),
        decreases list.len() - i,
    {
        let key = list[i];
        proof {
            let upto = list@.subrange(0, i + 1);
            assert(upto.drop_last() =~= list@.subrange(0, i as int));
            assert(upto.last() == key);
        }
        match find_reaction(bindings, key) {
            Some(reaction) => {
                calls.push(ReactionCall { key, pressed, reaction });
                assert(calls@ =~= old(calls)@ + calls_for(
                    bindings@,
                    list@.subrange(0, i + 1),
                    pressed,
                ));
            },
            None => {},
        }
        i += 1;
    }
    assert(list@.subrange(0, i as int) =~= list@);
}

/// The keys that went down between two snapshots.
pub open spec fn pressed_edges(previous: Set<InputKey>, now: Set<InputKey>) -> Set<InputKey> {
    now.difference(previous)
}

/// The keys that came up between two snapshots.
pub open spec fn released_edges(previous: Set<InputKey>, now: Set<InputKey>) -> Set<InputKey> {
    previous.difference(now)
}

/// The edges between two snapshots.
#[derive(Clone, Debug)]
pub struct KeyEdges {
    pub pressed: KeySet,
    pub released: KeySet,
}

/// The host's reaction worker: it remembers the keys of the last snapshot.
#[derive(Debug)]
pub struct ReactionWorker {
    previous: KeySet,
}

impl ReactionWorker {
    /// The remembered key set holds no key twice.
    pub closed spec fn wf(&self) -> bool {
        self.previous.wf()
    }

    /// The keys of the last snapshot.
    pub closed spec fn previous_keys(&self) -> Set<InputKey> {
        self.previous@
    }

    /// The keys of the last snapshot, in the order of their set.
    pub closed spec fn previous_order(&self) -> Seq<InputKey> {
        self.previous.order()
    }

    /// The order of the remembered keys holds each of them once and no other
    /// key.
    pub proof fn lemma_previous_order(&self)
        requires
            self.wf(),
        ensures
            self.previous_order().no_duplicates(),
            self.previous_order().to_set() == self.previous_keys(),
            self.previous_order().len() == self.previous_keys().len(),
            self.previous_keys().finite(),
    {
        self.previous.lemma_order();
    }

    /// A worker that has seen no snapshot: no key is taken to be held.
    pub fn new() -> (w: Self)
        ensures
            w.wf(),
            w.previous_keys() == Set::<InputKey>::empty(),
            w.previous_order() == Seq::<InputKey>::empty(),
    {
        ReactionWorker { previous: KeySet::new() }
    }

    /// Takes the keys of a new snapshot and gives the edges since the last
    /// one: what is held now and was not is pressed, what was held and is not
    /// now is released. No key is in both, and none is in either twice.
    pub fn observe(&mut self, keys: KeySet) -> (edges: KeyEdges)
        requires
            old(self).wf(),
            keys.wf(),
        ensures
            final(self).wf(),
            final(self).previous_keys() == keys@,
            final(self).previous_order() == keys.order(),
            edges.pressed.wf(),
            edges.released.wf(),
            edges.pressed@ == pressed_edges(old(self).previous_keys(), keys@),
            edges.released@ == released_edges(old(self).previous_keys(), keys@),
            edges.pressed.order() == keys.order().filter(
                |k: InputKey| !old(self).previous_keys().contains(k),
            ),
            edges.released.order() == old(self).previous_order().filter(
                |k: InputKey| !keys@.contains(k),
            ),
            edges.pressed@.disjoint(edges.released@),
    {
        let pressed = keys.difference(&self.previous);
        let released = self.previous.difference(&keys);
        self.previous = keys;
        KeyEdges { pressed, released }
    }

    /// Takes the keys of a new snapshot and gives the reactions that are due,
    /// in the order in which they are to run: first the press handlers of the
    /// keys that went down, then the release handlers of the keys that came
    /// up, each for the keys that the profile binds.
    pub fn react(&mut self, keys: KeySet, bindings: &[KeyBinding]) -> (calls: Vec<ReactionCall>)
        requires
            old(self).wf(),
            keys.wf(),
        ensures
            final(self).wf(),
            final(self).previous_keys() == keys@,
            final(self).previous_order() == keys.order(),
            calls@ == calls_for(
                bindings@,
                keys.order().filter(|k: InputKey| !old(self).previous_keys().contains(k)),
                true,
            ) + calls_for(
                bindings@,
                old(self).previous_order().filter(|k: InputKey| !keys@.contains(k)),
                false,
            ),
    {
        let edges = self.observe(keys);
        let mut calls: Vec<ReactionCall> = Vec::new();
        collect_calls(&mut calls, bindings, &edges.pressed, true);
        collect_calls(&mut calls, bindings, &edges.released, false);
        assert(Seq::<ReactionCall>::empty() + calls_for(bindings@, edges.pressed.order(), true)
            =~= calls_for(bindings@, edges.pressed.order(), true));
        calls
    }

    /// Takes an event of the serial worker. Only a snapshot of the keys calls
    /// for reactions; every other event leaves the worker as it is.
    pub fn handle(&mut self, event: SerialEvent, bindings: &[KeyBinding]) -> (calls: Vec<
        ReactionCall,
    >)
        requires
            old(self).wf(),
            event.wf(),
        ensures
            final(self).wf(),
            match event {
                SerialEvent::GetInputKeys(keys) => {
                    &&& final(self).previous_keys() == keys@
                    &&& final(self).previous_order() == keys.order()
                    &&& calls@ == calls_for(
                        bindings@,
                        keys.order().filter(|k: InputKey| !old(self).previous_keys().contains(k)),
                        true,
                    ) + calls_for(
                        bindings@,
                        old(self).previous_order().filter(|k: InputKey| !keys@.contains(k)),
                        false,
                    )
                },
                _ => {
                    &&& final(self).previous_keys() == old(self).previous_keys()
                    &&& final(self).previous_order() == old(self).previous_order()
                    &&& calls@ == Seq::<ReactionCall>::empty()
                },
            },
    {
        match event {
            SerialEvent::GetInputKeys(keys) => self.react(keys, bindings),
            _ => Vec::new(),
        }
    }
}

/// What a worker that holds `previous` emits as pressed, all in all, while
/// it takes the snapshots of `snaps` one after the other.
pub open spec fn pressed_over(previous: Set<InputKey>, snaps: Seq<Set<InputKey>>) -> Set<InputKey>
    decreases snaps.len(),
{
    if snaps.len() == 0 {
        Set::<InputKey>::empty()
    } else {
        pressed_edges(previous, snaps[0]).union(pressed_over(snaps[0], snaps.drop_first()))
    }
}

/// What a worker that holds `previous` emits as released, all in all, while
/// it takes the snapshots of `snaps` one after the other.
pub open spec fn released_over(previous: Set<InputKey>, snaps: Seq<Set<InputKey>>) -> Set<InputKey>
    decreases snaps.len(),
{
    if snaps.len() == 0 {
        Set::<InputKey>::empty()
    } else {
        released_edges(previous, snaps[0]).union(released_over(snaps[0], snaps.drop_first()))
    }
}

/// Whether `key` is held in the snapshot numbered `i + 1` and not in the one
/// numbered `i`.
pub open spec fn goes_down_at(snaps: Seq<Set<InputKey>>, key: InputKey, i: int) -> bool {
    0 <= i < snaps.len() - 1 && snaps[i + 1].contains(key) && !snaps[i].contains(key)
}

/// Whether `key` is held in the snapshot numbered `i` and not in the one
/// numbered `i + 1`.
pub open spec fn comes_up_at(snaps: Seq<Set<InputKey>>, key: InputKey, i: int) -> bool {
    0 <= i < snaps.len() - 1 && snaps[i].contains(key) && !snaps[i + 1].contains(key)
}

/// Over any run of snapshots, a key is among the pressed edges exactly when
/// it goes down between two neighbouring snapshots, and among the released
/// edges exactly when it comes up between two.
pub proof fn lemma_edges_over_run(snaps: Seq<Set<InputKey>>, key: InputKey)
    requires
        snaps.len() > 0,
    ensures
        pressed_over(snaps[0], snaps.drop_first()).contains(key) <==> exists|i: int|
            goes_down_at(snaps, key, i),
        released_over(snaps[0], snaps.drop_first()).contains(key) <==> exists|i: int|
            comes_up_at(snaps, key, i),
    decreases snaps.len(),
{
    let rest = snaps.drop_first();
    if rest.len() > 0 {
        lemma_edges_over_run(rest, key);
        assert forall|i: int| 0 <= i implies goes_down_at(rest, key, i) == goes_down_at(
            snaps,
            key,
            i + 1,
        ) by {}
        assert forall|i: int| 0 <= i implies comes_up_at(rest, key, i) == comes_up_at(
            snaps,
            key,
            i + 1,
        ) by {}
        if exists|i: int| goes_down_at(rest, key, i) {
            let i = choose|i: int| goes_down_at(rest, key, i);
            assert(goes_down_at(snaps, key, i + 1));
        }
        if exists|i: int| goes_down_at(snaps, key, i) {
            let i = choose|i: int| goes_down_at(snaps, key, i);
            if i > 0 {
                assert(goes_down_at(rest, key, i - 1));
            }
        }
        if exists|i: int| comes_up_at(rest, key, i) {
            let i = choose|i: int| comes_up_at(rest, key, i);
            assert(comes_up_at(snaps, key, i + 1));
        }
        if exists|i: int| comes_up_at(snaps, key, i) {
            let i = choose|i: int| comes_up_at(snaps, key, i);
            if i > 0 {
                assert(comes_up_at(rest, key, i - 1));
            }
        }
        assert(goes_down_at(snaps, key, 0) == pressed_edges(snaps[0], rest[0]).contains(key));
        assert(comes_up_at(snaps, key, 0) == released_edges(snaps[0], rest[0]).contains(key));
    }
}

} // verus!
