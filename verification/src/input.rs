//! The keyboard as the game sees it: which keys went down in this tick.

use vstd::prelude::*;
use bevy::input::Input;
use bevy::input::keyboard::KeyCode;
use crate::types::Key;
use crate::types::NoteTypes;

verus! {

/// bevy's `Input`, the record of what is pressed. Nothing is known of what
/// it holds but what `just_pressed_keys` names.
#[verifier::external_type_specification]
#[verifier::external_body]
#[verifier::reject_recursive_types(T)]
pub struct ExInput<T>(Input<T>);

/// bevy's `KeyCode`, the code of a key of the keyboard. Values of it only
/// pass through.
#[verifier::external_type_specification]
#[verifier::external_body]
pub struct ExKeyCode(KeyCode);

/// The keys of the game whose key codes `input` holds as just pressed: those
/// that went down since its last update.
pub uninterp spec fn just_pressed_keys(input: Input<KeyCode>) -> Set<Key>;

/// Calls bevy's `Input::just_pressed` with the key code that stands for
/// `key`. Nothing is proved of the call: its answer is taken to be whether
/// `key` is among the keys that `input` holds as just pressed, which
/// `Input::just_pressed` looks up and does not change.
#[verifier::external_body]
fn input_just_pressed(input: &Input<KeyCode>, key: Key) -> (pressed: bool)
    ensures
        pressed == just_pressed_keys(*input).contains(key),
{
    input.just_pressed(
        match key {
            Key::F => KeyCode::F,
            Key::J => KeyCode::J,
            Key::R => KeyCode::R,
            Key::I => KeyCode::I,
        },
    )
}

/// The key signals of one tick: for each key, whether it went down in this
/// tick.
#[derive(Copy, Clone, Debug, PartialEq, Eq, Structural)]
pub struct Signals {
    pub f: bool,
    pub j: bool,
    pub r: bool,
    pub i: bool,
}

impl View for Signals {
    type V = Set<Key>;

    /// The set of keys that went down.
    open spec fn view(&self) -> Set<Key> {
        Set::new(|key: Key| self.spec_holds(key))
    }
}

impl Signals {
    /// Whether `key` went down.
    pub open spec fn spec_holds(self, key: Key) -> bool {
        match key {
            Key::F => self.f,
            Key::J => self.j,
            Key::R => self.r,
            Key::I => self.i,
        }
    }

    /// Signals of a tick in which no key went down.
    pub fn none() -> (signals: Signals)
        ensures
            signals@ == Set::<Key>::empty(),
    {
        let signals = Signals { f: false, j: false, r: false, i: false };
        assert(signals@ =~= Set::<Key>::empty());
        signals
    }

    /// Whether `key` went down.
    pub fn holds(&self, key: Key) -> (held: bool)
        ensures
            held == self@.contains(key),
    {
        match key {
            Key::F => self.f,
            Key::J => self.j,
            Key::R => self.r,
            Key::I => self.i,
        }
    }

    /// The same signals, with `key` down as well.
    pub fn with(self, key: Key) -> (signals: Signals)
        ensures
            signals@ == self@.insert(key),
    {
        let signals = match key {
            Key::F => Signals { f: true, j: self.j, r: self.r, i: self.i },
            Key::J => Signals { f: self.f, j: true, r: self.r, i: self.i },
            Key::R => Signals { f: self.f, j: self.j, r: true, i: self.i },
            Key::I => Signals { f: self.f, j: self.j, r: self.r, i: true },
        };
        assert(signals@ =~= self@.insert(key));
        signals
    }

    /// Reads from `input` which keys of the game went down since its last
    /// update.
    pub fn read(input: &Input<KeyCode>) -> (signals: Signals)
        ensures
            signals@ == just_pressed_keys(*input),
    {
        let signals = Signals {
            f: input_just_pressed(input, Key::F),
            j: input_just_pressed(input, Key::J),
            r: input_just_pressed(input, Key::R),
            i: input_just_pressed(input, Key::I),
        };
        assert(signals@ =~= just_pressed_keys(*input)) by {
            assert forall|key: Key|
                signals@.contains(key) == just_pressed_keys(*input).contains(key) by {
                match key {
                    Key::F => {},
                    Key::J => {},
                    Key::R => {},
                    Key::I => {},
                }
            }
        }
        signals
    }
}

impl NoteTypes {
    /// Whether one of the keys of this lane went down in this tick.
    pub fn signalled(&self, signals: &Signals) -> (hit: bool)
        ensures
            hit == self.spec_signalled(signals@),
    {
        let (first, second) = self.keys();
        signals.holds(first) || signals.holds(second)
    }

    /// Whether `input` reports that one of the keys of this lane went down
    /// since its last update.
    pub fn key_just_pressed(&self, input: &Input<KeyCode>) -> (hit: bool)
        ensures
            hit == self.spec_signalled(just_pressed_keys(*input)),
    {
        let (first, second) = self.keys();
        input_just_pressed(input, first) || input_just_pressed(input, second)
    }
}

} // verus!
