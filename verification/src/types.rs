//! Speed classes, lanes and the keys that play them.

use vstd::prelude::*;

verus! {

/// A key of the keyboard that plays a lane.
#[derive(Copy, Clone, Debug, PartialEq, Eq, Structural)]
pub enum Key {
    F,
    J,
    R,
    I,
}

/// The lane a note belongs to.
#[derive(Copy, Clone, Debug, PartialEq, Eq, Structural)]
pub enum NoteTypes {
    Don,
    Kat,
}

impl NoteTypes {
    /// The two keys that count as a hit signal for this lane.
    pub open spec fn spec_keys(self) -> (Key, Key) {
        match self {
            NoteTypes::Don => (Key::F, Key::J),
            NoteTypes::Kat => (Key::R, Key::I),
        }
    }

    /// Whether `pressed` holds one of the keys of this lane.
    pub open spec fn spec_signalled(self, pressed: Set<Key>) -> bool {
        pressed.contains(self.spec_keys().0) || pressed.contains(self.spec_keys().1)
    }

    /// The two keys that count as a hit signal for this lane.
    pub fn keys(&self) -> (pair: (Key, Key))
        ensures
            pair == self.spec_keys(),
    {
        match self {
            NoteTypes::Don => (Key::F, Key::J),
            NoteTypes::Kat => (Key::R, Key::I),
        }
    }

    /// Vertical coordinate at which the lane is drawn, in coordinate units.
    pub open spec fn spec_y(self) -> int {
        150
    }

    /// Vertical coordinate at which the lane is drawn, in coordinate units.
    pub fn y(&self) -> (y: i32)
        ensures
            y == self.spec_y(),
    {
        match self {
            NoteTypes::Don => 150,
            NoteTypes::Kat => 150,
        }
    }
}

/// Speed class of a note.
#[derive(Copy, Clone, Debug, PartialEq, Eq, Structural)]
pub enum Speed {
    Slow,
    Medium,
    Fast,
}

impl Speed {
    /// Multiplier of the base speed, in thousandths.
    pub open spec fn spec_multiplier(self) -> int {
        match self {
            Speed::Slow => 1000,
            Speed::Medium => 1200,
            Speed::Fast => 1500,
        }
    }

    /// Speed of a note of this class, in thousandths of a coordinate unit per
    /// second, where slow notes move at `base_speed` units per second.
    pub open spec fn spec_value(self, base_speed: u32) -> int {
        base_speed * self.spec_multiplier()
    }

    /// Multiplier of the base speed, in thousandths.
    pub fn multiplier(&self) -> (m: u32)
        ensures
            m == self.spec_multiplier(),
    {
        match self {
            Speed::Slow => 1000,
            Speed::Medium => 1200,
            Speed::Fast => 1500,
        }
    }

    /// Speed of a note of this class, in thousandths of a coordinate unit per
    /// second, where slow notes move at `base_speed` units per second.
    pub fn value(&self, base_speed: u32) -> (v: u64)
        ensures
            v == self.spec_value(base_speed),
    {
        let m: u32 = self.multiplier();
        assert(base_speed * m <= 0xffff_ffff * 1500) by (nonlinear_arith)
            requires
                base_speed <= 0xffff_ffff,
                m <= 1500,
        ;
        base_speed as u64 * m as u64
    }
}

} // verus!
