//! Reference values of the playing field and the units they are measured in.

use vstd::prelude::*;

verus! {

/// Speed at which a slow note moves, in coordinate units per second.
pub const BASE_SPEED: u32 = 200;

/// Coordinate at which notes spawn; it should lie off screen.
pub const SPAWN_POSITION: i32 = 400;

/// Coordinate at which notes should be hit.
pub const TARGET_POSITION: i32 = 200;

/// Margin of error for hitting a note, in coordinate units.
pub const THRESHOLD: u32 = 20;

/// Signed distance travelled by a note, from spawn to target.
pub const DISTANCE: i32 = TARGET_POSITION - SPAWN_POSITION;

/// Position steps in one coordinate unit.
pub const STEPS_PER_UNIT: i64 = 1_000_000_000;

/// Microseconds in one second.
pub const MICROS_PER_SECOND: i64 = 1_000_000;

/// Time between start-up and the start of the song, in microseconds.
pub const LEAD_IN: i64 = 3_000_000;

/// Fewest points awarded for a hit.
pub const MIN_POINTS: u64 = 10;

/// Most points awarded for a hit.
pub const MAX_POINTS: u64 = 100;

} // verus!
