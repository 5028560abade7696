//! The track along which notes travel, and how long the journey takes.

use vstd::prelude::*;
use crate::consts::BASE_SPEED;
use crate::consts::SPAWN_POSITION;
use crate::consts::STEPS_PER_UNIT;
use crate::consts::TARGET_POSITION;
use crate::consts::THRESHOLD;
use crate::types::Speed;

verus! {

/// Why a chart cannot be played on a track.
#[derive(Copy, Clone, Debug, PartialEq, Eq, Structural)]
pub enum ConfigError {
    /// Notes on this track do not move, so none can ever reach the target.
    ZeroSpeed,
    /// A note would have to spawn before the earliest instant that can be
    /// represented.
    SpawnTimeOutOfRange,
}

/// The track: where notes spawn, where they must be hit, how far from the
/// target a hit still counts, and how fast a slow note moves.
///
/// Coordinates and the threshold are given in whole coordinate units, the
/// base speed in coordinate units per second. Notes move from the spawn
/// coordinate towards the target coordinate, and on past it.
#[derive(Copy, Clone, Debug, PartialEq, Eq, Structural)]
pub struct Track {
    pub base_speed: u32,
    pub spawn_position: i32,
    pub target_position: i32,
    pub threshold: u32,
}

impl Track {
    /// Position of the spawn coordinate, in position steps.
    pub open spec fn spec_spawn(self) -> int {
        self.spawn_position * STEPS_PER_UNIT
    }

    /// Position of the target coordinate, in position steps.
    pub open spec fn spec_target(self) -> int {
        self.target_position * STEPS_PER_UNIT
    }

    /// Half the width of the hit window, in position steps.
    pub open spec fn spec_window(self) -> int {
        self.threshold * STEPS_PER_UNIT
    }

    /// Whether notes travel towards smaller coordinates. They do unless the
    /// target lies beyond the spawn coordinate.
    pub open spec fn spec_descending(self) -> bool {
        self.target_position <= self.spawn_position
    }

    /// The sign of a note's movement: `-1` towards smaller coordinates, `1`
    /// towards larger ones.
    pub open spec fn spec_direction(self) -> int {
        if self.spec_descending() {
            -1
        } else {
            1
        }
    }

    /// Length of the way from spawn to target, in position steps.
    pub open spec fn spec_distance(self) -> int {
        (self.spec_target() - self.spec_spawn()) * self.spec_direction()
    }

    /// Time a note of class `speed` takes from spawn to target, in
    /// microseconds, rounded down. Meaningful where the base speed is not
    /// zero.
    pub open spec fn spec_travel_time(self, speed: Speed) -> int {
        self.spec_distance() / speed.spec_value(self.base_speed)
    }

    /// The track with the reference values.
    pub open spec fn reference_track() -> Track {
        Track {
            base_speed: BASE_SPEED,
            spawn_position: SPAWN_POSITION,
            target_position: TARGET_POSITION,
            threshold: THRESHOLD,
        }
    }

    /// The track with the reference values.
    pub fn reference() -> (track: Track)
        ensures
            track == Track::reference_track(),
    {
        Track {
            base_speed: BASE_SPEED,
            spawn_position: SPAWN_POSITION,
            target_position: TARGET_POSITION,
            threshold: THRESHOLD,
        }
    }

    /// Position of the spawn coordinate, in position steps.
    pub fn spawn(&self) -> (position: i64)
        ensures
            position == self.spec_spawn(),
    {
        self.spawn_position as i64 * STEPS_PER_UNIT
    }

    /// Position of the target coordinate, in position steps.
    pub fn target(&self) -> (position: i64)
        ensures
            position == self.spec_target(),
    {
        self.target_position as i64 * STEPS_PER_UNIT
    }

    /// Half the width of the hit window, in position steps.
    pub fn window(&self) -> (steps: i64)
        ensures
            steps == self.spec_window(),
    {
        self.threshold as i64 * STEPS_PER_UNIT
    }

    /// Whether notes travel towards smaller coordinates.
    pub fn descending(&self) -> (down: bool)
        ensures
            down == self.spec_descending(),
    {
        self.target_position <= self.spawn_position
    }

    /// Length of the way from spawn to target, in position steps.
    pub fn distance(&self) -> (steps: u64)
        ensures
            steps == self.spec_distance(),
    {
        if self.descending() {
            (self.spawn() - self.target()) as u64
        } else {
            (self.target() - self.spawn()) as u64
        }
    }

    /// Time a note of class `speed` takes from spawn to target, in
    /// microseconds, rounded down. Fails exactly where notes do not move.
    pub fn travel_time(&self, speed: Speed) -> (time: Result<u64, ConfigError>)
        ensures
            time == (if self.base_speed == 0 {
                Err::<u64, ConfigError>(ConfigError::ZeroSpeed)
            } else {
                Ok::<u64, ConfigError>(self.spec_travel_time(speed) as u64)
            }),
            self.base_speed != 0 ==> 0 <= self.spec_travel_time(speed) <= self.spec_distance(),
    {
        let value: u64 = speed.value(self.base_speed);
        if value == 0 {
            assert(self.base_speed == 0) by (nonlinear_arith)
                requires
                    self.base_speed * speed.spec_multiplier() == 0,
                    speed.spec_multiplier() >= 1000,
            ;
            return Err(ConfigError::ZeroSpeed);
        }
        let distance: u64 = self.distance();
        proof {
            lemma_quotient_bounds(distance as int, value as int);
        }
        Ok(distance / value)
    }
}

/// A quotient of a non-negative number by a positive one lies between zero
/// and the number itself.
pub proof fn lemma_quotient_bounds(n: int, d: int)
    requires
        0 <= n,
        0 < d,
    ensures
        0 <= n / d <= n,
        n == d * (n / d) + n % d,
        0 <= n % d < d,
{
    vstd::arithmetic::div_mod::lemma_fundamental_div_mod(n, d);
    vstd::arithmetic::div_mod::lemma_mod_bound(n, d);
    vstd::arithmetic::div_mod::lemma_div_pos_is_pos(n, d);
    assert(n / d <= n) by (nonlinear_arith)
        requires
            0 <= n,
            0 < d,
            0 <= n / d,
            n == d * (n / d) + n % d,
            0 <= n % d,
    ;
}

/// The way from spawn to target is not negative and shorter than `2^63`
/// position steps; a note that moves has a positive speed and a travel time
/// between zero and the length of the way.
pub proof fn lemma_track_bounds(track: Track, speed: Speed)
    ensures
        track.spec_distance() == if track.spec_descending() {
            track.spec_spawn() - track.spec_target()
        } else {
            track.spec_target() - track.spec_spawn()
        },
        0 <= track.spec_distance() <= 0xffff_ffff * STEPS_PER_UNIT,
        -0x8000_0000 * STEPS_PER_UNIT <= track.spec_spawn() < 0x8000_0000 * STEPS_PER_UNIT,
        -0x8000_0000 * STEPS_PER_UNIT <= track.spec_target() < 0x8000_0000 * STEPS_PER_UNIT,
        track.base_speed != 0 ==> 0 < speed.spec_value(track.base_speed),
        track.base_speed != 0 ==> 0 <= track.spec_travel_time(speed) <= track.spec_distance(),
{
    if track.spec_descending() {
        assert(track.spec_distance() == track.spec_spawn() - track.spec_target());
    } else {
        assert(track.spec_distance() == track.spec_target() - track.spec_spawn());
    }
    if track.base_speed != 0 {
        assert(0 < speed.spec_value(track.base_speed)) by (nonlinear_arith)
            requires
                speed.spec_value(track.base_speed) == track.base_speed * speed.spec_multiplier(),
                0 < track.base_speed,
                1000 <= speed.spec_multiplier(),
        ;
        lemma_quotient_bounds(track.spec_distance(), speed.spec_value(track.base_speed));
    }
}

/// Of two notes that are to be hit at the same time, the faster one has the
/// shorter journey, so it spawns no earlier than the slower one.
pub proof fn lemma_faster_spawns_later(track: Track, slower: Speed, faster: Speed)
    requires
        track.base_speed != 0,
        slower.spec_multiplier() <= faster.spec_multiplier(),
    ensures
        track.spec_travel_time(faster) <= track.spec_travel_time(slower),
{
    let way = track.spec_distance();
    let slow = slower.spec_value(track.base_speed);
    let fast = faster.spec_value(track.base_speed);
    assert(0 < slow <= fast) by (nonlinear_arith)
        requires
            slow == track.base_speed * slower.spec_multiplier(),
            fast == track.base_speed * faster.spec_multiplier(),
            0 < track.base_speed,
            0 < slower.spec_multiplier() <= faster.spec_multiplier(),
    ;
    lemma_track_bounds(track, slower);
    vstd::arithmetic::div_mod::lemma_div_is_ordered_by_denominator(way, slow, fast);
}

} // verus!
