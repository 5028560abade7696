//! A note in play: how it moves and how it is judged.

use vstd::prelude::*;
use crate::chart::ChartEntry;
use crate::chart::NoteTime;
use crate::input::Signals;
use crate::track::Track;
use crate::types::Key;
use crate::types::NoteTypes;
use crate::types::Speed;

verus! {

/// A note in play.
#[derive(Copy, Clone, Debug, PartialEq, Eq, Structural)]
pub struct Note {
    /// Where the note is, in position steps.
    pub position: i64,
    pub speed: Speed,
    pub types: NoteTypes,
}

/// How a note left play.
#[derive(Copy, Clone, Debug, PartialEq, Eq, Structural)]
pub enum Verdict {
    /// The note was hit while `error` position steps short of the target
    /// (beyond it where `error` is negative, seen along the axis).
    Hit { error: i64 },
    /// The note ran past the target without being hit.
    Miss,
}

/// The position nearest to `position` that a note can have.
pub open spec fn clamp_position(position: int) -> int {
    if position < i64::MIN {
        i64::MIN as int
    } else if position > i64::MAX {
        i64::MAX as int
    } else {
        position
    }
}

impl Note {
    /// The note in play that `scheduled` becomes when it spawns.
    pub open spec fn spec_spawned(track: Track, scheduled: NoteTime) -> Note {
        Note { position: track.spec_spawn() as i64, speed: scheduled.speed, types: scheduled.types }
    }

    /// The note in play that `scheduled` becomes when it spawns: it starts
    /// at the spawn coordinate with the speed and lane it was scheduled
    /// with.
    pub fn spawned(track: &Track, scheduled: &NoteTime) -> (note: Note)
        ensures
            note == Note::spec_spawned(*track, *scheduled),
    {
        Note { position: track.spawn(), speed: scheduled.speed, types: scheduled.types }
    }

    /// This note after `delta` microseconds on `track`: it has moved towards
    /// the target, or on past it, by its speed times `delta`, and stops only
    /// at the end of the axis.
    pub open spec fn spec_moved(self, track: Track, delta: u64) -> Note {
        Note {
            position: clamp_position(
                self.position + track.spec_direction() * (self.speed.spec_value(track.base_speed)
                    * delta),
            ) as i64,
            speed: self.speed,
            types: self.types,
        }
    }

    /// Moves the note by `delta` microseconds of travel on `track`.
    pub fn advance(&mut self, track: &Track, delta: u64)
        ensures
            *final(self) == old(self).spec_moved(*track, delta),
    {
        let value: u64 = self.speed.value(track.base_speed);
        assert(value * delta <= 0xffff_ffff * 1500 * 0xffff_ffff_ffff_ffff) by (nonlinear_arith)
            requires
                value <= 0xffff_ffff * 1500,
                delta <= 0xffff_ffff_ffff_ffff,
        ;
        let way: i128 = (value as u128 * delta as u128) as i128;
        let place: i128 = if track.descending() {
            self.position as i128 - way
        } else {
            self.position as i128 + way
        };
        assert(place == self.position + track.spec_direction() * (self.speed.spec_value(
            track.base_speed,
        ) * delta)) by (nonlinear_arith)
            requires
                way == self.speed.spec_value(track.base_speed) * delta,
                place == if track.spec_descending() {
                    self.position - way
                } else {
                    self.position + way
                },
                track.spec_direction() == if track.spec_descending() {
                    -1int
                } else {
                    1int
                },
        ;
        self.position = if place < i64::MIN as i128 {
            i64::MIN
        } else if place > i64::MAX as i128 {
            i64::MAX
        } else {
            place as i64
        };
    }

    /// Whether the note is close enough to the target to be hit: no farther
    /// from it than the threshold, on either side.
    pub open spec fn in_hit_window(self, track: Track) -> bool {
        track.spec_target() - track.spec_window() <= self.position <= track.spec_target()
            + track.spec_window()
    }

    /// Whether the note has run past the point at which it counts as
    /// missed. That point lies at twice the target coordinate.
    pub open spec fn overrun(self, track: Track) -> bool {
        if track.spec_descending() {
            self.position <= 2 * track.spec_target()
        } else {
            self.position >= 2 * track.spec_target()
        }
    }

    /// The verdict on this note in a tick in which the keys `pressed` went
    /// down, if there is one. A note in the hit window whose lane is played
    /// is hit, and the error of the hit is what it still lacks to the target
    /// coordinate. Otherwise a note that has run too far is missed. Any
    /// other note stays in play.
    pub open spec fn spec_judge(self, track: Track, pressed: Set<Key>) -> Option<Verdict> {
        if self.in_hit_window(track) && self.types.spec_signalled(pressed) {
            Some(Verdict::Hit { error: (track.spec_target() - self.position) as i64 })
        } else if self.overrun(track) {
            Some(Verdict::Miss)
        } else {
            None
        }
    }

    /// Whether the note is close enough to the target to be hit.
    pub fn is_in_hit_window(&self, track: &Track) -> (inside: bool)
        ensures
            inside == self.in_hit_window(*track),
    {
        let target: i64 = track.target();
        let window: i64 = track.window();
        target - window <= self.position && self.position <= target + window
    }

    /// Whether the note has run past the point at which it counts as
    /// missed.
    pub fn is_overrun(&self, track: &Track) -> (over: bool)
        ensures
            over == self.overrun(*track),
    {
        let limit: i64 = 2 * track.target();
        if track.descending() {
            self.position <= limit
        } else {
            self.position >= limit
        }
    }

    /// Judges the note in a tick with the key signals `signals`.
    pub fn judge(&self, track: &Track, signals: &Signals) -> (verdict: Option<Verdict>)
        ensures
            verdict == self.spec_judge(*track, signals@),
            self.in_hit_window(*track) && self.types.spec_signalled(signals@) ==> verdict == Some(
                Verdict::Hit { error: (track.spec_target() - self.position) as i64 },
            ),
            verdict matches Some(Verdict::Hit { error }) ==> -track.spec_window() <= error
                <= track.spec_window(),
    {
        if self.is_in_hit_window(track) && self.types.signalled(signals) {
            Some(Verdict::Hit { error: track.target() - self.position })
        } else if self.is_overrun(track) {
            Some(Verdict::Miss)
        } else {
            None
        }
    }
}

/// A note that is in the hit window, has its lane played and has run too
/// far, all in one tick, is hit: the verdict is that one, and no miss.
pub proof fn lemma_hit_comes_first(note: Note, track: Track, pressed: Set<Key>)
    requires
        note.in_hit_window(track),
        note.types.spec_signalled(pressed),
        note.overrun(track),
    ensures
        note.spec_judge(track, pressed) == Some(
            Verdict::Hit { error: (track.spec_target() - note.position) as i64 },
        ),
        note.spec_judge(track, pressed) != Some(Verdict::Miss),
{
}

/// Every note gets at most one verdict in a tick, and it gets one exactly
/// where it is hit or has run too far.
pub proof fn lemma_one_verdict(note: Note, track: Track, pressed: Set<Key>)
    ensures
        note.spec_judge(track, pressed) is Some <==> (note.in_hit_window(track)
            && note.types.spec_signalled(pressed)) || note.overrun(track),
        note.spec_judge(track, pressed) matches Some(Verdict::Hit { error }) ==> error
            == track.spec_target() - note.position && -track.spec_window() <= error
            <= track.spec_window(),
{
}

/// The sum of `deltas`.
pub open spec fn total(deltas: Seq<u64>) -> int
    decreases deltas.len(),
{
    if deltas.len() == 0 {
        0
    } else {
        total(deltas.drop_last()) + deltas.last()
    }
}

/// `note` after one tick for each of `deltas`, in their order.
pub open spec fn moved_through(note: Note, track: Track, deltas: Seq<u64>) -> Note
    decreases deltas.len(),
{
    if deltas.len() == 0 {
        note
    } else {
        moved_through(note, track, deltas.drop_last()).spec_moved(track, deltas.last())
    }
}

/// A note that starts at the spawn coordinate and moves for no longer than
/// its journey takes, in ticks of any length, has covered its speed times
/// the time that has passed.
pub proof fn lemma_on_the_way(scheduled: NoteTime, track: Track, deltas: Seq<u64>)
    requires
        track.base_speed != 0,
        total(deltas) <= track.spec_travel_time(scheduled.speed),
    ensures
        0 <= total(deltas),
        moved_through(Note::spec_spawned(track, scheduled), track, deltas) == (Note {
            position: (track.spec_spawn() + track.spec_direction() * (scheduled.speed.spec_value(
                track.base_speed,
            ) * total(deltas))) as i64,
            speed: scheduled.speed,
            types: scheduled.types,
        }),
        0 <= scheduled.speed.spec_value(track.base_speed) * total(deltas) <= track.spec_distance(),
    decreases deltas.len(),
{
    let value = scheduled.speed.spec_value(track.base_speed);
    let way = track.spec_distance();
    let journey = track.spec_travel_time(scheduled.speed);
    let direction = track.spec_direction();
    crate::track::lemma_track_bounds(track, scheduled.speed);
    crate::track::lemma_quotient_bounds(way, value);
    if deltas.len() == 0 {
        assert(value * total(deltas) == 0);
    } else {
        let before = deltas.drop_last();
        let last = deltas.last();
        lemma_on_the_way(scheduled, track, before);
        assert(0 <= value * total(deltas) <= way && value * total(deltas) == value * total(before)
            + value * last) by (nonlinear_arith)
            requires
                0 < value,
                0 <= total(before),
                0 <= last,
                total(deltas) == total(before) + last,
                total(deltas) <= journey,
                way == value * journey + way % value,
                0 <= way % value,
        ;
        let reached = track.spec_spawn() + direction * (value * total(before));
        let next = reached + direction * (value * last);
        assert(next == track.spec_spawn() + direction * (value * total(deltas))) by (nonlinear_arith)
            requires
                next == reached + direction * (value * last),
                reached == track.spec_spawn() + direction * (value * total(before)),
                value * total(deltas) == value * total(before) + value * last,
        ;
        assert(direction * (value * total(deltas)) == if track.spec_descending() {
            -(value * total(deltas))
        } else {
            value * total(deltas)
        }) by (nonlinear_arith)
            requires
                direction == if track.spec_descending() {
                    -1int
                } else {
                    1int
                },
        ;
        assert(clamp_position(next) == next);
    }
}

/// Travel time is right: a note of a chart that spawns at its spawn time,
/// at the spawn coordinate, and is moved tick by tick until the time at
/// which it is to be hit, stands at the target coordinate then, short of it
/// by less than it covers in one microsecond.
pub proof fn lemma_arrives_on_time(entry: ChartEntry, track: Track, deltas: Seq<u64>)
    requires
        entry.spec_note(track) is Ok,
        total(deltas) == entry.intended_hit_time - entry.spec_note(track)->Ok_0.spawn_time,
    ensures
        ({
            let scheduled = entry.spec_note(track)->Ok_0;
            let arrived = moved_through(Note::spec_spawned(track, scheduled), track, deltas);
            let short = (track.spec_target() - arrived.position) * track.spec_direction();
            &&& short == track.spec_distance() % entry.speed.spec_value(track.base_speed)
            &&& 0 <= short < entry.speed.spec_value(track.base_speed)
            &&& arrived.speed == entry.speed
            &&& arrived.types == entry.lane
        }),
{
    let scheduled = entry.spec_note(track)->Ok_0;
    let value = entry.speed.spec_value(track.base_speed);
    let way = track.spec_distance();
    lemma_on_the_way(scheduled, track, deltas);
    crate::track::lemma_track_bounds(track, entry.speed);
    crate::track::lemma_quotient_bounds(way, value);
    let arrived = moved_through(Note::spec_spawned(track, scheduled), track, deltas);
    assert((track.spec_target() - arrived.position) * track.spec_direction() == way % value)
        by (nonlinear_arith)
        requires
            arrived.position == track.spec_spawn() + track.spec_direction() * (value * total(deltas)),
            total(deltas) == way / value,
            way == value * (way / value) + way % value,
            way == (track.spec_target() - track.spec_spawn()) * track.spec_direction(),
            track.spec_direction() == 1 || track.spec_direction() == -1,
    ;
}

} // verus!
