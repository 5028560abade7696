//! From a chart of hit times to a schedule of spawn times.

use vstd::prelude::*;
use crate::track::ConfigError;
use crate::track::Track;
use crate::types::NoteTypes;
use crate::types::Speed;

verus! {

/// One note of a chart, as its author wrote it down.
#[derive(Copy, Clone, Debug, PartialEq, Eq, Structural)]
pub struct ChartEntry {
    /// When the note should be hit, in microseconds since the song started.
    pub intended_hit_time: i64,
    pub speed: Speed,
    pub lane: NoteTypes,
}

/// When a note should spawn, with its speed and lane.
#[derive(Copy, Clone, Debug, PartialEq, Eq, Structural)]
pub struct NoteTime {
    /// When the note should spawn, in microseconds since the song started.
    pub spawn_time: i64,
    pub speed: Speed,
    pub types: NoteTypes,
}

impl NoteTime {
    /// The scheduled note that is to be hit at `click_time`: it spawns
    /// earlier by the time its journey takes. There is none where notes do
    /// not move, or where the spawn time cannot be represented.
    pub open spec fn spec_new(track: Track, click_time: i64, speed: Speed, types: NoteTypes) -> Result<
        NoteTime,
        ConfigError,
    > {
        if track.base_speed == 0 {
            Err(ConfigError::ZeroSpeed)
        } else if click_time - track.spec_travel_time(speed) < i64::MIN {
            Err(ConfigError::SpawnTimeOutOfRange)
        } else {
            Ok(
                NoteTime {
                    spawn_time: (click_time - track.spec_travel_time(speed)) as i64,
                    speed,
                    types,
                },
            )
        }
    }

    /// The scheduled note that is to be hit at `click_time`.
    pub fn new(track: &Track, click_time: i64, speed: Speed, types: NoteTypes) -> (note: Result<
        NoteTime,
        ConfigError,
    >)
        ensures
            note == NoteTime::spec_new(*track, click_time, speed, types),
    {
        let travel: u64 = match track.travel_time(speed) {
            Ok(travel) => travel,
            Err(error) => {
                return Err(error);
            },
        };
        match click_time.checked_sub(travel as i64) {
            Some(spawn_time) => Ok(NoteTime { spawn_time, speed, types }),
            None => Err(ConfigError::SpawnTimeOutOfRange),
        }
    }
}

impl ChartEntry {
    /// The scheduled note of this entry on `track`.
    pub open spec fn spec_note(self, track: Track) -> Result<NoteTime, ConfigError> {
        NoteTime::spec_new(track, self.intended_hit_time, self.speed, self.lane)
    }

    /// The scheduled note of this entry on `track`.
    pub fn note(&self, track: &Track) -> (note: Result<NoteTime, ConfigError>)
        ensures
            note == self.spec_note(*track),
    {
        NoteTime::new(track, self.intended_hit_time, self.speed, self.lane)
    }
}

/// Whether `notes` are in non-decreasing order of spawn time.
pub open spec fn is_sorted(notes: Seq<NoteTime>) -> bool {
    forall|i: int, j: int| 0 <= i <= j < notes.len() ==> notes[i].spawn_time <= notes[j].spawn_time
}

/// Where `note` goes into `notes`: behind the last note that does not spawn
/// later than it does.
pub open spec fn insertion_point(notes: Seq<NoteTime>, note: NoteTime) -> int
    decreases notes.len(),
{
    if notes.len() == 0 || notes.last().spawn_time <= note.spawn_time {
        notes.len() as int
    } else {
        insertion_point(notes.drop_last(), note)
    }
}

/// `notes` sorted by spawn time; notes that spawn at the same time keep
/// their order.
pub open spec fn schedule_of(notes: Seq<NoteTime>) -> Seq<NoteTime>
    decreases notes.len(),
{
    if notes.len() == 0 {
        notes
    } else {
        let sorted = schedule_of(notes.drop_last());
        sorted.insert(insertion_point(sorted, notes.last()), notes.last())
    }
}

/// The insertion point lies behind every note that spawns no later than
/// `note` and before the notes from there on, which all spawn later.
pub proof fn lemma_insertion_point(notes: Seq<NoteTime>, note: NoteTime)
    ensures
        0 <= insertion_point(notes, note) <= notes.len(),
        forall|k: int|
            insertion_point(notes, note) <= k < notes.len() ==> notes[k].spawn_time
                > note.spawn_time,
        insertion_point(notes, note) > 0 ==> notes[insertion_point(notes, note) - 1].spawn_time
            <= note.spawn_time,
    decreases notes.len(),
{
    if notes.len() == 0 || notes.last().spawn_time <= note.spawn_time {
    } else {
        let shorter = notes.drop_last();
        lemma_insertion_point(shorter, note);
        assert forall|k: int| insertion_point(notes, note) <= k < notes.len() implies notes[k].spawn_time
            > note.spawn_time by {
            if k < shorter.len() {
                assert(notes[k] == shorter[k]);
            }
        }
        if insertion_point(notes, note) > 0 {
            assert(notes[insertion_point(notes, note) - 1] == shorter[insertion_point(shorter, note) - 1]);
        }
    }
}

/// An index from which on all notes spawn later than `note`, while the note
/// before it does not, is the insertion point.
pub proof fn lemma_insertion_point_unique(notes: Seq<NoteTime>, note: NoteTime, at: int)
    requires
        0 <= at <= notes.len(),
        forall|k: int| at <= k < notes.len() ==> notes[k].spawn_time > note.spawn_time,
        at > 0 ==> notes[at - 1].spawn_time <= note.spawn_time,
    ensures
        insertion_point(notes, note) == at,
    decreases notes.len(),
{
    if notes.len() == 0 || notes.last().spawn_time <= note.spawn_time {
        if at < notes.len() {
            assert(notes[notes.len() - 1].spawn_time > note.spawn_time);
        }
    } else {
        let shorter = notes.drop_last();
        assert forall|k: int| at <= k < shorter.len() implies shorter[k].spawn_time
            > note.spawn_time by {
            assert(shorter[k] == notes[k]);
        }
        if at > 0 {
            assert(shorter[at - 1] == notes[at - 1]);
        }
        lemma_insertion_point_unique(shorter, note, at);
    }
}

/// Inserting a note at its insertion point keeps a sorted sequence sorted
/// and adds exactly that note.
pub proof fn lemma_insert_keeps_sorted(notes: Seq<NoteTime>, note: NoteTime)
    requires
        is_sorted(notes),
    ensures
        is_sorted(notes.insert(insertion_point(notes, note), note)),
        notes.insert(insertion_point(notes, note), note).to_multiset() == notes.to_multiset().insert(
            note,
        ),
{
    let at = insertion_point(notes, note);
    let longer = notes.insert(at, note);
    lemma_insertion_point(notes, note);
    vstd::seq_lib::to_multiset_insert(notes, at, note);
    assert forall|i: int, j: int| 0 <= i <= j < longer.len() implies longer[i].spawn_time
        <= longer[j].spawn_time by {
        if j < at {
            assert(longer[i] == notes[i] && longer[j] == notes[j]);
        } else if i > at {
            assert(longer[i] == notes[i - 1] && longer[j] == notes[j - 1]);
        } else if i == at {
            if j > at {
                assert(longer[j] == notes[j - 1]);
            }
        } else {
            assert(longer[i] == notes[i]);
            assert(notes[i].spawn_time <= notes[at - 1].spawn_time);
            if j > at {
                assert(longer[j] == notes[j - 1]);
            }
        }
    }
}

/// The sorted schedule is in non-decreasing order of spawn time and holds
/// the same notes as the unsorted one, each as often.
pub proof fn lemma_schedule_sorted(notes: Seq<NoteTime>)
    ensures
        is_sorted(schedule_of(notes)),
        schedule_of(notes).to_multiset() == notes.to_multiset(),
        schedule_of(notes).len() == notes.len(),
    decreases notes.len(),
{
    broadcast use vstd::seq_lib::group_to_multiset_ensures;

    if notes.len() == 0 {
    } else {
        let shorter = notes.drop_last();
        lemma_schedule_sorted(shorter);
        lemma_insert_keeps_sorted(schedule_of(shorter), notes.last());
        lemma_insertion_point(schedule_of(shorter), notes.last());
        assert(shorter.push(notes.last()) =~= notes);
    }
}

/// The scheduled notes of `entries` on `track`, in the order of the chart.
/// Meaningful where every entry has a scheduled note.
pub open spec fn spec_notes(track: Track, entries: Seq<ChartEntry>) -> Seq<NoteTime> {
    Seq::new(entries.len(), |i: int| entries[i].spec_note(track)->Ok_0)
}

/// Whether entry `i` is the first of `entries` that has no scheduled note on
/// `track`.
pub open spec fn fails_first_at(track: Track, entries: Seq<ChartEntry>, i: int) -> bool {
    &&& 0 <= i < entries.len()
    &&& entries[i].spec_note(track) is Err
    &&& forall|j: int| 0 <= j < i ==> entries[j].spec_note(track) is Ok
}

/// Whether `note` is due in the tick that leads from `previous` to
/// `current`: its spawn time lies after `previous` and not after `current`.
pub open spec fn is_due(note: NoteTime, previous: i64, current: i64) -> bool {
    previous < note.spawn_time <= current
}

/// How many notes at the front of `notes` are due, one after the other.
pub open spec fn due_count(notes: Seq<NoteTime>, previous: i64, current: i64) -> nat
    decreases notes.len(),
{
    if notes.len() > 0 && is_due(notes.first(), previous, current) {
        1 + due_count(notes.drop_first(), previous, current)
    } else {
        0
    }
}

/// The count of due notes is the length of the longest run of due notes at
/// the front.
pub proof fn lemma_due_count(notes: Seq<NoteTime>, previous: i64, current: i64)
    ensures
        due_count(notes, previous, current) <= notes.len(),
        forall|i: int|
            0 <= i < due_count(notes, previous, current) ==> is_due(notes[i], previous, current),
        due_count(notes, previous, current) < notes.len() ==> !is_due(
            notes[due_count(notes, previous, current) as int],
            previous,
            current,
        ),
    decreases notes.len(),
{
    if notes.len() > 0 && is_due(notes.first(), previous, current) {
        let rest = notes.drop_first();
        lemma_due_count(rest, previous, current);
        assert forall|i: int| 0 <= i < due_count(notes, previous, current) implies is_due(
            notes[i],
            previous,
            current,
        ) by {
            if i > 0 {
                assert(notes[i] == rest[i - 1]);
            }
        }
        if due_count(notes, previous, current) < notes.len() {
            assert(notes[due_count(notes, previous, current) as int] == rest[due_count(
                rest,
                previous,
                current,
            ) as int]);
        }
    }
}

/// A run of `n` due notes at the front that cannot be made longer has the
/// length that `due_count` gives.
pub proof fn lemma_due_count_unique(notes: Seq<NoteTime>, previous: i64, current: i64, n: int)
    requires
        0 <= n <= notes.len(),
        forall|i: int| 0 <= i < n ==> is_due(notes[i], previous, current),
        n < notes.len() ==> !is_due(notes[n], previous, current),
    ensures
        due_count(notes, previous, current) == n,
    decreases notes.len(),
{
    if notes.len() > 0 && is_due(notes.first(), previous, current) {
        let rest = notes.drop_first();
        assert forall|i: int| 0 <= i < n - 1 implies is_due(rest[i], previous, current) by {
            assert(rest[i] == notes[i + 1]);
        }
        if n - 1 < rest.len() {
            assert(rest[n - 1] == notes[n]);
        }
        lemma_due_count_unique(rest, previous, current, n - 1);
    }
}

/// The notes of a song that have not spawned yet, in the order in which they
/// will: by spawn time, earliest first.
#[derive(Debug)]
pub struct SongConfig {
    notes: Vec<NoteTime>,
    next: usize,
}

impl View for SongConfig {
    type V = Seq<NoteTime>;

    /// The notes that have not spawned yet, next one first.
    closed spec fn view(&self) -> Seq<NoteTime> {
        self.notes@.skip(self.next as int)
    }
}

impl SongConfig {
    #[verifier::type_invariant]
    spec fn well_formed(self) -> bool {
        self.next <= self.notes.len() && is_sorted(self.notes@)
    }

    /// How many notes have not spawned yet.
    pub fn len(&self) -> (n: usize)
        ensures
            n == self@.len(),
            is_sorted(self@),
    {
        proof {
            use_type_invariant(self);
        }
        self.notes.len() - self.next
    }

    /// Whether every note has spawned.
    pub fn is_empty(&self) -> (empty: bool)
        ensures
            empty == (self@.len() == 0),
    {
        self.len() == 0
    }

    /// The note that spawns next, if any is left.
    pub fn peek(&self) -> (note: Option<NoteTime>)
        ensures
            note == (if self@.len() > 0 {
                Some(self@.first())
            } else {
                None
            }),
    {
        proof {
            use_type_invariant(self);
        }
        if self.next < self.notes.len() {
            Some(self.notes[self.next])
        } else {
            None
        }
    }

    /// Releases the notes that are due in the tick that leads from
    /// `previous` to `current`: from the front of the backlog, every note
    /// whose spawn time lies after `previous` and not after `current`, up to
    /// the first that is not due. The released notes leave the backlog for
    /// good.
    ///
    /// Where no note of the backlog spawned at or before `previous`, none
    /// that stays spawns at or before `current`: ticks that follow one
    /// another without a gap skip no note.
    pub fn pop_due(&mut self, previous: i64, current: i64) -> (due: Vec<NoteTime>)
        ensures
            due@.len() == due_count(old(self)@, previous, current),
            due@ == old(self)@.take(due@.len() as int),
            final(self)@ == old(self)@.skip(due@.len() as int),
            old(self)@ == due@ + final(self)@,
            forall|i: int| 0 <= i < due@.len() ==> is_due(#[trigger] due@[i], previous, current),
            final(self)@.len() > 0 ==> !is_due(final(self)@.first(), previous, current),
            is_sorted(old(self)@),
            is_sorted(final(self)@),
            (forall|i: int| 0 <= i < old(self)@.len() ==> (#[trigger] old(self)@[i]).spawn_time > previous)
                ==> (forall|i: int|
                0 <= i < final(self)@.len() ==> (#[trigger] final(self)@[i]).spawn_time > current),
    {
        proof {
            use_type_invariant(&*self);
        }
        let ghost backlog = self@;
        let start: usize = self.next;
        assert forall|i: int, j: int| 0 <= i <= j < backlog.len() implies backlog[i].spawn_time
            <= backlog[j].spawn_time by {
            assert(backlog[i] == self.notes@[start + i]);
            assert(backlog[j] == self.notes@[start + j]);
        }
        let mut due: Vec<NoteTime> = Vec::new();
        while self.next < self.notes.len() && previous < self.notes[self.next as usize].spawn_time
            && self.notes[self.next as usize].spawn_time <= current
            invariant
                start <= self.next <= self.notes.len(),
                self.notes == old(self).notes,
                is_sorted(self.notes@),
                backlog == self.notes@.skip(start as int),
                due@ == self.notes@.subrange(start as int, self.next as int),
                forall|i: int| 0 <= i < due@.len() ==> is_due(#[trigger] due@[i], previous, current),
            decreases self.notes.len() - self.next,
        {
            due.push(self.notes[self.next]);
            self.next = self.next + 1;
            assert(due@ =~= self.notes@.subrange(start as int, self.next as int));
        }
        proof {
            let n = due@.len() as int;
            assert(due@ =~= backlog.take(n));
            assert(self@ =~= backlog.skip(n));
            assert(backlog =~= due@ + self@);
            assert forall|i: int| 0 <= i < n implies is_due(backlog[i], previous, current) by {
                assert(backlog[i] == due@[i]);
            }
            if n < backlog.len() {
                assert(backlog[n] == self.notes@[self.next as int]);
                assert(self@.first() == backlog[n]);
            }
            lemma_due_count_unique(backlog, previous, current, n);
            assert forall|i: int, j: int| 0 <= i <= j < self@.len() implies self@[i].spawn_time
                <= self@[j].spawn_time by {
                assert(self@[i] == self.notes@[self.next + i]);
                assert(self@[j] == self.notes@[self.next + j]);
            }
            if forall|i: int| 0 <= i < backlog.len() ==> (#[trigger] backlog[i]).spawn_time > previous {
                assert forall|i: int| 0 <= i < self@.len() implies (#[trigger] self@[i]).spawn_time
                    > current by {
                    assert(self@.first() == backlog[n]);
                    assert(self@[0].spawn_time <= self@[i].spawn_time);
                }
            }
        }
        due
    }
}

/// Inserts `note` into `notes` at its insertion point.
fn insert_sorted(notes: &mut Vec<NoteTime>, note: NoteTime)
    ensures
        final(notes)@ == old(notes)@.insert(insertion_point(old(notes)@, note), note),
{
    let mut at: usize = notes.len();
    while at > 0 && notes[at - 1].spawn_time > note.spawn_time
        invariant
            at <= notes.len(),
            notes == old(notes),
            forall|k: int| at <= k < notes.len() ==> notes[k].spawn_time > note.spawn_time,
        decreases at,
    {
        at = at - 1;
    }
    proof {
        lemma_insertion_point_unique(notes@, note, at as int);
    }
    notes.insert(at, note);
}

/// Compiles a chart into the schedule of a song on `track`: each entry
/// spawns earlier than it is to be hit by the time its journey takes, and
/// the schedule is sorted by spawn time, whatever the order of the chart.
/// Notes that spawn at the same time keep the order of the chart.
///
/// Fails with the error of the first entry that has no scheduled note.
pub fn compile(track: &Track, entries: &Vec<ChartEntry>) -> (song: Result<SongConfig, ConfigError>)
    ensures
        match song {
            Ok(song) => {
                &&& forall|i: int| 0 <= i < entries@.len() ==> entries@[i].spec_note(*track) is Ok
                &&& song@ == schedule_of(spec_notes(*track, entries@))
                &&& song@.len() == entries@.len()
                &&& is_sorted(song@)
                &&& song@.to_multiset() == spec_notes(*track, entries@).to_multiset()
            },
            Err(error) => exists|i: int|
                fails_first_at(*track, entries@, i) && entries@[i].spec_note(*track) == Err::<
                    NoteTime,
                    ConfigError,
                >(error),
        },
{
    let mut notes: Vec<NoteTime> = Vec::new();
    let mut done: usize = 0;
    while done < entries.len()
        invariant
            done <= entries@.len(),
            forall|i: int| 0 <= i < done ==> entries@[i].spec_note(*track) is Ok,
            notes@ == schedule_of(spec_notes(*track, entries@.take(done as int))),
        decreases entries.len() - done,
    {
        let note: NoteTime = match entries[done].note(track) {
            Ok(note) => note,
            Err(error) => {
                assert(fails_first_at(*track, entries@, done as int));
                return Err(error);
            },
        };
        insert_sorted(&mut notes, note);
        proof {
            let before = spec_notes(*track, entries@.take(done as int));
            let after = spec_notes(*track, entries@.take(done + 1));
            assert(after.drop_last() =~= before);
            assert(after.last() == note);
        }
        done = done + 1;
    }
    proof {
        assert(entries@.take(done as int) =~= entries@);
        lemma_schedule_sorted(spec_notes(*track, entries@));
    }
    let song = SongConfig { notes, next: 0 };
    assert(song@ =~= song.notes@);
    Ok(song)
}

/// The chart that the game comes with.
pub open spec fn spec_reference_chart() -> Seq<ChartEntry> {
    seq![
        ChartEntry { intended_hit_time: 1_000_000, speed: Speed::Slow, lane: NoteTypes::Don },
        ChartEntry { intended_hit_time: 2_000_000, speed: Speed::Slow, lane: NoteTypes::Kat },
        ChartEntry { intended_hit_time: 3_000_000, speed: Speed::Slow, lane: NoteTypes::Don },
        ChartEntry { intended_hit_time: 4_000_000, speed: Speed::Medium, lane: NoteTypes::Kat },
        ChartEntry { intended_hit_time: 5_000_000, speed: Speed::Fast, lane: NoteTypes::Don },
    ]
}

/// The chart that the game comes with.
pub fn reference_chart() -> (chart: Vec<ChartEntry>)
    ensures
        chart@ == spec_reference_chart(),
{
    let chart = vec![
        ChartEntry { intended_hit_time: 1_000_000, speed: Speed::Slow, lane: NoteTypes::Don },
        ChartEntry { intended_hit_time: 2_000_000, speed: Speed::Slow, lane: NoteTypes::Kat },
        ChartEntry { intended_hit_time: 3_000_000, speed: Speed::Slow, lane: NoteTypes::Don },
        ChartEntry { intended_hit_time: 4_000_000, speed: Speed::Medium, lane: NoteTypes::Kat },
        ChartEntry { intended_hit_time: 5_000_000, speed: Speed::Fast, lane: NoteTypes::Don },
    ];
    assert(chart@ =~= spec_reference_chart());
    chart
}

/// The schedule of the chart that the game comes with, on the reference
/// track.
pub fn load_config() -> (song: SongConfig)
    ensures
        song@ == schedule_of(spec_notes(Track::reference_track(), spec_reference_chart())),
        is_sorted(song@),
{
    let track = Track::reference();
    let chart = reference_chart();
    proof {
        assert forall|i: int| 0 <= i < chart@.len() implies chart@[i].spec_note(track) is Ok by {
            crate::track::lemma_track_bounds(track, chart@[i].speed);
        }
    }
    match compile(&track, &chart) {
        Ok(song) => song,
        Err(_) => vstd::pervasive::unreached(),
    }
}

} // verus!
