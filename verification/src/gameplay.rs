//! One tick of play: notes spawn, move and are judged, in that order.

use vstd::prelude::*;
use bevy::input::Input;
use bevy::input::keyboard::KeyCode;
use crate::chart::compile;
use crate::chart::due_count;
use crate::chart::fails_first_at;
use crate::chart::is_due;
use crate::chart::is_sorted;
use crate::chart::lemma_due_count;
use crate::chart::schedule_of;
use crate::chart::spec_notes;
use crate::chart::ChartEntry;
use crate::chart::NoteTime;
use crate::chart::SongConfig;
use crate::consts::LEAD_IN;
use crate::input::just_pressed_keys;
use crate::input::Signals;
use crate::note::Note;
use crate::note::Verdict;
use crate::score::lemma_apply_all_monotonic;
use crate::score::ScoreResource;
use crate::score::Tally;
use crate::track::ConfigError;
use crate::track::Track;
use crate::types::Key;

verus! {

/// How `track` turns a scheduled note into a note in play.
pub open spec fn spawning(track: Track) -> spec_fn(NoteTime) -> Note {
    |scheduled: NoteTime| Note::spec_spawned(track, scheduled)
}

/// How a note moves on `track` in `delta` microseconds.
pub open spec fn moving(track: Track, delta: u64) -> spec_fn(Note) -> Note {
    |note: Note| note.spec_moved(track, delta)
}

/// Which notes stay in play in a tick in which the keys `pressed` went down:
/// those without a verdict.
pub open spec fn staying(track: Track, pressed: Set<Key>) -> spec_fn(Note) -> bool {
    |note: Note| note.spec_judge(track, pressed) is None
}

/// Which notes leave play in a tick in which the keys `pressed` went down:
/// those with a verdict.
pub open spec fn leaving(track: Track, pressed: Set<Key>) -> spec_fn(Note) -> bool {
    |note: Note| note.spec_judge(track, pressed) is Some
}

/// The verdict on a note that leaves play.
pub open spec fn verdict_on(track: Track, pressed: Set<Key>) -> spec_fn(Note) -> Verdict {
    |note: Note| note.spec_judge(track, pressed)->Some_0
}

/// The notes in play that `due` become when they spawn, in the same order.
pub open spec fn spawned_notes(track: Track, due: Seq<NoteTime>) -> Seq<Note> {
    due.map_values(spawning(track))
}

/// `notes` after each has moved for `delta` microseconds.
pub open spec fn moved_notes(track: Track, notes: Seq<Note>, delta: u64) -> Seq<Note> {
    notes.map_values(moving(track, delta))
}

/// The notes of `notes` that stay in play, in the same order.
pub open spec fn survivors(track: Track, notes: Seq<Note>, pressed: Set<Key>) -> Seq<Note> {
    notes.filter(staying(track, pressed))
}

/// The verdicts on the notes of `notes` that leave play, in the order of the
/// notes.
pub open spec fn verdicts_on(track: Track, notes: Seq<Note>, pressed: Set<Key>) -> Seq<Verdict> {
    notes.filter(leaving(track, pressed)).map_values(verdict_on(track, pressed))
}

/// Puts the notes `due` into play, each at the spawn coordinate.
pub fn enter_notes(track: &Track, notes: &mut Vec<Note>, due: &Vec<NoteTime>)
    ensures
        final(notes)@ == old(notes)@ + spawned_notes(*track, due@),
{
    let mut done: usize = 0;
    while done < due.len()
        invariant
            done <= due@.len(),
            notes@ == old(notes)@ + spawned_notes(*track, due@.take(done as int)),
        decreases due.len() - done,
    {
        notes.push(Note::spawned(track, &due[done]));
        proof {
            due@.take(done as int).lemma_push_map_commute(spawning(*track), due@[done as int]);
            assert(due@.take(done + 1) =~= due@.take(done as int).push(due@[done as int]));
            assert(notes@ =~= old(notes)@ + spawned_notes(*track, due@.take(done + 1)));
        }
        done = done + 1;
    }
    assert(due@.take(done as int) =~= due@);
}

/// Releases the notes that are due in the tick that leads from `previous`
/// to `current` and puts them into play, each at the spawn coordinate. Returns
/// how many notes spawned: the backlog is shorter by exactly that many, and
/// a note that has spawned is in the backlog no more.
pub fn spawn_notes(
    track: &Track,
    song_config: &mut SongConfig,
    notes: &mut Vec<Note>,
    previous: i64,
    current: i64,
) -> (count: usize)
    ensures
        count == due_count(old(song_config)@, previous, current),
        count <= old(song_config)@.len(),
        final(song_config)@ == old(song_config)@.skip(count as int),
        final(song_config)@.len() == old(song_config)@.len() - count,
        final(notes)@ == old(notes)@ + spawned_notes(
            *track,
            old(song_config)@.take(count as int),
        ),
        final(notes)@.len() == old(notes)@.len() + count,
        previous >= current ==> count == 0,
{
    let due: Vec<NoteTime> = song_config.pop_due(previous, current);
    enter_notes(track, notes, &due);
    proof {
        if previous >= current && due@.len() > 0 {
            assert(is_due(due@[0], previous, current));
        }
    }
    due.len()
}

/// Moves every note in play by `delta` microseconds of travel.
pub fn move_notes(track: &Track, notes: &mut Vec<Note>, delta: u64)
    ensures
        final(notes)@ == moved_notes(*track, old(notes)@, delta),
        final(notes)@.len() == old(notes)@.len(),
{
    let mut done: usize = 0;
    while done < notes.len()
        invariant
            done <= notes@.len(),
            notes@.len() == old(notes)@.len(),
            forall|i: int| 0 <= i < done ==> notes@[i] == old(notes)@[i].spec_moved(*track, delta),
            forall|i: int| done <= i < notes@.len() ==> notes@[i] == old(notes)@[i],
        decreases notes.len() - done,
    {
        let mut note: Note = notes[done];
        note.advance(track, delta);
        notes.set(done, note);
        done = done + 1;
    }
    assert(notes@ =~= moved_notes(*track, old(notes)@, delta));
}

/// Judges every note in play in a tick with the key signals `signals`.
/// Notes with a verdict leave play, the others stay, in their order. The
/// verdicts are counted on `score` and returned, in the order of the notes
/// they are on.
pub fn judge_notes(
    track: &Track,
    notes: &mut Vec<Note>,
    signals: &Signals,
    score: &mut ScoreResource,
) -> (verdicts: Vec<Verdict>)
    ensures
        final(notes)@ == survivors(*track, old(notes)@, signals@),
        verdicts@ == verdicts_on(*track, old(notes)@, signals@),
        final(notes)@.len() + verdicts@.len() == old(notes)@.len(),
        final(score)@ == old(score)@.apply_all(*track, verdicts@),
        old(score)@.no_more_than(final(score)@),
{
    let mut kept: Vec<Note> = Vec::new();
    let mut verdicts: Vec<Verdict> = Vec::new();
    let mut done: usize = 0;
    while done < notes.len()
        invariant
            done <= notes@.len(),
            notes == old(notes),
            kept@ == survivors(*track, notes@.take(done as int), signals@),
            verdicts@ == verdicts_on(*track, notes@.take(done as int), signals@),
            kept@.len() + verdicts@.len() == done,
            score@ == old(score)@.apply_all(*track, verdicts@),
            old(score)@.no_more_than(score@),
        decreases notes.len() - done,
    {
        let note: Note = notes[done];
        proof {
            let seen = notes@.take(done as int);
            assert(notes@.take(done + 1) =~= seen.push(note));
            seen.lemma_filter_push(note, staying(*track, signals@));
            seen.lemma_filter_push(note, leaving(*track, signals@));
            seen.filter(leaving(*track, signals@)).lemma_push_map_commute(
                verdict_on(*track, signals@),
                note,
            );
        }
        match note.judge(track, signals) {
            Some(verdict) => {
                let ghost before = verdicts@;
                score.apply(track, verdict);
                verdicts.push(verdict);
                assert(verdicts@.drop_last() =~= before);
            },
            None => {
                kept.push(note);
            },
        }
        done = done + 1;
    }
    assert(notes@.take(done as int) =~= notes@);
    *notes = kept;
    verdicts
}

/// Judges every note in play against what `keyboard_input` reports as
/// pressed since its last update, as `judge_notes` does against key
/// signals.
pub fn despawn_notes(
    track: &Track,
    notes: &mut Vec<Note>,
    keyboard_input: &Input<KeyCode>,
    score: &mut ScoreResource,
) -> (verdicts: Vec<Verdict>)
    ensures
        final(notes)@ == survivors(*track, old(notes)@, just_pressed_keys(*keyboard_input)),
        verdicts@ == verdicts_on(*track, old(notes)@, just_pressed_keys(*keyboard_input)),
        final(notes)@.len() + verdicts@.len() == old(notes)@.len(),
        final(score)@ == old(score)@.apply_all(*track, verdicts@),
        old(score)@.no_more_than(final(score)@),
{
    let signals: Signals = Signals::read(keyboard_input);
    judge_notes(track, notes, &signals, score)
}

/// The time of the song at `uptime` microseconds after start-up. The song
/// starts after the lead-in, so its time is negative until then.
pub fn song_time(uptime: u64) -> (time: i64)
    ensures
        time == if uptime - LEAD_IN > i64::MAX {
            i64::MAX as int
        } else {
            uptime - LEAD_IN
        },
{
    let time: i128 = uptime as i128 - LEAD_IN as i128;
    if time > i64::MAX as i128 {
        i64::MAX
    } else {
        time as i64
    }
}

/// The time that passes in the tick that leads from `previous` to `current`,
/// in microseconds: none where the clock did not advance.
pub open spec fn spec_tick_length(previous: i64, current: i64) -> int {
    if current > previous {
        current - previous
    } else {
        0
    }
}

/// The time that passes in the tick that leads from `previous` to `current`.
pub fn tick_length(previous: i64, current: i64) -> (delta: u64)
    ensures
        delta == spec_tick_length(previous, current),
{
    if current > previous {
        (current as i128 - previous as i128) as u64
    } else {
        0
    }
}

/// A session of play as a value: the track, the notes that have not spawned
/// yet in the order in which they will, the notes in play, the tally of the
/// score, and the time of the song at the last tick.
pub struct Play {
    pub track: Track,
    pub backlog: Seq<NoteTime>,
    pub notes: Seq<Note>,
    pub tally: Tally,
    pub elapsed: i64,
}

impl Play {
    /// Whether this is the state of a session: the backlog is sorted by
    /// spawn time and the counts of the tally fit the score board.
    pub open spec fn valid(self) -> bool {
        is_sorted(self.backlog) && self.tally.fits()
    }

    /// How many notes spawn in the tick that leads to `current`.
    pub open spec fn spawn_count(self, current: i64) -> nat {
        due_count(self.backlog, self.elapsed, current)
    }

    /// The notes that are judged in the tick that leads to `current`: the
    /// notes that were in play, each moved by the length of the tick, and
    /// behind them the notes that spawn in this tick, which stand at the
    /// spawn coordinate.
    pub open spec fn in_play(self, current: i64) -> Seq<Note> {
        moved_notes(self.track, self.notes, spec_tick_length(self.elapsed, current) as u64)
            + spawned_notes(self.track, self.backlog.take(self.spawn_count(current) as int))
    }

    /// The verdicts of the tick that leads to `current`, in which the keys
    /// `pressed` went down.
    pub open spec fn verdicts(self, current: i64, pressed: Set<Key>) -> Seq<Verdict> {
        verdicts_on(self.track, self.in_play(current), pressed)
    }

    /// The session after the tick that leads to `current`, in which the
    /// keys `pressed` went down.
    pub open spec fn tick(self, current: i64, pressed: Set<Key>) -> Play {
        Play {
            track: self.track,
            backlog: self.backlog.skip(self.spawn_count(current) as int),
            notes: survivors(self.track, self.in_play(current), pressed),
            tally: self.tally.apply_all(self.track, self.verdicts(current, pressed)),
            elapsed: current,
        }
    }

    /// The session after one tick for each of `ticks`, in their order. A
    /// tick is given by the time it leads to and the keys that went down in
    /// it.
    pub open spec fn run(self, ticks: Seq<(i64, Set<Key>)>) -> Play
        decreases ticks.len(),
    {
        if ticks.len() == 0 {
            self
        } else {
            self.run(ticks.drop_last()).tick(ticks.last().0, ticks.last().1)
        }
    }
}

/// A tick keeps a session a session. No count of the score falls in it.
/// Every note that spawns in it leaves the backlog, which gets shorter by
/// exactly their number, and every note that was in play or spawns either
/// stays in play or gets one verdict.
pub proof fn lemma_tick(play: Play, current: i64, pressed: Set<Key>)
    requires
        play.valid(),
    ensures
        play.tick(current, pressed).valid(),
        play.tally.no_more_than(play.tick(current, pressed).tally),
        play.spawn_count(current) <= play.backlog.len(),
        play.tick(current, pressed).backlog.len() == play.backlog.len() - play.spawn_count(current),
        play.backlog == play.backlog.take(play.spawn_count(current) as int) + play.tick(
            current,
            pressed,
        ).backlog,
        play.in_play(current).len() == play.notes.len() + play.spawn_count(current),
        play.tick(current, pressed).notes.len() + play.verdicts(current, pressed).len()
            == play.in_play(current).len(),
        play.elapsed >= current ==> play.spawn_count(current) == 0,
{
    let count = play.spawn_count(current) as int;
    lemma_due_count(play.backlog, play.elapsed, current);
    lemma_apply_all_monotonic(play.tally, play.track, play.verdicts(current, pressed));
    let rest = play.backlog.skip(count);
    assert forall|i: int, j: int| 0 <= i <= j < rest.len() implies rest[i].spawn_time
        <= rest[j].spawn_time by {
        assert(rest[i] == play.backlog[count + i]);
        assert(rest[j] == play.backlog[count + j]);
    }
    assert(play.backlog =~= play.backlog.take(count) + rest);
    lemma_judged_or_staying(play.track, play.in_play(current), pressed);
    if play.elapsed >= current && count > 0 {
        assert(is_due(play.backlog[0], play.elapsed, current));
    }
}

/// Of the notes that are judged, each either stays in play or gets a
/// verdict.
pub proof fn lemma_judged_or_staying(track: Track, notes: Seq<Note>, pressed: Set<Key>)
    ensures
        survivors(track, notes, pressed).len() + verdicts_on(track, notes, pressed).len()
            == notes.len(),
    decreases notes.len(),
{
    if notes.len() > 0 {
        let before = notes.drop_last();
        lemma_judged_or_staying(track, before, pressed);
        assert(before.push(notes.last()) =~= notes);
        before.lemma_filter_push(notes.last(), staying(track, pressed));
        before.lemma_filter_push(notes.last(), leaving(track, pressed));
    } else {
        assert(notes.filter(staying(track, pressed)).len() == 0) by {
            notes.lemma_filter_len(staying(track, pressed));
        }
        assert(notes.filter(leaving(track, pressed)).len() == 0) by {
            notes.lemma_filter_len(leaving(track, pressed));
        }
    }
}

/// Ticks that follow one another without a gap skip no note: where every
/// note of the backlog spawns after the time of the last tick, every note
/// that is left after a tick spawns after the time of that tick.
pub proof fn lemma_tick_skips_no_note(play: Play, current: i64, pressed: Set<Key>)
    requires
        play.valid(),
        forall|i: int| 0 <= i < play.backlog.len() ==> play.backlog[i].spawn_time > play.elapsed,
    ensures
        forall|i: int|
            0 <= i < play.tick(current, pressed).backlog.len() ==> play.tick(
                current,
                pressed,
            ).backlog[i].spawn_time > current,
{
    let count = play.spawn_count(current) as int;
    lemma_due_count(play.backlog, play.elapsed, current);
    let rest = play.tick(current, pressed).backlog;
    assert forall|i: int| 0 <= i < rest.len() implies rest[i].spawn_time > current by {
        assert(rest[i] == play.backlog[count + i]);
        assert(!is_due(play.backlog[count], play.elapsed, current));
    }
}

/// Over any sequence of ticks a session stays a session, no count of the
/// score falls, and the backlog only loses notes from its front: a note
/// that has spawned never spawns again.
pub proof fn lemma_run(play: Play, ticks: Seq<(i64, Set<Key>)>)
    requires
        play.valid(),
    ensures
        play.run(ticks).valid(),
        play.tally.no_more_than(play.run(ticks).tally),
        play.run(ticks).backlog.len() <= play.backlog.len(),
        play.run(ticks).backlog == play.backlog.skip(
            play.backlog.len() - play.run(ticks).backlog.len(),
        ),
    decreases ticks.len(),
{
    if ticks.len() > 0 {
        let before = play.run(ticks.drop_last());
        lemma_run(play, ticks.drop_last());
        lemma_tick(before, ticks.last().0, ticks.last().1);
        let gone = play.backlog.len() - before.backlog.len();
        let count = before.spawn_count(ticks.last().0) as int;
        assert(play.backlog.skip(gone).skip(count) =~= play.backlog.skip(gone + count));
    } else {
        assert(play.backlog.skip(0) =~= play.backlog);
    }
}

/// A session of play: the track, the notes that have not spawned yet, the
/// notes in play, the score, and the time of the song at the last tick.
#[derive(Debug)]
pub struct Session {
    pub track: Track,
    pub song_config: SongConfig,
    pub notes: Vec<Note>,
    pub score: ScoreResource,
    pub elapsed: i64,
}

impl View for Session {
    type V = Play;

    open spec fn view(&self) -> Play {
        Play {
            track: self.track,
            backlog: self.song_config@,
            notes: self.notes@,
            tally: self.score@,
            elapsed: self.elapsed,
        }
    }
}

impl Session {
    /// A session that is about to start at song time `start`, with the
    /// schedule of `chart` on `track`, no note in play and no score. Fails
    /// where the chart cannot be compiled, with the error of `compile`.
    pub fn new(track: Track, chart: &Vec<ChartEntry>, start: i64) -> (session: Result<
        Session,
        ConfigError,
    >)
        ensures
            match session {
                Ok(session) => {
                    &&& forall|i: int| 0 <= i < chart@.len() ==> chart@[i].spec_note(track) is Ok
                    &&& session@ == (Play {
                        track,
                        backlog: schedule_of(spec_notes(track, chart@)),
                        notes: Seq::<Note>::empty(),
                        tally: Tally { score: 0, corrects: 0, fails: 0 },
                        elapsed: start,
                    })
                    &&& session@.valid()
                },
                Err(error) => exists|i: int|
                    fails_first_at(track, chart@, i) && chart@[i].spec_note(track) == Err::<
                        NoteTime,
                        ConfigError,
                    >(error),
            },
    {
        match compile(&track, chart) {
            Ok(song_config) => Ok(
                Session {
                    track,
                    song_config,
                    notes: Vec::new(),
                    score: ScoreResource::new(),
                    elapsed: start,
                },
            ),
            Err(error) => Err(error),
        }
    }

    /// Runs the tick that takes the session to song time `current`, with
    /// the key signals `signals`. First the notes that are due spawn. Then
    /// the notes that were in play before move, by the time since the last
    /// tick; a note does not move in the tick in which it spawns. Then every
    /// note in play is judged, and the verdicts are counted on the score and
    /// returned.
    pub fn tick(&mut self, current: i64, signals: &Signals) -> (verdicts: Vec<Verdict>)
        ensures
            final(self)@ == old(self)@.tick(current, signals@),
            verdicts@ == old(self)@.verdicts(current, signals@),
            old(self)@.valid(),
            final(self)@.valid(),
            old(self)@.tally.no_more_than(final(self)@.tally),
            final(self)@.backlog.len() == old(self)@.backlog.len() - old(self)@.spawn_count(current),
    {
        let previous: i64 = self.elapsed;
        proof {
            self.score.lemma_fits();
        }
        let due: Vec<NoteTime> = self.song_config.pop_due(previous, current);
        move_notes(&self.track, &mut self.notes, tick_length(previous, current));
        enter_notes(&self.track, &mut self.notes, &due);
        let verdicts = judge_notes(&self.track, &mut self.notes, signals, &mut self.score);
        self.elapsed = current;
        proof {
            lemma_tick(old(self)@, current, signals@);
        }
        verdicts
    }
}

} // verus!
