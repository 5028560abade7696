//! The score of a session.

use vstd::prelude::*;
use crate::consts::MAX_POINTS;
use crate::consts::MIN_POINTS;
use crate::note::Verdict;
use crate::track::Track;

verus! {

/// What a score board shows: the points, the count of notes hit and the
/// count of notes missed.
pub struct Tally {
    pub score: nat,
    pub corrects: nat,
    pub fails: nat,
}

/// The distance of `error` from zero.
pub open spec fn magnitude(error: int) -> int {
    if error < 0 {
        -error
    } else {
        error
    }
}

/// The points for a hit that is `error` position steps off the target. A
/// hit on the spot earns the most points, and a hit at the edge of the hit
/// window or beyond it the fewest. Between them the points fall with the
/// distance from the target, in proportion to the part of the window that
/// is left, and never under the fewest.
pub open spec fn spec_reward(track: Track, error: int) -> int {
    let off = magnitude(error);
    let window = track.spec_window();
    if off == 0 {
        MAX_POINTS as int
    } else if off >= window {
        MIN_POINTS as int
    } else {
        let share = (window - off) * MAX_POINTS / window;
        if share < MIN_POINTS {
            MIN_POINTS as int
        } else {
            share
        }
    }
}

/// `count`, or the largest count that the score board can hold where
/// `count` is larger.
pub open spec fn capped(count: nat) -> nat {
    if count > u64::MAX {
        u64::MAX as nat
    } else {
        count
    }
}

impl Tally {
    /// The tally after a hit that is `error` position steps off the target.
    pub open spec fn hit(self, track: Track, error: int) -> Tally {
        Tally {
            score: capped((self.score + spec_reward(track, error)) as nat),
            corrects: capped(self.corrects + 1),
            fails: self.fails,
        }
    }

    /// The tally after a miss.
    pub open spec fn miss(self) -> Tally {
        Tally { score: self.score, corrects: self.corrects, fails: capped(self.fails + 1) }
    }

    /// The tally after `verdict`.
    pub open spec fn apply(self, track: Track, verdict: Verdict) -> Tally {
        match verdict {
            Verdict::Hit { error } => self.hit(track, error as int),
            Verdict::Miss => self.miss(),
        }
    }

    /// The tally after each of `verdicts`, in their order.
    pub open spec fn apply_all(self, track: Track, verdicts: Seq<Verdict>) -> Tally
        decreases verdicts.len(),
    {
        if verdicts.len() == 0 {
            self
        } else {
            self.apply_all(track, verdicts.drop_last()).apply(track, verdicts.last())
        }
    }

    /// Whether the counts of this tally fit a score board.
    pub open spec fn fits(self) -> bool {
        self.score <= u64::MAX && self.corrects <= u64::MAX && self.fails <= u64::MAX
    }

    /// Whether no count of this tally exceeds its count in `later`.
    pub open spec fn no_more_than(self, later: Tally) -> bool {
        self.score <= later.score && self.corrects <= later.corrects && self.fails <= later.fails
    }
}

/// Points for a hit lie between the fewest and the most.
pub proof fn lemma_reward_bounds(track: Track, error: int)
    ensures
        MIN_POINTS <= spec_reward(track, error) <= MAX_POINTS,
{
    let off = magnitude(error);
    let window = track.spec_window();
    if off != 0 && off < window {
        assert((window - off) * MAX_POINTS / window <= MAX_POINTS) by (nonlinear_arith)
            requires
                0 < off < window,
        ;
    }
}

/// A hit nearer to the target earns no fewer points than one farther off.
pub proof fn lemma_reward_monotonic(track: Track, nearer: int, farther: int)
    requires
        magnitude(nearer) < magnitude(farther),
    ensures
        spec_reward(track, nearer) >= spec_reward(track, farther),
{
    let window = track.spec_window();
    let near = magnitude(nearer);
    let far = magnitude(farther);
    lemma_reward_bounds(track, nearer);
    lemma_reward_bounds(track, farther);
    if near != 0 && far < window {
        assert((window - near) * MAX_POINTS / window >= (window - far) * MAX_POINTS / window)
            by (nonlinear_arith)
            requires
                0 < near < far < window,
        ;
    }
}

/// No verdict makes a count of the tally smaller.
pub proof fn lemma_apply_monotonic(tally: Tally, track: Track, verdict: Verdict)
    requires
        tally.fits(),
    ensures
        tally.no_more_than(tally.apply(track, verdict)),
        tally.apply(track, verdict).fits(),
{
    match verdict {
        Verdict::Hit { error } => {
            lemma_reward_bounds(track, error as int);
        },
        Verdict::Miss => {},
    }
}

/// No sequence of verdicts makes a count of the tally smaller.
pub proof fn lemma_apply_all_monotonic(tally: Tally, track: Track, verdicts: Seq<Verdict>)
    requires
        tally.fits(),
    ensures
        tally.no_more_than(tally.apply_all(track, verdicts)),
        tally.apply_all(track, verdicts).fits(),
    decreases verdicts.len(),
{
    if verdicts.len() > 0 {
        lemma_apply_all_monotonic(tally, track, verdicts.drop_last());
        lemma_apply_monotonic(tally.apply_all(track, verdicts.drop_last()), track, verdicts.last());
    }
}

/// The points for a hit that is `error` position steps off the target.
pub fn reward(track: &Track, error: i64) -> (points: u64)
    ensures
        points == spec_reward(*track, error as int),
        MIN_POINTS <= points <= MAX_POINTS,
{
    proof {
        lemma_reward_bounds(*track, error as int);
    }
    let off: u64 = if error < 0 {
        (-(error as i128)) as u64
    } else {
        error as u64
    };
    let window: u64 = track.window() as u64;
    if off == 0 {
        MAX_POINTS
    } else if off >= window {
        MIN_POINTS
    } else {
        let share: u128 = (window - off) as u128 * (MAX_POINTS as u128) / (window as u128);
        if share < MIN_POINTS as u128 {
            MIN_POINTS
        } else {
            share as u64
        }
    }
}

/// The running score of a session. It changes only by verdicts, and no
/// count ever falls. A count that reaches the largest value it can hold
/// stays there.
#[derive(Debug)]
pub struct ScoreResource {
    score: u64,
    corrects: u64,
    fails: u64,
}

impl View for ScoreResource {
    type V = Tally;

    closed spec fn view(&self) -> Tally {
        Tally { score: self.score as nat, corrects: self.corrects as nat, fails: self.fails as nat }
    }
}

impl Default for ScoreResource {
    /// The score at the start of a session: nothing hit, nothing missed.
    fn default() -> (board: ScoreResource)
        ensures
            board@ == (Tally { score: 0, corrects: 0, fails: 0 }),
    {
        ScoreResource { score: 0, corrects: 0, fails: 0 }
    }
}

impl ScoreResource {
    /// The score at the start of a session: nothing hit, nothing missed.
    pub fn new() -> (board: ScoreResource)
        ensures
            board@ == (Tally { score: 0, corrects: 0, fails: 0 }),
    {
        ScoreResource { score: 0, corrects: 0, fails: 0 }
    }

    /// What the score board shows.
    pub fn tally(&self) -> (counts: (u64, u64, u64))
        ensures
            counts.0 == self@.score,
            counts.1 == self@.corrects,
            counts.2 == self@.fails,
    {
        (self.score, self.corrects, self.fails)
    }

    /// The points so far.
    pub fn score(&self) -> (points: u64)
        ensures
            points == self@.score,
    {
        self.score
    }

    /// How many notes were hit.
    pub fn corrects(&self) -> (count: u64)
        ensures
            count == self@.corrects,
    {
        self.corrects
    }

    /// How many notes were missed.
    pub fn fails(&self) -> (count: u64)
        ensures
            count == self@.fails,
    {
        self.fails
    }

    /// Counts a hit that was `distance` position steps off the target, and
    /// returns the points it earned.
    pub fn increase_correct(&mut self, track: &Track, distance: i64) -> (points: u64)
        ensures
            points == spec_reward(*track, distance as int),
            final(self)@ == old(self)@.hit(*track, distance as int),
            old(self)@.no_more_than(final(self)@),
    {
        let points: u64 = reward(track, distance);
        self.corrects = self.corrects.saturating_add(1);
        self.score = self.score.saturating_add(points);
        points
    }

    /// Counts a miss.
    pub fn increase_fails(&mut self)
        ensures
            final(self)@ == old(self)@.miss(),
            old(self)@.no_more_than(final(self)@),
    {
        self.fails = self.fails.saturating_add(1);
    }

    /// Counts `verdict`.
    pub fn apply(&mut self, track: &Track, verdict: Verdict)
        ensures
            final(self)@ == old(self)@.apply(*track, verdict),
            old(self)@.no_more_than(final(self)@),
    {
        match verdict {
            Verdict::Hit { error } => {
                let _ = self.increase_correct(track, error);
            },
            Verdict::Miss => {
                self.increase_fails();
            },
        }
    }

    /// The counts of a score board fit the board.
    pub proof fn lemma_fits(&self)
        ensures
            self@.fits(),
    {
    }
}

} // verus!
