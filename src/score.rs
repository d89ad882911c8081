//! Score from peak altitude and wall bounces.
use vstd::prelude::*;
use crate::units::{coord_ok, div_toward_zero, COORD_LIMIT, SUBPIXELS};

verus! {

/// Flat reward granted on every wall bounce.
pub const BOUNCE_BONUS: i64 = 100;

/// The score accumulator and the best altitude reached, in sub-pixels.
/// Climbing makes the accumulator more negative by one per whole pixel; the
/// score shown is its negation.
#[derive(Clone, Copy, Debug, PartialEq, Eq)]
pub struct ScoreTracker {
    pub score: i64,
    pub highest_y: i64,
}

pub ghost struct ScoreModel {
    pub score: int,
    pub highest_y: int,
}

impl View for ScoreTracker {
    type V = ScoreModel;

    open spec fn view(&self) -> ScoreModel {
        ScoreModel { score: self.score as int, highest_y: self.highest_y as int }
    }
}

/// Score after a wall bounce: half the score, rounded toward negative
/// infinity, plus the flat bonus.
pub open spec fn bounce_score(s: int) -> int {
    s / 2 + BOUNCE_BONUS
}

/// A distance in whole pixels, rounded toward zero.
pub open spec fn pixels(d: int) -> int {
    div_toward_zero(d, SUBPIXELS as int)
}

/// The tracker after the ball is seen at `y`: a new best altitude adds the
/// (negative) climb, in whole pixels rounded toward zero, to the
/// accumulator and becomes the best.
pub open spec fn climbed(t: ScoreModel, y: int) -> ScoreModel {
    if y < t.highest_y {
        ScoreModel { score: t.score + pixels(y - t.highest_y), highest_y: y }
    } else {
        t
    }
}

/// The tracker after the ball is seen at each of `ys` in turn.
pub open spec fn climbed_all(t: ScoreModel, ys: Seq<int>) -> ScoreModel
    decreases ys.len(),
{
    if ys.len() == 0 {
        t
    } else {
        climbed(climbed_all(t, ys.drop_last()), ys.last())
    }
}

pub open spec fn displayed(t: ScoreModel) -> int {
    -t.score
}

/// Bounds that every reachable tracker keeps: the best altitude is at or
/// above the start, and the accumulator lies between it (in pixels, exactly)
/// and twice the bonus.
pub open spec fn tracker_ok(t: ScoreModel) -> bool {
    -COORD_LIMIT <= t.highest_y <= 0 && t.highest_y <= t.score * SUBPIXELS
        && t.score <= 2 * BOUNCE_BONUS
}

pub fn bounced_score(s: i64) -> (r: i64)
    ensures
        r == bounce_score(s as int),
{
    let half: i64 = if s >= 0 || s % 2 == 0 {
        s / 2
    } else {
        s / 2 - 1
    };
    half + BOUNCE_BONUS
}

/// A distance in whole pixels, rounded toward zero.
pub fn whole_pixels(d: i64) -> (r: i64)
    ensures
        r == pixels(d as int),
{
    d / SUBPIXELS
}

impl ScoreTracker {
    pub open spec fn wf(&self) -> bool {
        tracker_ok(self@)
    }

    /// A fresh tracker: no score, best altitude at the start height.
    pub fn new() -> (r: ScoreTracker)
        ensures
            r.score == 0,
            r.highest_y == 0,
            r.wf(),
    {
        ScoreTracker { score: 0, highest_y: 0 }
    }

    /// The score shown to the player.
    pub fn displayed_score(&self) -> (r: i64)
        requires
            self.wf(),
        ensures
            r == displayed(self@),
    {
        -self.score
    }

    /// Records the ball at height `y`.
    pub fn on_tick(&mut self, y: i64)
        requires
            old(self).wf(),
            coord_ok(y as int),
        ensures
            final(self)@ == climbed(old(self)@, y as int),
            final(self).wf(),
            displayed(final(self)@) >= displayed(old(self)@),
    {
        if y < self.highest_y {
            self.score = self.score + whole_pixels(y - self.highest_y);
            self.highest_y = y;
        }
    }

    /// Records a wall bounce.
    pub fn on_wall_bounce(&mut self)
        requires
            old(self).wf(),
        ensures
            final(self).score == bounce_score(old(self).score as int),
            final(self).highest_y == old(self).highest_y,
            final(self).wf(),
    {
        self.score = bounced_score(self.score);
    }
}

/// While the ball is only seen climbing or standing (no bounces), the
/// score shown never goes down: after any longer prefix of the heights it is
/// at least what it was after a shorter one.
pub proof fn lemma_climb_score_monotone(t: ScoreModel, ys: Seq<int>, i: int, j: int)
    requires
        0 <= i <= j <= ys.len(),
    ensures
        displayed(climbed_all(t, ys.take(i))) <= displayed(climbed_all(t, ys.take(j))),
    decreases j - i,
{
    if i < j {
        lemma_climb_score_monotone(t, ys, i, j - 1);
        assert(ys.take(j).drop_last() =~= ys.take(j - 1));
    }
}

} // verus!
