//! The run's life cycle: alive until the first contact, then dead for good,
//! with a fade to black.
use vstd::prelude::*;
use crate::units::{frame_ok};

verus! {

/// Full opacity of the death fade.
pub const FADE_FULL: i64 = 1_000_000;

/// Opacity gained per millisecond while dead: half of full per second.
pub const FADE_PER_MS: i64 = 500;

#[derive(Clone, Copy, Debug, PartialEq, Eq, Structural)]
pub enum Life {
    Alive,
    Dead,
}

/// Alive becomes dead on contact; dead stays dead.
pub open spec fn next_life_spec(l: Life, contact: bool) -> Life {
    if contact {
        Life::Dead
    } else {
        l
    }
}

/// The state after each contact report of `contacts` in turn.
pub open spec fn run_life(l: Life, contacts: Seq<bool>) -> Life
    decreases contacts.len(),
{
    if contacts.len() == 0 {
        l
    } else {
        next_life_spec(run_life(l, contacts.drop_last()), contacts.last())
    }
}

/// Fade opacity after `dt` more milliseconds of death, capped at full.
pub open spec fn faded(fade: int, dt: int) -> int {
    if fade + FADE_PER_MS * dt >= FADE_FULL {
        FADE_FULL as int
    } else {
        fade + FADE_PER_MS * dt
    }
}

pub fn next_life(l: Life, contact: bool) -> (r: Life)
    ensures
        r == next_life_spec(l, contact),
        l == Life::Dead ==> r == Life::Dead,
{
    if contact {
        Life::Dead
    } else {
        l
    }
}

pub fn advance_fade(fade: i64, dt_ms: i64) -> (r: i64)
    requires
        0 <= fade <= FADE_FULL,
        frame_ok(dt_ms as int),
    ensures
        r == faded(fade as int, dt_ms as int),
        fade <= r <= FADE_FULL,
{
    let next: i64 = fade + FADE_PER_MS * dt_ms;
    if next >= FADE_FULL {
        FADE_FULL
    } else {
        next
    }
}

/// Death is final: from the dead state, no sequence of contact reports
/// leads back to alive.
pub proof fn lemma_death_is_final(contacts: Seq<bool>)
    ensures
        run_life(Life::Dead, contacts) == Life::Dead,
    decreases contacts.len(),
{
    if contacts.len() > 0 {
        lemma_death_is_final(contacts.drop_last());
    }
}

} // verus!
