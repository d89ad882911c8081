//! The process-wide random source.
use vstd::prelude::*;

verus! {

/// Widest range that one draw accepts: below it every draw is exact.
pub const MAX_DRAW_SPAN: u32 = 1_048_576;

/// Relies on macroquad::rand::gen_range over `u32`: it scales a 32-bit draw
/// `k` to `low + (high - low) * k / 2^32` in `f64` and truncates. For a span
/// of at most 2^20 that computation is exact, so the result lies in `[0, n)`.
#[verifier::external_body]
pub(crate) fn random_below(n: u32) -> (r: u32)
    requires
        0 < n <= MAX_DRAW_SPAN,
    ensures
        r < n,
{
    macroquad::rand::gen_range(0u32, n)
}

} // verus!
