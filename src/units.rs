//! Fixed-point units shared by every component.
//!
//! Lengths are measured in sub-pixels (a thousandth of a pixel), times in
//! milliseconds, horizontal obstacle positions in ten-thousandths of the
//! playfield width.
use vstd::prelude::*;

verus! {

/// Sub-pixels in one pixel.
pub const SUBPIXELS: i64 = 1000;

/// Largest magnitude of a coordinate that the step functions accept.
pub const COORD_LIMIT: i64 = 2_000_000_000_000_000;

/// Largest magnitude of a stored world coordinate between two ticks.
pub const STATE_LIMIT: i64 = 1_000_000_000_000_000;

/// Largest magnitude of a stored velocity between two ticks.
pub const VELOCITY_LIMIT: i64 = 1_000_000_000_000;

/// Longest frame, in milliseconds, that one tick accepts.
pub const MAX_FRAME_MS: i64 = 60_000;

/// Largest playfield width or viewport height, in sub-pixels.
pub const MAX_VIEW: i64 = 1_000_000_000;

/// Units of a normalised horizontal position in one playfield width.
pub const FRACTION_SCALE: i64 = 10_000;

/// Largest magnitude of a stored normalised horizontal position.
pub const FRACTION_LIMIT: i64 = 1_000_000_000;

pub open spec fn coord_ok(v: int) -> bool {
    -COORD_LIMIT <= v <= COORD_LIMIT
}

pub open spec fn state_ok(v: int) -> bool {
    -STATE_LIMIT <= v <= STATE_LIMIT
}

pub open spec fn velocity_ok(v: int) -> bool {
    -VELOCITY_LIMIT <= v <= VELOCITY_LIMIT
}

pub open spec fn frame_ok(dt: int) -> bool {
    0 <= dt <= MAX_FRAME_MS
}

/// Integer division that rounds toward zero, as Rust's `/` does.
pub open spec fn div_toward_zero(a: int, b: int) -> int {
    if a >= 0 {
        a / b
    } else {
        -((-a) / b)
    }
}

pub open spec fn abs(a: int) -> int {
    if a >= 0 {
        a
    } else {
        -a
    }
}

} // verus!
