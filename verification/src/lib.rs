//! Core computations of a SAR parameter-entry tool: folding a periodic pulse
//! timing schedule into a bounded, ambiguity-aware timeline, and projecting a
//! slant-range reception window into ground-plane arc primitives.
//!
//! All quantities are carried as fixed-point integers in caller-chosen units;
//! the rendering layer evaluates the trigonometric parts of the emitted
//! primitives and draws them.

use vstd::prelude::*;

pub mod chronogram;
pub mod digits;
pub mod geometry;

verus! {

/// Whether a mathematical integer is representable as an `i64`.
pub open spec fn fits_i64(x: int) -> bool {
    i64::MIN <= x <= i64::MAX
}

/// Ceiling of `a / b` for a positive dividend and divisor, written over the
/// floor division that the solver knows.
pub open spec fn ceil_div(a: int, b: int) -> int {
    a / b + if a % b == 0 { 0int } else { 1int }
}

} // verus!
