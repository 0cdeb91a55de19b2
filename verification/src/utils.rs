//! Angle conversion, parametric intervals and the renderer's size limits.
//!
//! The limits are raw-magnitude bounds under which every arithmetic chain of
//! the renderer fits its integer representation: world coordinates stay
//! within `WORLD_LIMIT`, ray directions within `DIR_LIMIT`, oriented surface
//! normals within `NORMAL_LIMIT`, and parametric distances within
//! `SPAN_LIMIT`.

use vstd::prelude::*;
use crate::fixed::{Fixed, SCALE, fmul_raw, fdiv_raw, min_raw, max_raw, lemma_fmul_bound};

verus! {

/// The raw value of the circle constant pi.
pub const PI_RAW: i128 = 31_416;

/// Raw bound on world coordinates: positions, sphere centers and radii.
pub const WORLD_LIMIT: i128 = 500_000_000;

/// Raw bound on ray direction components.
pub const DIR_LIMIT: i128 = 1_000_000_000;

/// Raw bound on the components of an oriented surface normal.
pub const NORMAL_LIMIT: i128 = 40_000;

/// Raw bound on parametric distances along a ray.
pub const SPAN_LIMIT: i128 = 1_000_000_000_000;

/// Raw epsilon below which an intersection counts as a self-intersection.
pub const T_EPS: i128 = 10;

/// Raw parametric distance standing in for an unbounded query.
pub const T_FAR: i128 = 1_000_000_000_000;

/// Degrees to radians: `d * pi / 180`.
pub fn degrees_to_radians(degrees: Fixed) -> (r: Fixed)
    requires
        -10_000_000 <= degrees.raw <= 10_000_000,
    ensures
        r.raw == fdiv_raw(fmul_raw(degrees.raw as int, PI_RAW as int), 180 * (SCALE as int)),
{
    proof {
        lemma_fmul_bound(degrees.raw as int, PI_RAW as int, 10_000_000, PI_RAW as int);
    }
    degrees.mul(Fixed::from_raw(PI_RAW)).div(Fixed::from_int(180))
}

/// Clamping of `v` into `[lo, hi]`, taking the lower bound first.
pub open spec fn clamp_raw(v: int, lo: int, hi: int) -> int {
    min_raw(max_raw(v, lo), hi)
}

/// An open parametric range along a ray.
#[derive(Clone, Copy, Debug, PartialEq, Eq, Structural)]
pub struct Span {
    pub min: Fixed,
    pub max: Fixed,
}

/// Whether a span's bounds lie within the renderer's parametric limit.
pub open spec fn span_in_limits(s: Span) -> bool {
    &&& -SPAN_LIMIT <= s.min.raw <= SPAN_LIMIT
    &&& -SPAN_LIMIT <= s.max.raw <= SPAN_LIMIT
}

impl Span {
    /// The span with the given bounds.
    pub fn new(min: Fixed, max: Fixed) -> (r: Span)
        ensures
            r.min == min,
            r.max == max,
    {
        Span { min, max }
    }
}

/// An interval of scalars, tested against strictly and clamped into.
pub trait Interval {
    /// The interval's lower raw bound.
    spec fn lo(&self) -> int;

    /// The interval's upper raw bound.
    spec fn hi(&self) -> int;

    /// Whether `value` lies strictly inside the interval.
    fn surrounds(&self, value: Fixed) -> (r: bool)
        ensures
            r == (self.lo() < value.raw < self.hi()),
    ;

    /// `value` clamped into the interval, lower bound first.
    fn make_fit(&self, value: Fixed) -> (r: Fixed)
        ensures
            r.raw == clamp_raw(value.raw as int, self.lo(), self.hi()),
    ;
}

impl Interval for Span {
    open spec fn lo(&self) -> int {
        self.min.raw as int
    }

    open spec fn hi(&self) -> int {
        self.max.raw as int
    }

    fn surrounds(&self, value: Fixed) -> (r: bool) {
        self.min.raw < value.raw && value.raw < self.max.raw
    }

    fn make_fit(&self, value: Fixed) -> (r: Fixed) {
        value.max(self.min).min(self.max)
    }
}

} // verus!
