//! Colors and their conversion to eight-bit channel values.
//!
//! A color is a `Vec3` of linear-light components.  Output conversion
//! applies gamma correction (a square root), clamps into `[0, 0.999]` and
//! scales to the eight-bit range; this crate always applies the gamma step.

use vstd::prelude::*;
use crate::fixed::{Fixed, SCALE, BIG_LIMIT, fsqrt_raw};
use crate::utils::clamp_raw;
use crate::vec3::Vec3;

verus! {

/// A linear-light color.
pub type Color = Vec3;

/// The largest channel value of the eight-bit output range.
pub const MAX_COLOR: u8 = 255;

/// Raw clamp ceiling just below one, so a full channel scales to 255 * 0.999.
pub const INTENSITY_CEIL: i128 = 9_990;

/// The eight-bit channel value for a linear component with raw value `c`:
/// gamma-corrected, clamped and scaled.
pub open spec fn rgb8_of(c: int) -> int {
    let g = if c > 0 {
        fsqrt_raw(c)
    } else {
        0
    };
    let f = clamp_raw(g, 0, INTENSITY_CEIL as int);
    (255 * f) / (SCALE as int)
}

/// Gamma correction: the square root of a positive linear component.
pub fn linear_to_gamma(linear_component: Fixed) -> (r: Fixed)
    requires
        linear_component.raw <= BIG_LIMIT,
    ensures
        r.raw == if linear_component.raw > 0 {
            fsqrt_raw(linear_component.raw as int)
        } else {
            0
        },
{
    if linear_component.raw > 0 {
        linear_component.sqrt()
    } else {
        Fixed::zero()
    }
}

/// The eight-bit channel value of one component.
fn component_to_byte(c: Fixed) -> (r: u8)
    requires
        c.raw <= BIG_LIMIT,
    ensures
        r == rgb8_of(c.raw as int),
{
    let g = linear_to_gamma(c);
    let f = if g.raw < 0 {
        0
    } else if g.raw > INTENSITY_CEIL {
        INTENSITY_CEIL
    } else {
        g.raw
    };
    proof {
        assert(f == clamp_raw(
            if c.raw > 0 {
                fsqrt_raw(c.raw as int)
            } else {
                0
            },
            0,
            INTENSITY_CEIL as int,
        ));
    }
    (((255u128 * (f as u128)) / (SCALE as u128)) as u8)
}

impl Color {
    /// The three eight-bit channel values of this color, gamma-corrected,
    /// clamped into `[0, 0.999]` and scaled by 255.
    pub fn to_rgb8(&self) -> (r: (u8, u8, u8))
        requires
            self@.x <= BIG_LIMIT,
            self@.y <= BIG_LIMIT,
            self@.z <= BIG_LIMIT,
        ensures
            r.0 == rgb8_of(self@.x),
            r.1 == rgb8_of(self@.y),
            r.2 == rgb8_of(self@.z),
    {
        (component_to_byte(self.x), component_to_byte(self.y), component_to_byte(self.z))
    }
}

} // verus!
