//! Three-component vectors, points and linear-light colors.
//!
//! A `Vec3` is a triple of fixed-point scalars used polymorphically as a
//! displacement, a position (`Point3`) or a color.  Its mathematical model is
//! `V3`, a triple of raw integers; every operation's contract states the
//! resulting model exactly, over the rounded fixed-point arithmetic of
//! `crate::fixed`.

use vstd::prelude::*;
use crate::fixed::{
    Fixed, SCALE, OP_LIMIT, BIG_LIMIT, fits_raw, fmul_raw, fdiv_raw, fsqrt_raw, min_raw, abs_raw,
    lemma_fmul_bound, lemma_fmul_self_nonneg, lemma_fmul_neg,
};
use crate::rng::rng_range;
use vstd::arithmetic::div_mod::{
    lemma_div_is_ordered, lemma_div_multiples_vanish, lemma_fundamental_div_mod,
};

verus! {

/// Raw magnitude below which a component counts as zero (one hundredth).
pub const NEAR_EPS: i128 = 100;

/// Bound on the raw components of a normalized vector (see `unit_vector`).
pub const UNIT_LIMIT: i128 = 1_010_000;

/// The mathematical model of a vector: three raw integer components.
pub ghost struct V3 {
    pub x: int,
    pub y: int,
    pub z: int,
}

/// `r` is the normalization of `p`, a sample from the spherical shell with
/// radii one half and one.
pub open spec fn unit_sample_ok(p: V3, r: V3) -> bool {
    &&& v3_in(p, SCALE as int)
    &&& (SCALE as int) / 4 <= p.vlen_sq() < SCALE
    &&& r == p.vunit()
}

/// All three components of `v` lie within `m` in magnitude.
pub open spec fn v3_in(v: V3, m: int) -> bool {
    &&& -m <= v.x <= m
    &&& -m <= v.y <= m
    &&& -m <= v.z <= m
}

impl V3 {
    /// The zero vector.
    pub open spec fn zero() -> V3 {
        V3 { x: 0, y: 0, z: 0 }
    }

    /// Componentwise sum.
    pub open spec fn vadd(self, o: V3) -> V3 {
        V3 { x: self.x + o.x, y: self.y + o.y, z: self.z + o.z }
    }

    /// Componentwise difference.
    pub open spec fn vsub(self, o: V3) -> V3 {
        V3 { x: self.x - o.x, y: self.y - o.y, z: self.z - o.z }
    }

    /// Componentwise negation.
    pub open spec fn vneg(self) -> V3 {
        V3 { x: -self.x, y: -self.y, z: -self.z }
    }

    /// Scaling by the scalar with raw value `k`.
    pub open spec fn vscale(self, k: int) -> V3 {
        V3 { x: fmul_raw(k, self.x), y: fmul_raw(k, self.y), z: fmul_raw(k, self.z) }
    }

    /// Componentwise product.
    pub open spec fn vmul(self, o: V3) -> V3 {
        V3 { x: fmul_raw(self.x, o.x), y: fmul_raw(self.y, o.y), z: fmul_raw(self.z, o.z) }
    }

    /// Componentwise quotient by the scalar with raw value `k`.
    pub open spec fn vdivk(self, k: int) -> V3 {
        V3 { x: fdiv_raw(self.x, k), y: fdiv_raw(self.y, k), z: fdiv_raw(self.z, k) }
    }

    /// The dot product's raw value.
    pub open spec fn vdot(self, o: V3) -> int {
        fmul_raw(self.x, o.x) + fmul_raw(self.y, o.y) + fmul_raw(self.z, o.z)
    }

    /// The cross product.
    pub open spec fn vcross(self, o: V3) -> V3 {
        V3 {
            x: fmul_raw(self.y, o.z) - fmul_raw(self.z, o.y),
            y: fmul_raw(self.z, o.x) - fmul_raw(self.x, o.z),
            z: fmul_raw(self.x, o.y) - fmul_raw(self.y, o.x),
        }
    }

    /// The squared length's raw value.
    pub open spec fn vlen_sq(self) -> int {
        self.vdot(self)
    }

    /// The length's raw value.
    pub open spec fn vlen(self) -> int {
        fsqrt_raw(self.vlen_sq())
    }

    /// The normalized vector; the zero vector when the length rounds to zero.
    pub open spec fn vunit(self) -> V3 {
        if self.vlen() == 0 {
            V3::zero()
        } else {
            self.vdivk(self.vlen())
        }
    }

    /// Whether every component is below `NEAR_EPS` in magnitude.
    pub open spec fn vnear_zero(self) -> bool {
        &&& -NEAR_EPS < self.x < NEAR_EPS
        &&& -NEAR_EPS < self.y < NEAR_EPS
        &&& -NEAR_EPS < self.z < NEAR_EPS
    }

    /// The mirror reflection of `self` about the normal `n`.
    pub open spec fn vreflect(self, n: V3) -> V3 {
        self.vsub(n.vscale(2 * self.vdot(n)))
    }

    /// The refraction of `self` at the normal `n` with index ratio `eta`,
    /// by Snell's law split into perpendicular and parallel parts.
    pub open spec fn vrefract(self, n: V3, eta: int) -> V3 {
        let c = min_raw(self.vneg().vdot(n), SCALE as int);
        let perp = self.vadd(n.vscale(c)).vscale(eta);
        let k = fsqrt_raw(abs_raw((SCALE as int) - perp.vlen_sq()));
        perp.vadd(n.vscale(-k))
    }
}

/// A vector, point or color: three fixed-point components.
#[derive(Clone, Copy, Debug, PartialEq, Eq, Structural)]
pub struct Vec3 {
    pub x: Fixed,
    pub y: Fixed,
    pub z: Fixed,
}

/// A position in space.
pub type Point3 = Vec3;

impl View for Vec3 {
    type V = V3;

    open spec fn view(&self) -> V3 {
        V3 { x: self.x.raw as int, y: self.y.raw as int, z: self.z.raw as int }
    }
}

impl Vec3 {
    /// The zero vector.
    pub fn new() -> (r: Vec3)
        ensures
            r@ == V3::zero(),
    {
        Vec3 { x: Fixed::zero(), y: Fixed::zero(), z: Fixed::zero() }
    }

    /// The vector with the given components.
    pub fn new_with(x: Fixed, y: Fixed, z: Fixed) -> (r: Vec3)
        ensures
            r@ == (V3 { x: x.raw as int, y: y.raw as int, z: z.raw as int }),
    {
        Vec3 { x, y, z }
    }

    /// The first component.
    pub fn x(&self) -> (r: Fixed)
        ensures
            r.raw == self@.x,
    {
        self.x
    }

    /// The second component.
    pub fn y(&self) -> (r: Fixed)
        ensures
            r.raw == self@.y,
    {
        self.y
    }

    /// The third component.
    pub fn z(&self) -> (r: Fixed)
        ensures
            r.raw == self@.z,
    {
        self.z
    }

    /// The componentwise sum.
    pub fn add(&self, o: &Vec3) -> (r: Vec3)
        requires
            fits_raw(self@.x + o@.x),
            fits_raw(self@.y + o@.y),
            fits_raw(self@.z + o@.z),
        ensures
            r@ == self@.vadd(o@),
    {
        Vec3 { x: self.x.add(o.x), y: self.y.add(o.y), z: self.z.add(o.z) }
    }

    /// The componentwise difference.
    pub fn sub(&self, o: &Vec3) -> (r: Vec3)
        requires
            fits_raw(self@.x - o@.x),
            fits_raw(self@.y - o@.y),
            fits_raw(self@.z - o@.z),
        ensures
            r@ == self@.vsub(o@),
    {
        Vec3 { x: self.x.sub(o.x), y: self.y.sub(o.y), z: self.z.sub(o.z) }
    }

    /// The componentwise negation.
    pub fn neg(&self) -> (r: Vec3)
        requires
            self@.x > i128::MIN,
            self@.y > i128::MIN,
            self@.z > i128::MIN,
        ensures
            r@ == self@.vneg(),
    {
        Vec3 { x: self.x.neg(), y: self.y.neg(), z: self.z.neg() }
    }

    /// The vector scaled by `k`.
    pub fn scale(&self, k: Fixed) -> (r: Vec3)
        requires
            -OP_LIMIT <= k.raw <= OP_LIMIT,
            v3_in(self@, OP_LIMIT as int),
        ensures
            r@ == self@.vscale(k.raw as int),
    {
        Vec3 { x: k.mul(self.x), y: k.mul(self.y), z: k.mul(self.z) }
    }

    /// The componentwise product (used for attenuating colors).
    pub fn mul_comp(&self, o: &Vec3) -> (r: Vec3)
        requires
            v3_in(self@, OP_LIMIT as int),
            v3_in(o@, OP_LIMIT as int),
        ensures
            r@ == self@.vmul(o@),
    {
        Vec3 { x: self.x.mul(o.x), y: self.y.mul(o.y), z: self.z.mul(o.z) }
    }

    /// The vector divided by the scalar `k`.
    pub fn div_scalar(&self, k: Fixed) -> (r: Vec3)
        requires
            k.raw != 0,
            k.raw > i128::MIN,
            v3_in(self@, BIG_LIMIT as int),
        ensures
            r@ == self@.vdivk(k.raw as int),
    {
        Vec3 { x: self.x.div(k), y: self.y.div(k), z: self.z.div(k) }
    }

    /// The dot product.
    pub fn dot(&self, o: &Vec3) -> (r: Fixed)
        requires
            v3_in(self@, OP_LIMIT as int),
            v3_in(o@, OP_LIMIT as int),
        ensures
            r.raw == self@.vdot(o@),
    {
        proof {
            lemma_fmul_bound(self@.x, o@.x, OP_LIMIT as int, OP_LIMIT as int);
            lemma_fmul_bound(self@.y, o@.y, OP_LIMIT as int, OP_LIMIT as int);
            lemma_fmul_bound(self@.z, o@.z, OP_LIMIT as int, OP_LIMIT as int);
        }
        self.x.mul(o.x).add(self.y.mul(o.y)).add(self.z.mul(o.z))
    }

    /// The cross product.
    pub fn cross(&self, o: &Vec3) -> (r: Vec3)
        requires
            v3_in(self@, OP_LIMIT as int),
            v3_in(o@, OP_LIMIT as int),
        ensures
            r@ == self@.vcross(o@),
    {
        proof {
            lemma_fmul_bound(self@.y, o@.z, OP_LIMIT as int, OP_LIMIT as int);
            lemma_fmul_bound(self@.z, o@.y, OP_LIMIT as int, OP_LIMIT as int);
            lemma_fmul_bound(self@.z, o@.x, OP_LIMIT as int, OP_LIMIT as int);
            lemma_fmul_bound(self@.x, o@.z, OP_LIMIT as int, OP_LIMIT as int);
            lemma_fmul_bound(self@.x, o@.y, OP_LIMIT as int, OP_LIMIT as int);
            lemma_fmul_bound(self@.y, o@.x, OP_LIMIT as int, OP_LIMIT as int);
        }
        Vec3 {
            x: self.y.mul(o.z).sub(self.z.mul(o.y)),
            y: self.z.mul(o.x).sub(self.x.mul(o.z)),
            z: self.x.mul(o.y).sub(self.y.mul(o.x)),
        }
    }

    /// The squared length.
    pub fn len_squared(&self) -> (r: Fixed)
        requires
            v3_in(self@, OP_LIMIT as int),
        ensures
            r.raw == self@.vlen_sq(),
            0 <= r.raw,
    {
        proof {
            lemma_fmul_self_nonneg(self@.x);
            lemma_fmul_self_nonneg(self@.y);
            lemma_fmul_self_nonneg(self@.z);
        }
        self.dot(self)
    }

    /// The length.
    pub fn len(&self) -> (r: Fixed)
        requires
            v3_in(self@, OP_LIMIT as int),
        ensures
            r.raw == self@.vlen(),
            0 <= r.raw,
    {
        proof {
            lemma_fmul_bound(self@.x, self@.x, OP_LIMIT as int, OP_LIMIT as int);
            lemma_fmul_bound(self@.y, self@.y, OP_LIMIT as int, OP_LIMIT as int);
            lemma_fmul_bound(self@.z, self@.z, OP_LIMIT as int, OP_LIMIT as int);
        }
        let lsq = self.len_squared();
        lsq.sqrt()
    }

    /// The normalized vector; the zero vector when the length rounds to zero.
    /// Every component of the result is below `UNIT_LIMIT` in magnitude.
    pub fn unit_vector(&self) -> (r: Vec3)
        requires
            v3_in(self@, OP_LIMIT as int),
        ensures
            r@ == self@.vunit(),
            v3_in(r@, UNIT_LIMIT as int),
    {
        proof {
            lemma_fmul_bound(self@.x, self@.x, OP_LIMIT as int, OP_LIMIT as int);
            lemma_fmul_bound(self@.y, self@.y, OP_LIMIT as int, OP_LIMIT as int);
            lemma_fmul_bound(self@.z, self@.z, OP_LIMIT as int, OP_LIMIT as int);
        }
        let lsq = self.len_squared();
        let l = lsq.sqrt();
        if l.raw == 0 {
            Vec3::new()
        } else {
            proof {
                lemma_fmul_self_nonneg(self@.x);
                lemma_fmul_self_nonneg(self@.y);
                lemma_fmul_self_nonneg(self@.z);
                lemma_unit_comp_bound(self@.x, lsq.raw as int, l.raw as int);
                lemma_unit_comp_bound(self@.y, lsq.raw as int, l.raw as int);
                lemma_unit_comp_bound(self@.z, lsq.raw as int, l.raw as int);
            }
            self.div_scalar(l)
        }
    }

    /// Whether every component is near zero (a degenerate direction).
    pub fn is_near_zero(&self) -> (r: bool)
        ensures
            r == self@.vnear_zero(),
    {
        -NEAR_EPS < self.x.raw && self.x.raw < NEAR_EPS && -NEAR_EPS < self.y.raw
            && self.y.raw < NEAR_EPS && -NEAR_EPS < self.z.raw && self.z.raw < NEAR_EPS
    }

    /// The mirror reflection of `self` about the normal `normal`.
    pub fn reflect(&self, normal: &Vec3) -> (r: Vec3)
        requires
            v3_in(self@, 10_000_000_000),
            v3_in(normal@, 10_000_000_000),
        ensures
            r@ == self@.vreflect(normal@),
    {
        proof {
            lemma_fmul_bound(self@.x, normal@.x, 10_000_000_000, 10_000_000_000);
            lemma_fmul_bound(self@.y, normal@.y, 10_000_000_000, 10_000_000_000);
            lemma_fmul_bound(self@.z, normal@.z, 10_000_000_000, 10_000_000_000);
        }
        let d = self.dot(normal);
        let k = d.add(d);
        proof {
            lemma_fmul_bound(k.raw as int, normal@.x, 100_000_000_000_000_000, 10_000_000_000);
            lemma_fmul_bound(k.raw as int, normal@.y, 100_000_000_000_000_000, 10_000_000_000);
            lemma_fmul_bound(k.raw as int, normal@.z, 100_000_000_000_000_000, 10_000_000_000);
        }
        self.sub(&normal.scale(k))
    }

    /// The refraction of `self` at `normal` with index ratio `eta`.
    pub fn refract(&self, normal: &Vec3, eta: Fixed) -> (r: Vec3)
        requires
            v3_in(self@, 2_000_000),
            v3_in(normal@, 100_000),
            0 < eta.raw <= 1_000_000,
        ensures
            r@ == self@.vrefract(normal@, eta.raw as int),
    {
        proof {
            lemma_fmul_bound(-self@.x, normal@.x, 2_000_000, 100_000);
            lemma_fmul_bound(-self@.y, normal@.y, 2_000_000, 100_000);
            lemma_fmul_bound(-self@.z, normal@.z, 2_000_000, 100_000);
        }
        let cos_theta = self.neg().dot(normal).min(Fixed::one());
        proof {
            lemma_fmul_bound(cos_theta.raw as int, normal@.x, 60_000_003, 100_000);
            lemma_fmul_bound(cos_theta.raw as int, normal@.y, 60_000_003, 100_000);
            lemma_fmul_bound(cos_theta.raw as int, normal@.z, 60_000_003, 100_000);
        }
        let shifted = self.add(&normal.scale(cos_theta));
        proof {
            lemma_fmul_bound(eta.raw as int, shifted@.x, 1_000_000, 700_000_003);
            lemma_fmul_bound(eta.raw as int, shifted@.y, 1_000_000, 700_000_003);
            lemma_fmul_bound(eta.raw as int, shifted@.z, 1_000_000, 700_000_003);
        }
        let perp = shifted.scale(eta);
        proof {
            lemma_fmul_bound(perp@.x, perp@.x, 70_000_000_301, 70_000_000_301);
            lemma_fmul_bound(perp@.y, perp@.y, 70_000_000_301, 70_000_000_301);
            lemma_fmul_bound(perp@.z, perp@.z, 70_000_000_301, 70_000_000_301);
        }
        let plsq = perp.len_squared();
        let arg = Fixed::one().sub(plsq);
        let arg_abs = if arg.raw >= 0 {
            arg
        } else {
            arg.neg()
        };
        let s_root = arg_abs.sqrt();
        proof {
            assert(s_root.raw <= 40_000_000_000_000) by (nonlinear_arith)
                requires
                    0 <= s_root.raw,
                    s_root.raw * s_root.raw <= arg_abs.raw * (SCALE as int),
                    0 <= arg_abs.raw <= 20_000_000_000_000_000_000,
            {}
        }
        let k = s_root.neg();
        proof {
            lemma_fmul_bound(k.raw as int, normal@.x, 40_000_000_000_000, 100_000);
            lemma_fmul_bound(k.raw as int, normal@.y, 40_000_000_000_000, 100_000);
            lemma_fmul_bound(k.raw as int, normal@.z, 40_000_000_000_000, 100_000);
        }
        perp.add(&normal.scale(k))
    }

    /// A vector with components drawn uniformly from `[0, 1)`.
    pub fn random(rng: &mut rand::rngs::StdRng) -> (r: Vec3)
        ensures
            0 <= r@.x < SCALE,
            0 <= r@.y < SCALE,
            0 <= r@.z < SCALE,
    {
        let x = rng_range(rng, 0, SCALE as i64);
        let y = rng_range(rng, 0, SCALE as i64);
        let z = rng_range(rng, 0, SCALE as i64);
        Vec3 {
            x: Fixed::from_raw(x as i128),
            y: Fixed::from_raw(y as i128),
            z: Fixed::from_raw(z as i128),
        }
    }

    /// A vector with components drawn uniformly from `[min, max)`.
    pub fn random_with(rng: &mut rand::rngs::StdRng, min: Fixed, max: Fixed) -> (r: Vec3)
        requires
            -1_000_000_000_000 <= min.raw,
            max.raw <= 1_000_000_000_000,
            min.raw < max.raw,
        ensures
            min.raw <= r@.x < max.raw,
            min.raw <= r@.y < max.raw,
            min.raw <= r@.z < max.raw,
    {
        let lo = min.raw as i64;
        let hi = max.raw as i64;
        let x = rng_range(rng, lo, hi);
        let y = rng_range(rng, lo, hi);
        let z = rng_range(rng, lo, hi);
        Vec3 {
            x: Fixed::from_raw(x as i128),
            y: Fixed::from_raw(y as i128),
            z: Fixed::from_raw(z as i128),
        }
    }

    /// A vector drawn by rejection from the spherical shell with radii
    /// one half and one; its direction is uniform over the sphere.  After
    /// too many rejected draws a fixed in-shell vector is returned.
    pub fn random_in_unit_sphere(rng: &mut rand::rngs::StdRng) -> (r: Vec3)
        ensures
            v3_in(r@, SCALE as int),
            (SCALE as int) / 4 <= r@.vlen_sq() < SCALE,
    {
        let mut tries: u8 = 0;
        while tries < 64
            invariant
                true,
            decreases 64 - tries,
        {
            let p = Vec3::random_with(
                rng,
                Fixed::from_raw(-(SCALE - 1)),
                Fixed::from_raw(SCALE),
            );
            let lsq = p.len_squared();
            if SCALE / 4 <= lsq.raw && lsq.raw < SCALE {
                return p;
            }
            tries = tries + 1;
        }
        let fallback = Vec3::new_with(Fixed::from_raw(7_000), Fixed::zero(), Fixed::zero());
        proof {
            assert(fallback@.vlen_sq() == 4_900);
        }
        fallback
    }

    /// A vector drawn by rejection from the planar annulus with radii one
    /// half and one (zero third component); after too many rejected draws a
    /// fixed in-annulus vector is returned.
    pub fn random_in_unit_disk(rng: &mut rand::rngs::StdRng) -> (r: Vec3)
        ensures
            v3_in(r@, SCALE as int),
            r@.z == 0,
            (SCALE as int) / 4 <= r@.vlen_sq() < SCALE,
    {
        let mut tries: u8 = 0;
        while tries < 64
            invariant
                true,
            decreases 64 - tries,
        {
            let lo = Fixed::from_raw(-(SCALE - 1));
            let hi = Fixed::from_raw(SCALE);
            let x = rng_range(rng, -(SCALE as i64) + 1, SCALE as i64);
            let y = rng_range(rng, -(SCALE as i64) + 1, SCALE as i64);
            let p = Vec3 {
                x: Fixed::from_raw(x as i128),
                y: Fixed::from_raw(y as i128),
                z: Fixed::zero(),
            };
            let lsq = p.len_squared();
            if SCALE / 4 <= lsq.raw && lsq.raw < SCALE {
                return p;
            }
            tries = tries + 1;
        }
        let fallback = Vec3::new_with(Fixed::from_raw(7_000), Fixed::zero(), Fixed::zero());
        proof {
            assert(fallback@.vlen_sq() == 4_900);
        }
        fallback
    }

    /// A vector of length close to one with uniform random direction: the
    /// normalization of a sample from the spherical shell.
    pub fn random_unit_vector(rng: &mut rand::rngs::StdRng) -> (r: Vec3)
        ensures
            v3_in(r@, UNIT_LIMIT as int),
            exists|p: V3| unit_sample_ok(p, r@),
    {
        let sample = Vec3::random_in_unit_sphere(rng);
        let r = sample.unit_vector();
        proof {
            assert(unit_sample_ok(sample@, r@));
        }
        r
    }

    /// A random near-unit vector on the hemisphere around `normal`: its dot
    /// product with `normal` is nonnegative up to rounding slack.
    pub fn random_on_hemisphere(rng: &mut rand::rngs::StdRng, normal: &Vec3) -> (r: Vec3)
        requires
            v3_in(normal@, OP_LIMIT as int),
        ensures
            v3_in(r@, UNIT_LIMIT as int),
            r@.vdot(normal@) >= -3,
    {
        let on_unit_sphere = Vec3::random_unit_vector(rng);
        let d = on_unit_sphere.dot(normal);
        if d.raw > 0 {
            on_unit_sphere
        } else {
            proof {
                lemma_fmul_neg(on_unit_sphere@.x, normal@.x);
                lemma_fmul_neg(on_unit_sphere@.y, normal@.y);
                lemma_fmul_neg(on_unit_sphere@.z, normal@.z);
            }
            on_unit_sphere.neg()
        }
    }
}

/// A component of a vector divided by the vector's length is bounded by
/// `101 * SCALE`: the division cannot magnify a component past that, because
/// a component's square never exceeds the squared length.
proof fn lemma_unit_comp_bound(x: int, lsq: int, l: int)
    requires
        0 <= lsq,
        0 <= fmul_raw(x, x),
        fmul_raw(x, x) <= lsq,
        1 <= l,
        l * l <= lsq * SCALE,
        lsq * SCALE < (l + 1) * (l + 1),
    ensures
        -(101 * (SCALE as int)) <= fdiv_raw(x, l) <= 101 * (SCALE as int),
{
    let s = SCALE as int;
    // x * x <= s * lsq + s - 1, from the floor in fmul_raw.
    lemma_fundamental_div_mod(x * x, s);
    assert(x * x == s * fmul_raw(x, x) + ((x * x) % s));
    assert(s * fmul_raw(x, x) <= s * lsq) by (nonlinear_arith)
        requires
            fmul_raw(x, x) <= lsq,
            s > 0,
    {}
    assert(x * x <= s * lsq + s - 1);
    // Hence x * x < (l + 101) * (l + 101).
    assert(lsq * s == s * lsq) by (nonlinear_arith) {}
    assert((l + 101) * (l + 101) >= (l + 1) * (l + 1) + 200 * l + 10200) by (nonlinear_arith)
        requires
            l >= 1,
    {}
    assert(x * x < (l + 101) * (l + 101));
    // Hence |x| <= l + 100.
    assert(-(l + 100) <= x <= l + 100) by (nonlinear_arith)
        requires
            x * x < (l + 101) * (l + 101),
            l >= 1,
    {}
    // Hence |x * s| <= l * (101 * s), since l >= 1.
    assert(-(l * (101 * s)) <= x * s <= l * (101 * s)) by (nonlinear_arith)
        requires
            -(l + 100) <= x <= l + 100,
            l >= 1,
            s == SCALE as int,
    {}
    lemma_div_is_ordered(x * s, l * (101 * s), l);
    lemma_div_is_ordered(-(l * (101 * s)), x * s, l);
    lemma_div_multiples_vanish(101 * s, l);
    lemma_div_multiples_vanish(-(101 * s), l);
    assert(l * (-(101 * s)) == -(l * (101 * s))) by (nonlinear_arith) {}
}

} // verus!
