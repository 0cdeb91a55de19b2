//! The camera: viewport construction, per-pixel sampling and the recursive
//! radiance integrator.
//!
//! The camera's derived state (basis, pixel grid, defocus disk) is an exact
//! function of its configuration, stated by the `spec_*` functions below and
//! established by `initialize`.  Rendering accumulates, for every pixel,
//! `samples_per_pixel` radiance estimates from jittered rays and averages
//! them.  The integrator multiplies attenuations through scattered bounces
//! and never adds emitted radiance into the result; that preserved policy
//! means emissive surfaces terminate paths without contributing light.
//! Since the vertical field of view enters the viewport only through the
//! tangent of its half angle, the configuration carries that tangent
//! (`tan_half_vfov`, `tan_half_defocus`) as a plain scalar.

use vstd::prelude::*;
use crate::color::{Color, rgb8_of};
use crate::fixed::{
    Fixed, SCALE, OP_LIMIT, fmul_raw, fdiv_raw, max_raw, min_raw, floor_div_exec,
    lemma_fmul_bound, lemma_fdiv_shrink, lemma_fmul_nonneg, lemma_fmul_unit_upper,
};
use crate::hittable::Hittable;
use crate::hittable_list::{HittableList, lemma_list_hit_in_range, list_hit_model, objects_wf};
use crate::material::{color_unit, lemma_scatter_common, Material, MaterialKind};
use crate::ray::Ray;
use crate::rng::rng_range;
use crate::utils::{Span, DIR_LIMIT, SPAN_LIMIT, T_EPS, T_FAR, WORLD_LIMIT};
use crate::vec3::{Point3, UNIT_LIMIT, V3, Vec3, v3_in};
use vstd::arithmetic::div_mod::{
    lemma_div_by_multiple, lemma_div_denominator, lemma_div_is_ordered,
    lemma_div_is_ordered_by_denominator, lemma_div_pos_is_pos, lemma_fundamental_div_mod,
};

verus! {

/// A rendered image: eight-bit pixel rows, top row first.
pub struct Image {
    pub width: u32,
    pub height: u32,
    pub pixels: Vec<(u8, u8, u8)>,
}

/// The background gradient for a direction: white at the nadir blending to
/// light blue at the zenith, driven by the normalized direction's height.
pub open spec fn background_spec(direction: V3) -> V3 {
    let u = direction.vunit();
    let a = min_raw(max_raw(fdiv_raw(u.y + SCALE, 2 * SCALE), 0), SCALE as int);
    let s = SCALE as int;
    V3 {
        x: fmul_raw(s - a, s) + fmul_raw(a, 5_000),
        y: fmul_raw(s - a, s) + fmul_raw(a, 7_000),
        z: fmul_raw(s - a, s) + fmul_raw(a, s),
    }
}

/// The background color seen by a ray with the given direction.
pub fn background_color(direction: &Vec3) -> (r: Color)
    requires
        v3_in(direction@, OP_LIMIT as int),
    ensures
        r@ == background_spec(direction@),
        color_unit(r@),
{
    let u = direction.unit_vector();
    proof {
        lemma_fdiv_shrink(u@.y + SCALE, 2 * SCALE);
    }
    let raw_a = Fixed::from_raw(u.y().raw + SCALE).div(Fixed::from_raw(2 * SCALE));
    let a = raw_a.max(Fixed::zero()).min(Fixed::one());
    let b = Fixed::one().sub(a);
    proof {
        lemma_fmul_nonneg(b.raw as int, SCALE as int);
        lemma_fmul_nonneg(a.raw as int, 5_000);
        lemma_fmul_nonneg(a.raw as int, 7_000);
        lemma_fmul_nonneg(a.raw as int, SCALE as int);
        lemma_fmul_unit_upper(b.raw as int, SCALE as int);
        lemma_fmul_unit_upper(a.raw as int, 5_000);
        lemma_fmul_unit_upper(a.raw as int, 7_000);
        lemma_fmul_unit_upper(a.raw as int, SCALE as int);
        lemma_fmul_bound(b.raw as int, SCALE as int, SCALE as int, SCALE as int);
        lemma_fmul_bound(a.raw as int, SCALE as int, SCALE as int, SCALE as int);
    }
    let white = Vec3::new_with(Fixed::one(), Fixed::one(), Fixed::one());
    let zenith = Vec3::new_with(
        Fixed::from_raw(5_000),
        Fixed::from_raw(7_000),
        Fixed::one(),
    );
    white.scale(b).add(&zenith.scale(a))
}

/// The pixel `px` is the eight-bit conversion of an averaged color `c`
/// with components in `[0, 1]`.
pub open spec fn pixel_ok(px: (u8, u8, u8), c: V3) -> bool {
    &&& color_unit(c)
    &&& px.0 == rgb8_of(c.x)
    &&& px.1 == rgb8_of(c.y)
    &&& px.2 == rgb8_of(c.z)
}

/// The averaged color a pixel was converted from, when one exists.
pub open spec fn pixel_shade(px: (u8, u8, u8)) -> V3 {
    choose|c: V3| pixel_ok(px, c)
}

/// Every pixel of the sequence is the eight-bit conversion of some
/// averaged color in `[0, 1]`, named by `pixel_shade`.
pub open spec fn image_pixels_ok(pixels: Seq<(u8, u8, u8)>) -> bool {
    forall|k: int|
        0 <= k < pixels.len() ==> pixel_ok(#[trigger] pixels[k], pixel_shade(pixels[k]))
}

/// A sequence of per-pixel witness colors yields the image property.
proof fn lemma_pixels_ok_from_witnesses(pixels: Seq<(u8, u8, u8)>, shades: Seq<V3>)
    requires
        shades.len() == pixels.len(),
        forall|k: int| 0 <= k < pixels.len() ==> pixel_ok(#[trigger] pixels[k], shades[k]),
    ensures
        image_pixels_ok(pixels),
{
    assert forall|k: int| 0 <= k < pixels.len() implies pixel_ok(
        #[trigger] pixels[k],
        pixel_shade(pixels[k]),
    ) by {
        assert(pixel_ok(pixels[k], shades[k]));
        assert(exists|c: V3| pixel_ok(pixels[k], c));
    }
}

/// The averaging factor (one over the sample count, floored) times the
/// sample count is at most one.
proof fn lemma_scale_times_samples(spp: int)
    requires
        1 <= spp,
    ensures
        0 <= fdiv_raw(SCALE as int, spp * (SCALE as int)),
        fdiv_raw(SCALE as int, spp * (SCALE as int)) * spp <= SCALE,
{
    let s = SCALE as int;
    assert(spp * s > 0) by (nonlinear_arith)
        requires
            spp >= 1,
            s > 0,
    {}
    assert(s * spp == spp * s) by (nonlinear_arith) {}
    lemma_div_denominator(s * s, s, spp);
    lemma_div_by_multiple(s, s);
    lemma_fundamental_div_mod(s, spp);
    let q = s / spp;
    assert(q * spp == spp * q) by (nonlinear_arith) {}
    lemma_div_pos_is_pos(s * s, spp * s);
}

/// Averaging a sum of at most `spp` unit colors lands in `[0, 1]`.
proof fn lemma_average_in_unit(scale: int, c: int, spp: int)
    requires
        0 <= scale,
        0 <= spp,
        scale * spp <= SCALE,
        0 <= c <= spp * (SCALE as int),
    ensures
        0 <= fmul_raw(scale, c) <= SCALE,
{
    let s = SCALE as int;
    lemma_fmul_nonneg(scale, c);
    assert(scale * c <= (scale * spp) * s) by (nonlinear_arith)
        requires
            0 <= scale,
            0 <= c <= spp * s,
    {}
    lemma_div_is_ordered(scale * c, (scale * spp) * s, s);
    assert(0 <= scale * spp) by (nonlinear_arith)
        requires
            0 <= scale,
            0 <= spp,
    {}
    lemma_div_by_multiple(scale * spp, s);
}

/// A camera: public configuration and the derived state `initialize`
/// computes from it before a render.
pub struct Camera {
    pub aspect_ratio: Fixed,
    pub image_width: u16,
    pub lookfrom: Point3,
    pub lookat: Point3,
    pub vup: Vec3,
    pub tan_half_vfov: Fixed,
    pub tan_half_defocus: Fixed,
    pub focus_dist: Fixed,
    pub samples_per_pixel: u16,
    pub max_bounces: u16,
    pub start_time: Fixed,
    pub end_time: Fixed,
    pub u: Vec3,
    pub v: Vec3,
    pub w: Vec3,
    pub image_height: u32,
    pub center: Point3,
    pub pixel_samples_scale: Fixed,
    pub pixel00_loc: Point3,
    pub pixel_delta_u: Vec3,
    pub pixel_delta_v: Vec3,
    pub defocus_disk_u: Vec3,
    pub defocus_disk_v: Vec3,
}

impl Camera {
    /// The configuration lies in the documented ranges.
    pub open spec fn config_wf(self) -> bool {
        &&& 1_000 <= self.aspect_ratio.raw <= 100_000
        &&& 1 <= self.image_width <= 10_000
        &&& 1 <= self.samples_per_pixel <= 10_000
        &&& self.max_bounces <= 1_000
        &&& v3_in(self.lookfrom@, 100_000_000)
        &&& v3_in(self.lookat@, 100_000_000)
        &&& v3_in(self.vup@, 100_000_000)
        &&& 0 <= self.tan_half_vfov.raw <= 100_000
        &&& 0 <= self.tan_half_defocus.raw <= 10_000
        &&& 0 <= self.focus_dist.raw <= 1_000_000
        &&& -100_000_000 <= self.start_time.raw
        &&& self.start_time.raw <= self.end_time.raw
        &&& self.end_time.raw <= 100_000_000
    }

    /// Two cameras share the same configuration.
    pub open spec fn same_config(a: Camera, b: Camera) -> bool {
        &&& a.aspect_ratio == b.aspect_ratio
        &&& a.image_width == b.image_width
        &&& a.lookfrom == b.lookfrom
        &&& a.lookat == b.lookat
        &&& a.vup == b.vup
        &&& a.tan_half_vfov == b.tan_half_vfov
        &&& a.tan_half_defocus == b.tan_half_defocus
        &&& a.focus_dist == b.focus_dist
        &&& a.samples_per_pixel == b.samples_per_pixel
        &&& a.max_bounces == b.max_bounces
        &&& a.start_time == b.start_time
        &&& a.end_time == b.end_time
    }

    /// The derived image height: the width over the aspect ratio, at least 1.
    pub open spec fn spec_image_height(self) -> int {
        max_raw(((self.image_width as int) * SCALE) / (self.aspect_ratio.raw as int), 1)
    }

    /// The basis vector pointing from the target to the camera.
    pub open spec fn spec_w(self) -> V3 {
        self.lookfrom@.vsub(self.lookat@).vunit()
    }

    /// The basis vector pointing to the camera's right.
    pub open spec fn spec_u(self) -> V3 {
        self.vup@.vcross(self.spec_w()).vunit()
    }

    /// The basis vector pointing to the camera's up.
    pub open spec fn spec_v(self) -> V3 {
        self.spec_w().vcross(self.spec_u())
    }

    /// The viewport height: twice the half-angle tangent times the focus
    /// distance.
    pub open spec fn spec_viewport_height(self) -> int {
        fmul_raw(2 * self.tan_half_vfov.raw, self.focus_dist.raw as int)
    }

    /// The width-over-height pixel ratio.
    pub open spec fn spec_ratio(self) -> int {
        fdiv_raw((self.image_width as int) * SCALE, self.spec_image_height() * SCALE)
    }

    /// The viewport width.
    pub open spec fn spec_viewport_width(self) -> int {
        fmul_raw(self.spec_viewport_height(), self.spec_ratio())
    }

    /// The viewport's horizontal edge vector.
    pub open spec fn spec_viewport_u(self) -> V3 {
        self.spec_u().vscale(self.spec_viewport_width())
    }

    /// The viewport's vertical edge vector (pointing down the image).
    pub open spec fn spec_viewport_v(self) -> V3 {
        self.spec_v().vneg().vscale(self.spec_viewport_height())
    }

    /// The step from one pixel center to the next within a row.
    pub open spec fn spec_pixel_delta_u(self) -> V3 {
        self.spec_viewport_u().vdivk((self.image_width as int) * SCALE)
    }

    /// The step from one pixel center to the next within a column.
    pub open spec fn spec_pixel_delta_v(self) -> V3 {
        self.spec_viewport_v().vdivk(self.spec_image_height() * SCALE)
    }

    /// The center of the top-left pixel.
    pub open spec fn spec_pixel00(self) -> V3 {
        self.lookfrom@.vsub(self.spec_w().vscale(self.focus_dist.raw as int)).vsub(
            self.spec_viewport_u().vdivk(2 * SCALE),
        ).vsub(self.spec_viewport_v().vdivk(2 * SCALE)).vadd(
            self.spec_pixel_delta_u().vadd(self.spec_pixel_delta_v()).vscale(5_000),
        )
    }

    /// The defocus disk radius.
    pub open spec fn spec_defocus_radius(self) -> int {
        fmul_raw(self.focus_dist.raw as int, self.tan_half_defocus.raw as int)
    }

    /// The averaging factor: one over the sample count.
    pub open spec fn spec_samples_scale(self) -> int {
        fdiv_raw(SCALE as int, (self.samples_per_pixel as int) * SCALE)
    }

    /// The ray direction for pixel `(i, j)` built from jitter draws
    /// `su, sv` inside the pixel footprint: the jittered pixel target minus
    /// the origin, or the straight-down fallback when that direction would
    /// leave `DIR_LIMIT`.
    pub open spec fn jitter_sample_ok(
        self,
        i: int,
        j: int,
        origin: V3,
        dir: V3,
        su: int,
        sv: int,
    ) -> bool {
        &&& i * SCALE - 5_000 <= su < i * SCALE + 5_000
        &&& j * SCALE - 5_000 <= sv < j * SCALE + 5_000
        &&& ({
            let target = self.spec_pixel00().vadd(self.spec_pixel_delta_u().vscale(su)).vadd(
                self.spec_pixel_delta_v().vscale(sv),
            );
            let cand = target.vsub(origin);
            dir == if v3_in(cand, DIR_LIMIT as int) {
                cand
            } else {
                V3 { x: 0, y: 0, z: -(SCALE as int) }
            }
        })
    }

    /// The ray origin built from defocus-disk draws `px, py`: the camera
    /// center displaced along the disk basis, or the center itself when the
    /// displacement would leave the world box.
    pub open spec fn disk_origin_ok(self, origin: V3, px: int, py: int) -> bool {
        &&& -(SCALE as int) <= px <= SCALE
        &&& -(SCALE as int) <= py <= SCALE
        &&& ({
            let cand = self.lookfrom@.vadd(
                self.spec_u().vscale(self.spec_defocus_radius()).vscale(px),
            ).vadd(self.spec_v().vscale(self.spec_defocus_radius()).vscale(py));
            origin == if v3_in(cand, WORLD_LIMIT as int) {
                cand
            } else {
                self.lookfrom@
            }
        })
    }

    /// The derived state equals its specification and lies within the sizes
    /// the sampling arithmetic needs.
    pub open spec fn derived_wf(self) -> bool {
        &&& self.image_height as int == self.spec_image_height()
        &&& 1 <= self.image_height <= 100_000
        &&& self.center@ == self.lookfrom@
        &&& self.w@ == self.spec_w()
        &&& self.u@ == self.spec_u()
        &&& self.v@ == self.spec_v()
        &&& self.pixel00_loc@ == self.spec_pixel00()
        &&& self.pixel_delta_u@ == self.spec_pixel_delta_u()
        &&& self.pixel_delta_v@ == self.spec_pixel_delta_v()
        &&& self.defocus_disk_u@ == self.spec_u().vscale(self.spec_defocus_radius())
        &&& self.defocus_disk_v@ == self.spec_v().vscale(self.spec_defocus_radius())
        &&& self.pixel_samples_scale.raw as int == self.spec_samples_scale()
        &&& 0 <= self.pixel_samples_scale.raw <= SCALE
        &&& v3_in(self.w@, UNIT_LIMIT as int)
        &&& v3_in(self.u@, UNIT_LIMIT as int)
        &&& v3_in(self.v@, 205_000_000)
        &&& v3_in(self.pixel00_loc@, 60_000_000_000_000)
        &&& v3_in(self.pixel_delta_u@, 30_000_000_000_000)
        &&& v3_in(self.pixel_delta_v@, 30_000_000_000_000)
        &&& v3_in(self.defocus_disk_u@, 102_000_000)
        &&& v3_in(self.defocus_disk_v@, 20_500_000_001)
    }

    /// A camera with the renderer's default configuration: a 400-pixel-wide
    /// 16:9 image looking down the negative third axis with a 90-degree
    /// field of view (a half-angle tangent of one), 100 samples per pixel,
    /// 50 bounces, no defocus, focus distance ten and a stationary shutter.
    /// The derived state is zeroed until `initialize` runs.
    pub fn new() -> (r: Camera)
        ensures
            r.config_wf(),
            r.aspect_ratio.raw == 17_778,
            r.image_width == 400,
            r.lookfrom@ == V3::zero(),
            r.lookat@ == (V3 { x: 0, y: 0, z: -(SCALE as int) }),
            r.vup@ == (V3 { x: 0, y: SCALE as int, z: 0 }),
            r.tan_half_vfov.raw == SCALE,
            r.tan_half_defocus.raw == 0,
            r.focus_dist.raw == 10 * SCALE,
            r.samples_per_pixel == 100,
            r.max_bounces == 50,
            r.start_time.raw == 0,
            r.end_time.raw == 0,
            r.image_height == 0,
            r.center@ == V3::zero(),
            r.pixel_samples_scale.raw == 0,
            r.u@ == V3::zero(),
            r.v@ == V3::zero(),
            r.w@ == V3::zero(),
            r.pixel00_loc@ == V3::zero(),
            r.pixel_delta_u@ == V3::zero(),
            r.pixel_delta_v@ == V3::zero(),
            r.defocus_disk_u@ == V3::zero(),
            r.defocus_disk_v@ == V3::zero(),
    {
        Camera {
            aspect_ratio: Fixed::from_raw(17_778),
            image_width: 400,
            lookfrom: Vec3::new(),
            lookat: Vec3::new_with(Fixed::zero(), Fixed::zero(), Fixed::one().neg()),
            vup: Vec3::new_with(Fixed::zero(), Fixed::one(), Fixed::zero()),
            tan_half_vfov: Fixed::one(),
            tan_half_defocus: Fixed::zero(),
            focus_dist: Fixed::from_int(10),
            samples_per_pixel: 100,
            max_bounces: 50,
            start_time: Fixed::zero(),
            end_time: Fixed::zero(),
            u: Vec3::new(),
            v: Vec3::new(),
            w: Vec3::new(),
            image_height: 0,
            center: Vec3::new(),
            pixel_samples_scale: Fixed::zero(),
            pixel00_loc: Vec3::new(),
            pixel_delta_u: Vec3::new(),
            pixel_delta_v: Vec3::new(),
            defocus_disk_u: Vec3::new(),
            defocus_disk_v: Vec3::new(),
        }
    }

    /// Computes the derived state from the configuration.
    /// The derived image height from the width and aspect ratio.
    fn compute_height(&self) -> (h: u32)
        requires
            self.config_wf(),
        ensures
            h as int == self.spec_image_height(),
            1 <= h <= 100_000,
    {
        let width128: i128 = self.image_width as i128;
        let h_raw: i128 = floor_div_exec(width128 * SCALE, self.aspect_ratio.raw);
        proof {
            lemma_div_pos_is_pos(width128 * SCALE, self.aspect_ratio.raw as int);
            lemma_div_is_ordered(width128 * SCALE, 100_000_000, self.aspect_ratio.raw as int);
            lemma_div_is_ordered_by_denominator(100_000_000, 1_000, self.aspect_ratio.raw as int);
        }
        let h_clamped: i128 = if h_raw < 1 {
            1
        } else {
            h_raw
        };
        h_clamped as u32
    }

    /// The averaging factor for one pixel's samples.
    fn compute_samples_scale(&self) -> (r: Fixed)
        requires
            self.config_wf(),
        ensures
            r.raw as int == self.spec_samples_scale(),
            0 <= r.raw <= SCALE,
    {
        let spp = Fixed::from_int(self.samples_per_pixel as i64);
        proof {
            lemma_div_pos_is_pos(SCALE * SCALE, spp.raw as int);
            lemma_div_is_ordered_by_denominator(SCALE * SCALE, SCALE as int, spp.raw as int);
        }
        Fixed::one().div(spp)
    }

    /// The orthonormal-in-intent camera basis.
    fn compute_basis(&self) -> (r: (Vec3, Vec3, Vec3))
        requires
            self.config_wf(),
        ensures
            r.0@ == self.spec_w(),
            r.1@ == self.spec_u(),
            r.2@ == self.spec_v(),
            v3_in(r.0@, UNIT_LIMIT as int),
            v3_in(r.1@, UNIT_LIMIT as int),
            v3_in(r.2@, 205_000_000),
    {
        let w = self.lookfrom.sub(&self.lookat).unit_vector();
        proof {
            lemma_fmul_bound(self.vup@.y, w@.z, 100_000_000, UNIT_LIMIT as int);
            lemma_fmul_bound(self.vup@.z, w@.y, 100_000_000, UNIT_LIMIT as int);
            lemma_fmul_bound(self.vup@.z, w@.x, 100_000_000, UNIT_LIMIT as int);
            lemma_fmul_bound(self.vup@.x, w@.z, 100_000_000, UNIT_LIMIT as int);
            lemma_fmul_bound(self.vup@.x, w@.y, 100_000_000, UNIT_LIMIT as int);
            lemma_fmul_bound(self.vup@.y, w@.x, 100_000_000, UNIT_LIMIT as int);
        }
        let u = self.vup.cross(&w).unit_vector();
        proof {
            lemma_fmul_bound(w@.y, u@.z, UNIT_LIMIT as int, UNIT_LIMIT as int);
            lemma_fmul_bound(w@.z, u@.y, UNIT_LIMIT as int, UNIT_LIMIT as int);
            lemma_fmul_bound(w@.z, u@.x, UNIT_LIMIT as int, UNIT_LIMIT as int);
            lemma_fmul_bound(w@.x, u@.z, UNIT_LIMIT as int, UNIT_LIMIT as int);
            lemma_fmul_bound(w@.x, u@.y, UNIT_LIMIT as int, UNIT_LIMIT as int);
            lemma_fmul_bound(w@.y, u@.x, UNIT_LIMIT as int, UNIT_LIMIT as int);
        }
        let v = w.cross(&u);
        (w, u, v)
    }

    /// The viewport's edge vectors.
    fn compute_viewport_edges(&self, u: &Vec3, v: &Vec3) -> (r: (Vec3, Vec3))
        requires
            self.config_wf(),
            u@ == self.spec_u(),
            v@ == self.spec_v(),
            v3_in(u@, UNIT_LIMIT as int),
            v3_in(v@, 205_000_000),
        ensures
            r.0@ == self.spec_viewport_u(),
            r.1@ == self.spec_viewport_v(),
            v3_in(r.0@, 20_300_000_000_000),
            v3_in(r.1@, 410_000_000_002),
    {
        let viewport_height = self.tan_half_vfov.add(self.tan_half_vfov).mul(self.focus_dist);
        proof {
            lemma_fmul_bound(
                2 * self.tan_half_vfov.raw as int,
                self.focus_dist.raw as int,
                200_000,
                1_000_000,
            );
        }
        let height_fx = Fixed::from_int(self.compute_height() as i64);
        let width_fx = Fixed::from_int(self.image_width as i64);
        proof {
            lemma_fdiv_shrink(width_fx.raw as int, height_fx.raw as int);
        }
        let ratio = width_fx.div(height_fx);
        proof {
            lemma_fmul_bound(viewport_height.raw as int, ratio.raw as int, 20_000_000, 100_000_001);
        }
        let viewport_width = viewport_height.mul(ratio);
        proof {
            lemma_fmul_bound(viewport_width.raw as int, u@.x, 200_020_000_000, UNIT_LIMIT as int);
            lemma_fmul_bound(viewport_width.raw as int, u@.y, 200_020_000_000, UNIT_LIMIT as int);
            lemma_fmul_bound(viewport_width.raw as int, u@.z, 200_020_000_000, UNIT_LIMIT as int);
            lemma_fmul_bound(viewport_height.raw as int, -v@.x, 20_000_000, 205_000_000);
            lemma_fmul_bound(viewport_height.raw as int, -v@.y, 20_000_000, 205_000_000);
            lemma_fmul_bound(viewport_height.raw as int, -v@.z, 20_000_000, 205_000_000);
        }
        (u.scale(viewport_width), v.neg().scale(viewport_height))
    }

    /// The per-pixel steps across and down the viewport.
    fn compute_deltas(&self, viewport_u: &Vec3, viewport_v: &Vec3) -> (r: (Vec3, Vec3))
        requires
            self.config_wf(),
            viewport_u@ == self.spec_viewport_u(),
            viewport_v@ == self.spec_viewport_v(),
            v3_in(viewport_u@, 20_300_000_000_000),
            v3_in(viewport_v@, 410_000_000_002),
        ensures
            r.0@ == self.spec_pixel_delta_u(),
            r.1@ == self.spec_pixel_delta_v(),
            v3_in(r.0@, 30_000_000_000_000),
            v3_in(r.1@, 30_000_000_000_000),
    {
        let height_fx = Fixed::from_int(self.compute_height() as i64);
        let width_fx = Fixed::from_int(self.image_width as i64);
        proof {
            lemma_fdiv_shrink(viewport_u@.x, width_fx.raw as int);
            lemma_fdiv_shrink(viewport_u@.y, width_fx.raw as int);
            lemma_fdiv_shrink(viewport_u@.z, width_fx.raw as int);
            lemma_fdiv_shrink(viewport_v@.x, height_fx.raw as int);
            lemma_fdiv_shrink(viewport_v@.y, height_fx.raw as int);
            lemma_fdiv_shrink(viewport_v@.z, height_fx.raw as int);
        }
        (viewport_u.div_scalar(width_fx), viewport_v.div_scalar(height_fx))
    }

    /// The center of the top-left pixel.
    fn compute_pixel00(
        &self,
        w: &Vec3,
        viewport_u: &Vec3,
        viewport_v: &Vec3,
        delta_u: &Vec3,
        delta_v: &Vec3,
    ) -> (r: Point3)
        requires
            self.config_wf(),
            w@ == self.spec_w(),
            viewport_u@ == self.spec_viewport_u(),
            viewport_v@ == self.spec_viewport_v(),
            delta_u@ == self.spec_pixel_delta_u(),
            delta_v@ == self.spec_pixel_delta_v(),
            v3_in(w@, UNIT_LIMIT as int),
            v3_in(viewport_u@, 20_300_000_000_000),
            v3_in(viewport_v@, 410_000_000_002),
            v3_in(delta_u@, 30_000_000_000_000),
            v3_in(delta_v@, 30_000_000_000_000),
        ensures
            r@ == self.spec_pixel00(),
            v3_in(r@, 60_000_000_000_000),
    {
        proof {
            lemma_fmul_bound(self.focus_dist.raw as int, w@.x, 1_000_000, UNIT_LIMIT as int);
            lemma_fmul_bound(self.focus_dist.raw as int, w@.y, 1_000_000, UNIT_LIMIT as int);
            lemma_fmul_bound(self.focus_dist.raw as int, w@.z, 1_000_000, UNIT_LIMIT as int);
            lemma_fdiv_shrink(viewport_u@.x, 2 * SCALE);
            lemma_fdiv_shrink(viewport_u@.y, 2 * SCALE);
            lemma_fdiv_shrink(viewport_u@.z, 2 * SCALE);
            lemma_fdiv_shrink(viewport_v@.x, 2 * SCALE);
            lemma_fdiv_shrink(viewport_v@.y, 2 * SCALE);
            lemma_fdiv_shrink(viewport_v@.z, 2 * SCALE);
            lemma_fmul_bound(5_000, delta_u@.x + delta_v@.x, 5_000, 60_000_000_000_000);
            lemma_fmul_bound(5_000, delta_u@.y + delta_v@.y, 5_000, 60_000_000_000_000);
            lemma_fmul_bound(5_000, delta_u@.z + delta_v@.z, 5_000, 60_000_000_000_000);
        }
        let two = Fixed::from_int(2);
        let viewport_upper_left = self.lookfrom.sub(&w.scale(self.focus_dist)).sub(
            &viewport_u.div_scalar(two),
        ).sub(&viewport_v.div_scalar(two));
        viewport_upper_left.add(&delta_u.add(delta_v).scale(Fixed::from_raw(5_000)))
    }

    /// The defocus disk's basis vectors.
    fn compute_defocus(&self, u: &Vec3, v: &Vec3) -> (r: (Vec3, Vec3))
        requires
            self.config_wf(),
            u@ == self.spec_u(),
            v@ == self.spec_v(),
            v3_in(u@, UNIT_LIMIT as int),
            v3_in(v@, 205_000_000),
        ensures
            r.0@ == self.spec_u().vscale(self.spec_defocus_radius()),
            r.1@ == self.spec_v().vscale(self.spec_defocus_radius()),
            v3_in(r.0@, 102_000_000),
            v3_in(r.1@, 20_500_000_001),
    {
        proof {
            lemma_fmul_bound(
                self.focus_dist.raw as int,
                self.tan_half_defocus.raw as int,
                1_000_000,
                10_000,
            );
        }
        let defocus_radius = self.focus_dist.mul(self.tan_half_defocus);
        proof {
            lemma_fmul_bound(defocus_radius.raw as int, u@.x, 1_000_000, UNIT_LIMIT as int);
            lemma_fmul_bound(defocus_radius.raw as int, u@.y, 1_000_000, UNIT_LIMIT as int);
            lemma_fmul_bound(defocus_radius.raw as int, u@.z, 1_000_000, UNIT_LIMIT as int);
            lemma_fmul_bound(defocus_radius.raw as int, v@.x, 1_000_000, 205_000_000);
            lemma_fmul_bound(defocus_radius.raw as int, v@.y, 1_000_000, 205_000_000);
            lemma_fmul_bound(defocus_radius.raw as int, v@.z, 1_000_000, 205_000_000);
        }
        (u.scale(defocus_radius), v.scale(defocus_radius))
    }

    /// Computes the derived state from the configuration.
    fn initialize(&mut self)
        requires
            old(self).config_wf(),
        ensures
            Camera::same_config(*final(self), *old(self)),
            final(self).config_wf(),
            final(self).derived_wf(),
    {
        self.image_height = self.compute_height();
        self.center = self.lookfrom;
        self.pixel_samples_scale = self.compute_samples_scale();
        let (w, u, v) = self.compute_basis();
        self.w = w;
        self.u = u;
        self.v = v;
        let (viewport_u, viewport_v) = self.compute_viewport_edges(&u, &v);
        let (delta_u, delta_v) = self.compute_deltas(&viewport_u, &viewport_v);
        self.pixel_delta_u = delta_u;
        self.pixel_delta_v = delta_v;
        self.pixel00_loc = self.compute_pixel00(&w, &viewport_u, &viewport_v, &delta_u, &delta_v);
        let (disk_u, disk_v) = self.compute_defocus(&u, &v);
        self.defocus_disk_u = disk_u;
        self.defocus_disk_v = disk_v;
    }

    /// A uniform jitter inside the pixel footprint.
    fn sample_square(rng: &mut rand::rngs::StdRng) -> (r: Vec3)
        ensures
            -5_000 <= r@.x < 5_000,
            -5_000 <= r@.y < 5_000,
            r@.z == 0,
    {
        let num1 = rng_range(rng, -5_000, 5_000);
        let num2 = rng_range(rng, -5_000, 5_000);
        Vec3 {
            x: Fixed::from_raw(num1 as i128),
            y: Fixed::from_raw(num2 as i128),
            z: Fixed::zero(),
        }
    }

    /// A ray origin sampled from the defocus disk around the camera center.
    fn defocus_disk_samples(&self, rng: &mut rand::rngs::StdRng) -> (r: Point3)
        requires
            self.config_wf(),
            self.derived_wf(),
        ensures
            v3_in(r@, WORLD_LIMIT as int),
            exists|px: int, py: int| self.disk_origin_ok(r@, px, py),
    {
        let p = Vec3::random_in_unit_disk(rng);
        proof {
            lemma_fmul_bound(p@.x, self.defocus_disk_u@.x, SCALE as int, 102_000_000);
            lemma_fmul_bound(p@.x, self.defocus_disk_u@.y, SCALE as int, 102_000_000);
            lemma_fmul_bound(p@.x, self.defocus_disk_u@.z, SCALE as int, 102_000_000);
            lemma_fmul_bound(p@.y, self.defocus_disk_v@.x, SCALE as int, 20_500_000_001);
            lemma_fmul_bound(p@.y, self.defocus_disk_v@.y, SCALE as int, 20_500_000_001);
            lemma_fmul_bound(p@.y, self.defocus_disk_v@.z, SCALE as int, 20_500_000_001);
        }
        let candidate = self.center.add(&self.defocus_disk_u.scale(p.x())).add(
            &self.defocus_disk_v.scale(p.y()),
        );
        let in_world = candidate.x.raw >= -WORLD_LIMIT && candidate.x.raw <= WORLD_LIMIT
            && candidate.y.raw >= -WORLD_LIMIT && candidate.y.raw <= WORLD_LIMIT
            && candidate.z.raw >= -WORLD_LIMIT && candidate.z.raw <= WORLD_LIMIT;
        let r = if in_world {
            candidate
        } else {
            self.center
        };
        proof {
            assert(self.disk_origin_ok(r@, p@.x, p@.y));
        }
        r
    }

    /// The ray for sample of pixel `(i, j)`: its target jittered inside the
    /// pixel footprint, its origin on the defocus disk when defocus is
    /// positive, its time drawn from the shutter window.  A direction that
    /// would leave the renderer's size limits is replaced by a straight-down
    /// fallback, so every returned ray is safe to trace.
    fn get_ray(&self, rng: &mut rand::rngs::StdRng, i: u32, j: u32) -> (r: Ray)
        requires
            self.config_wf(),
            self.derived_wf(),
            i <= 10_000,
            j <= 100_000,
        ensures
            v3_in(r@.origin, WORLD_LIMIT as int),
            v3_in(r@.direction, DIR_LIMIT as int),
            self.start_time.raw <= r@.time <= self.end_time.raw,
            self.tan_half_defocus.raw <= 0 ==> r@.origin == self.center@,
            exists|su: int, sv: int|
                self.jitter_sample_ok(i as int, j as int, r@.origin, r@.direction, su, sv),
            self.tan_half_defocus.raw > 0 ==> exists|px: int, py: int|
                self.disk_origin_ok(r@.origin, px, py),
    {
        let offset = Camera::sample_square(rng);
        let su = Fixed::from_int(i as i64).add(offset.x());
        let sv = Fixed::from_int(j as i64).add(offset.y());
        proof {
            lemma_fmul_bound(su.raw as int, self.pixel_delta_u@.x, 1_000_010_000, 30_000_000_000_000);
            lemma_fmul_bound(su.raw as int, self.pixel_delta_u@.y, 1_000_010_000, 30_000_000_000_000);
            lemma_fmul_bound(su.raw as int, self.pixel_delta_u@.z, 1_000_010_000, 30_000_000_000_000);
            lemma_fmul_bound(sv.raw as int, self.pixel_delta_v@.x, 1_000_010_000, 30_000_000_000_000);
            lemma_fmul_bound(sv.raw as int, self.pixel_delta_v@.y, 1_000_010_000, 30_000_000_000_000);
            lemma_fmul_bound(sv.raw as int, self.pixel_delta_v@.z, 1_000_010_000, 30_000_000_000_000);
        }
        let pixel_sample = self.pixel00_loc.add(&self.pixel_delta_u.scale(su)).add(
            &self.pixel_delta_v.scale(sv),
        );

        let ray_origin = if self.tan_half_defocus.raw <= 0 {
            self.center
        } else {
            self.defocus_disk_samples(rng)
        };
        let ray_direction = pixel_sample.sub(&ray_origin);
        let dir_ok = ray_direction.x.raw >= -DIR_LIMIT && ray_direction.x.raw <= DIR_LIMIT
            && ray_direction.y.raw >= -DIR_LIMIT && ray_direction.y.raw <= DIR_LIMIT
            && ray_direction.z.raw >= -DIR_LIMIT && ray_direction.z.raw <= DIR_LIMIT;
        let direction = if dir_ok {
            ray_direction
        } else {
            Vec3::new_with(Fixed::zero(), Fixed::zero(), Fixed::one().neg())
        };

        let ray_time = if self.start_time.raw < self.end_time.raw {
            let u01 = Fixed::from_raw(rng_range(rng, 0, SCALE as i64) as i128);
            let window = self.end_time.sub(self.start_time);
            proof {
                lemma_fmul_nonneg(u01.raw as int, window.raw as int);
                lemma_fmul_unit_upper(u01.raw as int, window.raw as int);
            }
            self.start_time.add(u01.mul(window))
        } else {
            self.start_time
        };
        let r = Ray::new(ray_origin, direction, ray_time);
        proof {
            assert(self.jitter_sample_ok(
                i as int,
                j as int,
                r@.origin,
                r@.direction,
                su.raw as int,
                sv.raw as int,
            ));
        }
        r
    }

    /// The radiance along a ray with the given bounce budget: black once the
    /// budget is exhausted, the background gradient on a miss, and otherwise
    /// the scattered radiance attenuated by the surface — emitted light is
    /// never added.  A scattered ray that would leave the renderer's size
    /// limits is treated as absorbed.
    pub fn ray_color(
        &self,
        rng: &mut rand::rngs::StdRng,
        ray: &Ray,
        depth: u16,
        world: &HittableList,
    ) -> (r: Color)
        requires
            objects_wf(world.objects@),
            v3_in(ray@.direction, DIR_LIMIT as int),
            v3_in(ray@.origin, WORLD_LIMIT as int),
            -SPAN_LIMIT <= ray@.time <= SPAN_LIMIT,
        ensures
            color_unit(r@),
            depth == 0 ==> r@ == V3::zero(),
            depth > 0 && list_hit_model(world.objects@, ray@, T_EPS as int, T_FAR as int)
                is None ==> r@ == background_spec(ray@.direction),
            depth > 0 ==> (list_hit_model(world.objects@, ray@, T_EPS as int, T_FAR as int)
                matches Some(m) ==> {
                &&& (m.mat matches MaterialKind::Emissive(_) ==> r@ == V3::zero())
                &&& (m.mat matches MaterialKind::Lambertian(lm) ==> r@.x <= lm.albedo@.x
                    && r@.y <= lm.albedo@.y && r@.z <= lm.albedo@.z)
                &&& (m.mat matches MaterialKind::Metallic(mm) ==> r@.x <= mm.albedo@.x
                    && r@.y <= mm.albedo@.y && r@.z <= mm.albedo@.z)
            }),
        decreases depth,
    {
        if depth == 0 {
            return Vec3::new();
        }
        proof {
            lemma_list_hit_in_range(world.objects@, ray@, T_EPS as int, T_FAR as int);
        }
        match world.hits(ray, Span::new(Fixed::from_raw(T_EPS), Fixed::from_raw(T_FAR))) {
            Some(hit_record) => {
                match hit_record.material.scatter(rng, ray, &hit_record) {
                    Some((attenuation, scattered)) => {
                        proof {
                            lemma_scatter_common(
                                *hit_record.material,
                                ray@,
                                hit_record@,
                                attenuation,
                                scattered,
                            );
                        }
                        let sc_ok = scattered.direction.x.raw >= -DIR_LIMIT
                            && scattered.direction.x.raw <= DIR_LIMIT
                            && scattered.direction.y.raw >= -DIR_LIMIT
                            && scattered.direction.y.raw <= DIR_LIMIT
                            && scattered.direction.z.raw >= -DIR_LIMIT
                            && scattered.direction.z.raw <= DIR_LIMIT;
                        if sc_ok {
                            let color = self.ray_color(rng, &scattered, depth - 1, world);
                            proof {
                                lemma_fmul_nonneg(color@.x, attenuation@.x);
                                lemma_fmul_nonneg(color@.y, attenuation@.y);
                                lemma_fmul_nonneg(color@.z, attenuation@.z);
                                lemma_fmul_unit_upper(color@.x, attenuation@.x);
                                lemma_fmul_unit_upper(color@.y, attenuation@.y);
                                lemma_fmul_unit_upper(color@.z, attenuation@.z);
                            }
                            color.mul_comp(&attenuation)
                        } else {
                            Vec3::new()
                        }
                    },
                    None => Vec3::new(),
                }
            },
            None => background_color(ray.direction()),
        }
    }

    /// Renders the scene: for every pixel, top row first, the average of
    /// `samples_per_pixel` radiance estimates, converted to eight-bit
    /// channels.  The image holds exactly `width * height` pixels.
    pub fn render(
        &mut self,
        rng: &mut rand::rngs::StdRng,
        world: &HittableList,
    ) -> (r: Image)
        requires
            old(self).config_wf(),
            objects_wf(world.objects@),
        ensures
            Camera::same_config(*final(self), *old(self)),
            r.width == old(self).image_width,
            r.height as int == old(self).spec_image_height(),
            r.pixels@.len() == r.width * r.height,
            image_pixels_ok(r.pixels@),
    {
        self.initialize();
        let width: u32 = self.image_width as u32;
        let height: u32 = self.image_height;
        let mut pixels: Vec<(u8, u8, u8)> = Vec::new();
        let ghost mut shades: Seq<V3> = Seq::empty();
        let mut j: u32 = 0;
        while j < height
            invariant
                self.config_wf(),
                self.derived_wf(),
                objects_wf(world.objects@),
                width == self.image_width as u32,
                height == self.image_height,
                j <= height,
                pixels@.len() == j * width,
                shades.len() == pixels@.len(),
                forall|k: int|
                    0 <= k < pixels@.len() ==> pixel_ok(#[trigger] pixels@[k], shades[k]),
            decreases height - j,
        {
            let mut i: u32 = 0;
            while i < width
                invariant
                    self.config_wf(),
                    self.derived_wf(),
                    objects_wf(world.objects@),
                    width == self.image_width as u32,
                    height == self.image_height,
                    j < height,
                    i <= width,
                    pixels@.len() == j * width + i,
                    shades.len() == pixels@.len(),
                    forall|k: int|
                        0 <= k < pixels@.len() ==> pixel_ok(#[trigger] pixels@[k], shades[k]),
                decreases width - i,
            {
                let mut pixel_color = Vec3::new();
                let spp = self.samples_per_pixel;
                let mut s: u16 = 0;
                while s < spp
                    invariant
                        self.config_wf(),
                        self.derived_wf(),
                        objects_wf(world.objects@),
                        spp == self.samples_per_pixel,
                        i <= 10_000,
                        j <= 100_000,
                        s <= spp,
                        0 <= pixel_color@.x <= s * SCALE,
                        0 <= pixel_color@.y <= s * SCALE,
                        0 <= pixel_color@.z <= s * SCALE,
                    decreases spp - s,
                {
                    let ray = self.get_ray(rng, i, j);
                    let sample = self.ray_color(rng, &ray, self.max_bounces, world);
                    pixel_color = pixel_color.add(&sample);
                    s = s + 1;
                }
                proof {
                    lemma_fmul_nonneg(self.pixel_samples_scale.raw as int, pixel_color@.x);
                    lemma_fmul_nonneg(self.pixel_samples_scale.raw as int, pixel_color@.y);
                    lemma_fmul_nonneg(self.pixel_samples_scale.raw as int, pixel_color@.z);
                    lemma_fmul_bound(
                        self.pixel_samples_scale.raw as int,
                        pixel_color@.x,
                        SCALE as int,
                        100_000_000,
                    );
                    lemma_fmul_bound(
                        self.pixel_samples_scale.raw as int,
                        pixel_color@.y,
                        SCALE as int,
                        100_000_000,
                    );
                    lemma_fmul_bound(
                        self.pixel_samples_scale.raw as int,
                        pixel_color@.z,
                        SCALE as int,
                        100_000_000,
                    );
                }
                proof {
                    lemma_scale_times_samples(spp as int);
                    lemma_average_in_unit(
                        self.pixel_samples_scale.raw as int,
                        pixel_color@.x,
                        spp as int,
                    );
                    lemma_average_in_unit(
                        self.pixel_samples_scale.raw as int,
                        pixel_color@.y,
                        spp as int,
                    );
                    lemma_average_in_unit(
                        self.pixel_samples_scale.raw as int,
                        pixel_color@.z,
                        spp as int,
                    );
                }
                let averaged = pixel_color.scale(self.pixel_samples_scale);
                let rgb = averaged.to_rgb8();
                let ghost prev = pixels@;
                pixels.push(rgb);
                proof {
                    shades = shades.push(averaged@);
                    assert(pixel_ok(rgb, averaged@));
                    assert forall|k: int| 0 <= k < pixels@.len() implies pixel_ok(
                        #[trigger] pixels@[k],
                        shades[k],
                    ) by {
                        if k < prev.len() {
                            assert(pixels@[k] == prev[k]);
                        } else {
                            assert(pixels@[k] == rgb);
                        }
                    }
                }
                i = i + 1;
            }
            proof {
                assert((j + 1) * width == j * width + width) by (nonlinear_arith) {}
            }
            j = j + 1;
        }
        proof {
            assert(height * width == width * height) by (nonlinear_arith) {}
        }
        let img = Image { width, height, pixels };
        proof {
            lemma_pixels_ok_from_witnesses(img.pixels@, shades);
        }
        img
    }
}

} // verus!
