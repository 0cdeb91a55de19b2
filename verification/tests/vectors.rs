use rand::SeedableRng;
use raytracer::color::Color;
use raytracer::fixed::Fixed;
use raytracer::ray::Ray;
use raytracer::utils::{degrees_to_radians, Interval, Span};
use raytracer::vec3::Vec3;

fn raw(r: i128) -> Fixed {
    Fixed::from_raw(r)
}

fn v(x: i128, y: i128, z: i128) -> Vec3 {
    Vec3::new_with(raw(x), raw(y), raw(z))
}

fn rng_with(seed: u64) -> rand::rngs::StdRng {
    rand::rngs::StdRng::seed_from_u64(seed)
}

#[test]
fn fixed_arithmetic_rounds_toward_negative_infinity() {
    assert_eq!(Fixed::from_int(3).add(Fixed::from_int(4)).raw, 70_000);
    assert_eq!(raw(15_000).mul(raw(15_000)).raw, 22_500);
    // -0.0001 * 0.5 = -0.00005, floored to -0.0001.
    assert_eq!(raw(-1).mul(raw(5_000)).raw, -1);
    assert_eq!(Fixed::from_int(1).div(Fixed::from_int(3)).raw, 3_333);
    assert_eq!(Fixed::from_int(-1).div(Fixed::from_int(3)).raw, -3_334);
    assert_eq!(Fixed::from_int(2).sqrt().raw, 14_142);
    assert_eq!(raw(2_500).sqrt().raw, 5_000);
}

#[test]
fn vector_products_match_hand_computation() {
    let a = v(10_000, 20_000, 30_000);
    let b = v(-10_000, 5_000, 20_000);
    assert_eq!(a.dot(&b).raw, -10_000 + 10_000 + 60_000);
    let c = a.cross(&b);
    // (2*2 - 3*0.5, 3*(-1) - 1*2, 1*0.5 - 2*(-1))
    assert_eq!((c.x().raw, c.y().raw, c.z().raw), (25_000, -50_000, 25_000));
    let s = a.len_squared();
    assert_eq!(s.raw, 10_000 + 40_000 + 90_000);
}

#[test]
fn unit_vector_of_three_four_triangle() {
    let a = v(30_000, 0, 40_000);
    assert_eq!(a.len().raw, 50_000);
    let u = a.unit_vector();
    assert_eq!((u.x().raw, u.y().raw, u.z().raw), (6_000, 0, 8_000));
    // The zero vector normalizes to itself rather than dividing by zero.
    let z = v(0, 0, 0).unit_vector();
    assert_eq!((z.x().raw, z.y().raw, z.z().raw), (0, 0, 0));
}

#[test]
fn reflect_flips_the_normal_component() {
    let incoming = v(10_000, -10_000, 0);
    let n = v(0, 10_000, 0);
    let r = incoming.reflect(&n);
    assert_eq!((r.x().raw, r.y().raw, r.z().raw), (10_000, 10_000, 0));
}

#[test]
fn refract_at_normal_incidence_passes_straight() {
    let incoming = v(0, 0, -10_000);
    let n = v(0, 0, 10_000);
    let r = incoming.refract(&n, raw(6_666));
    assert_eq!((r.x().raw, r.y().raw, r.z().raw), (0, 0, -10_000));
}

#[test]
fn near_zero_uses_component_magnitudes() {
    assert!(v(50, -60, 0).is_near_zero());
    assert!(!v(200, 0, 0).is_near_zero());
    assert!(!v(0, -200, 0).is_near_zero());
}

#[test]
fn ray_evaluates_points_along_itself() {
    let ray = Ray::new(v(10_000, 20_000, 30_000), v(10_000, 0, 0), Fixed::zero());
    let p = ray.at(raw(25_000));
    assert_eq!((p.x().raw, p.y().raw, p.z().raw), (35_000, 20_000, 30_000));
    assert_eq!(ray.origin().x().raw, 10_000);
    assert_eq!(ray.direction().x().raw, 10_000);
    assert_eq!(ray.time().raw, 0);
}

#[test]
fn random_draws_stay_in_their_ranges() {
    let mut rng = rng_with(7);
    let mut seen_distinct = false;
    let mut first: Option<i128> = None;
    for _ in 0..50 {
        let p = Vec3::random_with(&mut rng, raw(2_000), raw(3_000));
        for c in [p.x().raw, p.y().raw, p.z().raw] {
            assert!((2_000..3_000).contains(&c));
        }
        match first {
            None => first = Some(p.x().raw),
            Some(f) => {
                if f != p.x().raw {
                    seen_distinct = true;
                }
            },
        }
        let q = Vec3::random(&mut rng);
        for c in [q.x().raw, q.y().raw, q.z().raw] {
            assert!((0..10_000).contains(&c));
        }
    }
    assert!(seen_distinct, "a uniform draw must vary across calls");
}

#[test]
fn random_unit_vectors_are_near_unit_length() {
    let mut rng = rng_with(21);
    for _ in 0..50 {
        let u = Vec3::random_unit_vector(&mut rng);
        let lsq = u.len_squared().raw;
        // Close to one up to fixed-point rounding of the normalization.
        assert!((9_000..=10_050).contains(&lsq), "squared length was {lsq}");
    }
}

#[test]
fn random_disk_samples_lie_in_the_plane() {
    let mut rng = rng_with(22);
    for _ in 0..50 {
        let p = Vec3::random_in_unit_disk(&mut rng);
        assert_eq!(p.z().raw, 0);
        let lsq = p.len_squared().raw;
        assert!((2_500..10_000).contains(&lsq));
    }
}

#[test]
fn hemisphere_samples_do_not_oppose_the_normal() {
    let mut rng = rng_with(23);
    let n = v(0, 0, 10_000);
    for _ in 0..50 {
        let u = Vec3::random_on_hemisphere(&mut rng, &n);
        assert!(u.dot(&n).raw >= -3);
    }
}

#[test]
fn interval_surrounds_strictly_and_clamps() {
    let span = Span::new(raw(1_000), raw(2_000));
    assert!(span.surrounds(raw(1_500)));
    assert!(!span.surrounds(raw(1_000)));
    assert!(!span.surrounds(raw(2_000)));
    assert_eq!(span.make_fit(raw(500)).raw, 1_000);
    assert_eq!(span.make_fit(raw(2_500)).raw, 2_000);
    assert_eq!(span.make_fit(raw(1_750)).raw, 1_750);
}

#[test]
fn degrees_convert_through_pi() {
    assert_eq!(degrees_to_radians(Fixed::from_int(180)).raw, 31_416);
    assert_eq!(degrees_to_radians(Fixed::from_int(90)).raw, 15_708);
    assert_eq!(degrees_to_radians(Fixed::zero()).raw, 0);
}

#[test]
fn color_output_applies_gamma_clamp_and_scale() {
    let c: Color = v(2_500, 10_000, 0);
    let (r, g, b) = c.to_rgb8();
    // sqrt(0.25) = 0.5 -> 127; 1.0 clamps to 0.999 -> 254; 0 stays 0.
    assert_eq!((r, g, b), (127, 254, 0));
    let over: Color = v(40_000, -5_000, 100);
    let (r, g, b) = over.to_rgb8();
    assert_eq!((r, g, b), (254, 0, 25));
}

#[test]
fn sphere_samples_stay_in_the_shell() {
    let mut rng = rng_with(31);
    for _ in 0..50 {
        let p = Vec3::random_in_unit_sphere(&mut rng);
        let lsq = p.len_squared().raw;
        assert!((2_500..10_000).contains(&lsq));
        for c in [p.x().raw, p.y().raw, p.z().raw] {
            assert!(c.abs() <= 10_000);
        }
    }
}
