use raytracer::fixed::Fixed;
use raytracer::hittable::Hittable;
use raytracer::hittable_list::HittableList;
use raytracer::material::{LambertianMaterial, MaterialKind, Metal};
use raytracer::ray::Ray;
use raytracer::sphere::Sphere;
use raytracer::utils::Span;
use raytracer::vec3::Vec3;

fn f(units: i64) -> Fixed {
    Fixed::from_int(units)
}

fn raw(r: i128) -> Fixed {
    Fixed::from_raw(r)
}

fn v(x: i128, y: i128, z: i128) -> Vec3 {
    Vec3::new_with(raw(x), raw(y), raw(z))
}

fn gray() -> MaterialKind {
    MaterialKind::Lambertian(LambertianMaterial::new(&v(5_000, 5_000, 5_000)))
}

fn shiny() -> MaterialKind {
    MaterialKind::Metallic(Metal::new(&v(8_000, 8_000, 8_000), Fixed::zero()))
}

fn unit_sphere_at(z_units: i64, radius: Fixed, mat: MaterialKind) -> Sphere {
    let c = Vec3::new_with(Fixed::zero(), Fixed::zero(), f(z_units));
    Sphere::new(&c, &c, radius, Fixed::zero(), Fixed::zero(), mat)
}

#[test]
fn straight_ray_hits_unit_half_sphere() {
    let s = unit_sphere_at(-1, raw(5_000), gray());
    let ray = Ray::new(v(0, 0, 0), v(0, 0, -10_000), Fixed::zero());
    let rec = s.hits(&ray, Span::new(raw(10), raw(10_000_000))).expect("must hit");
    assert_eq!(rec.t.raw, 5_000);
    assert_eq!((rec.p.x().raw, rec.p.y().raw, rec.p.z().raw), (0, 0, -5_000));
    assert_eq!((rec.normal.x().raw, rec.normal.y().raw, rec.normal.z().raw), (0, 0, 10_000));
    assert!(rec.front_face);
}

#[test]
fn small_sphere_beyond_interval_is_missed() {
    let s = unit_sphere_at(-1, raw(1_000), gray());
    let ray = Ray::new(v(0, 0, 0), v(0, 0, -10_000), Fixed::zero());
    let rec = s.hits(&ray, Span::new(raw(0), raw(2_000)));
    assert!(rec.is_none());
}

#[test]
fn interval_bounds_are_open() {
    let s = unit_sphere_at(-1, raw(5_000), gray());
    let ray = Ray::new(v(0, 0, 0), v(0, 0, -10_000), Fixed::zero());
    // The near root lies exactly at the upper bound: excluded, and the far
    // root lies beyond it.
    assert!(s.hits(&ray, Span::new(raw(10), raw(5_000))).is_none());
    // One raw unit more admits the near root.
    let rec = s.hits(&ray, Span::new(raw(10), raw(5_001))).expect("must hit");
    assert_eq!(rec.t.raw, 5_000);
    // The near root exactly at the lower bound: excluded, far root taken.
    let rec = s.hits(&ray, Span::new(raw(5_000), raw(100_000))).expect("must hit");
    assert_eq!(rec.t.raw, 15_000);
}

#[test]
fn nearest_of_two_overlapping_spheres_wins_either_order() {
    let near = unit_sphere_at(-1, raw(5_000), gray());
    let far = unit_sphere_at(-2, raw(5_000), shiny());
    let ray = Ray::new(v(0, 0, 0), v(0, 0, -10_000), Fixed::zero());
    let span = Span::new(raw(10), raw(10_000_000));

    let mut world_a = HittableList::new();
    world_a.add(near);
    world_a.add(far);
    let rec_a = world_a.hits(&ray, span).expect("must hit");

    let mut world_b = HittableList::new();
    world_b.add(far);
    world_b.add(near);
    let rec_b = world_b.hits(&ray, span).expect("must hit");

    assert_eq!(rec_a.t.raw, 5_000);
    assert_eq!(rec_b.t.raw, 5_000);
    assert_eq!(rec_a.p, rec_b.p);
    assert_eq!(rec_a.normal, rec_b.normal);
    assert_eq!(rec_a.front_face, rec_b.front_face);
    assert_eq!(rec_a.material, rec_b.material);
}

#[test]
fn zero_radius_sphere_never_hits() {
    let s = unit_sphere_at(-1, Fixed::zero(), gray());
    let through_center = Ray::new(v(0, 0, 0), v(0, 0, -10_000), Fixed::zero());
    assert!(s.hits(&through_center, Span::new(raw(10), raw(10_000_000))).is_none());
    // A negative radius is clamped to zero at construction.
    let clamped = unit_sphere_at(-1, raw(-7_000), gray());
    assert_eq!(clamped.radius.raw, 0);
    assert!(clamped.hits(&through_center, Span::new(raw(10), raw(10_000_000))).is_none());
}

#[test]
fn ray_inside_sphere_hits_back_face() {
    let s = unit_sphere_at(0, f(1), gray());
    let ray = Ray::new(v(0, 0, 0), v(0, 0, -10_000), Fixed::zero());
    let rec = s.hits(&ray, Span::new(raw(10), raw(10_000_000))).expect("must hit");
    assert_eq!(rec.t.raw, 10_000);
    assert!(!rec.front_face);
    // The normal is flipped to oppose the ray: it points up the axis.
    assert_eq!(rec.normal.z().raw, 10_000);
}

#[test]
fn moving_sphere_is_sampled_at_ray_time() {
    let c0 = v(0, 0, -10_000);
    let c1 = v(0, 0, -30_000);
    let s = Sphere::new(&c0, &c1, raw(5_000), Fixed::zero(), f(1), gray());
    // Halfway through the window the center sits at z = -2.
    let ray = Ray::new(v(0, 0, 0), v(0, 0, -10_000), raw(5_000));
    let rec = s.hits(&ray, Span::new(raw(10), raw(10_000_000))).expect("must hit");
    assert_eq!(rec.t.raw, 15_000);
    // At the window's end the center sits at z = -3.
    let ray_end = Ray::new(v(0, 0, 0), v(0, 0, -10_000), f(1));
    let rec_end = s.hits(&ray_end, Span::new(raw(10), raw(10_000_000))).expect("must hit");
    assert_eq!(rec_end.t.raw, 25_000);
    // Outside the window the center is clamped to the start position.
    let ray_late = Ray::new(v(0, 0, 0), v(0, 0, -10_000), f(2));
    let rec_late = s.hits(&ray_late, Span::new(raw(10), raw(10_000_000))).expect("must hit");
    assert_eq!(rec_late.t.raw, 5_000);
}

#[test]
fn empty_scene_reports_no_hit() {
    let world = HittableList::new();
    let ray = Ray::new(v(0, 0, 0), v(0, 0, -10_000), Fixed::zero());
    assert!(world.hits(&ray, Span::new(raw(10), raw(10_000_000))).is_none());
}

#[test]
fn traversal_keeps_only_the_closest_of_three() {
    let mut world = HittableList::new();
    world.add(unit_sphere_at(-4, raw(5_000), gray()));
    world.add(unit_sphere_at(-2, raw(5_000), gray()));
    world.add(unit_sphere_at(-3, raw(5_000), shiny()));
    let ray = Ray::new(v(0, 0, 0), v(0, 0, -10_000), Fixed::zero());
    let rec = world.hits(&ray, Span::new(raw(10), raw(10_000_000))).expect("must hit");
    assert_eq!(rec.t.raw, 15_000);
    assert_eq!(rec.material, &gray());
}

#[test]
fn cleared_scene_reports_no_hit() {
    let mut world = HittableList::new();
    world.add(unit_sphere_at(-1, raw(5_000), gray()));
    world.clear();
    let ray = Ray::new(v(0, 0, 0), v(0, 0, -10_000), Fixed::zero());
    assert!(world.hits(&ray, Span::new(raw(10), raw(10_000_000))).is_none());
}
