use rand::SeedableRng;
use raytracer::fixed::Fixed;
use raytracer::hittable::HitRecord;
use raytracer::material::{
    Dielectric, LambertianMaterial, LightDiffuser, Material, MaterialKind, Metal, Smoke,
};
use raytracer::ray::Ray;
use raytracer::vec3::Vec3;

fn raw(r: i128) -> Fixed {
    Fixed::from_raw(r)
}

fn v(x: i128, y: i128, z: i128) -> Vec3 {
    Vec3::new_with(raw(x), raw(y), raw(z))
}

fn rng_with(seed: u64) -> rand::rngs::StdRng {
    rand::rngs::StdRng::seed_from_u64(seed)
}

fn hit_at_origin_facing_up(mat: &MaterialKind) -> HitRecord<'_> {
    HitRecord {
        p: v(0, 0, -5_000),
        normal: v(0, 0, 10_000),
        t: raw(5_000),
        front_face: true,
        material: mat,
    }
}

#[test]
fn lambertian_attenuates_by_albedo_from_hit_point() {
    let albedo = v(1_000, 2_000, 5_000);
    let mk = MaterialKind::Lambertian(LambertianMaterial::new(&albedo));
    let rec = hit_at_origin_facing_up(&mk);
    let ray = Ray::new(v(0, 0, 0), v(0, 0, -10_000), Fixed::zero());
    for seed in 0..20u64 {
        let mut rng = rng_with(seed);
        let (att, scattered) = mk.scatter(&mut rng, &ray, &rec).expect("diffuse always scatters");
        assert_eq!(att, albedo);
        assert_eq!(scattered.origin, rec.p);
        assert_eq!(scattered.time, ray.time);
    }
}

#[test]
fn metal_with_zero_fuzz_mirrors_exactly() {
    let albedo = v(8_000, 6_000, 2_000);
    let mk = MaterialKind::Metallic(Metal::new(&albedo, Fixed::zero()));
    let rec = hit_at_origin_facing_up(&mk);
    // An oblique incoming direction; the mirror image flips its vertical
    // component.
    let incoming = v(10_000, 0, -10_000);
    let ray = Ray::new(v(10_000, 0, 10_000), incoming, Fixed::zero());
    let expected = incoming.reflect(&rec.normal).unit_vector();
    for seed in 0..20u64 {
        let mut rng = rng_with(seed);
        let (att, scattered) = mk.scatter(&mut rng, &ray, &rec).expect("metal always scatters");
        assert_eq!(att, albedo);
        assert_eq!(scattered.origin, rec.p);
        assert_eq!(scattered.direction, expected);
    }
}

#[test]
fn metal_fuzz_is_clamped_into_unit_range() {
    let albedo = v(8_000, 8_000, 8_000);
    let hot = Metal::new(&albedo, raw(17_000));
    assert_eq!(hot.fuzz.raw, 10_000);
    let cold = Metal::new(&albedo, raw(-5_000));
    assert_eq!(cold.fuzz.raw, 0);
}

#[test]
fn schlick_reflectance_at_full_cosine_is_r0() {
    // eta = 1.5: r0 = ((1 - 1.5) / (1 + 1.5))^2 = 0.04.
    let r = Dielectric::reflectance(Fixed::one(), raw(15_000));
    assert_eq!(r.raw, 400);
    // eta = 2: t = (1 - 2) / 3 floors to -0.3334, and r0 = t * t floors
    // to 0.1111.
    let r = Dielectric::reflectance(Fixed::one(), raw(20_000));
    assert_eq!(r.raw, 1_111);
}

#[test]
fn dielectric_with_unit_index_always_refracts_straight_through() {
    // With an index of one the base reflectance is zero and normal incidence
    // never reflects: the ray passes straight through, every draw.
    let mk = MaterialKind::Refractive(Dielectric::new(Fixed::one()));
    let rec = hit_at_origin_facing_up(&mk);
    let ray = Ray::new(v(0, 0, 0), v(0, 0, -10_000), Fixed::zero());
    for seed in 0..20u64 {
        let mut rng = rng_with(seed);
        let (att, scattered) = mk.scatter(&mut rng, &ray, &rec).expect("dielectric scatters");
        assert_eq!((att.x().raw, att.y().raw, att.z().raw), (10_000, 10_000, 10_000));
        assert_eq!(scattered.direction, v(0, 0, -10_000));
    }
}

#[test]
fn dielectric_scatters_to_mirror_or_refraction_only() {
    let mk = MaterialKind::Refractive(Dielectric::new(raw(15_000)));
    let rec = hit_at_origin_facing_up(&mk);
    let incoming = v(10_000, 0, -10_000);
    let ray = Ray::new(v(10_000, 0, 10_000), incoming, Fixed::zero());
    let unit_in = incoming.unit_vector();
    let mirror = unit_in.reflect(&rec.normal);
    // Entering from outside, the ratio is 1 / 1.5.
    let refracted = unit_in.refract(&rec.normal, Fixed::one().div(raw(15_000)));
    let mut saw_refraction = false;
    for seed in 0..40u64 {
        let mut rng = rng_with(seed);
        let (_, scattered) = mk.scatter(&mut rng, &ray, &rec).expect("dielectric scatters");
        assert!(scattered.direction == mirror || scattered.direction == refracted);
        if scattered.direction == refracted {
            saw_refraction = true;
        }
    }
    assert!(saw_refraction);
}

#[test]
fn emitter_absorbs_and_radiates_its_color() {
    let glow = v(9_000, 8_000, 1_000);
    let mk = MaterialKind::Emissive(LightDiffuser::new(&glow));
    let rec = hit_at_origin_facing_up(&mk);
    let ray = Ray::new(v(0, 0, 0), v(0, 0, -10_000), Fixed::zero());
    let mut rng = rng_with(1);
    assert!(mk.scatter(&mut rng, &ray, &rec).is_none());
    assert_eq!(mk.emit(&ray, &rec), glow);
    // Non-emissive materials radiate black.
    let dull = MaterialKind::Lambertian(LambertianMaterial::new(&glow));
    let rec2 = hit_at_origin_facing_up(&dull);
    assert_eq!(dull.emit(&ray, &rec2), v(0, 0, 0));
}

#[test]
fn thin_smoke_always_bounces_diffusely() {
    let tint = v(3_000, 3_000, 3_000);
    // The draw lies in [0.1, 0.8); a density below 0.1 is always exceeded.
    let mk = MaterialKind::Volumetric(Smoke::new(&tint, raw(500)));
    let rec = hit_at_origin_facing_up(&mk);
    let ray = Ray::new(v(0, 0, 0), v(0, 0, -10_000), Fixed::zero());
    for seed in 0..20u64 {
        let mut rng = rng_with(seed);
        let (att, scattered) = mk.scatter(&mut rng, &ray, &rec).expect("smoke scatters");
        assert_eq!(att, tint);
        assert_eq!(scattered.origin, rec.p);
    }
}

#[test]
fn dense_smoke_always_passes_straight_through() {
    let tint = v(3_000, 3_000, 3_000);
    // A density at or above the draw range's top is never exceeded.
    let mk = MaterialKind::Volumetric(Smoke::new(&tint, raw(9_000)));
    let rec = hit_at_origin_facing_up(&mk);
    let ray = Ray::new(v(0, 0, 0), v(0, 0, -10_000), Fixed::zero());
    for seed in 0..20u64 {
        let mut rng = rng_with(seed);
        let (att, scattered) = mk.scatter(&mut rng, &ray, &rec).expect("smoke scatters");
        assert_eq!((att.x().raw, att.y().raw, att.z().raw), (10_000, 10_000, 10_000));
        assert_eq!(scattered.direction, ray.direction);
        assert_eq!(scattered.origin, rec.p);
    }
}

#[test]
fn fuzzed_metal_keeps_directions_below_the_surface() {
    // A fully fuzzed metal does not reject scattered directions that end up
    // on the inside of the surface: the energy leak is kept, not fixed.
    let albedo = v(8_000, 8_000, 8_000);
    let mk = MaterialKind::Metallic(Metal::new(&albedo, Fixed::one()));
    let rec = hit_at_origin_facing_up(&mk);
    // A grazing incoming direction, so the mirror direction hugs the surface
    // and the unit fuzz often pushes the result below it.
    let incoming = v(10_000, 0, -500);
    let ray = Ray::new(v(-10_000, 0, 500), incoming, Fixed::zero());
    let mut saw_leak = false;
    for seed in 0..100u64 {
        let mut rng = rng_with(seed);
        let (_, scattered) = mk.scatter(&mut rng, &ray, &rec).expect("metal always scatters");
        if scattered.direction.dot(&rec.normal).raw < 0 {
            saw_leak = true;
        }
    }
    assert!(saw_leak, "a below-surface direction must be kept, not rejected");
}
