use rand::SeedableRng;
use raytracer::camera::{background_color, Camera};
use raytracer::fixed::Fixed;
use raytracer::hittable_list::HittableList;
use raytracer::material::{LambertianMaterial, MaterialKind};
use raytracer::ray::Ray;
use raytracer::sphere::Sphere;
use raytracer::vec3::Vec3;

fn raw(r: i128) -> Fixed {
    Fixed::from_raw(r)
}

fn v(x: i128, y: i128, z: i128) -> Vec3 {
    Vec3::new_with(raw(x), raw(y), raw(z))
}

fn rng_with(seed: u64) -> rand::rngs::StdRng {
    rand::rngs::StdRng::seed_from_u64(seed)
}

fn ground_scene() -> HittableList {
    let mut world = HittableList::new();
    let c = v(0, -10_000_000, 0);
    world.add(Sphere::new(
        &c,
        &c,
        raw(9_995_000),
        Fixed::zero(),
        Fixed::zero(),
        MaterialKind::Lambertian(LambertianMaterial::new(&v(5_000, 5_000, 5_000))),
    ));
    world
}

fn small_camera() -> Camera {
    let mut camera = Camera::new();
    camera.aspect_ratio = Fixed::one();
    camera.image_width = 8;
    camera.samples_per_pixel = 1;
    camera.max_bounces = 6;
    camera.lookfrom = v(0, 0, 0);
    camera.lookat = v(0, 0, -10_000);
    camera.vup = v(0, 10_000, 0);
    camera.tan_half_vfov = Fixed::one();
    camera.tan_half_defocus = Fixed::zero();
    camera.focus_dist = Fixed::from_int(10);
    camera
}

fn ppm_of(image: &raytracer::camera::Image) -> String {
    let mut out = String::new();
    out.push_str("P3\n");
    out.push_str(&format!("{} {}\n", image.width, image.height));
    out.push_str("255\n");
    for (r, g, b) in image.pixels.iter() {
        out.push_str(&format!("{} {} {}\n", r, g, b));
    }
    out
}

#[test]
fn background_up_is_zenith_blue_and_down_is_white() {
    let up = background_color(&v(0, 10_000, 0));
    assert_eq!((up.x().raw, up.y().raw, up.z().raw), (5_000, 7_000, 10_000));
    let down = background_color(&v(0, -10_000, 0));
    assert_eq!((down.x().raw, down.y().raw, down.z().raw), (10_000, 10_000, 10_000));
}

#[test]
fn exhausted_bounce_budget_returns_black() {
    let camera = small_camera();
    let world = ground_scene();
    for seed in 0..8u64 {
        let mut rng = rng_with(seed);
        let ray = Ray::new(v(0, 0, 0), v(0, -9_000, -10_000), Fixed::zero());
        let c = camera.ray_color(&mut rng, &ray, 0, &world);
        assert_eq!((c.x().raw, c.y().raw, c.z().raw), (0, 0, 0));
    }
}

#[test]
fn miss_returns_background_gradient() {
    let camera = small_camera();
    let world = ground_scene();
    let mut rng = rng_with(3);
    let ray = Ray::new(v(0, 0, 0), v(0, 10_000, 0), Fixed::zero());
    let c = camera.ray_color(&mut rng, &ray, 10, &world);
    assert_eq!((c.x().raw, c.y().raw, c.z().raw), (5_000, 7_000, 10_000));
}

#[test]
fn seeded_renders_are_byte_identical() {
    let world = ground_scene();
    let mut camera = small_camera();
    let image_a = camera.render(&mut rng_with(99), &world);
    let mut camera2 = small_camera();
    let image_b = camera2.render(&mut rng_with(99), &world);
    let ppm_a = ppm_of(&image_a);
    let ppm_b = ppm_of(&image_b);
    assert_eq!(ppm_a, ppm_b);
    assert!(ppm_a.starts_with("P3\n8 8\n255\n"));
    assert_eq!(image_a.pixels.len(), 64);
}

#[test]
fn different_seeds_change_some_samples() {
    // With one sample per pixel the jitter comes straight from the seed, so
    // two different seeds almost surely differ somewhere in the image.
    let world = ground_scene();
    let mut camera = small_camera();
    let image_a = camera.render(&mut rng_with(1), &world);
    let mut camera2 = small_camera();
    let image_b = camera2.render(&mut rng_with(2), &world);
    assert_ne!(ppm_of(&image_a), ppm_of(&image_b));
}

#[test]
fn render_dimensions_follow_aspect_ratio() {
    let world = HittableList::new();
    let mut camera = small_camera();
    camera.image_width = 40;
    camera.aspect_ratio = Fixed::from_raw(20_000);
    let image = camera.render(&mut rng_with(5), &world);
    assert_eq!(image.width, 40);
    assert_eq!(image.height, 20);
    assert_eq!(image.pixels.len(), 800);
}

#[test]
fn sky_only_render_is_gamma_corrected_gradient() {
    // Without geometry every pixel shows the background; the top row looks
    // up toward the zenith and the bottom row toward the horizon-white.
    let world = HittableList::new();
    let mut camera = small_camera();
    let image = camera.render(&mut rng_with(11), &world);
    let (r0, g0, b0) = image.pixels[0];
    let last = image.pixels[image.pixels.len() - 1];
    // Blue stays at full intensity everywhere in the gradient.
    assert_eq!(b0, 254);
    assert_eq!(last.2, 254);
    // The top row is bluer (darker in red) than the bottom row.
    assert!(r0 < last.0);
    assert!(g0 <= last.1);
}

#[test]
fn default_camera_configuration() {
    let camera = Camera::new();
    assert_eq!(camera.image_width, 400);
    assert_eq!(camera.samples_per_pixel, 100);
    assert_eq!(camera.max_bounces, 50);
    assert_eq!(camera.tan_half_vfov.raw, 10_000);
    assert_eq!(camera.tan_half_defocus.raw, 0);
    assert_eq!(camera.focus_dist.raw, 100_000);
}
