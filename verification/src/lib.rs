//! A recursive ray-tracing renderer over exact fixed-point arithmetic.
//!
//! Scalars are fixed-point numbers with four decimal places (`fixed::Fixed`),
//! so every arithmetic step has an exact, machine-checkable meaning.  The
//! renderer samples light paths through a scene of spheres with attached
//! surface materials and accumulates a per-pixel radiance estimate; an
//! explicit, seedable random generator handle is threaded through every
//! sampling operation so that renders are reproducible.

pub mod camera;
pub mod color;
pub mod fixed;
pub mod hittable;
pub mod hittable_list;
pub mod material;
pub mod ray;
pub mod rng;
pub mod sphere;
pub mod utils;
pub mod vec3;
