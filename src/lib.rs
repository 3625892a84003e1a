//! A Monte Carlo path tracer over scenes of spheres.
//!
//! Numbers are decimal fixed-point values (`fixed::Fixed`): arithmetic rounds
//! toward zero and saturates, so every operation is total. Lengths come from
//! the exact sum of squares, and short directions are doubled before they are
//! normalised or intersected, so every non-zero direction is usable; the
//! zero vector has none (it meets no sphere, a mirror absorbs it, and the sky
//! along it is black).
//!
//! - `vec3`, `ray`, `camera`: points, directions and colours; rays; the eye.
//! - `hitable`, `sphere`: the intersection records and the nearest-hit query,
//!   for one sphere and for a whole scene.
//! - `material`: diffuse and mirror scattering.
//! - `render`: the path integrator and the per-pixel driver.
//! - `ppm`: the image as plain text.
//! - `random`: the source of random numbers.

pub mod camera;
pub mod fixed;
pub mod hitable;
pub mod material;
pub mod ppm;
pub mod random;
pub mod ray;
pub mod render;
pub mod sphere;
pub mod vec3;
