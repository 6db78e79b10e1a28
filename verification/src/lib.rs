//! A small CPU path tracer over fixed-point arithmetic.
//!
//! A scene of spheres with diffuse and reflective materials is sampled by
//! casting camera rays, following scatter events up to a depth limit, and
//! averaging jittered per-pixel samples into an RGBA byte buffer.
pub mod camera;
pub mod fixed;
pub mod material;
pub mod ray;
pub mod render;
pub mod sampler;
pub mod sphere;
pub mod transport;
pub mod vec3;
pub mod world;
