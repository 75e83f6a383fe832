//! A Whitted-style recursive ray tracer over fixed-point arithmetic.
//!
//! Scene geometry, shading and the per-pixel tracing loop are verified;
//! coordinates carry 16 fractional bits in `i128` values, so every
//! computation is exact integer arithmetic with stated rounding.

pub mod fixed;
pub mod vector;
pub mod color;
pub mod ray;
pub mod light;
pub mod material;
pub mod intersection;
pub mod object;
pub mod sphere;
pub mod scene;
pub mod shaders;
pub mod ray_tracer;
