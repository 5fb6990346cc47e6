//! The decisions of a Monte Carlo ray tracer, stated over IEEE-754 binary32
//! bit patterns and verified.

pub mod config;
pub mod hittable;
pub mod material;
pub mod nearest;
pub mod pixel;
pub mod ray;
pub mod scalar;
pub mod sphere;
pub mod tracer;
pub mod vec3;
