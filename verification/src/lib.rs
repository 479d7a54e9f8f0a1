//! The decisions of a Monte Carlo path tracer.
//!
//! A path tracer follows rays from a camera into a scene of spheres, lets the
//! surfaces they hit scatter them, and averages what the paths bring back into
//! pixels. Its floating-point arithmetic is done by the caller. This crate holds
//! the rest: the data of rays, spheres and materials, and every decision that a
//! render makes from the numbers: which root of the quadratic counts, which
//! sphere is nearest, whether a material reflects, refracts or absorbs, when a
//! path ends, which byte a colour becomes and where in the picture it lands.
//! Numbers cross the boundary as IEEE 754 bit patterns.
use vstd::prelude::*;

pub mod frame;
pub mod materials;
pub mod objects;
pub mod ray;
pub mod scalar;
pub mod tracer;
pub mod vec3;
