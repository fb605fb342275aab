//! A Monte Carlo path tracer whose light-transport core is verified.
//!
//! All scalar quantities are exact fixed-point numbers (see [`fixed`]), so
//! every arithmetic step of the intersection, scattering and integration
//! logic has a precise mathematical meaning that the contracts pin down.
use vstd::prelude::*;

pub mod color;
pub mod fixed;
pub mod hittable;
pub mod hittable_list;
pub mod integrator;
pub mod material;
pub mod ray;
pub mod sphere;
pub mod rng;
pub mod utils;
pub mod vec3;

verus! {

/// Why construction of a scene element was rejected.
#[derive(Clone, Copy, Debug, PartialEq, Eq, Structural)]
pub enum BuildError {
    /// A primitive with degenerate geometry, such as a zero radius.
    InvalidGeometry,
    /// Material data outside its meaningful range.
    InvalidMaterial,
}

} // verus!
