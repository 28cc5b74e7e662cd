//! A Whitted-style offline ray tracer with a verified core.
//!
//! All geometry runs on a fixed-point coordinate type (a scaled 64-bit
//! integer), so every routine of the rendering engine — bounding boxes,
//! sphere and triangle intersection, the bounding-volume hierarchy, the
//! camera, the recursive illumination model and the image driver — carries a
//! contract that pins its result down exactly.

pub mod fixed;
pub mod geom;
pub mod aabb;
pub mod mat4;
pub mod material;
pub mod light;
pub mod object;
pub mod sphere;
pub mod triangle;
pub mod bvh;
pub mod camera;
pub mod scene;
pub mod render;
pub mod rng;

use vstd::prelude::*;

verus! {

} // verus!
