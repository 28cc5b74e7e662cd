//! Light sources.

use vstd::prelude::*;

verus! {

/// A light source: directional lights carry the direction the light travels
/// in; point lights carry a world position. Both carry an intensity color.
#[derive(Clone, Copy, Debug, PartialEq, Eq, Structural)]
pub enum Light {
    Directional { x: i64, y: i64, z: i64, r: i64, g: i64, b: i64 },
    Point { x: i64, y: i64, z: i64, r: i64, g: i64, b: i64 },
}

} // verus!
