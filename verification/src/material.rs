//! Surface materials for the Blinn-Phong illumination model.

use vstd::prelude::*;

use crate::geom::{Color, Vec3};

verus! {

/// A material: diffuse and specular colors, a Phong shininess exponent, and
/// an emission color. Immutable once created.
#[derive(Clone, Copy, Debug, PartialEq, Eq, Structural)]
pub struct Material {
    pub diffuse: Color,
    pub specular: Color,
    pub shininess: u32,
    pub emission: Color,
}

impl Material {
    pub fn new(diffuse: Color, specular: Color, shininess: u32, emission: Color) -> (r: Material)
        ensures
            r == (Material { diffuse, specular, shininess, emission }),
    {
        Material { diffuse, specular, shininess, emission }
    }

    /// The all-black, non-reflective material.
    pub fn black() -> (r: Material)
        ensures
            r == (Material {
                diffuse: Vec3 { x: 0, y: 0, z: 0 },
                specular: Vec3 { x: 0, y: 0, z: 0 },
                shininess: 0,
                emission: Vec3 { x: 0, y: 0, z: 0 },
            }),
    {
        Material {
            diffuse: Vec3 { x: 0, y: 0, z: 0 },
            specular: Vec3 { x: 0, y: 0, z: 0 },
            shininess: 0,
            emission: Vec3 { x: 0, y: 0, z: 0 },
        }
    }
}

impl Default for Material {
    /// The all-black, non-reflective material.
    fn default() -> (r: Material)
        ensures
            r == (Material {
                diffuse: Vec3 { x: 0, y: 0, z: 0 },
                specular: Vec3 { x: 0, y: 0, z: 0 },
                shininess: 0,
                emission: Vec3 { x: 0, y: 0, z: 0 },
            }),
    {
        Material::black()
    }
}

} // verus!
