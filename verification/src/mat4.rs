//! Affine model transforms: the linear 3x3 block plus a translation column
//! of a 4x4 matrix in row-major order (the last row is taken as 0 0 0 1).

use vstd::prelude::*;

use crate::fixed;
use crate::fixed::{sat, spec_mul, ONE};
use crate::geom::{Point3, Ray, Vec3};

verus! {

/// A 4x4 affine matrix, row-major; `mRC` is row R, column C. Only the top
/// three rows are stored.
#[derive(Clone, Copy, Debug, PartialEq, Eq, Structural)]
pub struct Mat4 {
    pub m00: i64,
    pub m01: i64,
    pub m02: i64,
    pub m03: i64,
    pub m10: i64,
    pub m11: i64,
    pub m12: i64,
    pub m13: i64,
    pub m20: i64,
    pub m21: i64,
    pub m22: i64,
    pub m23: i64,
}

/// One row applied to a vector, plus a constant term:
/// `a*v.x + b*v.y + c*v.z + d`, accumulated left to right.
pub open spec fn spec_row(a: int, b: int, c: int, d: int, v: Vec3) -> int {
    sat(sat(sat(spec_mul(a, v.x as int) + spec_mul(b, v.y as int)) + spec_mul(c, v.z as int)) + d)
}

/// A point mapped through the matrix (the translation column applies).
pub open spec fn spec_transform_point(m: Mat4, p: Point3) -> Point3 {
    Vec3 {
        x: spec_row(m.m00 as int, m.m01 as int, m.m02 as int, m.m03 as int, p) as i64,
        y: spec_row(m.m10 as int, m.m11 as int, m.m12 as int, m.m13 as int, p) as i64,
        z: spec_row(m.m20 as int, m.m21 as int, m.m22 as int, m.m23 as int, p) as i64,
    }
}

/// A free vector mapped through the matrix (no translation).
pub open spec fn spec_transform_vector(m: Mat4, v: Vec3) -> Vec3 {
    Vec3 {
        x: spec_row(m.m00 as int, m.m01 as int, m.m02 as int, 0, v) as i64,
        y: spec_row(m.m10 as int, m.m11 as int, m.m12 as int, 0, v) as i64,
        z: spec_row(m.m20 as int, m.m21 as int, m.m22 as int, 0, v) as i64,
    }
}

/// The transpose of the linear block; the translation column is dropped.
/// Applied to normals together with an inverse matrix.
pub open spec fn spec_transpose(m: Mat4) -> Mat4 {
    Mat4 {
        m00: m.m00,
        m01: m.m10,
        m02: m.m20,
        m03: 0,
        m10: m.m01,
        m11: m.m11,
        m12: m.m21,
        m13: 0,
        m20: m.m02,
        m21: m.m12,
        m22: m.m22,
        m23: 0,
    }
}

pub open spec fn spec_identity() -> Mat4 {
    Mat4 {
        m00: ONE,
        m01: 0,
        m02: 0,
        m03: 0,
        m10: 0,
        m11: ONE,
        m12: 0,
        m13: 0,
        m20: 0,
        m21: 0,
        m22: ONE,
        m23: 0,
    }
}

impl Mat4 {
    /// The identity transform.
    pub fn identity() -> (r: Mat4)
        ensures
            r == spec_identity(),
    {
        Mat4 {
            m00: ONE,
            m01: 0,
            m02: 0,
            m03: 0,
            m10: 0,
            m11: ONE,
            m12: 0,
            m13: 0,
            m20: 0,
            m21: 0,
            m22: ONE,
            m23: 0,
        }
    }

    fn row(a: i64, b: i64, c: i64, d: i64, v: &Vec3) -> (r: i64)
        ensures
            r as int == spec_row(a as int, b as int, c as int, d as int, *v),
    {
        fixed::add(
            fixed::add(fixed::add(fixed::mul(a, v.x), fixed::mul(b, v.y)), fixed::mul(c, v.z)),
            d,
        )
    }

    /// Map a point through the matrix; the translation column applies.
    pub fn transform_point3(&self, p: Point3) -> (r: Point3)
        ensures
            r == spec_transform_point(*self, p),
    {
        Vec3 {
            x: Self::row(self.m00, self.m01, self.m02, self.m03, &p),
            y: Self::row(self.m10, self.m11, self.m12, self.m13, &p),
            z: Self::row(self.m20, self.m21, self.m22, self.m23, &p),
        }
    }

    /// Map a free vector through the matrix; no translation applies.
    pub fn transform_vector3(&self, v: Vec3) -> (r: Vec3)
        ensures
            r == spec_transform_vector(*self, v),
    {
        Vec3 {
            x: Self::row(self.m00, self.m01, self.m02, 0, &v),
            y: Self::row(self.m10, self.m11, self.m12, 0, &v),
            z: Self::row(self.m20, self.m21, self.m22, 0, &v),
        }
    }

    /// Transpose of the linear block, dropping the translation column.
    pub fn transpose(&self) -> (r: Mat4)
        ensures
            r == spec_transpose(*self),
    {
        Mat4 {
            m00: self.m00,
            m01: self.m10,
            m02: self.m20,
            m03: 0,
            m10: self.m01,
            m11: self.m11,
            m12: self.m21,
            m13: 0,
            m20: self.m02,
            m21: self.m12,
            m22: self.m22,
            m23: 0,
        }
    }
}

/// A ray mapped through an affine matrix: the origin as a point, the
/// direction as a free vector.
pub open spec fn spec_transform_ray(r: Ray, m: Mat4) -> Ray {
    Ray { origin: spec_transform_point(m, r.origin), direction: spec_transform_vector(m, r.direction) }
}

impl Ray {
    /// Map this ray through an affine matrix.
    pub fn transform(&self, mat: &Mat4) -> (r: Ray)
        ensures
            r == spec_transform_ray(*self, *mat),
    {
        Ray {
            origin: mat.transform_point3(self.origin),
            direction: mat.transform_vector3(self.direction),
        }
    }
}

} // verus!
