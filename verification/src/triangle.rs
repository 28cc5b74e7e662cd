//! Triangles, via a barycentric linear solve, with a model transform and a
//! precomputed world-space bounding box.

use vstd::prelude::*;

use crate::aabb::Aabb;
use crate::fixed;
use crate::fixed::{sat, spec_div, ONE};
use crate::geom::{
    cross, dot, spec_cross, spec_dot, spec_unit, spec_vadd, spec_vscale, spec_vsub, Point3, Ray,
    Vec3,
};
use crate::mat4::{spec_transform_point, spec_transform_ray, spec_transform_vector, spec_transpose, Mat4};
use crate::material::Material;
use crate::object::Hit;
use crate::sphere::{corners_box, spec_corners_box};

verus! {

/// A triangle given by three local-space vertices, shaded with `material`
/// and placed in the world by `transform`; `inv_transform` is the precomputed
/// inverse and `bounding_box` the world-space box of the transformed local
/// bounds.
#[derive(Clone, Copy, Debug, PartialEq, Eq, Structural)]
pub struct Triangle {
    pub vertex1: Point3,
    pub vertex2: Point3,
    pub vertex3: Point3,
    pub material: Material,
    pub transform: Mat4,
    pub inv_transform: Mat4,
    pub bounding_box: Aabb,
}

/// The local-space bounds of the three vertices.
pub open spec fn spec_tri_local_bounds(v1: Point3, v2: Point3, v3: Point3) -> (Vec3, Vec3) {
    (
        Vec3 {
            x: vstd::math::min(vstd::math::min(v1.x as int, v2.x as int), v3.x as int) as i64,
            y: vstd::math::min(vstd::math::min(v1.y as int, v2.y as int), v3.y as int) as i64,
            z: vstd::math::min(vstd::math::min(v1.z as int, v2.z as int), v3.z as int) as i64,
        },
        Vec3 {
            x: vstd::math::max(vstd::math::max(v1.x as int, v2.x as int), v3.x as int) as i64,
            y: vstd::math::max(vstd::math::max(v1.y as int, v2.y as int), v3.y as int) as i64,
            z: vstd::math::max(vstd::math::max(v1.z as int, v2.z as int), v3.z as int) as i64,
        },
    )
}

/// The triangle's world-space bounding box: the transformed corners of the
/// local vertex bounds.
pub open spec fn spec_tri_bbox(v1: Point3, v2: Point3, v3: Point3, m: Mat4) -> Aabb {
    let (lo, hi) = spec_tri_local_bounds(v1, v2, v3);
    spec_corners_box(m, lo, hi)
}

/// The barycentric solve in local space: the determinant `a`, the three
/// weights (`w1 = 1 - w2 - w3` by construction) and the ray parameter `t`.
pub open spec fn spec_tri_solve(tr: Triangle, r: Ray) -> (int, int, int, int, int) {
    let lr = spec_transform_ray(r, tr.inv_transform);
    let e1 = spec_vsub(tr.vertex2, tr.vertex1);
    let e2 = spec_vsub(tr.vertex3, tr.vertex1);
    let q = spec_cross(lr.direction, e2);
    let a = spec_dot(e1, q);
    let s = spec_vsub(lr.origin, tr.vertex1);
    let rv = spec_cross(s, e1);
    let w2 = spec_div(spec_dot(s, q), a);
    let w3 = spec_div(spec_dot(lr.direction, rv), a);
    let w1 = sat(sat(ONE - w2) - w3);
    let t = spec_div(spec_dot(e2, rv), a);
    (a, w1, w2, w3, t)
}

/// Whether the solve is accepted: a positive (non-degenerate, front-facing)
/// determinant, nonnegative weights, and `t` within the interval.
pub open spec fn spec_tri_accepts(tr: Triangle, r: Ray, tmin: int, tmax: int) -> bool {
    let (a, w1, w2, w3, t) = spec_tri_solve(tr, r);
    !(a <= 0 || w1 < 0 || w2 < 0 || w3 < 0 || t < tmin || t > tmax)
}

/// Where the ray meets the triangle, if accepted: the hit point is the
/// barycentric combination of the vertices mapped to world space, the normal
/// is the edge cross product mapped through the inverse transpose and
/// renormalized.
#[verifier::opaque]
pub open spec fn spec_triangle_hit(tr: Triangle, r: Ray, tmin: int, tmax: int) -> Option<Hit> {
    let (a, w1, w2, w3, t) = spec_tri_solve(tr, r);
    if !spec_tri_accepts(tr, r, tmin, tmax) {
        None
    } else {
        let e1 = spec_vsub(tr.vertex2, tr.vertex1);
        let e2 = spec_vsub(tr.vertex3, tr.vertex1);
        let p = spec_vadd(
            spec_vadd(spec_vscale(tr.vertex1, w1), spec_vscale(tr.vertex2, w2)),
            spec_vscale(tr.vertex3, w3),
        );
        let n = spec_transform_vector(spec_transpose(tr.inv_transform), spec_cross(e1, e2));
        Some(
            Hit {
                point: spec_transform_point(tr.transform, p),
                t: t as i64,
                normal: spec_unit(n),
                material: tr.material,
            },
        )
    }
}

impl Triangle {
    /// Build a triangle from its local description, material and placement;
    /// `inv_transform` must be supplied precomputed. The world-space
    /// bounding box is computed here once.
    pub fn new(
        vertex1: Point3,
        vertex2: Point3,
        vertex3: Point3,
        material: Material,
        transform: Mat4,
        inv_transform: Mat4,
    ) -> (r: Triangle)
        ensures
            r == (Triangle {
                vertex1,
                vertex2,
                vertex3,
                material,
                transform,
                inv_transform,
                bounding_box: spec_tri_bbox(vertex1, vertex2, vertex3, transform),
            }),
    {
        let lo = Vec3 {
            x: fixed::min(fixed::min(vertex1.x, vertex2.x), vertex3.x),
            y: fixed::min(fixed::min(vertex1.y, vertex2.y), vertex3.y),
            z: fixed::min(fixed::min(vertex1.z, vertex2.z), vertex3.z),
        };
        let hi = Vec3 {
            x: fixed::max(fixed::max(vertex1.x, vertex2.x), vertex3.x),
            y: fixed::max(fixed::max(vertex1.y, vertex2.y), vertex3.y),
            z: fixed::max(fixed::max(vertex1.z, vertex2.z), vertex3.z),
        };
        let bounding_box = corners_box(&transform, lo, hi);
        Triangle { vertex1, vertex2, vertex3, material, transform, inv_transform, bounding_box }
    }

    /// Intersect a world-space ray with this triangle over `[t_min, t_max]`.
    pub fn hit(&self, ray: &Ray, t_min: i64, t_max: i64) -> (res: Option<Hit>)
        ensures
            res == spec_triangle_hit(*self, *ray, t_min as int, t_max as int),
    {
        proof {
            reveal(spec_triangle_hit);
        }
        let lr = ray.transform(&self.inv_transform);
        let e1 = self.vertex2.sub(&self.vertex1);
        let e2 = self.vertex3.sub(&self.vertex1);
        let q = cross(lr.direction, e2);
        let a = dot(e1, q);
        let s = lr.origin.sub(&self.vertex1);
        let rv = cross(s, e1);
        let w2 = fixed::div(dot(s, q), a);
        let w3 = fixed::div(dot(lr.direction, rv), a);
        let w1 = fixed::sub(fixed::sub(ONE, w2), w3);
        let t = fixed::div(dot(e2, rv), a);
        if a <= 0 || w1 < 0 || w2 < 0 || w3 < 0 || t < t_min || t > t_max {
            None
        } else {
            let p = self.vertex1.scale(w1).add(&self.vertex2.scale(w2)).add(
                &self.vertex3.scale(w3),
            );
            let n = self.inv_transform.transpose().transform_vector3(cross(e1, e2));
            Some(
                Hit {
                    point: self.transform.transform_point3(p),
                    t,
                    normal: n.normalize(),
                    material: self.material,
                },
            )
        }
    }
}

impl Triangle {
    /// A narrower upper bound keeps a triangle hit exactly when the hit's
    /// `t` still fits: the solve does not depend on the interval.
    pub proof fn lemma_hit_narrow(tr: Triangle, r: Ray, tmin: int, b: int, bb: int)
        requires
            b <= bb,
        ensures
            spec_triangle_hit(tr, r, tmin, b) == match spec_triangle_hit(tr, r, tmin, bb) {
                Some(h) => if h.t <= b {
                    Some(h)
                } else {
                    None
                },
                None => None,
            },
            match spec_triangle_hit(tr, r, tmin, bb) {
                Some(h) => tmin <= h.t <= bb,
                None => true,
            },
    {
        reveal(spec_triangle_hit);
    }
}

/// The barycentric weights of an accepted triangle hit are each nonnegative,
/// and when the first weight did not saturate they sum to one exactly.
pub proof fn lemma_barycentric_weights(tr: Triangle, r: Ray, tmin: int, tmax: int)
    requires
        spec_tri_accepts(tr, r, tmin, tmax),
    ensures
        ({
            let (a, w1, w2, w3, t) = spec_tri_solve(tr, r);
            w1 >= 0 && w2 >= 0 && w3 >= 0 && w1 + w2 + w3 == ONE as int
        }),
{
    let (a, w1, w2, w3, t) = spec_tri_solve(tr, r);
    assert(w1 == sat(sat(ONE - w2) - w3));
    assert(sat(ONE - w2) == ONE - w2);
    assert(w1 == ONE - w2 - w3);
}

} // verus!
