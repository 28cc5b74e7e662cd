//! Spheres, with a model transform and a precomputed world-space bounding
//! box.

use vstd::prelude::*;

use crate::aabb::{spec_union, surrounding_box, Aabb};
use crate::fixed;
use crate::fixed::{sat, spec_div, spec_mul, spec_sqrt};
use crate::geom::{dot, spec_dot, spec_length_squared, spec_ray_at, spec_unit, spec_vsub, Point3, Ray, Vec3};
use crate::mat4::{spec_identity, spec_transform_point, spec_transform_ray, spec_transform_vector, spec_transpose, Mat4};
use crate::material::Material;
use crate::object::Hit;

verus! {

/// A sphere in its own local space (center and radius), shaded with
/// `material` and placed in the world by `transform`; `inv_transform` is the
/// precomputed inverse and `bounding_box` the world-space box of the
/// transformed local bounds.
#[derive(Clone, Copy, Debug, PartialEq, Eq, Structural)]
pub struct Sphere {
    pub center: Point3,
    pub radius: i64,
    pub material: Material,
    pub transform: Mat4,
    pub inv_transform: Mat4,
    pub bounding_box: Aabb,
}

/// The world-space box of the eight transformed corners of the box
/// `[lo, hi]`: the union of the eight image points.
pub open spec fn spec_corners_box(m: Mat4, lo: Vec3, hi: Vec3) -> Aabb {
    let c0 = spec_transform_point(m, Vec3 { x: lo.x, y: lo.y, z: lo.z });
    let c1 = spec_transform_point(m, Vec3 { x: lo.x, y: lo.y, z: hi.z });
    let c2 = spec_transform_point(m, Vec3 { x: lo.x, y: hi.y, z: lo.z });
    let c3 = spec_transform_point(m, Vec3 { x: lo.x, y: hi.y, z: hi.z });
    let c4 = spec_transform_point(m, Vec3 { x: hi.x, y: lo.y, z: lo.z });
    let c5 = spec_transform_point(m, Vec3 { x: hi.x, y: lo.y, z: hi.z });
    let c6 = spec_transform_point(m, Vec3 { x: hi.x, y: hi.y, z: lo.z });
    let c7 = spec_transform_point(m, Vec3 { x: hi.x, y: hi.y, z: hi.z });
    let b = Aabb { box_min: c0, box_max: c0 };
    let b = spec_union(b, Aabb { box_min: c1, box_max: c1 });
    let b = spec_union(b, Aabb { box_min: c2, box_max: c2 });
    let b = spec_union(b, Aabb { box_min: c3, box_max: c3 });
    let b = spec_union(b, Aabb { box_min: c4, box_max: c4 });
    let b = spec_union(b, Aabb { box_min: c5, box_max: c5 });
    let b = spec_union(b, Aabb { box_min: c6, box_max: c6 });
    spec_union(b, Aabb { box_min: c7, box_max: c7 })
}

/// Compute the world-space box of the eight transformed corners of
/// `[lo, hi]`.
pub fn corners_box(m: &Mat4, lo: Vec3, hi: Vec3) -> (r: Aabb)
    ensures
        r == spec_corners_box(*m, lo, hi),
{
    let c0 = m.transform_point3(Vec3 { x: lo.x, y: lo.y, z: lo.z });
    let c1 = m.transform_point3(Vec3 { x: lo.x, y: lo.y, z: hi.z });
    let c2 = m.transform_point3(Vec3 { x: lo.x, y: hi.y, z: lo.z });
    let c3 = m.transform_point3(Vec3 { x: lo.x, y: hi.y, z: hi.z });
    let c4 = m.transform_point3(Vec3 { x: hi.x, y: lo.y, z: lo.z });
    let c5 = m.transform_point3(Vec3 { x: hi.x, y: lo.y, z: hi.z });
    let c6 = m.transform_point3(Vec3 { x: hi.x, y: hi.y, z: lo.z });
    let c7 = m.transform_point3(Vec3 { x: hi.x, y: hi.y, z: hi.z });
    let mut b = Aabb { box_min: c0, box_max: c0 };
    b = surrounding_box(b, Aabb { box_min: c1, box_max: c1 });
    b = surrounding_box(b, Aabb { box_min: c2, box_max: c2 });
    b = surrounding_box(b, Aabb { box_min: c3, box_max: c3 });
    b = surrounding_box(b, Aabb { box_min: c4, box_max: c4 });
    b = surrounding_box(b, Aabb { box_min: c5, box_max: c5 });
    b = surrounding_box(b, Aabb { box_min: c6, box_max: c6 });
    surrounding_box(b, Aabb { box_min: c7, box_max: c7 })
}

/// The sphere's world-space bounding box: the transformed corners of the
/// local box `center - radius .. center + radius`.
pub open spec fn spec_sphere_bbox(center: Point3, radius: int, m: Mat4) -> Aabb {
    let lo = Vec3 {
        x: sat(center.x - radius) as i64,
        y: sat(center.y - radius) as i64,
        z: sat(center.z - radius) as i64,
    };
    let hi = Vec3 {
        x: sat(center.x + radius) as i64,
        y: sat(center.y + radius) as i64,
        z: sat(center.z + radius) as i64,
    };
    spec_corners_box(m, lo, hi)
}

/// The quantities of the local-space quadratic `|o + t d - c|^2 = r^2`:
/// `(a, half_b, c, discriminant)`.
pub open spec fn spec_sphere_quadratic(s: Sphere, r: Ray) -> (int, int, int, int) {
    let lr = spec_transform_ray(r, s.inv_transform);
    let oc = spec_vsub(lr.origin, s.center);
    let a = spec_length_squared(lr.direction);
    let half_b = spec_dot(oc, lr.direction);
    let c = sat(spec_length_squared(oc) - spec_mul(s.radius as int, s.radius as int));
    let disc = sat(spec_mul(half_b, half_b) - spec_mul(a, c));
    (a, half_b, c, disc)
}

/// Where the ray meets the sphere, if anywhere in `[tmin, tmax]`: the smaller
/// quadratic root when it lies in range, else the larger, else nothing. The
/// reported point and normal are mapped back to world space (the normal via
/// the inverse transpose, renormalized).
#[verifier::opaque]
pub open spec fn spec_sphere_hit(s: Sphere, r: Ray, tmin: int, tmax: int) -> Option<Hit> {
    let (a, half_b, c, disc) = spec_sphere_quadratic(s, r);
    if disc < 0 {
        None
    } else {
        let sqrtd = spec_sqrt(disc);
        let root1 = spec_div(sat(sat(-half_b) - sqrtd), a);
        let root2 = spec_div(sat(sat(-half_b) + sqrtd), a);
        let root = if root1 < tmin || tmax < root1 {
            root2
        } else {
            root1
        };
        if root < tmin || tmax < root {
            None
        } else {
            let lr = spec_transform_ray(r, s.inv_transform);
            let p = spec_ray_at(lr, root);
            let n = spec_transform_vector(spec_transpose(s.inv_transform), spec_vsub(p, s.center));
            Some(
                Hit {
                    point: spec_transform_point(s.transform, p),
                    t: root as i64,
                    normal: spec_unit(n),
                    material: s.material,
                },
            )
        }
    }
}

impl Sphere {
    /// Build a sphere from its local description, material and placement;
    /// `inv_transform` must be supplied precomputed. The world-space
    /// bounding box is computed here once.
    pub fn new(
        center: Point3,
        radius: i64,
        material: Material,
        transform: Mat4,
        inv_transform: Mat4,
    ) -> (r: Sphere)
        ensures
            r == (Sphere {
                center,
                radius,
                material,
                transform,
                inv_transform,
                bounding_box: spec_sphere_bbox(center, radius as int, transform),
            }),
    {
        let lo = Vec3 {
            x: fixed::sub(center.x, radius),
            y: fixed::sub(center.y, radius),
            z: fixed::sub(center.z, radius),
        };
        let hi = Vec3 {
            x: fixed::add(center.x, radius),
            y: fixed::add(center.y, radius),
            z: fixed::add(center.z, radius),
        };
        let bounding_box = corners_box(&transform, lo, hi);
        Sphere { center, radius, material, transform, inv_transform, bounding_box }
    }

    /// A narrower upper bound keeps a sphere hit exactly when the hit's `t`
    /// still fits: the accepted root is never overtaken by the other root.
    pub proof fn lemma_hit_narrow(s: Sphere, r: Ray, tmin: int, b: int, bb: int)
        requires
            b <= bb,
        ensures
            spec_sphere_hit(s, r, tmin, b) == match spec_sphere_hit(s, r, tmin, bb) {
                Some(h) => if h.t <= b {
                    Some(h)
                } else {
                    None
                },
                None => None,
            },
            match spec_sphere_hit(s, r, tmin, bb) {
                Some(h) => tmin <= h.t <= bb,
                None => true,
            },
    {
        reveal(spec_sphere_hit);
        let (a, half_b, c, disc) = spec_sphere_quadratic(s, r);
        let lr = spec_transform_ray(r, s.inv_transform);
        crate::geom::lemma_length_squared_nonneg(lr.direction);
        if disc >= 0 {
            let sqrtd = spec_sqrt(disc);
            crate::fixed::lemma_spec_sqrt_nonneg(disc);
            let x1 = sat(sat(-half_b) - sqrtd);
            let x2 = sat(sat(-half_b) + sqrtd);
            crate::fixed::lemma_spec_div_monotone(x1, x2, a);
        }
    }

    /// Intersect a world-space ray with this sphere over `[t_min, t_max]`.
    pub fn hit(&self, r: &Ray, t_min: i64, t_max: i64) -> (res: Option<Hit>)
        ensures
            res == spec_sphere_hit(*self, *r, t_min as int, t_max as int),
    {
        proof {
            reveal(spec_sphere_hit);
        }
        let lr = r.transform(&self.inv_transform);
        let oc = lr.origin.sub(&self.center);
        let a = lr.direction.length_squared();
        let half_b = dot(oc, lr.direction);
        let c = fixed::sub(oc.length_squared(), fixed::mul(self.radius, self.radius));
        let disc = fixed::sub(fixed::mul(half_b, half_b), fixed::mul(a, c));
        if disc < 0 {
            return None;
        }
        let sqrtd = fixed::sqrt(disc);
        let neg_half_b = fixed::neg(half_b);
        let mut root = fixed::div(fixed::sub(neg_half_b, sqrtd), a);
        if root < t_min || t_max < root {
            root = fixed::div(fixed::add(neg_half_b, sqrtd), a);
            if root < t_min || t_max < root {
                return None;
            }
        }
        let p = lr.at(root);
        let n = self.inv_transform.transpose().transform_vector3(p.sub(&self.center));
        Some(
            Hit {
                point: self.transform.transform_point3(p),
                t: root,
                normal: n.normalize(),
                material: self.material,
            },
        )
    }
}

impl Default for Sphere {
    /// The unit sphere at the origin, untransformed, all-black.
    fn default() -> (r: Sphere)
        ensures
            r == (Sphere {
                center: Vec3 { x: 0, y: 0, z: 0 },
                radius: crate::fixed::ONE,
                material: Material {
                    diffuse: Vec3 { x: 0, y: 0, z: 0 },
                    specular: Vec3 { x: 0, y: 0, z: 0 },
                    shininess: 0,
                    emission: Vec3 { x: 0, y: 0, z: 0 },
                },
                transform: spec_identity(),
                inv_transform: spec_identity(),
                bounding_box: spec_sphere_bbox(
                    Vec3 { x: 0, y: 0, z: 0 },
                    crate::fixed::ONE as int,
                    spec_identity(),
                ),
            }),
    {
        Sphere::new(
            Vec3 { x: 0, y: 0, z: 0 },
            crate::fixed::ONE,
            Material::black(),
            Mat4::identity(),
            Mat4::identity(),
        )
    }
}

} // verus!
