//! The pinhole camera: an orthonormal basis derived from eye, look-at and
//! up, and the map from pixel coordinates to primary rays.

use vstd::prelude::*;

use crate::fixed;
use crate::fixed::{sat, spec_div, spec_mul, ONE};
use crate::geom::{cross, spec_cross, spec_unit, spec_vadd, spec_vscale, spec_vsub, Point3, Ray, Vec3};

verus! {

/// Half of one, for pixel centering.
pub const HALF: i64 = 32768;

/// Two, as a fixed-point value.
pub const TWO: i64 = 131072;

/// A camera: image size in pixels (on the fixed-point grid), the viewing
/// frame, the derived orthonormal basis `(u, v, w)` with `w` pointing from
/// look-at back to the eye, and the tangent of half the vertical
/// field-of-view.
#[derive(Clone, Copy, Debug, PartialEq, Eq, Structural)]
pub struct Camera {
    pub width: i64,
    pub height: i64,
    pub look_from: Point3,
    pub look_at: Point3,
    pub up: Vec3,
    pub u: Vec3,
    pub v: Vec3,
    pub w: Vec3,
    pub tan_fovy_2: i64,
}

/// The orthonormal basis of a viewing frame: `w` from look-at to eye,
/// `u = up x w`, `v = w x u`, the first two normalized.
pub open spec fn spec_camera_basis(look_from: Point3, look_at: Point3, up: Vec3) -> (Vec3, Vec3, Vec3) {
    let w = spec_unit(spec_vsub(look_from, look_at));
    let u = spec_unit(spec_cross(up, w));
    let v = spec_cross(w, u);
    (u, v, w)
}

/// The primary ray of pixel row `i`, column `j` (both on the fixed-point
/// grid): through the half-pixel-centered point of an image plane at unit
/// distance along `-w`, scaled by the field-of-view tangents.
#[verifier::opaque]
pub open spec fn spec_get_ray(c: Camera, i: int, j: int) -> Ray {
    let tan_fovx_2 = spec_div(spec_mul(c.tan_fovy_2 as int, c.width as int), c.height as int);
    let alpha = spec_mul(
        spec_div(spec_mul(tan_fovx_2, TWO as int), c.width as int),
        sat(sat(j + HALF) - spec_div(c.width as int, TWO as int)),
    );
    let beta = spec_mul(
        spec_div(spec_mul(c.tan_fovy_2 as int, TWO as int), c.height as int),
        sat(sat(spec_div(c.height as int, TWO as int) - i) - HALF),
    );
    let direction = spec_unit(
        spec_vsub(spec_vadd(spec_vscale(c.u, alpha), spec_vscale(c.v, beta)), c.w),
    );
    Ray { origin: c.look_from, direction }
}

impl Camera {
    /// Build a camera from an eye point, look-at point, up vector and the
    /// tangent of half the vertical field-of-view (the caller converts the
    /// field-of-view angle to this tangent).
    pub fn new(
        width: i64,
        height: i64,
        look_from: Point3,
        look_at: Point3,
        up: Vec3,
        tan_fovy_2: i64,
    ) -> (r: Camera)
        ensures
            r == (Camera {
                width,
                height,
                look_from,
                look_at,
                up,
                u: spec_camera_basis(look_from, look_at, up).0,
                v: spec_camera_basis(look_from, look_at, up).1,
                w: spec_camera_basis(look_from, look_at, up).2,
                tan_fovy_2,
            }),
    {
        let w = look_from.sub(&look_at).normalize();
        let u = cross(up, w).normalize();
        let v = cross(w, u);
        Camera { width, height, look_from, look_at, up, u, v, w, tan_fovy_2 }
    }

    /// The primary ray of pixel row `i`, column `j` (both on the fixed-point
    /// grid), direction normalized.
    pub fn get_ray(&self, i: i64, j: i64) -> (r: Ray)
        ensures
            r == spec_get_ray(*self, i as int, j as int),
    {
        proof {
            reveal(spec_get_ray);
        }
        let origin = self.look_from;
        let tan_fovx_2 = fixed::div(fixed::mul(self.tan_fovy_2, self.width), self.height);
        let alpha = fixed::mul(
            fixed::div(fixed::mul(tan_fovx_2, TWO), self.width),
            fixed::sub(fixed::add(j, HALF), fixed::div(self.width, TWO)),
        );
        let beta = fixed::mul(
            fixed::div(fixed::mul(self.tan_fovy_2, TWO), self.height),
            fixed::sub(fixed::sub(fixed::div(self.height, TWO), i), HALF),
        );
        let direction = self.u.scale(alpha).add(&self.v.scale(beta)).sub(&self.w).normalize();
        Ray { origin, direction }
    }
}

} // verus!
