//! Vectors, points, colors and rays over fixed-point coordinates.

use vstd::prelude::*;

use crate::fixed;
use crate::fixed::{sat, spec_div, spec_mul, spec_sqrt, ONE};

verus! {

/// A 3-component vector of fixed-point coordinates; doubles as a position
/// and as a color.
#[derive(Clone, Copy, Debug, PartialEq, Eq, Structural)]
pub struct Vec3 {
    pub x: i64,
    pub y: i64,
    pub z: i64,
}

pub type Point3 = Vec3;

pub type Color = Vec3;

/// One of the three coordinate axes.
#[derive(Clone, Copy, Debug, PartialEq, Eq, Structural)]
pub enum Axis {
    X,
    Y,
    Z,
}

impl Axis {
    /// The two other axes, then this one.
    pub fn order(self) -> (r: (Axis, Axis, Axis))
        ensures
            r == match self {
                Axis::X => (Axis::Y, Axis::Z, Axis::X),
                Axis::Y => (Axis::X, Axis::Z, Axis::Y),
                Axis::Z => (Axis::X, Axis::Y, Axis::Z),
            },
    {
        match self {
            Axis::X => (Axis::Y, Axis::Z, Axis::X),
            Axis::Y => (Axis::X, Axis::Z, Axis::Y),
            Axis::Z => (Axis::X, Axis::Y, Axis::Z),
        }
    }
}

/// The coordinate of `v` along axis number `a` (0, 1 or 2).
pub open spec fn spec_comp(v: Vec3, a: int) -> int {
    if a == 0 {
        v.x as int
    } else if a == 1 {
        v.y as int
    } else {
        v.z as int
    }
}

pub open spec fn spec_vadd(a: Vec3, b: Vec3) -> Vec3 {
    Vec3 { x: sat(a.x + b.x) as i64, y: sat(a.y + b.y) as i64, z: sat(a.z + b.z) as i64 }
}

pub open spec fn spec_vsub(a: Vec3, b: Vec3) -> Vec3 {
    Vec3 { x: sat(a.x - b.x) as i64, y: sat(a.y - b.y) as i64, z: sat(a.z - b.z) as i64 }
}

pub open spec fn spec_vneg(a: Vec3) -> Vec3 {
    Vec3 { x: sat(-a.x) as i64, y: sat(-a.y) as i64, z: sat(-a.z) as i64 }
}

/// Componentwise (Hadamard) product, as colors multiply.
pub open spec fn spec_vmul(a: Vec3, b: Vec3) -> Vec3 {
    Vec3 {
        x: spec_mul(a.x as int, b.x as int) as i64,
        y: spec_mul(a.y as int, b.y as int) as i64,
        z: spec_mul(a.z as int, b.z as int) as i64,
    }
}

pub open spec fn spec_vscale(a: Vec3, s: int) -> Vec3 {
    Vec3 {
        x: spec_mul(a.x as int, s) as i64,
        y: spec_mul(a.y as int, s) as i64,
        z: spec_mul(a.z as int, s) as i64,
    }
}

pub open spec fn spec_vdiv(a: Vec3, s: int) -> Vec3 {
    Vec3 {
        x: spec_div(a.x as int, s) as i64,
        y: spec_div(a.y as int, s) as i64,
        z: spec_div(a.z as int, s) as i64,
    }
}

pub open spec fn spec_dot(a: Vec3, b: Vec3) -> int {
    sat(
        sat(spec_mul(a.x as int, b.x as int) + spec_mul(a.y as int, b.y as int))
            + spec_mul(a.z as int, b.z as int),
    )
}

pub open spec fn spec_cross(a: Vec3, b: Vec3) -> Vec3 {
    Vec3 {
        x: sat(spec_mul(a.y as int, b.z as int) - spec_mul(a.z as int, b.y as int)) as i64,
        y: sat(spec_mul(a.z as int, b.x as int) - spec_mul(a.x as int, b.z as int)) as i64,
        z: sat(spec_mul(a.x as int, b.y as int) - spec_mul(a.y as int, b.x as int)) as i64,
    }
}

pub open spec fn spec_length_squared(a: Vec3) -> int {
    spec_dot(a, a)
}

pub open spec fn spec_length(a: Vec3) -> int {
    spec_sqrt(spec_length_squared(a))
}

/// `a` scaled to unit length, on the fixed-point grid. The zero vector (and
/// any vector whose length underflows to zero) maps to the zero vector.
pub open spec fn spec_unit(a: Vec3) -> Vec3 {
    spec_vdiv(a, spec_length(a))
}

/// `v` mirrored about the plane with normal `n`: `v - 2 (v . n) n`.
pub open spec fn spec_reflect(v: Vec3, n: Vec3) -> Vec3 {
    spec_vsub(v, spec_vscale(n, sat(2 * spec_dot(v, n))))
}

/// A squared length is never negative.
pub proof fn lemma_length_squared_nonneg(a: Vec3)
    ensures
        spec_length_squared(a) >= 0,
{
    crate::fixed::lemma_square_nonneg(a.x as int);
    crate::fixed::lemma_square_nonneg(a.y as int);
    crate::fixed::lemma_square_nonneg(a.z as int);
}

/// Build a vector from raw fixed-point coordinates.
pub fn vec3(x: i64, y: i64, z: i64) -> (r: Vec3)
    ensures
        r == (Vec3 { x, y, z }),
{
    Vec3 { x, y, z }
}

/// Build a point from raw fixed-point coordinates.
pub fn point3(x: i64, y: i64, z: i64) -> (r: Point3)
    ensures
        r == (Vec3 { x, y, z }),
{
    Vec3 { x, y, z }
}

/// Build a color from raw fixed-point channels.
pub fn color(r: i64, g: i64, b: i64) -> (c: Color)
    ensures
        c == (Vec3 { x: r, y: g, z: b }),
{
    Vec3 { x: r, y: g, z: b }
}

impl Vec3 {
    pub fn new(x: i64, y: i64, z: i64) -> (r: Vec3)
        ensures
            r == (Vec3 { x, y, z }),
    {
        Vec3 { x, y, z }
    }

    pub fn zero() -> (r: Vec3)
        ensures
            r == (Vec3 { x: 0, y: 0, z: 0 }),
    {
        Vec3 { x: 0, y: 0, z: 0 }
    }

    /// The coordinate along axis number `a`.
    pub fn comp(&self, a: usize) -> (r: i64)
        requires
            a < 3,
        ensures
            r as int == spec_comp(*self, a as int),
    {
        if a == 0 {
            self.x
        } else if a == 1 {
            self.y
        } else {
            self.z
        }
    }

    pub fn add(&self, o: &Vec3) -> (r: Vec3)
        ensures
            r == spec_vadd(*self, *o),
    {
        Vec3 {
            x: fixed::add(self.x, o.x),
            y: fixed::add(self.y, o.y),
            z: fixed::add(self.z, o.z),
        }
    }

    pub fn sub(&self, o: &Vec3) -> (r: Vec3)
        ensures
            r == spec_vsub(*self, *o),
    {
        Vec3 {
            x: fixed::sub(self.x, o.x),
            y: fixed::sub(self.y, o.y),
            z: fixed::sub(self.z, o.z),
        }
    }

    pub fn neg(&self) -> (r: Vec3)
        ensures
            r == spec_vneg(*self),
    {
        Vec3 { x: fixed::neg(self.x), y: fixed::neg(self.y), z: fixed::neg(self.z) }
    }

    /// Componentwise product, as colors multiply.
    pub fn mul(&self, o: &Vec3) -> (r: Vec3)
        ensures
            r == spec_vmul(*self, *o),
    {
        Vec3 {
            x: fixed::mul(self.x, o.x),
            y: fixed::mul(self.y, o.y),
            z: fixed::mul(self.z, o.z),
        }
    }

    pub fn scale(&self, s: i64) -> (r: Vec3)
        ensures
            r == spec_vscale(*self, s as int),
    {
        Vec3 { x: fixed::mul(self.x, s), y: fixed::mul(self.y, s), z: fixed::mul(self.z, s) }
    }

    pub fn div(&self, s: i64) -> (r: Vec3)
        ensures
            r == spec_vdiv(*self, s as int),
    {
        Vec3 { x: fixed::div(self.x, s), y: fixed::div(self.y, s), z: fixed::div(self.z, s) }
    }

    pub fn length_squared(&self) -> (r: i64)
        ensures
            r as int == spec_length_squared(*self),
    {
        dot(*self, *self)
    }

    pub fn length(&self) -> (r: i64)
        ensures
            r as int == spec_length(*self),
            0 <= r,
    {
        fixed::sqrt(self.length_squared())
    }

    /// Scale to unit length; the zero vector stays zero.
    pub fn normalize(&self) -> (r: Vec3)
        ensures
            r == spec_unit(*self),
    {
        let len = self.length();
        self.div(len)
    }
}

pub fn dot(v: Vec3, w: Vec3) -> (r: i64)
    ensures
        r as int == spec_dot(v, w),
{
    fixed::add(fixed::add(fixed::mul(v.x, w.x), fixed::mul(v.y, w.y)), fixed::mul(v.z, w.z))
}

pub fn cross(v: Vec3, w: Vec3) -> (r: Vec3)
    ensures
        r == spec_cross(v, w),
{
    Vec3 {
        x: fixed::sub(fixed::mul(v.y, w.z), fixed::mul(v.z, w.y)),
        y: fixed::sub(fixed::mul(v.z, w.x), fixed::mul(v.x, w.z)),
        z: fixed::sub(fixed::mul(v.x, w.y), fixed::mul(v.y, w.x)),
    }
}

/// Mirror `v` about the plane with normal `n`.
pub fn reflect(v: Vec3, n: Vec3) -> (r: Vec3)
    ensures
        r == spec_reflect(v, n),
{
    let d = dot(v, n);
    let two_d = fixed::add(d, d);
    proof {
        assert(sat(d + d) == sat(2 * spec_dot(v, n)));
    }
    v.sub(&n.scale(two_d))
}

/// Snell refraction of `v` at a surface with unit normal `n` and refraction
/// ratio `eta`: `eta (v' - n (v'.n)) - n sqrt(1 - eta^2 (1 - (v'.n)^2))`
/// with `v'` the normalized incoming direction. Past the critical angle the
/// discriminant is negative and its square root is taken as zero.
pub open spec fn spec_refract(v: Vec3, n: Vec3, eta: int) -> Vec3 {
    let uv = spec_unit(v);
    let dt = spec_dot(uv, n);
    let disc = sat(ONE - spec_mul(spec_mul(eta, eta), sat(ONE - spec_mul(dt, dt))));
    spec_vsub(
        spec_vscale(spec_vsub(uv, spec_vscale(n, dt)), eta),
        spec_vscale(n, spec_sqrt(disc)),
    )
}

/// Refract `v` about the unit normal `n` with refraction ratio `eta`.
pub fn refract(v: Vec3, n: Vec3, eta_ratio: i64) -> (r: Vec3)
    ensures
        r == spec_refract(v, n, eta_ratio as int),
{
    let uv = v.normalize();
    let dt = dot(uv, n);
    let disc = fixed::sub(
        ONE,
        fixed::mul(fixed::mul(eta_ratio, eta_ratio), fixed::sub(ONE, fixed::mul(dt, dt))),
    );
    uv.sub(&n.scale(dt)).scale(eta_ratio).sub(&n.scale(fixed::sqrt(disc)))
}

/// An orthonormal basis.
#[derive(Clone, Copy, Debug, PartialEq, Eq, Structural)]
pub struct Onb {
    pub u: Vec3,
    pub v: Vec3,
    pub w: Vec3,
}

/// A local coordinate taken into the basis: `a.x u + a.y v + a.z w`.
pub open spec fn spec_onb_local(o: Onb, a: Vec3) -> Vec3 {
    spec_vadd(
        spec_vadd(spec_vscale(o.u, a.x as int), spec_vscale(o.v, a.y as int)),
        spec_vscale(o.w, a.z as int),
    )
}

/// The basis grown around a normal direction: `w` along the normal, the
/// other two from cross products with whichever axis is farther from `w`.
pub open spec fn spec_onb_from_w(n: Vec3) -> Onb {
    let w = spec_unit(n);
    let wx_mag = if w.x < 0 {
        sat(-w.x)
    } else {
        w.x as int
    };
    let a = if wx_mag > NINE_TENTHS as int {
        Vec3 { x: 0, y: ONE, z: 0 }
    } else {
        Vec3 { x: ONE, y: 0, z: 0 }
    };
    let v = spec_unit(spec_cross(w, a));
    let u = spec_cross(w, v);
    Onb { u, v, w }
}

/// Nine tenths, rounded down to the fixed-point grid.
pub const NINE_TENTHS: i64 = 58982;

impl Onb {
    pub fn new(u: Vec3, v: Vec3, w: Vec3) -> (r: Onb)
        ensures
            r == (Onb { u, v, w }),
    {
        Onb { u, v, w }
    }

    /// Take a local coordinate into the basis.
    pub fn local(&self, a: Vec3) -> (r: Vec3)
        ensures
            r == spec_onb_local(*self, a),
    {
        self.u.scale(a.x).add(&self.v.scale(a.y)).add(&self.w.scale(a.z))
    }

    /// Grow a basis around a normal direction.
    pub fn build_from_w(n: Vec3) -> (r: Onb)
        ensures
            r == spec_onb_from_w(n),
    {
        let w = n.normalize();
        let wx_mag = if w.x < 0 {
            fixed::neg(w.x)
        } else {
            w.x
        };
        let a = if wx_mag > NINE_TENTHS {
            Vec3 { x: 0, y: ONE, z: 0 }
        } else {
            Vec3 { x: ONE, y: 0, z: 0 }
        };
        let v = cross(w, a).normalize();
        let u = cross(w, v);
        Onb { u, v, w }
    }
}

/// A ray: an origin point and a (not necessarily unit) direction.
#[derive(Clone, Copy, Debug, PartialEq, Eq, Structural)]
pub struct Ray {
    pub origin: Point3,
    pub direction: Vec3,
}

/// The point a ray reaches at parameter `t`.
pub open spec fn spec_ray_at(r: Ray, t: int) -> Point3 {
    spec_vadd(r.origin, spec_vscale(r.direction, t))
}

impl Ray {
    pub fn new(origin: Point3, direction: Vec3) -> (r: Ray)
        ensures
            r == (Ray { origin, direction }),
    {
        Ray { origin, direction }
    }

    pub fn at(&self, t: i64) -> (p: Point3)
        ensures
            p == spec_ray_at(*self, t as int),
    {
        self.origin.add(&self.direction.scale(t))
    }
}

} // verus!
