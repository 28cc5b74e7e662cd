//! Random fixed-point vectors, points and colors, drawn from the thread's
//! random number generator.

use vstd::prelude::*;

use crate::fixed::ONE;
use crate::geom::{spec_length, spec_length_squared, spec_unit, Color, Point3, Vec3};

verus! {

#[verifier::external_type_specification]
#[verifier::external_body]
pub struct ExThreadRng(rand::rngs::ThreadRng);

/// Relies on rand's `thread_rng`: a handle to the thread-local generator.
#[verifier::external_body]
pub fn thread_rng() -> rand::rngs::ThreadRng {
    rand::thread_rng()
}

/// Relies on rand's `Rng::gen_range` over a half-open range, which panics on
/// an empty range and otherwise returns a value inside it. Nothing more is
/// promised of the value: it is random.
#[verifier::external_body]
fn gen_range_fx(rng: &mut rand::rngs::ThreadRng, lo: i64, hi: i64) -> (r: i64)
    requires
        lo < hi,
    ensures
        lo <= r < hi,
{
    rand::Rng::gen_range(rng, lo..hi)
}

/// A random vector in the half-open cube [-1, 1)^3.
pub fn rand_in_cube(rng: &mut rand::rngs::ThreadRng) -> (v: Vec3)
    ensures
        -crate::fixed::ONE <= v.x < crate::fixed::ONE,
        -crate::fixed::ONE <= v.y < crate::fixed::ONE,
        -crate::fixed::ONE <= v.z < crate::fixed::ONE,
{
    let x = gen_range_fx(rng, -crate::fixed::ONE, crate::fixed::ONE);
    let y = gen_range_fx(rng, -crate::fixed::ONE, crate::fixed::ONE);
    let z = gen_range_fx(rng, -crate::fixed::ONE, crate::fixed::ONE);
    Vec3 { x, y, z }
}

/// A random vector strictly inside the unit sphere, by rejection from the
/// cube; after many rejections (vanishingly unlikely) the center is taken.
pub fn random_in_unit_sphere(rng: &mut rand::rngs::ThreadRng) -> (v: Vec3)
    ensures
        spec_length_squared(v) < ONE,
{
    let mut k: usize = 0;
    while k < 64
        invariant
            k <= 64,
        decreases 64 - k,
    {
        let p = rand_in_cube(rng);
        if p.length_squared() < ONE {
            return p;
        }
        k = k + 1;
    }
    let center = Vec3 { x: 0, y: 0, z: 0 };
    proof {
        assert(spec_length_squared(center) == 0);
    }
    center
}

/// A random vector inside the unit sphere, scaled to unit length.
pub fn random_unit_vector(rng: &mut rand::rngs::ThreadRng) -> (v: Vec3)
    ensures
        exists|p: Vec3| spec_length_squared(p) < ONE && v == spec_unit(p),
{
    let p = random_in_unit_sphere(rng);
    let v = p.normalize();
    proof {
        assert(spec_length_squared(p) < ONE && v == spec_unit(p));
    }
    v
}

/// A random vector strictly inside the unit disk of the xy plane, by
/// rejection; after many rejections (vanishingly unlikely) the center is
/// taken.
pub fn random_in_unit_disk(rng: &mut rand::rngs::ThreadRng) -> (v: Vec3)
    ensures
        spec_length(v) < ONE,
        v.z == 0,
{
    let mut k: usize = 0;
    while k < 64
        invariant
            k <= 64,
        decreases 64 - k,
    {
        let x = gen_range_fx(rng, -ONE, ONE);
        let y = gen_range_fx(rng, -ONE, ONE);
        let p = Vec3 { x, y, z: 0 };
        if p.length() < ONE {
            return p;
        }
        k = k + 1;
    }
    let center = Vec3 { x: 0, y: 0, z: 0 };
    proof {
        assert(spec_length_squared(center) == 0);
        assert(spec_length(center) == 0);
    }
    center
}

/// A random color with every channel in the half-open range `[lo, hi)`.
pub fn rand_color(rng: &mut rand::rngs::ThreadRng, lo: i64, hi: i64) -> (c: Color)
    requires
        lo < hi,
    ensures
        lo <= c.x < hi,
        lo <= c.y < hi,
        lo <= c.z < hi,
{
    let x = gen_range_fx(rng, lo, hi);
    let y = gen_range_fx(rng, lo, hi);
    let z = gen_range_fx(rng, lo, hi);
    Vec3 { x, y, z }
}

/// A random point with every coordinate in the half-open range `[lo, hi)`.
pub fn rand_point(rng: &mut rand::rngs::ThreadRng, lo: i64, hi: i64) -> (p: Point3)
    requires
        lo < hi,
    ensures
        lo <= p.x < hi,
        lo <= p.y < hi,
        lo <= p.z < hi,
{
    let x = gen_range_fx(rng, lo, hi);
    let y = gen_range_fx(rng, lo, hi);
    let z = gen_range_fx(rng, lo, hi);
    Vec3 { x, y, z }
}

} // verus!
