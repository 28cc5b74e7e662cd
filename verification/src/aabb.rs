//! Axis-aligned bounding boxes: slab intersection test, union, and an
//! axis-wise ordering.

use vstd::prelude::*;

use core::cmp::Ordering;
use crate::fixed;
use crate::fixed::{sat, spec_div, spec_mul, ONE};
use crate::geom::{spec_comp, Ray, Vec3};

verus! {

/// An axis-aligned box, given by its two extreme corners. A well-formed box
/// has `box_min <= box_max` componentwise; the degenerate box with both
/// corners at the origin stands for "no geometry".
#[derive(Clone, Copy, Debug, PartialEq, Eq, Structural)]
pub struct Aabb {
    pub box_min: Vec3,
    pub box_max: Vec3,
}

/// `box_min <= box_max` componentwise.
pub open spec fn spec_wf_aabb(b: Aabb) -> bool {
    b.box_min.x <= b.box_max.x && b.box_min.y <= b.box_max.y && b.box_min.z <= b.box_max.z
}

/// The ray's parameter interval, tightened against the two slab planes of
/// axis `a`: entry/exit parameters from `(corner - origin) / direction`,
/// swapped when the direction component is negative.
pub open spec fn spec_slab_tighten(b: Aabb, r: Ray, a: int, tmin: int, tmax: int) -> (int, int) {
    let inv = spec_div(ONE as int, spec_comp(r.direction, a));
    let e0 = spec_mul(sat(spec_comp(b.box_min, a) - spec_comp(r.origin, a)), inv);
    let e1 = spec_mul(sat(spec_comp(b.box_max, a) - spec_comp(r.origin, a)), inv);
    let t0 = if inv < 0 { e1 } else { e0 };
    let t1 = if inv < 0 { e0 } else { e1 };
    (vstd::math::max(t0, tmin), vstd::math::min(t1, tmax))
}

/// The slab test from axis `a` on: each axis tightens the running interval,
/// and an empty interval means no intersection.
pub open spec fn spec_slab_from(b: Aabb, r: Ray, a: int, tmin: int, tmax: int) -> bool
    decreases 3 - a,
{
    if a >= 3 {
        true
    } else {
        let (m, mm) = spec_slab_tighten(b, r, a, tmin, tmax);
        if mm <= m {
            false
        } else {
            spec_slab_from(b, r, a + 1, m, mm)
        }
    }
}

/// Whether the ray meets the box somewhere in the parameter interval
/// `[tmin, tmax]`, as the slab method decides it.
pub open spec fn spec_aabb_hit(b: Aabb, r: Ray, tmin: int, tmax: int) -> bool {
    spec_slab_from(b, r, 0, tmin, tmax)
}

/// How two boxes order on axis `a`: by their minimum coordinate.
pub open spec fn spec_aabb_compare(b: Aabb, o: Aabb, a: int) -> Ordering {
    if spec_comp(b.box_min, a) < spec_comp(o.box_min, a) {
        Ordering::Less
    } else if spec_comp(b.box_min, a) > spec_comp(o.box_min, a) {
        Ordering::Greater
    } else {
        Ordering::Equal
    }
}

/// The smallest box enclosing both: componentwise min of mins, max of maxes.
pub open spec fn spec_union(b0: Aabb, b1: Aabb) -> Aabb {
    Aabb {
        box_min: Vec3 {
            x: vstd::math::min(b0.box_min.x as int, b1.box_min.x as int) as i64,
            y: vstd::math::min(b0.box_min.y as int, b1.box_min.y as int) as i64,
            z: vstd::math::min(b0.box_min.z as int, b1.box_min.z as int) as i64,
        },
        box_max: Vec3 {
            x: vstd::math::max(b0.box_max.x as int, b1.box_max.x as int) as i64,
            y: vstd::math::max(b0.box_max.y as int, b1.box_max.y as int) as i64,
            z: vstd::math::max(b0.box_max.z as int, b1.box_max.z as int) as i64,
        },
    }
}

impl Aabb {
    pub fn new(box_min: Vec3, box_max: Vec3) -> (r: Aabb)
        ensures
            r == (Aabb { box_min, box_max }),
    {
        Aabb { box_min, box_max }
    }

    /// Slab intersection test over the parameter interval `[t_min, t_max]`.
    pub fn hit(&self, r: &Ray, t_min: i64, t_max: i64) -> (res: bool)
        ensures
            res == spec_aabb_hit(*self, *r, t_min as int, t_max as int),
    {
        let mut cur_min: i64 = t_min;
        let mut cur_max: i64 = t_max;
        let mut a: usize = 0;
        while a < 3
            invariant
                a <= 3,
                spec_aabb_hit(*self, *r, t_min as int, t_max as int) == spec_slab_from(
                    *self,
                    *r,
                    a as int,
                    cur_min as int,
                    cur_max as int,
                ),
            decreases 3 - a,
        {
            let d = self.hit_axis(r, a, cur_min, cur_max);
            match d {
                None => {
                    return false;
                },
                Some((m, mm)) => {
                    cur_min = m;
                    cur_max = mm;
                },
            }
            a = a + 1;
        }
        true
    }

    /// One axis of the slab test: the tightened interval, or `None` when it
    /// became empty.
    fn hit_axis(&self, r: &Ray, a: usize, tmin: i64, tmax: i64) -> (res: Option<(i64, i64)>)
        requires
            a < 3,
        ensures
            ({
                let (m, mm) = spec_slab_tighten(*self, *r, a as int, tmin as int, tmax as int);
                if mm <= m {
                    res is None
                } else {
                    res == Some((m as i64, mm as i64))
                }
            }),
    {
        let inv = fixed::div(ONE, r.direction.comp(a));
        let e0 = fixed::mul(fixed::sub(self.box_min.comp(a), r.origin.comp(a)), inv);
        let e1 = fixed::mul(fixed::sub(self.box_max.comp(a), r.origin.comp(a)), inv);
        let (t0, t1) = if inv < 0 { (e1, e0) } else { (e0, e1) };
        let m = fixed::max(t0, tmin);
        let mm = fixed::min(t1, tmax);
        if mm <= m {
            None
        } else {
            Some((m, mm))
        }
    }

    /// Order two boxes by their minimum coordinate on axis `a`.
    pub fn compare(&self, other: &Aabb, axis: usize) -> (r: Ordering)
        requires
            axis < 3,
        ensures
            r == spec_aabb_compare(*self, *other, axis as int),
    {
        let x = self.box_min.comp(axis);
        let y = other.box_min.comp(axis);
        if x < y {
            Ordering::Less
        } else if x > y {
            Ordering::Greater
        } else {
            Ordering::Equal
        }
    }
}

/// The smallest box enclosing both arguments.
pub fn surrounding_box(box0: Aabb, box1: Aabb) -> (r: Aabb)
    ensures
        r == spec_union(box0, box1),
{
    let small = Vec3 {
        x: fixed::min(box0.box_min.x, box1.box_min.x),
        y: fixed::min(box0.box_min.y, box1.box_min.y),
        z: fixed::min(box0.box_min.z, box1.box_min.z),
    };
    let large = Vec3 {
        x: fixed::max(box0.box_max.x, box1.box_max.x),
        y: fixed::max(box0.box_max.y, box1.box_max.y),
        z: fixed::max(box0.box_max.z, box1.box_max.z),
    };
    Aabb { box_min: small, box_max: large }
}

/// The slab test from axis `a` on is monotone in the upper bound.
proof fn lemma_slab_from_monotone(b: Aabb, r: Ray, a: int, tmin: int, t1: int, t2: int)
    requires
        0 <= a,
        t1 <= t2,
        spec_slab_from(b, r, a, tmin, t1),
    ensures
        spec_slab_from(b, r, a, tmin, t2),
    decreases 3 - a,
{
    if a < 3 {
        let (m1, mm1) = spec_slab_tighten(b, r, a, tmin, t1);
        let (m2, mm2) = spec_slab_tighten(b, r, a, tmin, t2);
        assert(m1 == m2);
        assert(mm1 <= mm2);
        lemma_slab_from_monotone(b, r, a + 1, m1, mm1, mm2);
    }
}

/// A ray that meets the box within `[t_min, t1]` meets it within
/// `[t_min, t2]` for every larger bound `t2`: once the upper bound is large
/// enough to reach the box, enlarging it further never loses the
/// intersection.
pub proof fn lemma_aabb_hit_monotone(b: Aabb, r: Ray, tmin: int, t1: int, t2: int)
    requires
        t1 <= t2,
        spec_aabb_hit(b, r, tmin, t1),
    ensures
        spec_aabb_hit(b, r, tmin, t2),
{
    lemma_slab_from_monotone(b, r, 0, tmin, t1, t2);
}

/// The union of two boxes contains both: its minimum corner lies at or below
/// either argument's, and its maximum corner at or above, componentwise.
pub proof fn lemma_union_contains(a: Aabb, b: Aabb)
    ensures
        forall|ax: int|
            0 <= ax < 3 ==> #[trigger] spec_comp(spec_union(a, b).box_min, ax) <= spec_comp(
                a.box_min,
                ax,
            ) && spec_comp(spec_union(a, b).box_min, ax) <= spec_comp(b.box_min, ax),
        forall|ax: int|
            0 <= ax < 3 ==> #[trigger] spec_comp(spec_union(a, b).box_max, ax) >= spec_comp(
                a.box_max,
                ax,
            ) && spec_comp(spec_union(a, b).box_max, ax) >= spec_comp(b.box_max, ax),
        spec_wf_aabb(a) && spec_wf_aabb(b) ==> spec_wf_aabb(spec_union(a, b)),
{
}

} // verus!
