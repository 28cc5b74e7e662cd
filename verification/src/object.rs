//! Hit records, the shape sum type, and the linear scene aggregate.

use vstd::prelude::*;

use core::cmp::Ordering;
use crate::aabb::{spec_aabb_compare, spec_union, surrounding_box, Aabb};
use crate::geom::{Point3, Ray, Vec3};
use crate::material::Material;
use crate::sphere::{spec_sphere_hit, Sphere};
use crate::triangle::{spec_triangle_hit, Triangle};

verus! {

/// The record of one ray/primitive intersection: the world-space point, the
/// ray parameter, the world-space unit normal, and the struck primitive's
/// material. Transient: built per query, never stored.
#[derive(Clone, Copy, Debug, PartialEq, Eq, Structural)]
pub struct Hit {
    pub point: Point3,
    pub t: i64,
    pub normal: Vec3,
    pub material: Material,
}

impl Hit {
    pub fn new(point: Point3, t: i64, normal: Vec3, material: Material) -> (r: Hit)
        ensures
            r == (Hit { point, t, normal, material }),
    {
        Hit { point, t, material, normal }
    }
}

/// A primitive: a sphere or a triangle.
#[derive(Clone, Copy, Debug, PartialEq, Eq, Structural)]
pub enum Shape {
    Sphere(Sphere),
    Triangle(Triangle),
}

/// Where the ray meets the shape, if anywhere in `[tmin, tmax]`.
pub open spec fn spec_shape_hit(s: Shape, r: Ray, tmin: int, tmax: int) -> Option<Hit> {
    match s {
        Shape::Sphere(sp) => spec_sphere_hit(sp, r, tmin, tmax),
        Shape::Triangle(tr) => spec_triangle_hit(tr, r, tmin, tmax),
    }
}

/// The shape's precomputed world-space bounding box.
pub open spec fn spec_shape_bbox(s: Shape) -> Aabb {
    match s {
        Shape::Sphere(sp) => sp.bounding_box,
        Shape::Triangle(tr) => tr.bounding_box,
    }
}

impl Shape {
    /// Intersect a world-space ray with this shape over `[t_min, t_max]`.
    pub fn hit(&self, ray: &Ray, t_min: i64, t_max: i64) -> (res: Option<Hit>)
        ensures
            res == spec_shape_hit(*self, *ray, t_min as int, t_max as int),
    {
        match self {
            Shape::Sphere(s) => s.hit(ray, t_min, t_max),
            Shape::Triangle(t) => t.hit(ray, t_min, t_max),
        }
    }

    /// The precomputed world-space bounding box.
    pub fn bounding_box(&self) -> (r: Aabb)
        ensures
            r == spec_shape_bbox(*self),
    {
        match self {
            Shape::Sphere(s) => s.bounding_box,
            Shape::Triangle(t) => t.bounding_box,
        }
    }

    /// Order two shapes by their boxes' minimum coordinate on axis `axis`.
    pub fn compare(&self, other: &Shape, axis: usize) -> (r: Ordering)
        requires
            axis < 3,
        ensures
            r == spec_aabb_compare(spec_shape_bbox(*self), spec_shape_bbox(*other), axis as int),
    {
        let a = self.bounding_box();
        let b = other.bounding_box();
        a.compare(&b, axis)
    }
}

/// The ordered collection of the scene's primitives.
#[derive(Clone, Debug)]
pub struct Objects(pub Vec<Shape>);

/// The nearest accepted hit among the first `i` shapes, scanned in order
/// with the upper bound shrinking to each accepted hit's `t`.
pub open spec fn spec_scan_hit(shapes: Seq<Shape>, r: Ray, tmin: int, tmax: int, i: int) -> Option<
    Hit,
>
    decreases i,
{
    if i <= 0 {
        None
    } else {
        let prev = spec_scan_hit(shapes, r, tmin, tmax, i - 1);
        let bound = match prev {
            Some(h) => h.t as int,
            None => tmax,
        };
        match spec_shape_hit(shapes[i - 1], r, tmin, bound) {
            Some(h) => Some(h),
            None => prev,
        }
    }
}

/// The nearest hit of the whole collection, by linear scan.
pub open spec fn spec_objects_hit(o: Objects, r: Ray, tmin: int, tmax: int) -> Option<Hit> {
    spec_scan_hit(o.0@, r, tmin, tmax, o.0@.len() as int)
}

/// The nearest accepted hit along an arbitrary order of shape indices,
/// scanned left to right with the upper bound shrinking to each accepted
/// hit's `t`.
pub open spec fn spec_scan_seq(
    shapes: Seq<Shape>,
    idxs: Seq<usize>,
    r: Ray,
    tmin: int,
    tmax: int,
) -> Option<Hit>
    decreases idxs.len(),
{
    if idxs.len() == 0 {
        None
    } else {
        let prev = spec_scan_seq(shapes, idxs.drop_last(), r, tmin, tmax);
        let bound = match prev {
            Some(h) => h.t as int,
            None => tmax,
        };
        match spec_shape_hit(shapes[idxs.last() as int], r, tmin, bound) {
            Some(h) => Some(h),
            None => prev,
        }
    }
}

/// The first `i` natural numbers, in order.
pub open spec fn spec_identity_idxs(i: int) -> Seq<usize> {
    Seq::new(i as nat, |k: int| k as usize)
}

/// The linear scan is the index scan over `0, 1, .., i-1`.
pub proof fn lemma_scan_hit_is_scan_seq(shapes: Seq<Shape>, r: Ray, tmin: int, tmax: int, i: int)
    requires
        0 <= i <= shapes.len(),
        shapes.len() <= usize::MAX,
    ensures
        spec_scan_hit(shapes, r, tmin, tmax, i) == spec_scan_seq(
            shapes,
            spec_identity_idxs(i),
            r,
            tmin,
            tmax,
        ),
    decreases i,
{
    if i > 0 {
        lemma_scan_hit_is_scan_seq(shapes, r, tmin, tmax, i - 1);
        assert(spec_identity_idxs(i).drop_last() =~= spec_identity_idxs(i - 1));
        assert(spec_identity_idxs(i).last() == (i - 1) as usize);
    } else {
        assert(spec_identity_idxs(0).len() == 0);
    }
}

/// Scanning a concatenation is scanning the first part, then the second
/// under the first's tightened bound, preferring the second's answer.
pub proof fn lemma_scan_concat(
    shapes: Seq<Shape>,
    a: Seq<usize>,
    b: Seq<usize>,
    r: Ray,
    tmin: int,
    tmax: int,
)
    ensures
        spec_scan_seq(shapes, a + b, r, tmin, tmax) == {
            let first = spec_scan_seq(shapes, a, r, tmin, tmax);
            let bound = match first {
                Some(h) => h.t as int,
                None => tmax,
            };
            match spec_scan_seq(shapes, b, r, tmin, bound) {
                Some(h) => Some(h),
                None => first,
            }
        },
    decreases b.len(),
{
    let first = spec_scan_seq(shapes, a, r, tmin, tmax);
    let bound = match first {
        Some(h) => h.t as int,
        None => tmax,
    };
    if b.len() == 0 {
        assert(a + b =~= a);
        assert(spec_scan_seq(shapes, b, r, tmin, bound) is None);
    } else {
        lemma_scan_concat(shapes, a, b.drop_last(), r, tmin, tmax);
        assert((a + b).drop_last() =~= a + b.drop_last());
        assert((a + b).last() == b.last());
    }
}

/// Shapes that all miss the interval contribute nothing to a scan.
pub proof fn lemma_scan_all_miss(
    shapes: Seq<Shape>,
    idxs: Seq<usize>,
    r: Ray,
    tmin: int,
    tmax: int,
)
    requires
        forall|k: int|
            0 <= k < idxs.len() ==> spec_shape_hit(shapes[#[trigger] idxs[k] as int], r, tmin, tmax)
                is None,
    ensures
        spec_scan_seq(shapes, idxs, r, tmin, tmax) is None,
    decreases idxs.len(),
{
    if idxs.len() > 0 {
        lemma_scan_all_miss(shapes, idxs.drop_last(), r, tmin, tmax);
        assert(spec_shape_hit(shapes[idxs[idxs.len() - 1] as int], r, tmin, tmax) is None);
    }
}

/// The ray parameter of an optional hit.
pub open spec fn spec_hit_t(o: Option<Hit>) -> Option<int> {
    match o {
        Some(h) => Some(h.t as int),
        None => None,
    }
}

/// The ray parameter at which shape number `i`, queried alone over the whole
/// interval, reports a hit.
pub open spec fn spec_solo_t(shapes: Seq<Shape>, i: usize, r: Ray, tmin: int, tmax: int) -> Option<
    int,
> {
    spec_hit_t(spec_shape_hit(shapes[i as int], r, tmin, tmax))
}

/// A narrower upper bound keeps a shape hit exactly when the hit's `t`
/// still fits.
pub proof fn lemma_shape_hit_narrow(s: Shape, r: Ray, tmin: int, b: int, bb: int)
    requires
        b <= bb,
    ensures
        spec_shape_hit(s, r, tmin, b) == match spec_shape_hit(s, r, tmin, bb) {
            Some(h) => if h.t <= b {
                Some(h)
            } else {
                None
            },
            None => None,
        },
        match spec_shape_hit(s, r, tmin, bb) {
            Some(h) => tmin <= h.t <= bb,
            None => true,
        },
{
    match s {
        Shape::Sphere(sp) => Sphere::lemma_hit_narrow(sp, r, tmin, b, bb),
        Shape::Triangle(tr) => Triangle::lemma_hit_narrow(tr, r, tmin, b, bb),
    }
}

/// What a scan returns, characterized by the shapes queried alone: a miss
/// means every shape misses; a hit's `t` is the least `t` any shape reports,
/// within the interval.
pub proof fn lemma_scan_char(shapes: Seq<Shape>, idxs: Seq<usize>, r: Ray, tmin: int, tmax: int)
    ensures
        spec_scan_seq(shapes, idxs, r, tmin, tmax) is None ==> forall|k: int|
            0 <= k < idxs.len() ==> #[trigger] spec_solo_t(shapes, idxs[k], r, tmin, tmax)
                is None,
        match spec_scan_seq(shapes, idxs, r, tmin, tmax) {
            Some(h) => tmin <= h.t <= tmax && (exists|k: int|
                0 <= k < idxs.len() && #[trigger] spec_solo_t(shapes, idxs[k], r, tmin, tmax)
                    == Some(h.t as int)) && (forall|k: int|
                0 <= k < idxs.len() ==> match #[trigger] spec_solo_t(
                    shapes,
                    idxs[k],
                    r,
                    tmin,
                    tmax,
                ) {
                    Some(t) => t >= h.t as int,
                    None => true,
                }),
            None => true,
        },
    decreases idxs.len(),
{
    if idxs.len() > 0 {
        let rest = idxs.drop_last();
        lemma_scan_char(shapes, rest, r, tmin, tmax);
        let prev = spec_scan_seq(shapes, rest, r, tmin, tmax);
        let bound = match prev {
            Some(h) => h.t as int,
            None => tmax,
        };
        let x = idxs.last();
        lemma_shape_hit_narrow(shapes[x as int], r, tmin, bound, tmax);
        assert(idxs[idxs.len() - 1] == x);
        assert(forall|k: int| 0 <= k < idxs.len() - 1 ==> idxs[k] == rest[k]);
        match spec_scan_seq(shapes, idxs, r, tmin, tmax) {
            Some(h) => {
                if spec_shape_hit(shapes[x as int], r, tmin, bound) is Some {
                    assert(spec_solo_t(shapes, idxs[idxs.len() - 1], r, tmin, tmax) == Some(
                        h.t as int,
                    ));
                } else {
                    let hp = prev->Some_0;
                    let kp = choose|k: int|
                        0 <= k < rest.len() && #[trigger] spec_solo_t(shapes, rest[k], r, tmin, tmax)
                            == Some(hp.t as int);
                    assert(spec_solo_t(shapes, idxs[kp], r, tmin, tmax) == Some(h.t as int));
                }
            },
            None => {},
        }
    }
}

/// The `t` a scan returns does not depend on the order of the indices
/// scanned: two index sequences with equal multisets give equal results.
pub proof fn lemma_scan_t_permutation(
    shapes: Seq<Shape>,
    p: Seq<usize>,
    q: Seq<usize>,
    r: Ray,
    tmin: int,
    tmax: int,
)
    requires
        p.to_multiset() == q.to_multiset(),
    ensures
        spec_hit_t(spec_scan_seq(shapes, p, r, tmin, tmax)) == spec_hit_t(
            spec_scan_seq(shapes, q, r, tmin, tmax),
        ),
{
    broadcast use vstd::seq_lib::group_to_multiset_ensures;

    lemma_scan_char(shapes, p, r, tmin, tmax);
    lemma_scan_char(shapes, q, r, tmin, tmax);
    let sp = spec_scan_seq(shapes, p, r, tmin, tmax);
    let sq = spec_scan_seq(shapes, q, r, tmin, tmax);
    if sp is Some && sq is None {
        let h = sp->Some_0;
        let k = choose|k: int|
            0 <= k < p.len() && #[trigger] spec_solo_t(shapes, p[k], r, tmin, tmax) == Some(
                h.t as int,
            );
        assert(p.contains(p[k]));
        assert(p.to_multiset().count(p[k]) > 0);
        assert(q.to_multiset().count(p[k]) > 0);
        assert(q.contains(p[k]));
        let j = choose|j: int| 0 <= j < q.len() && q[j] == p[k];
        assert(spec_solo_t(shapes, q[j], r, tmin, tmax) is None);
    } else if sp is None && sq is Some {
        let h = sq->Some_0;
        let k = choose|k: int|
            0 <= k < q.len() && #[trigger] spec_solo_t(shapes, q[k], r, tmin, tmax) == Some(
                h.t as int,
            );
        assert(q.contains(q[k]));
        assert(q.to_multiset().count(q[k]) > 0);
        assert(p.to_multiset().count(q[k]) > 0);
        assert(p.contains(q[k]));
        let j = choose|j: int| 0 <= j < p.len() && p[j] == q[k];
        assert(spec_solo_t(shapes, p[j], r, tmin, tmax) is None);
    } else if sp is Some && sq is Some {
        let hp = sp->Some_0;
        let hq = sq->Some_0;
        let kp = choose|k: int|
            0 <= k < p.len() && #[trigger] spec_solo_t(shapes, p[k], r, tmin, tmax) == Some(
                hp.t as int,
            );
        assert(p.contains(p[kp]));
        assert(p.to_multiset().count(p[kp]) > 0);
        assert(q.to_multiset().count(p[kp]) > 0);
        assert(q.contains(p[kp]));
        let jq = choose|j: int| 0 <= j < q.len() && q[j] == p[kp];
        assert(spec_solo_t(shapes, q[jq], r, tmin, tmax) == Some(hp.t as int));
        assert(hp.t as int >= hq.t as int);
        let kq = choose|k: int|
            0 <= k < q.len() && #[trigger] spec_solo_t(shapes, q[k], r, tmin, tmax) == Some(
                hq.t as int,
            );
        assert(q.contains(q[kq]));
        assert(q.to_multiset().count(q[kq]) > 0);
        assert(p.to_multiset().count(q[kq]) > 0);
        assert(p.contains(q[kq]));
        let jp = choose|j: int| 0 <= j < p.len() && p[j] == q[kq];
        assert(spec_solo_t(shapes, p[jp], r, tmin, tmax) == Some(hq.t as int));
        assert(hq.t as int >= hp.t as int);
    }
}

/// The union of the boxes of the first `i` shapes, seeded (as the linear
/// fold is) with the first shape's box.
pub open spec fn spec_objects_bbox(shapes: Seq<Shape>, i: int) -> Aabb
    decreases i,
{
    if i <= 0 {
        spec_shape_bbox(shapes[0])
    } else {
        spec_union(spec_objects_bbox(shapes, i - 1), spec_shape_bbox(shapes[i - 1]))
    }
}

impl Objects {
    /// Intersect a world-space ray with every shape in order, keeping the
    /// nearest accepted hit.
    pub fn hit(&self, ray: &Ray, t_min: i64, t_max: i64) -> (res: Option<Hit>)
        ensures
            res == spec_objects_hit(*self, *ray, t_min as int, t_max as int),
    {
        let mut rec: Option<Hit> = None;
        let mut closest_so_far: i64 = t_max;
        let n = self.0.len();
        let mut i: usize = 0;
        while i < n
            invariant
                i <= n,
                n == self.0@.len(),
                rec == spec_scan_hit(self.0@, *ray, t_min as int, t_max as int, i as int),
                closest_so_far as int == match rec {
                    Some(h) => h.t as int,
                    None => t_max as int,
                },
            decreases n - i,
        {
            let object = &self.0[i];
            if let Some(new_rec) = object.hit(ray, t_min, closest_so_far) {
                closest_so_far = new_rec.t;
                rec = Some(new_rec);
            }
            i = i + 1;
        }
        rec
    }

    /// The union of every shape's bounding box.
    pub fn bounding_box(&self) -> (r: Aabb)
        requires
            self.0@.len() > 0,
        ensures
            r == spec_objects_bbox(self.0@, self.0@.len() as int),
    {
        let mut acc = self.0[0].bounding_box();
        let n = self.0.len();
        let mut i: usize = 0;
        while i < n
            invariant
                i <= n,
                n == self.0@.len(),
                n > 0,
                acc == spec_objects_bbox(self.0@, i as int),
            decreases n - i,
        {
            let b = self.0[i].bounding_box();
            acc = surrounding_box(acc, b);
            i = i + 1;
        }
        acc
    }

    /// Order two collections by their aggregate boxes' minimum coordinate on
    /// axis `axis`.
    pub fn compare(&self, other: &Objects, axis: usize) -> (r: Ordering)
        requires
            axis < 3,
            self.0@.len() > 0,
            other.0@.len() > 0,
        ensures
            r == spec_aabb_compare(
                spec_objects_bbox(self.0@, self.0@.len() as int),
                spec_objects_bbox(other.0@, other.0@.len() as int),
                axis as int,
            ),
    {
        let a = self.bounding_box();
        let b = other.bounding_box();
        a.compare(&b, axis)
    }

    /// The number of shapes.
    pub fn len(&self) -> (r: usize)
        ensures
            r == self.0@.len(),
    {
        self.0.len()
    }
}

impl Default for Objects {
    /// The empty scene.
    fn default() -> (r: Objects)
        ensures
            r.0@ =~= Seq::<Shape>::empty(),
    {
        Objects(Vec::new())
    }
}

} // verus!
