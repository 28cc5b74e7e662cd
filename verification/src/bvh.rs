//! The bounding-volume hierarchy: a binary tree over primitive indices,
//! built once by recursive mean splits and traversed for nearest-hit
//! queries.

use vstd::prelude::*;
use vstd::seq_lib::lemma_multiset_commutative;

use core::cmp::Ordering;
use crate::aabb::{spec_aabb_hit, spec_union, surrounding_box, Aabb};
use crate::fixed;
use crate::geom::{Ray, Vec3};
use crate::object::{lemma_scan_all_miss, lemma_scan_concat, spec_scan_seq, spec_shape_bbox, spec_shape_hit, Hit, Objects, Shape};

verus! {

/// A node of the hierarchy: an internal branch with the union of its
/// children's boxes, a leaf holding one primitive index and that primitive's
/// box, or the empty tree (only for a scene with no geometry).
#[derive(Debug)]
pub enum Node {
    Branch { left: Box<Node>, right: Box<Node>, bbox: Aabb },
    Leaf { shape_index: usize, bbox: Aabb },
    Empty,
}

/// The node's bounding box; the empty tree reports the degenerate box at the
/// origin.
pub open spec fn spec_node_bbox(n: Node) -> Aabb {
    match n {
        Node::Branch { left: _, right: _, bbox } => bbox,
        Node::Leaf { shape_index: _, bbox } => bbox,
        Node::Empty => Aabb {
            box_min: Vec3 { x: 0, y: 0, z: 0 },
            box_max: Vec3 { x: 0, y: 0, z: 0 },
        },
    }
}

/// The primitive indices at the tree's leaves, left to right.
pub open spec fn spec_leaves(n: Node) -> Seq<usize>
    decreases n,
{
    match n {
        Node::Branch { left, right, bbox: _ } => spec_leaves(*left) + spec_leaves(*right),
        Node::Leaf { shape_index, bbox: _ } => seq![shape_index],
        Node::Empty => Seq::empty(),
    }
}

/// Well-formed over a primitive list: every leaf's index is in bounds and its
/// box is that primitive's box; every branch's box is the union of its
/// children's.
pub open spec fn spec_node_wf(n: Node, shapes: Seq<Shape>) -> bool
    decreases n,
{
    match n {
        Node::Branch { left, right, bbox } => spec_node_wf(*left, shapes) && spec_node_wf(
            *right,
            shapes,
        ) && bbox == spec_union(spec_node_bbox(*left), spec_node_bbox(*right)),
        Node::Leaf { shape_index, bbox } => shape_index < shapes.len() && bbox == spec_shape_bbox(
            shapes[shape_index as int],
        ),
        Node::Empty => true,
    }
}

/// The traversal's answer: nothing if the node's own box rejects the ray;
/// for a branch, the left answer tightens the right query's upper bound, and
/// a right answer is preferred (it was found under the tighter bound); for a
/// leaf, the primitive's own intersection routine decides.
pub open spec fn spec_node_hit(n: Node, shapes: Seq<Shape>, r: Ray, tmin: int, tmax: int) -> Option<
    Hit,
>
    decreases n,
{
    if !spec_aabb_hit(spec_node_bbox(n), r, tmin, tmax) {
        None
    } else {
        match n {
            Node::Branch { left, right, bbox: _ } => {
                let left_rec = spec_node_hit(*left, shapes, r, tmin, tmax);
                let bound = match left_rec {
                    Some(h) => h.t as int,
                    None => tmax,
                };
                let right_rec = spec_node_hit(*right, shapes, r, tmin, bound);
                match right_rec {
                    Some(h) => Some(h),
                    None => left_rec,
                }
            },
            Node::Leaf { shape_index, bbox: _ } => spec_shape_hit(
                shapes[shape_index as int],
                r,
                tmin,
                tmax,
            ),
            Node::Empty => None,
        }
    }
}

/// Pushing one element onto either side of a two-sided partition inserts it
/// into the combined multiset.
proof fn lemma_ms_push(a: Seq<usize>, b: Seq<usize>, t: Seq<usize>, x: usize)
    requires
        a.to_multiset().add(b.to_multiset()) =~= t.to_multiset(),
    ensures
        a.push(x).to_multiset().add(b.to_multiset()) =~= t.push(x).to_multiset(),
        a.to_multiset().add(b.push(x).to_multiset()) =~= t.push(x).to_multiset(),
{
    broadcast use vstd::seq_lib::group_to_multiset_ensures;
    broadcast use vstd::multiset::group_multiset_axioms;

    assert(a.push(x).to_multiset() =~= a.to_multiset().insert(x));
    assert(b.push(x).to_multiset() =~= b.to_multiset().insert(x));
    assert(t.push(x).to_multiset() =~= t.to_multiset().insert(x));
}

impl Node {
    /// The node's bounding box.
    pub fn bbox(&self) -> (r: Aabb)
        ensures
            r == spec_node_bbox(*self),
    {
        match self {
            Node::Leaf { shape_index: _, bbox } => *bbox,
            Node::Branch { left: _, right: _, bbox } => *bbox,
            Node::Empty => Aabb {
                box_min: Vec3 { x: 0, y: 0, z: 0 },
                box_max: Vec3 { x: 0, y: 0, z: 0 },
            },
        }
    }

    /// Build the tree over the given primitive indices, splitting on `axis`
    /// first. Every index given lands in exactly one leaf: the leaf indices
    /// are a permutation of `indices`.
    pub fn new(objects: &Objects, indices: Vec<usize>, axis: usize) -> (r: Node)
        requires
            axis < 3,
            forall|k: int| 0 <= k < indices@.len() ==> (#[trigger] indices@[k]) < objects.0@.len(),
        ensures
            spec_node_wf(r, objects.0@),
            spec_leaves(r).to_multiset() == indices@.to_multiset(),
        decreases indices@.len(),
    {
        broadcast use vstd::seq_lib::group_to_multiset_ensures;

        let n = indices.len();
        if n == 0 {
            proof {
                assert(indices@ =~= Seq::<usize>::empty());
            }
            Node::Empty
        } else if n == 1 {
            let i = indices[0];
            let bbox = self::shape_box(objects, i);
            proof {
                assert(indices@ =~= Seq::<usize>::empty().push(i));
                assert(seq![i] =~= Seq::<usize>::empty().push(i));
            }
            Node::Leaf { shape_index: i, bbox }
        } else if n == 2 {
            let i0 = indices[0];
            let i1 = indices[1];
            let first_bbox = self::shape_box(objects, i0);
            let second_bbox = self::shape_box(objects, i1);
            let (f, s, fb, sb) = match first_bbox.compare(&second_bbox, axis) {
                Ordering::Less => (i0, i1, first_bbox, second_bbox),
                _ => (i1, i0, second_bbox, first_bbox),
            };
            let node = Node::Branch {
                left: Box::new(Node::Leaf { shape_index: f, bbox: fb }),
                right: Box::new(Node::Leaf { shape_index: s, bbox: sb }),
                bbox: surrounding_box(fb, sb),
            };
            proof {
                assert(spec_node_wf(Node::Leaf { shape_index: f, bbox: fb }, objects.0@));
                assert(spec_node_wf(Node::Leaf { shape_index: s, bbox: sb }, objects.0@));
                assert(spec_node_wf(node, objects.0@));
                assert(spec_leaves(Node::Leaf { shape_index: f, bbox: fb }) =~= seq![f]);
                assert(spec_leaves(Node::Leaf { shape_index: s, bbox: sb }) =~= seq![s]);
                assert(spec_leaves(node) =~= seq![f] + seq![s]);
                assert(seq![f] + seq![s] =~= Seq::<usize>::empty().push(f).push(s));
                assert(indices@ =~= Seq::<usize>::empty().push(i0).push(i1));
                assert(spec_leaves(node).to_multiset() =~= indices@.to_multiset());
            }
            node
        } else {
            // Mean of the boxes' minimum coordinate on the split axis.
            let mut sum: i64 = 0;
            let mut k: usize = 0;
            while k < n
                invariant
                    k <= n,
                    axis < 3,
                    n == indices@.len(),
                    forall|j: int|
                        0 <= j < indices@.len() ==> (#[trigger] indices@[j]) < objects.0@.len(),
                decreases n - k,
            {
                let v = self::shape_box(objects, indices[k]).box_min.comp(axis);
                sum = fixed::add(sum, v);
                k = k + 1;
            }
            let mean = fixed::div_count(sum, n as u64);

            // Partition: below the mean left, above right, ties to whichever
            // side is currently smaller.
            let mut l: Vec<usize> = Vec::new();
            let mut r: Vec<usize> = Vec::new();
            let mut k: usize = 0;
            while k < n
                invariant
                    k <= n,
                    axis < 3,
                    n == indices@.len(),
                    forall|j: int|
                        0 <= j < indices@.len() ==> (#[trigger] indices@[j]) < objects.0@.len(),
                    forall|j: int| 0 <= j < l@.len() ==> (#[trigger] l@[j]) < objects.0@.len(),
                    forall|j: int| 0 <= j < r@.len() ==> (#[trigger] r@[j]) < objects.0@.len(),
                    l@.len() + r@.len() == k,
                    l@.to_multiset().add(r@.to_multiset()) =~= indices@.take(k as int).to_multiset(),
                decreases n - k,
            {
                let idx = indices[k];
                let v = self::shape_box(objects, idx).box_min.comp(axis);
                let ghost pl = l@;
                let ghost pr = r@;
                let to_left = if v == mean {
                    l.len() < r.len()
                } else {
                    v < mean
                };
                if to_left {
                    l.push(idx);
                } else {
                    r.push(idx);
                }
                proof {
                    lemma_ms_push(pl, pr, indices@.take(k as int), idx);
                    assert(indices@.take(k as int + 1) =~= indices@.take(k as int).push(idx));
                }
                k = k + 1;
            }
            proof {
                assert(indices@.take(n as int) =~= indices@);
            }

            let (la, ra) = if l.len() == 0 || r.len() == 0 {
                // A degenerate partition (every coordinate landed on one side
                // of the rounded mean) falls back to a positional halving, so
                // the recursion always shrinks.
                let mut la: Vec<usize> = Vec::new();
                let mut ra: Vec<usize> = Vec::new();
                let half = n / 2;
                let mut k: usize = 0;
                while k < half
                    invariant
                        k <= half,
                        half < n,
                        n == indices@.len(),
                        forall|j: int|
                            0 <= j < indices@.len() ==> (#[trigger] indices@[j])
                                < objects.0@.len(),
                        la@ =~= indices@.take(k as int),
                    decreases half - k,
                {
                    la.push(indices[k]);
                    proof {
                        assert(indices@.take(k as int + 1) =~= indices@.take(k as int).push(
                            indices@[k as int],
                        ));
                    }
                    k = k + 1;
                }
                let mut k: usize = half;
                while k < n
                    invariant
                        half <= k <= n,
                        n == indices@.len(),
                        forall|j: int|
                            0 <= j < indices@.len() ==> (#[trigger] indices@[j])
                                < objects.0@.len(),
                        ra@ =~= indices@.subrange(half as int, k as int),
                    decreases n - k,
                {
                    ra.push(indices[k]);
                    proof {
                        assert(indices@.subrange(half as int, k as int + 1) =~= indices@.subrange(
                            half as int,
                            k as int,
                        ).push(indices@[k as int]));
                    }
                    k = k + 1;
                }
                proof {
                    assert(indices@.take(half as int) + indices@.subrange(half as int, n as int)
                        =~= indices@);
                    lemma_multiset_commutative(la@, ra@);
                }
                (la, ra)
            } else {
                (l, r)
            };
            proof {
                assert(la@.to_multiset().add(ra@.to_multiset()) =~= indices@.to_multiset());
            }

            let next_axis = (axis + 1) % 3;
            let left = Node::new(objects, la, next_axis);
            let right = Node::new(objects, ra, next_axis);
            let ghost gl = left;
            let ghost gr = right;
            let left_bbox = left.bbox();
            let right_bbox = right.bbox();
            let node = Node::Branch {
                left: Box::new(left),
                right: Box::new(right),
                bbox: surrounding_box(left_bbox, right_bbox),
            };
            proof {
                broadcast use vstd::multiset::group_multiset_axioms;

                assert(spec_node_wf(node, objects.0@));
                assert(spec_leaves(node) =~= spec_leaves(gl) + spec_leaves(gr));
                lemma_multiset_commutative(spec_leaves(gl), spec_leaves(gr));
            }
            node
        }
    }

    /// Traverse for the nearest hit in `[t_min, t_max]`: prune on this
    /// node's box, then search left before right, tightening the right
    /// query's upper bound to the left answer's `t`.
    pub fn hit(&self, objects: &Objects, ray: &Ray, t_min: i64, t_max: i64) -> (res: Option<Hit>)
        requires
            spec_node_wf(*self, objects.0@),
        ensures
            res == spec_node_hit(*self, objects.0@, *ray, t_min as int, t_max as int),
        decreases *self,
    {
        let own = self.bbox();
        if !own.hit(ray, t_min, t_max) {
            return None;
        }
        match self {
            Node::Branch { left, right, bbox: _ } => {
                let left_rec = left.hit(objects, ray, t_min, t_max);
                let t = if let Some(rec) = &left_rec {
                    rec.t
                } else {
                    t_max
                };
                let right_rec = right.hit(objects, ray, t_min, t);
                match right_rec {
                    Some(h) => Some(h),
                    None => left_rec,
                }
            },
            Node::Leaf { shape_index, bbox: _ } => {
                let s = &objects.0[*shape_index];
                s.hit(ray, t_min, t_max)
            },
            Node::Empty => None,
        }
    }
}

/// Every node's box test is conservative for this ray and lower bound:
/// whenever a box rejects an interval, every primitive under that node
/// misses the interval too. This is the soundness condition of the pruning;
/// rounding in the slab arithmetic can break it for rays that graze a box's
/// boundary.
pub open spec fn spec_box_conservative(n: Node, shapes: Seq<Shape>, r: Ray, tmin: int) -> bool
    decreases n,
{
    &&& forall|b: int|
        #![trigger spec_aabb_hit(spec_node_bbox(n), r, tmin, b)]
        !spec_aabb_hit(spec_node_bbox(n), r, tmin, b) ==> forall|k: int|
            0 <= k < spec_leaves(n).len() ==> spec_shape_hit(
                shapes[#[trigger] spec_leaves(n)[k] as int],
                r,
                tmin,
                b,
            ) is None
    &&& match n {
        Node::Branch { left, right, bbox: _ } => spec_box_conservative(*left, shapes, r, tmin)
            && spec_box_conservative(*right, shapes, r, tmin),
        _ => true,
    }
}

/// With conservative box tests, the traversal answers exactly as a linear
/// scan of its leaves, in leaf order: the same hit, not merely the same `t`.
pub proof fn lemma_node_hit_is_leaf_scan(
    n: Node,
    shapes: Seq<Shape>,
    r: Ray,
    tmin: int,
    tmax: int,
)
    requires
        spec_node_wf(n, shapes),
        spec_box_conservative(n, shapes, r, tmin),
    ensures
        spec_node_hit(n, shapes, r, tmin, tmax) == spec_scan_seq(
            shapes,
            spec_leaves(n),
            r,
            tmin,
            tmax,
        ),
    decreases n,
{
    if !spec_aabb_hit(spec_node_bbox(n), r, tmin, tmax) {
        assert forall|k: int| 0 <= k < spec_leaves(n).len() implies spec_shape_hit(
            shapes[#[trigger] spec_leaves(n)[k] as int],
            r,
            tmin,
            tmax,
        ) is None by {}
        lemma_scan_all_miss(shapes, spec_leaves(n), r, tmin, tmax);
    } else {
        match n {
            Node::Branch { left, right, bbox: _ } => {
                let left_rec = spec_node_hit(*left, shapes, r, tmin, tmax);
                let bound = match left_rec {
                    Some(h) => h.t as int,
                    None => tmax,
                };
                lemma_node_hit_is_leaf_scan(*left, shapes, r, tmin, tmax);
                lemma_node_hit_is_leaf_scan(*right, shapes, r, tmin, bound);
                lemma_scan_concat(
                    shapes,
                    spec_leaves(*left),
                    spec_leaves(*right),
                    r,
                    tmin,
                    tmax,
                );
            },
            Node::Leaf { shape_index, bbox: _ } => {
                let idxs = spec_leaves(n);
                assert(idxs =~= seq![shape_index]);
                assert(idxs.drop_last() =~= Seq::<usize>::empty());
                assert(spec_scan_seq(shapes, idxs.drop_last(), r, tmin, tmax) is None);
            },
            Node::Empty => {
                assert(spec_leaves(n).len() == 0);
            },
        }
    }
}

/// The hierarchy query and the linear scene scan find the same nearest `t`
/// (both hit, at one parameter, or both miss), for every ray, interval and
/// primitive list, whenever the tree's leaves cover the primitive list
/// exactly once each — as `Node::new` ensures — and its box tests are
/// conservative for the ray. That last hypothesis leaves out the rays on
/// which rounding in the slab arithmetic makes a box reject geometry it
/// holds.
pub proof fn lemma_query_matches_linear(
    n: Node,
    o: Objects,
    r: Ray,
    tmin: int,
    tmax: int,
)
    requires
        spec_node_wf(n, o.0@),
        spec_box_conservative(n, o.0@, r, tmin),
        o.0@.len() <= usize::MAX,
        spec_leaves(n).to_multiset() == crate::object::spec_identity_idxs(
            o.0@.len() as int,
        ).to_multiset(),
    ensures
        crate::object::spec_hit_t(spec_node_hit(n, o.0@, r, tmin, tmax))
            == crate::object::spec_hit_t(crate::object::spec_objects_hit(o, r, tmin, tmax)),
{
    lemma_node_hit_is_leaf_scan(n, o.0@, r, tmin, tmax);
    crate::object::lemma_scan_hit_is_scan_seq(o.0@, r, tmin, tmax, o.0@.len() as int);
    crate::object::lemma_scan_t_permutation(
        o.0@,
        spec_leaves(n),
        crate::object::spec_identity_idxs(o.0@.len() as int),
        r,
        tmin,
        tmax,
    );
}

/// The precomputed box of primitive number `i`.
fn shape_box(objects: &Objects, i: usize) -> (r: Aabb)
    requires
        i < objects.0@.len(),
    ensures
        r == spec_shape_bbox(objects.0@[i as int]),
{
    let s = &objects.0[i];
    s.bounding_box()
}

} // verus!
