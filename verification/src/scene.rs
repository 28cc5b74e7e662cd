//! The world: everything the renderer reads, built once and immutable for
//! the whole render.

use vstd::prelude::*;

use crate::bvh::{spec_node_wf, Node};
use crate::camera::Camera;
use crate::geom::Color;
use crate::light::Light;
use crate::object::Objects;

verus! {

/// The scene: camera, the hierarchy over the primitive list, the primitive
/// list itself, the lights, the ambient color, the point-light attenuation
/// triple (constant, linear, quadratic) and the recursion depth limit.
pub struct World {
    pub camera: Camera,
    pub bvh_node: Node,
    pub objects: Objects,
    pub lights: Vec<Light>,
    pub ambient: Color,
    pub attenuation: (i64, i64, i64),
    pub max_depth: i32,
}

/// The hierarchy indexes the primitive list correctly.
pub open spec fn spec_world_wf(w: World) -> bool {
    spec_node_wf(w.bvh_node, w.objects.0@)
}

impl World {
    /// Assemble a world: the hierarchy is built here, once, over all
    /// primitive indices in order.
    pub fn new(
        camera: Camera,
        objects: Objects,
        lights: Vec<Light>,
        ambient: Color,
        attenuation: (i64, i64, i64),
        max_depth: i32,
    ) -> (r: World)
        ensures
            spec_world_wf(r),
            crate::bvh::spec_leaves(r.bvh_node).to_multiset()
                == crate::object::spec_identity_idxs(objects.0@.len() as int).to_multiset(),
            r.camera == camera,
            r.objects.0@ == objects.0@,
            r.lights@ == lights@,
            r.ambient == ambient,
            r.attenuation == attenuation,
            r.max_depth == max_depth,
    {
        let n = objects.len();
        let mut indices: Vec<usize> = Vec::new();
        let mut k: usize = 0;
        while k < n
            invariant
                k <= n,
                indices@.len() == k,
                forall|j: int| 0 <= j < indices@.len() ==> (#[trigger] indices@[j]) == j,
            decreases n - k,
        {
            indices.push(k);
            k = k + 1;
        }
        proof {
            assert(indices@ =~= crate::object::spec_identity_idxs(objects.0@.len() as int));
        }
        let bvh_node = Node::new(&objects, indices, 0);
        World { camera, bvh_node, objects, lights, ambient, attenuation, max_depth }
    }
}

} // verus!
