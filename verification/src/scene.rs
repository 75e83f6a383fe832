//! The scene: primitives, lights, the eye position and the projection
//! plane offset.  Pure data, immutable during a render.

use vstd::prelude::*;
use crate::vector::Vector;
use crate::vector::v_bounded;
use crate::light::Light;
use crate::light::light_wf;
use crate::light::COORD_LIMIT;
use crate::object::Object;
use crate::object::obj_wf;

verus! {

pub struct Scene {
    pub objects: Vec<Object>,
    pub lights: Vec<Light>,
    pub eye: Vector,
    /// Camera z-offset of the projection plane.
    pub plane: i128,
}

/// A well-formed scene: bounded coordinates everywhere and collection
/// sizes the arithmetic bounds of the tracer accommodate.
pub open spec fn scene_wf(s: Scene) -> bool {
    &&& s.objects@.len() <= 4096
    &&& s.lights@.len() <= 4096
    &&& forall|i: int| 0 <= i < s.objects@.len() ==> obj_wf(#[trigger] s.objects@[i])
    &&& forall|i: int| 0 <= i < s.lights@.len() ==> light_wf(#[trigger] s.lights@[i])
    &&& v_bounded(s.eye@, COORD_LIMIT as int)
    &&& -COORD_LIMIT <= s.plane <= COORD_LIMIT
}

} // verus!
