//! The result of a ray-primitive intersection test.  `normal` and
//! `position` carry meaning only when `success` holds.

use vstd::prelude::*;
use crate::vector::Vector;

verus! {

#[derive(Clone, Copy, Debug)]
pub struct Intersection {
    pub t: i128,
    pub success: bool,
    pub normal: Vector,
    pub position: Vector,
}

} // verus!
