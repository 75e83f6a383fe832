//! A ray: an origin and a direction.  Directions are kept near unit
//! length by the tracing loop so the geometric formulas stay in range.

use vstd::prelude::*;
use crate::vector::Vector;

verus! {

#[derive(Clone, Copy, Debug)]
pub struct Ray {
    pub position: Vector,
    pub direction: Vector,
}

} // verus!
