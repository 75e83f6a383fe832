//! A point light: a position and a colour, with no distance falloff.

use vstd::prelude::*;
use crate::vector::Vector;
use crate::vector::v_bounded;
use crate::color::Color;
use crate::color::c_unit;

verus! {

/// Magnitude bound on world coordinates of a well-formed scene (2^45).
pub const COORD_LIMIT: i128 = 35184372088832;

#[derive(Clone, Copy, Debug)]
pub struct Light {
    pub position: Vector,
    pub color: Color,
}

pub open spec fn light_wf(l: Light) -> bool {
    &&& v_bounded(l.position@, COORD_LIMIT as int)
    &&& c_unit(l.color@)
}

} // verus!
