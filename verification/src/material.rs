//! Surface material: diffuse colour, mirror reflection fraction, and the
//! Phong shininess exponent.

use vstd::prelude::*;
use crate::color::Color;
use crate::color::c_unit;
use crate::fixed::FX_ONE;

verus! {

#[derive(Clone, Copy, Debug)]
pub struct Material {
    pub diffuse: Color,
    /// Fraction of energy carried into the reflected ray, in [0, 1].
    pub reflection: i128,
    /// Phong shininess exponent.
    pub power: u32,
}

pub open spec fn material_wf(m: Material) -> bool {
    &&& c_unit(m.diffuse@)
    &&& 0 <= m.reflection <= FX_ONE
}

} // verus!
