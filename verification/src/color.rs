//! Additive RGB colour accumulator in fixed point.  Channels are not
//! clamped while accumulating; clamping happens at image-write time.

use vstd::prelude::*;

verus! {

#[derive(Clone, Copy, Debug)]
pub struct Color {
    pub r: i128,
    pub g: i128,
    pub b: i128,
}

impl View for Color {
    type V = (int, int, int);

    open spec fn view(&self) -> (int, int, int) {
        (self.r as int, self.g as int, self.b as int)
    }
}

pub open spec fn c_bounded(c: (int, int, int), m: int) -> bool {
    &&& -m <= c.0 <= m
    &&& -m <= c.1 <= m
    &&& -m <= c.2 <= m
}

pub open spec fn c_add(a: (int, int, int), b: (int, int, int)) -> (int, int, int) {
    (a.0 + b.0, a.1 + b.1, a.2 + b.2)
}

/// Channels of a display colour lie in [0, 1]: used of scene colours,
/// not of the running pixel accumulator.
pub open spec fn c_unit(c: (int, int, int)) -> bool {
    &&& 0 <= c.0 <= 65536
    &&& 0 <= c.1 <= 65536
    &&& 0 <= c.2 <= 65536
}

} // verus!
