//! The axis-aligned bounding rectangle of the simulation, centered at the
//! origin. Construction rejects non-positive sides, so every box in the
//! system satisfies the width/height invariant.

use vstd::prelude::*;
use crate::errors::ConfigurationError;

verus! {

/// Largest accepted side of the rectangle, in fixed point.
pub const MAX_DIM: i64 = 1_000_000_000;

/// An origin-centered rectangle with positive sides.
#[derive(Clone, Copy, PartialEq, Eq, Structural, Debug)]
pub struct BoundingBox {
    pub width: i64,
    pub height: i64,
}

impl BoundingBox {
    /// Positive in-range sides: what every constructed box satisfies.
    pub open spec fn wf(&self) -> bool {
        &&& 1 <= self.width <= MAX_DIM
        &&& 1 <= self.height <= MAX_DIM
    }

    /// Build a box, rejecting exactly the non-positive sides.
    pub fn new(width: i64, height: i64) -> (r: Result<BoundingBox, ConfigurationError>)
        requires
            width <= MAX_DIM,
            height <= MAX_DIM,
        ensures
            r is Ok <==> (width >= 1 && height >= 1),
            r matches Ok(b) ==> b == (BoundingBox { width, height }) && b.wf(),
            r matches Err(e) ==> e == ConfigurationError::NonPositiveBounds,
    {
        if width >= 1 && height >= 1 {
            Ok(BoundingBox { width, height })
        } else {
            Err(ConfigurationError::NonPositiveBounds)
        }
    }

    pub open spec fn spec_left(&self) -> int {
        -(self.width as int / 2)
    }

    pub open spec fn spec_right(&self) -> int {
        self.width as int / 2
    }

    pub open spec fn spec_bottom(&self) -> int {
        -(self.height as int / 2)
    }

    pub open spec fn spec_top(&self) -> int {
        self.height as int / 2
    }

    pub fn left(&self) -> (r: i64)
        requires
            self.wf(),
        ensures
            r == self.spec_left(),
    {
        -(self.width / 2)
    }

    pub fn right(&self) -> (r: i64)
        requires
            self.wf(),
        ensures
            r == self.spec_right(),
    {
        self.width / 2
    }

    pub fn bottom(&self) -> (r: i64)
        requires
            self.wf(),
        ensures
            r == self.spec_bottom(),
    {
        -(self.height / 2)
    }

    pub fn top(&self) -> (r: i64)
        requires
            self.wf(),
        ensures
            r == self.spec_top(),
    {
        self.height / 2
    }

    /// Twice the area of the box, exact in fixed-point square units.
    pub open spec fn spec_area_x2(&self) -> int {
        2 * (self.width as int) * (self.height as int)
    }
}

} // verus!
