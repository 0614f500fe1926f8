//! Axis-aligned boxes in world coordinates.
use vstd::prelude::*;

verus! {

/// An axis-aligned box, from its lower-left corner `(min_x, min_y)` to its
/// upper-right corner `(max_x, max_y)`, both included.
#[derive(Clone, Copy, Debug, PartialEq, Eq, Structural)]
pub struct Aabb {
    pub min_x: i64,
    pub min_y: i64,
    pub max_x: i64,
    pub max_y: i64,
}

impl Aabb {
    /// The two boxes share at least one point (touching edges count).
    pub open spec fn touches(self, other: Aabb) -> bool {
        &&& self.min_x <= other.max_x
        &&& other.min_x <= self.max_x
        &&& self.min_y <= other.max_y
        &&& other.min_y <= self.max_y
    }

    /// The two boxes overlap over a region of nonzero area.
    pub open spec fn overlaps_with_area(self, other: Aabb) -> bool {
        &&& self.min_x < other.max_x
        &&& other.min_x < self.max_x
        &&& self.min_y < other.max_y
        &&& other.min_y < self.max_y
    }

    /// Whether the two boxes share at least one point.
    pub fn intersects(&self, other: &Aabb) -> (r: bool)
        ensures
            r == self.touches(*other),
    {
        self.min_x <= other.max_x && other.min_x <= self.max_x && self.min_y <= other.max_y
            && other.min_y <= self.max_y
    }
}

} // verus!
