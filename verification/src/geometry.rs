//! Axis-aligned boxes in fixed-point world coordinates and the overlap test
//! that tells which face of a box another box has struck.

use vstd::prelude::*;

verus! {

/// A point, extent or velocity in world coordinates. One world unit is
/// `UNIT` steps of the integer grid.
#[derive(Clone, Copy, Debug, PartialEq, Eq, Structural)]
pub struct Vector2 {
    pub x: i64,
    pub y: i64,
}

/// Grid steps per world unit.
pub const UNIT: i64 = 1000;

/// The face of the second box that the first box has struck: `Left` when the
/// first box sits to the left of the second, `Top` when it sits above it.
#[derive(Clone, Copy, Debug, PartialEq, Eq, Structural)]
pub enum Side {
    Left,
    Right,
    Top,
    Bottom,
}

/// An axis-aligned bounding box given by its centre and its full extent.
#[derive(Clone, Copy, Debug, PartialEq, Eq, Structural)]
pub struct Aabb {
    pub center: Vector2,
    pub size: Vector2,
}

/// Twice the penetration depth of two intervals with the given centres and
/// widths: positive exactly when the intervals share more than a boundary
/// point.
pub open spec fn doubled_depth(center_a: int, width_a: int, center_b: int, width_b: int) -> int {
    if center_a >= center_b {
        width_a + width_b - 2 * (center_a - center_b)
    } else {
        width_a + width_b - 2 * (center_b - center_a)
    }
}

impl Aabb {
    /// Width and height are non-negative.
    pub open spec fn wf(self) -> bool {
        self.size.x >= 0 && self.size.y >= 0
    }

    /// Twice the horizontal penetration depth of `self` into `other`.
    pub open spec fn depth_x(self, other: Aabb) -> int {
        doubled_depth(
            self.center.x as int,
            self.size.x as int,
            other.center.x as int,
            other.size.x as int,
        )
    }

    /// Twice the vertical penetration depth of `self` into `other`.
    pub open spec fn depth_y(self, other: Aabb) -> int {
        doubled_depth(
            self.center.y as int,
            self.size.y as int,
            other.center.y as int,
            other.size.y as int,
        )
    }

    /// The boxes penetrate each other on both axes. Boxes that merely touch
    /// along a face do not overlap.
    pub open spec fn overlaps(self, other: Aabb) -> bool {
        self.depth_x(other) > 0 && self.depth_y(other) > 0
    }

    /// The face of `other` that `self` has struck, if the boxes overlap.
    ///
    /// The axis with the smaller penetration depth decides; on equal depths
    /// the horizontal axis does, so the result is `Left` or `Right`. On the
    /// deciding axis the face is the one nearer to the centre of `self`; a
    /// box centred exactly on the other counts as coming from the right or
    /// from above.
    pub open spec fn struck_side(self, other: Aabb) -> Option<Side> {
        if !self.overlaps(other) {
            None
        } else if self.depth_y(other) < self.depth_x(other) {
            if self.center.y < other.center.y {
                Some(Side::Bottom)
            } else {
                Some(Side::Top)
            }
        } else {
            if self.center.x < other.center.x {
                Some(Side::Left)
            } else {
                Some(Side::Right)
            }
        }
    }

    /// Builds a box, refusing a negative width or height.
    pub fn new(center: Vector2, size: Vector2) -> (made: Option<Aabb>)
        ensures
            made == if size.x >= 0 && size.y >= 0 {
                Some(Aabb { center, size })
            } else {
                None
            },
            made matches Some(aabb) ==> aabb.wf(),
    {
        if size.x >= 0 && size.y >= 0 {
            Some(Aabb { center, size })
        } else {
            None
        }
    }
}

/// Computes `doubled_depth` without overflow.
fn doubled_depth_of(center_a: i64, width_a: i64, center_b: i64, width_b: i64) -> (depth: i128)
    ensures
        depth == doubled_depth(center_a as int, width_a as int, center_b as int, width_b as int),
{
    let widths: i128 = width_a as i128 + width_b as i128;
    let apart: i128 = if center_a >= center_b {
        center_a as i128 - center_b as i128
    } else {
        center_b as i128 - center_a as i128
    };
    widths - 2 * apart
}

/// Tests two boxes for overlap and reports the face of `b` that `a` struck.
pub fn test_overlap(a: Aabb, b: Aabb) -> (side: Option<Side>)
    ensures
        side == a.struck_side(b),
{
    let depth_x: i128 = doubled_depth_of(a.center.x, a.size.x, b.center.x, b.size.x);
    let depth_y: i128 = doubled_depth_of(a.center.y, a.size.y, b.center.y, b.size.y);
    if depth_x <= 0 || depth_y <= 0 {
        None
    } else if depth_y < depth_x {
        if a.center.y < b.center.y {
            Some(Side::Bottom)
        } else {
            Some(Side::Top)
        }
    } else {
        if a.center.x < b.center.x {
            Some(Side::Left)
        } else {
            Some(Side::Right)
        }
    }
}

/// Two boxes overlap whichever of them is asked first.
pub proof fn lemma_overlap_symmetric(a: Aabb, b: Aabb)
    ensures
        a.overlaps(b) == b.overlaps(a),
        a.struck_side(b).is_some() == b.struck_side(a).is_some(),
        a.struck_side(b).is_some() == a.overlaps(b),
{
}

} // verus!
