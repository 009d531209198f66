use vstd::prelude::*;

verus! {

/// An unsigned pair of coordinates, in pixels or in tiles.
#[derive(Debug, Default, Clone, Copy, PartialEq, Eq, Structural)]
pub struct UVec2 {
    pub x: u32,
    pub y: u32,
}

impl UVec2 {
    pub fn new(x: u32, y: u32) -> (r: UVec2)
        ensures
            r.x == x,
            r.y == y,
    {
        UVec2 { x, y }
    }
}

/// A signed pair of pixel coordinates, which may lie outside the grid.
#[derive(Debug, Default, Clone, Copy, PartialEq, Eq, Structural)]
pub struct IVec2 {
    pub x: i64,
    pub y: i64,
}

/// An axis-aligned rectangle in world units; `left <= right` and `bottom <= top`
/// for a rectangle that was derived from a tile or a pattern.
#[derive(Debug, Default, Clone, Copy, PartialEq, Eq, Structural)]
pub struct TileRect {
    pub left: i32,
    pub right: i32,
    pub top: i32,
    pub bottom: i32,
}

/// Which corner of another rectangle lies strictly inside a rectangle, with the
/// distances from that corner to the two edges of the containing rectangle
/// that lie across from it.
#[derive(Debug, Clone, Copy, PartialEq, Eq, Structural)]
pub enum CornerContained {
    NotContained,
    BottomLeft { units_right: u32, units_up: u32 },
    BottomRight { units_left: u32, units_up: u32 },
    TopLeft { units_right: u32, units_down: u32 },
    TopRight { units_left: u32, units_down: u32 },
}

pub open spec fn strictly_between(v: int, lo: int, hi: int) -> bool {
    lo < v && v < hi
}

impl CornerContained {
    /// Every distance divided by the scale of its axis.
    pub open spec fn scaled_spec(self, scale_x: int, scale_y: int) -> CornerContained {
        match self {
            CornerContained::NotContained => CornerContained::NotContained,
            CornerContained::BottomLeft { units_right, units_up } => CornerContained::BottomLeft {
                units_right: (units_right as int / scale_x) as u32,
                units_up: (units_up as int / scale_y) as u32,
            },
            CornerContained::BottomRight { units_left, units_up } => CornerContained::BottomRight {
                units_left: (units_left as int / scale_x) as u32,
                units_up: (units_up as int / scale_y) as u32,
            },
            CornerContained::TopLeft { units_right, units_down } => CornerContained::TopLeft {
                units_right: (units_right as int / scale_x) as u32,
                units_down: (units_down as int / scale_y) as u32,
            },
            CornerContained::TopRight { units_left, units_down } => CornerContained::TopRight {
                units_left: (units_left as int / scale_x) as u32,
                units_down: (units_down as int / scale_y) as u32,
            },
        }
    }
}

impl TileRect {
    pub open spec fn is_valid(self) -> bool {
        self.left <= self.right && self.bottom <= self.top
    }

    /// The open interiors of the two rectangles share a point.
    pub open spec fn interiors_overlap(self, other: TileRect) -> bool {
        other.left < self.right && self.left < other.right && other.bottom < self.top
            && self.bottom < other.top
    }

    /// The corner of `other` that lies strictly inside `self`. Top is tested
    /// before bottom and left before right, so a rectangle that lies wholly
    /// inside reports its top-left corner.
    pub open spec fn corner_spec(self, other: TileRect) -> CornerContained {
        let top_in = strictly_between(other.top as int, self.bottom as int, self.top as int);
        let bottom_in = strictly_between(other.bottom as int, self.bottom as int, self.top as int);
        let left_in = strictly_between(other.left as int, self.left as int, self.right as int);
        let right_in = strictly_between(other.right as int, self.left as int, self.right as int);
        if top_in && left_in {
            CornerContained::TopLeft {
                units_right: (self.right - other.left) as u32,
                units_down: (other.top - self.bottom) as u32,
            }
        } else if top_in && right_in {
            CornerContained::TopRight {
                units_left: (other.right - self.left) as u32,
                units_down: (other.top - self.bottom) as u32,
            }
        } else if bottom_in && left_in {
            CornerContained::BottomLeft {
                units_right: (self.right - other.left) as u32,
                units_up: (self.top - other.bottom) as u32,
            }
        } else if bottom_in && right_in {
            CornerContained::BottomRight {
                units_left: (other.right - self.left) as u32,
                units_up: (self.top - other.bottom) as u32,
            }
        } else {
            CornerContained::NotContained
        }
    }

    /// Whether some edge of `other` lies strictly inside `self` on both
    /// axes: a vertical edge strictly between `self`'s left and right, and a
    /// horizontal edge strictly between its bottom and top. An edge lying on
    /// one of `self`'s edges does not count.
    pub open spec fn is_other_inside_spec(self, other: TileRect) -> bool {
        (strictly_between(other.left as int, self.left as int, self.right as int)
            || strictly_between(other.right as int, self.left as int, self.right as int))
            && (strictly_between(other.bottom as int, self.bottom as int, self.top as int)
            || strictly_between(other.top as int, self.bottom as int, self.top as int))
    }

    /// Tells whether a corner of `other` lies strictly inside this rectangle.
    pub fn is_other_inside(&self, other: &TileRect) -> (r: bool)
        ensures
            r == self.is_other_inside_spec(*other),
            r == (self.corner_spec(*other) != CornerContained::NotContained),
    {
        ((self.left < other.left && other.left < self.right) || (self.left < other.right
            && other.right < self.right)) && ((self.bottom < other.bottom && other.bottom
            < self.top) || (self.bottom < other.top && other.top < self.top))
    }

    /// Which corner of `other` lies strictly inside this rectangle, and how far it
    /// is from this rectangle's opposite edges. A corner on an edge does not count.
    pub fn contains_corner(&self, other: &TileRect) -> (r: CornerContained)
        ensures
            r == self.corner_spec(*other),
    {
        let top_in = self.bottom < other.top && other.top < self.top;
        let bottom_in = self.bottom < other.bottom && other.bottom < self.top;
        let left_in = self.left < other.left && other.left < self.right;
        let right_in = self.left < other.right && other.right < self.right;
        if top_in && left_in {
            CornerContained::TopLeft {
                units_right: (self.right as i64 - other.left as i64) as u32,
                units_down: (other.top as i64 - self.bottom as i64) as u32,
            }
        } else if top_in && right_in {
            CornerContained::TopRight {
                units_left: (other.right as i64 - self.left as i64) as u32,
                units_down: (other.top as i64 - self.bottom as i64) as u32,
            }
        } else if bottom_in && left_in {
            CornerContained::BottomLeft {
                units_right: (self.right as i64 - other.left as i64) as u32,
                units_up: (self.top as i64 - other.bottom as i64) as u32,
            }
        } else if bottom_in && right_in {
            CornerContained::BottomRight {
                units_left: (other.right as i64 - self.left as i64) as u32,
                units_up: (self.top as i64 - other.bottom as i64) as u32,
            }
        } else {
            CornerContained::NotContained
        }
    }

    /// Like `contains_corner`, with each distance divided by the scale of its
    /// axis, which turns world units into unscaled units.
    pub fn contains_corner_scaled(&self, scale_x: u32, scale_y: u32, other: &TileRect) -> (r:
        CornerContained)
        requires
            scale_x > 0,
            scale_y > 0,
        ensures
            r == self.corner_spec(*other).scaled_spec(scale_x as int, scale_y as int),
    {
        match self.contains_corner(other) {
            CornerContained::NotContained => CornerContained::NotContained,
            CornerContained::BottomLeft { units_right, units_up } => CornerContained::BottomLeft {
                units_right: units_right / scale_x,
                units_up: units_up / scale_y,
            },
            CornerContained::BottomRight { units_left, units_up } => CornerContained::BottomRight {
                units_left: units_left / scale_x,
                units_up: units_up / scale_y,
            },
            CornerContained::TopLeft { units_right, units_down } => CornerContained::TopLeft {
                units_right: units_right / scale_x,
                units_down: units_down / scale_y,
            },
            CornerContained::TopRight { units_left, units_down } => CornerContained::TopRight {
                units_left: units_left / scale_x,
                units_down: units_down / scale_y,
            },
        }
    }
}

/// A rectangle never reports a contained corner of a valid rectangle whose box
/// does not strictly overlap its interior.
pub proof fn lemma_no_overlap_no_corner(a: TileRect, b: TileRect)
    requires
        b.is_valid(),
        !a.interiors_overlap(b),
    ensures
        a.corner_spec(b) == CornerContained::NotContained,
{
}

} // verus!
