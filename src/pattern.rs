use vstd::prelude::*;

use crate::geometry::{IVec2, UVec2};

verus! {

/// A brush: `size.x` by `size.y` RGBA pixels in row-major order. Row 0 is the
/// bottom row of the stamp, and rows go upwards.
#[derive(Debug)]
pub struct Pattern {
    pub size: UVec2,
    pub pattern_pixels: Vec<[u8; 4]>,
}

/// The pixels of the grid at the four corners of a pattern's footprint.
#[derive(Debug, Clone, Copy, PartialEq, Eq, Structural)]
pub struct PatternCorners {
    pub top_left: IVec2,
    pub top_right: IVec2,
    pub bottom_left: IVec2,
    pub bottom_right: IVec2,
}

impl Pattern {
    /// Both sides are at least one pixel and every pixel is present.
    pub open spec fn wf(self) -> bool {
        &&& self.size.x >= 1
        &&& self.size.y >= 1
        &&& self.pattern_pixels@.len() == self.size.x * self.size.y
    }

    /// Channel `c` of the pixel in column `i` and row `j`.
    pub open spec fn channel(self, i: int, j: int, c: int) -> u8 {
        self.pattern_pixels@[j * self.size.x + i][c]
    }

    /// A pattern with the given pixels whose size is not set yet.
    pub fn new(pattern_pixels: Vec<[u8; 4]>) -> (r: Pattern)
        ensures
            r.pattern_pixels@ == pattern_pixels@,
            r.size == (UVec2 { x: 0, y: 0 }),
    {
        Pattern { pattern_pixels, size: UVec2 { x: 0, y: 0 } }
    }

    /// The pencil's default brush, three by three pixels: black corners and
    /// centre, red edges.
    pub fn checkerboard() -> (r: Pattern)
        ensures
            r.wf(),
            r.size == (UVec2 { x: 3, y: 3 }),
            forall|i: int|
                0 <= i < 9 ==> #[trigger] r.pattern_pixels@[i] == if i % 2 == 0 {
                    [0u8, 0u8, 0u8, 255u8]
                } else {
                    [255u8, 0u8, 0u8, 255u8]
                },
    {
        let black: [u8; 4] = [0, 0, 0, 255];
        let red: [u8; 4] = [255, 0, 0, 255];
        let pattern_pixels = vec![black, red, black, red, black, red, black, red, black];
        Pattern { pattern_pixels, size: UVec2 { x: 3, y: 3 } }
    }

    /// Whether the pattern can be painted with.
    pub fn is_well_formed(&self) -> (r: bool)
        ensures
            r == self.wf(),
    {
        let w = self.size.x as u64;
        let h = self.size.y as u64;
        assert(w * h <= u64::MAX) by (nonlinear_arith)
            requires
                w <= u32::MAX,
                h <= u32::MAX,
        ;
        self.size.x >= 1 && self.size.y >= 1 && (self.size.x as u64) * (self.size.y as u64)
            == self.pattern_pixels.len() as u64
    }
}

/// The leftmost column that a pattern of width `w` centred on column `x` covers.
pub open spec fn footprint_left(x: int, w: int) -> int {
    x - w / 2
}

/// The bottom row that a pattern of height `h` centred on row `y` covers.
pub open spec fn footprint_bottom(y: int, h: int) -> int {
    y - h / 2
}

/// The rightmost column covered: `x + w / 2` for an odd width, one less for an
/// even one, so that the footprint is exactly `w` columns wide.
pub open spec fn footprint_right(x: int, w: int) -> int {
    footprint_left(x, w) + w - 1
}

/// The top row covered, `h` rows above the bottom one.
pub open spec fn footprint_top(y: int, h: int) -> int {
    footprint_bottom(y, h) + h - 1
}

pub open spec fn corners_spec(mouse_pixel: UVec2, size: UVec2) -> PatternCorners {
    let left = footprint_left(mouse_pixel.x as int, size.x as int) as i64;
    let right = footprint_right(mouse_pixel.x as int, size.x as int) as i64;
    let bottom = footprint_bottom(mouse_pixel.y as int, size.y as int) as i64;
    let top = footprint_top(mouse_pixel.y as int, size.y as int) as i64;
    PatternCorners {
        top_left: IVec2 { x: left, y: top },
        top_right: IVec2 { x: right, y: top },
        bottom_left: IVec2 { x: left, y: bottom },
        bottom_right: IVec2 { x: right, y: bottom },
    }
}

/// The corner pixels of a pattern of the given size centred on `mouse_pixel`.
/// They may lie outside the grid, on negative coordinates too.
pub fn pattern_corners(mouse_pixel: UVec2, size: UVec2) -> (r: PatternCorners)
    ensures
        r == corners_spec(mouse_pixel, size),
{
    let left = mouse_pixel.x as i64 - (size.x / 2) as i64;
    let right = left + size.x as i64 - 1;
    let bottom = mouse_pixel.y as i64 - (size.y / 2) as i64;
    let top = bottom + size.y as i64 - 1;
    PatternCorners {
        top_left: IVec2 { x: left, y: top },
        top_right: IVec2 { x: right, y: top },
        bottom_left: IVec2 { x: left, y: bottom },
        bottom_right: IVec2 { x: right, y: bottom },
    }
}

/// For a pattern at least two pixels wide and high, the corners are ordered:
/// top above bottom and right of left. (A side of one pixel puts both corners
/// of that axis on the same pixel.)
pub proof fn lemma_corners_ordered(mouse_pixel: UVec2, size: UVec2)
    requires
        size.x >= 2,
        size.y >= 2,
    ensures
        corners_spec(mouse_pixel, size).top_left.y > corners_spec(mouse_pixel, size).bottom_left.y,
        corners_spec(mouse_pixel, size).top_right.y > corners_spec(
            mouse_pixel,
            size,
        ).bottom_right.y,
        corners_spec(mouse_pixel, size).top_right.x > corners_spec(mouse_pixel, size).top_left.x,
        corners_spec(mouse_pixel, size).bottom_right.x > corners_spec(
            mouse_pixel,
            size,
        ).bottom_left.x,
{
}

} // verus!
