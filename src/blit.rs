use vstd::prelude::*;

use crate::geometry::UVec2;
use crate::layout::TileSettings;
use crate::pattern::Pattern;
use crate::pixels::{
    buffer_index, byte_channel, byte_x, byte_y, lemma_byte_decompose, lemma_byte_in_bounds,
    lemma_byte_recover, lemma_row_major_in_bounds,
};
use crate::tiles::TileData;

verus! {

/// Which vertical edge of the pattern an anchor pixel is on.
#[derive(Debug, Clone, Copy, PartialEq, Eq, Structural)]
pub enum Horizontal {
    Left,
    Right,
}

/// Which horizontal edge of the pattern an anchor pixel is on.
#[derive(Debug, Clone, Copy, PartialEq, Eq, Structural)]
pub enum Vertical {
    Top,
    Bottom,
}

/// The columns to paint, `tile_x_min..tile_x_max`, and the pattern columns
/// they take, `pattern_start_x..pattern_end_x`, matched index for index.
#[derive(Debug, Clone, Copy, PartialEq, Eq, Structural)]
pub struct XData {
    pub tile_x_min: usize,
    pub tile_x_max: usize,
    pub pattern_start_x: usize,
    pub pattern_end_x: usize,
}

/// The rows to paint, `tile_y_min..tile_y_max` (counted upwards), and the
/// pattern rows they take, `pattern_start_y..pattern_end_y`.
#[derive(Debug, Clone, Copy, PartialEq, Eq, Structural)]
pub struct YData {
    pub tile_y_min: usize,
    pub tile_y_max: usize,
    pub pattern_start_y: usize,
    pub pattern_end_y: usize,
}

pub open spec fn min_int(a: int, b: int) -> int {
    if a <= b {
        a
    } else {
        b
    }
}

pub open spec fn max_int(a: int, b: int) -> int {
    if a >= b {
        a
    } else {
        b
    }
}

/// First tile index painted on one axis. `low` says whether the anchor `a` is
/// the pattern's low edge (left or bottom) or its high edge (right or top);
/// `n` is the pattern's length and `t` the tile's on that axis. An anchor
/// outside the tile gives an empty span at the tile's end.
pub open spec fn span_tile_min(low: bool, n: int, a: int, t: int) -> int {
    if a >= t {
        t
    } else if low {
        a
    } else {
        max_int(0, a + 1 - n)
    }
}

/// One past the last tile index painted on one axis.
pub open spec fn span_tile_max(low: bool, n: int, a: int, t: int) -> int {
    if a >= t {
        t
    } else if low {
        min_int(a + n, t)
    } else {
        a + 1
    }
}

/// The pattern index that goes to the first painted tile index.
pub open spec fn span_pattern_start(low: bool, n: int, a: int, t: int) -> int {
    if a >= t {
        0
    } else if low {
        0
    } else {
        max_int(0, n - 1 - a)
    }
}

/// One past the last pattern index used.
pub open spec fn span_pattern_end(low: bool, n: int, a: int, t: int) -> int {
    if a >= t {
        0
    } else if low {
        min_int(n, t - a)
    } else {
        n
    }
}

pub open spec fn x_data_spec(side: Horizontal, w: int, a: int, t: int) -> XData {
    let low = side == Horizontal::Left;
    XData {
        tile_x_min: span_tile_min(low, w, a, t) as usize,
        tile_x_max: span_tile_max(low, w, a, t) as usize,
        pattern_start_x: span_pattern_start(low, w, a, t) as usize,
        pattern_end_x: span_pattern_end(low, w, a, t) as usize,
    }
}

pub open spec fn y_data_spec(side: Vertical, h: int, a: int, t: int) -> YData {
    let low = side == Vertical::Bottom;
    YData {
        tile_y_min: span_tile_min(low, h, a, t) as usize,
        tile_y_max: span_tile_max(low, h, a, t) as usize,
        pattern_start_y: span_pattern_start(low, h, a, t) as usize,
        pattern_end_y: span_pattern_end(low, h, a, t) as usize,
    }
}

/// On one axis, with the anchor inside the tile and a pattern at least one
/// long: the painted range is non-empty, lies in the tile, and is as long
/// as the pattern range, which lies in the pattern.
pub proof fn lemma_span_sound(low: bool, n: int, a: int, t: int)
    requires
        n >= 1,
        0 <= a < t,
    ensures
        0 <= span_tile_min(low, n, a, t) < span_tile_max(low, n, a, t) <= t,
        0 <= span_pattern_start(low, n, a, t) < span_pattern_end(low, n, a, t) <= n,
        span_tile_max(low, n, a, t) - span_tile_min(low, n, a, t) == span_pattern_end(low, n, a, t)
            - span_pattern_start(low, n, a, t),
{
}

/// On one axis, for any anchor and any lengths: the painted range lies in
/// the tile, the pattern range lies in the pattern, and both are equally
/// long; an anchor outside the tile gives empty ranges.
pub proof fn lemma_span_bounds(low: bool, n: int, a: int, t: int)
    requires
        n >= 0,
        a >= 0,
        t >= 0,
    ensures
        0 <= span_tile_min(low, n, a, t) <= span_tile_max(low, n, a, t) <= t,
        0 <= span_pattern_start(low, n, a, t) <= span_pattern_end(low, n, a, t) <= n,
        span_tile_max(low, n, a, t) - span_tile_min(low, n, a, t) == span_pattern_end(low, n, a, t)
            - span_pattern_start(low, n, a, t),
        a >= t ==> span_tile_min(low, n, a, t) == span_tile_max(low, n, a, t),
{
}

/// Whether pixel `(x, y)` of the tile is painted.
pub open spec fn in_blit(xd: XData, yd: YData, x: int, y: int) -> bool {
    xd.tile_x_min <= x < xd.tile_x_max && yd.tile_y_min <= y < yd.tile_y_max
}

/// The channel that painted pixel `(x, y)` takes from the pattern.
pub open spec fn blit_value(pattern: Pattern, xd: XData, yd: YData, x: int, y: int, c: int) -> u8 {
    pattern.channel(
        xd.pattern_start_x + x - xd.tile_x_min,
        yd.pattern_start_y + y - yd.tile_y_min,
        c,
    )
}

/// A `tw` by `th` buffer after the pixels that `xd` and `yd` select are
/// painted from the pattern; every other byte is kept.
pub open spec fn blit_spec(
    old: Seq<u8>,
    tw: int,
    th: int,
    xd: XData,
    yd: YData,
    pattern: Pattern,
) -> Seq<u8> {
    Seq::new(
        old.len(),
        |k: int|
            {
                let x = byte_x(tw, k);
                let y = byte_y(tw, th, k);
                if in_blit(xd, yd, x, y) {
                    blit_value(pattern, xd, yd, x, y, byte_channel(k))
                } else {
                    old[k]
                }
            },
    )
}

/// Like `blit_spec`, with only the first `rows` rows of the painted region
/// done, and `cols` pixels of the row after them.
spec fn blit_partial(
    old: Seq<u8>,
    tw: int,
    th: int,
    xd: XData,
    yd: YData,
    pattern: Pattern,
    rows: int,
    cols: int,
) -> Seq<u8> {
    Seq::new(
        old.len(),
        |k: int|
            {
                let x = byte_x(tw, k);
                let y = byte_y(tw, th, k);
                if in_blit(xd, yd, x, y) && (y - yd.tile_y_min < rows || (y - yd.tile_y_min == rows
                    && x - xd.tile_x_min < cols)) {
                    blit_value(pattern, xd, yd, x, y, byte_channel(k))
                } else {
                    old[k]
                }
            },
    )
}

/// The columns that a pattern anchored at `pixel_in_tile_coords` covers in
/// the tile, and the pattern columns that they take.
pub fn get_x_for_drawing_loop(
    side: &Horizontal,
    pattern: &Pattern,
    pixel_in_tile_coords: UVec2,
    tile_settings: &TileSettings,
) -> (r: XData)
    ensures
        r == x_data_spec(
            *side,
            pattern.size.x as int,
            pixel_in_tile_coords.x as int,
            tile_settings.tile_width as int,
        ),
        r.tile_x_min <= r.tile_x_max <= tile_settings.tile_width,
        r.pattern_start_x <= r.pattern_end_x <= pattern.size.x,
        r.tile_x_max - r.tile_x_min == r.pattern_end_x - r.pattern_start_x,
        pixel_in_tile_coords.x >= tile_settings.tile_width ==> r.tile_x_min == r.tile_x_max,
{
    let a = pixel_in_tile_coords.x as usize;
    let n = pattern.size.x as usize;
    let t = tile_settings.tile_width;
    proof {
        lemma_span_bounds(*side == Horizontal::Left, n as int, a as int, t as int);
    }
    if a >= t {
        return XData { tile_x_min: t, tile_x_max: t, pattern_start_x: 0, pattern_end_x: 0 };
    }
    match side {
        Horizontal::Left => XData {
            tile_x_min: a,
            tile_x_max: if n <= t - a {
                a + n
            } else {
                t
            },
            pattern_start_x: 0,
            pattern_end_x: if n <= t - a {
                n
            } else {
                t - a
            },
        },
        Horizontal::Right => XData {
            tile_x_min: if a + 1 >= n {
                a + 1 - n
            } else {
                0
            },
            tile_x_max: a + 1,
            pattern_start_x: if n >= a + 1 {
                n - 1 - a
            } else {
                0
            },
            pattern_end_x: n,
        },
    }
}

/// The rows (counted upwards) that a pattern anchored at
/// `pixel_in_tile_coords` covers in the tile, and the pattern rows they take.
pub fn get_y_for_drawing_loop(
    side: &Vertical,
    pattern: &Pattern,
    pixel_in_tile_coords: UVec2,
    tile_settings: &TileSettings,
) -> (r: YData)
    ensures
        r == y_data_spec(
            *side,
            pattern.size.y as int,
            pixel_in_tile_coords.y as int,
            tile_settings.tile_height as int,
        ),
        r.tile_y_min <= r.tile_y_max <= tile_settings.tile_height,
        r.pattern_start_y <= r.pattern_end_y <= pattern.size.y,
        r.tile_y_max - r.tile_y_min == r.pattern_end_y - r.pattern_start_y,
        pixel_in_tile_coords.y >= tile_settings.tile_height ==> r.tile_y_min == r.tile_y_max,
{
    let a = pixel_in_tile_coords.y as usize;
    let n = pattern.size.y as usize;
    let t = tile_settings.tile_height;
    proof {
        lemma_span_bounds(*side == Vertical::Bottom, n as int, a as int, t as int);
    }
    if a >= t {
        return YData { tile_y_min: t, tile_y_max: t, pattern_start_y: 0, pattern_end_y: 0 };
    }
    match side {
        Vertical::Bottom => YData {
            tile_y_min: a,
            tile_y_max: if n <= t - a {
                a + n
            } else {
                t
            },
            pattern_start_y: 0,
            pattern_end_y: if n <= t - a {
                n
            } else {
                t - a
            },
        },
        Vertical::Top => YData {
            tile_y_min: if a + 1 >= n {
                a + 1 - n
            } else {
                0
            },
            tile_y_max: a + 1,
            pattern_start_y: if n >= a + 1 {
                n - 1 - a
            } else {
                0
            },
            pattern_end_y: n,
        },
    }
}

/// Paints the part of the pattern that falls in the tile. The anchor is the
/// pixel of the tile where the pattern's `horizontal` and `vertical` edges
/// meet; the pattern is clipped to the tile on every side, and an anchor
/// outside the tile paints nothing.
pub fn draw_pixels_in_tile(
    pixel_in_tile_coords: UVec2,
    horizontal: Horizontal,
    vertical: Vertical,
    tile_data: &mut TileData,
    tile_settings: &TileSettings,
    pattern: &Pattern,
)
    requires
        tile_settings.tile_width >= 1,
        tile_settings.tile_height >= 1,
        old(tile_data).data@.len() == tile_settings.tile_width * tile_settings.tile_height * 4,
        pattern.wf(),
    ensures
        final(tile_data).data@ == blit_spec(
            old(tile_data).data@,
            tile_settings.tile_width as int,
            tile_settings.tile_height as int,
            x_data_spec(
                horizontal,
                pattern.size.x as int,
                pixel_in_tile_coords.x as int,
                tile_settings.tile_width as int,
            ),
            y_data_spec(
                vertical,
                pattern.size.y as int,
                pixel_in_tile_coords.y as int,
                tile_settings.tile_height as int,
            ),
            *pattern,
        ),
{
    let x_data = get_x_for_drawing_loop(&horizontal, pattern, pixel_in_tile_coords, tile_settings);
    let y_data = get_y_for_drawing_loop(&vertical, pattern, pixel_in_tile_coords, tile_settings);
    let tw = tile_settings.tile_width;
    let th = tile_settings.tile_height;
    let pw = pattern.size.x as usize;
    let ghost old_data = tile_data.data@;
    let data_len = tile_data.data.len();
    let pattern_len = pattern.pattern_pixels.len();
    let ghost ptn = *pattern;
    proof {
        lemma_span_bounds(
            horizontal == Horizontal::Left,
            pw as int,
            pixel_in_tile_coords.x as int,
            tw as int,
        );
        lemma_span_bounds(
            vertical == Vertical::Bottom,
            pattern.size.y as int,
            pixel_in_tile_coords.y as int,
            th as int,
        );
    }
    let rows = y_data.tile_y_max - y_data.tile_y_min;
    let cols = x_data.tile_x_max - x_data.tile_x_min;
    let mut j: usize = 0;
    while j < rows
        invariant
            0 <= j <= rows,
            rows == y_data.tile_y_max - y_data.tile_y_min,
            cols == x_data.tile_x_max - x_data.tile_x_min,
            0 <= x_data.tile_x_min <= x_data.tile_x_max <= tw,
            0 <= y_data.tile_y_min <= y_data.tile_y_max <= th,
            x_data.pattern_start_x + cols <= pw,
            y_data.pattern_start_y + rows <= pattern.size.y,
            tw >= 1,
            th >= 1,
            pw == pattern.size.x,
            ptn == *pattern,
            pattern.wf(),
            old_data.len() == tw * th * 4,
            data_len == tw * th * 4,
            pattern_len == pattern.pattern_pixels@.len(),
            tile_data.data@ == blit_partial(old_data, tw as int, th as int, x_data, y_data, ptn, j as int, 0),
        decreases rows - j,
    {
        let mut i: usize = 0;
        while i < cols
            invariant
                0 <= j < rows,
                0 <= i <= cols,
                rows == y_data.tile_y_max - y_data.tile_y_min,
                cols == x_data.tile_x_max - x_data.tile_x_min,
                0 <= x_data.tile_x_min <= x_data.tile_x_max <= tw,
                0 <= y_data.tile_y_min <= y_data.tile_y_max <= th,
                x_data.pattern_start_x + cols <= pw,
                y_data.pattern_start_y + rows <= pattern.size.y,
                tw >= 1,
                th >= 1,
                pw == pattern.size.x,
                ptn == *pattern,
                pattern.wf(),
                old_data.len() == tw * th * 4,
                data_len == tw * th * 4,
                pattern_len == pattern.pattern_pixels@.len(),
                tile_data.data@ == blit_partial(old_data, tw as int, th as int, x_data, y_data, ptn, j as int, i as int),
            decreases cols - i,
        {
            let x_tile = x_data.tile_x_min + i;
            let y_tile = y_data.tile_y_min + j;
            let px = x_data.pattern_start_x + i;
            let py = y_data.pattern_start_y + j;
            proof {
                lemma_row_major_in_bounds(px as int, py as int, pw as int, pattern.size.y as int);
                assert(py * pw + px < pattern.pattern_pixels@.len());
                lemma_byte_in_bounds(tw as int, th as int, x_tile as int, y_tile as int, 0);
                assert(0 <= (th - 1 - y_tile) * tw + x_tile < tw * th) by (nonlinear_arith)
                    requires
                        0 <= x_tile < tw,
                        0 <= y_tile < th,
                ;
            }
            let pixel = pattern.pattern_pixels[py * pw + px];
            let base = ((th - 1 - y_tile) * tw + x_tile) * 4;
            let ghost before = tile_data.data@;
            tile_data.data.set(base, pixel[0]);
            tile_data.data.set(base + 1, pixel[1]);
            tile_data.data.set(base + 2, pixel[2]);
            tile_data.data.set(base + 3, pixel[3]);
            proof {
                let next = blit_partial(old_data, tw as int, th as int, x_data, y_data, ptn, j as int, i + 1);
                assert forall|k: int| 0 <= k < old_data.len() implies tile_data.data@[k] == next[k] by {
                    lemma_byte_decompose(tw as int, th as int, k);
                    let kx = byte_x(tw as int, k);
                    let ky = byte_y(tw as int, th as int, k);
                    let kc = byte_channel(k);
                    if base <= k < base + 4 {
                        lemma_byte_recover(tw as int, th as int, x_tile as int, y_tile as int, k - base);
                        assert(kx == x_tile && ky == y_tile && kc == k - base);
                    } else {
                        assert(!(kx == x_tile && ky == y_tile));
                    }
                }
                assert(tile_data.data@ =~= next);
            }
            i = i + 1;
        }
        proof {
            let a = blit_partial(old_data, tw as int, th as int, x_data, y_data, ptn, j as int, cols as int);
            let b = blit_partial(old_data, tw as int, th as int, x_data, y_data, ptn, j + 1, 0);
            assert(a =~= b);
        }
        j = j + 1;
    }
    proof {
        let a = blit_partial(old_data, tw as int, th as int, x_data, y_data, ptn, rows as int, 0);
        let b = blit_spec(old_data, tw as int, th as int, x_data, y_data, ptn);
        assert(a =~= b);
    }
}

} // verus!
