use vstd::prelude::*;
use vstd::arithmetic::div_mod::{lemma_fundamental_div_mod, lemma_fundamental_div_mod_converse};

use crate::blit::{
    blit_spec, draw_pixels_in_tile, lemma_span_sound, span_pattern_start, span_tile_max,
    span_tile_min, x_data_spec, y_data_spec, Horizontal, Vertical,
};
use crate::geometry::{IVec2, UVec2};
use crate::layout::{MousePixelPosition, TilePosition, TileSettings};
use crate::pattern::{
    corners_spec, footprint_bottom, footprint_left, footprint_right, footprint_top,
    pattern_corners, Pattern,
};
use crate::pixels::{
    buffer_index, byte_channel, byte_x, byte_y, lemma_byte_decompose, lemma_byte_in_bounds,
    lemma_byte_recover,
};
use crate::tiles::{transparent_spec, Tile, TileData};

verus! {

/// The tool in use. A pencil paints with the pattern at index `pattern_handle`
/// of the loaded patterns.
#[derive(Debug, Clone, Copy, PartialEq, Eq, Structural)]
pub enum SelectedTool {
    Pan,
    Pencil { pattern_handle: usize },
}

/// A tile can be painted: both sides are between one and `u32::MAX` pixels
/// and its buffer holds exactly four bytes per pixel.
pub open spec fn paintable(s: TileSettings, len: int) -> bool {
    &&& 1 <= s.tile_width <= u32::MAX
    &&& 1 <= s.tile_height <= u32::MAX
    &&& len == s.tile_width * s.tile_height * 4
}

/// The grid pixel at the bottom-left corner of a tile.
pub open spec fn tile_min_x(s: TileSettings, p: TilePosition) -> int {
    p.position.x * s.tile_width
}

pub open spec fn tile_min_y(s: TileSettings, p: TilePosition) -> int {
    p.position.y * s.tile_height
}

/// Grid pixel `c` lies in the tile, edges included.
pub open spec fn in_tile(s: TileSettings, p: TilePosition, c: IVec2) -> bool {
    &&& tile_min_x(s, p) <= c.x <= tile_min_x(s, p) + s.tile_width - 1
    &&& tile_min_y(s, p) <= c.y <= tile_min_y(s, p) + s.tile_height - 1
}

/// Some corner of the pattern's footprint lies in the tile.
pub open spec fn touches(s: TileSettings, p: TilePosition, mouse_pixel: UVec2, size: UVec2) -> bool {
    let c = corners_spec(mouse_pixel, size);
    in_tile(s, p, c.top_left) || in_tile(s, p, c.top_right) || in_tile(s, p, c.bottom_left)
        || in_tile(s, p, c.bottom_right)
}

/// Grid pixel `(gx, gy)` is covered by a pattern of `size` centred on `mouse_pixel`.
pub open spec fn in_footprint(mouse_pixel: UVec2, size: UVec2, gx: int, gy: int) -> bool {
    &&& footprint_left(mouse_pixel.x as int, size.x as int) <= gx
    &&& gx <= footprint_right(mouse_pixel.x as int, size.x as int)
    &&& footprint_bottom(mouse_pixel.y as int, size.y as int) <= gy
    &&& gy <= footprint_top(mouse_pixel.y as int, size.y as int)
}

/// The tile's buffer with every pixel under the pattern's footprint set to
/// the pattern pixel that covers it.
pub open spec fn overpaint(
    buf: Seq<u8>,
    s: TileSettings,
    p: TilePosition,
    mouse_pixel: UVec2,
    pattern: Pattern,
) -> Seq<u8> {
    let tw = s.tile_width as int;
    let th = s.tile_height as int;
    Seq::new(
        buf.len(),
        |k: int|
            {
                let gx = tile_min_x(s, p) + byte_x(tw, k);
                let gy = tile_min_y(s, p) + byte_y(tw, th, k);
                if in_footprint(mouse_pixel, pattern.size, gx, gy) {
                    pattern.channel(
                        gx - footprint_left(mouse_pixel.x as int, pattern.size.x as int),
                        gy - footprint_bottom(mouse_pixel.y as int, pattern.size.y as int),
                        byte_channel(k),
                    )
                } else {
                    buf[k]
                }
            },
    )
}

/// A stroke reaches a tile: the tile can be painted and a corner of the
/// pattern lies in it.
pub open spec fn stroke_reaches(
    s: TileSettings,
    p: TilePosition,
    len: int,
    mouse_pixel: UVec2,
    pattern: Pattern,
) -> bool {
    paintable(s, len) && touches(s, p, mouse_pixel, pattern.size)
}

/// A tile's buffer after one stroke of the pattern centred on `mouse_pixel`.
pub open spec fn stroke_buffer(
    s: TileSettings,
    p: TilePosition,
    buf: Seq<u8>,
    mouse_pixel: UVec2,
    pattern: Pattern,
) -> Seq<u8> {
    if stroke_reaches(s, p, buf.len() as int, mouse_pixel, pattern) {
        overpaint(buf, s, p, mouse_pixel, pattern)
    } else {
        buf
    }
}

/// The pixel and the pattern of the stroke that a frame makes: the left button
/// is held, the pencil is selected, its pattern is loaded and usable, and the
/// mouse is over the tileset.
pub open spec fn stroke_of(
    mouse_pixel_position: MousePixelPosition,
    left_pressed: bool,
    tool: SelectedTool,
    patterns: Seq<Pattern>,
) -> Option<(UVec2, Pattern)> {
    match tool {
        SelectedTool::Pencil { pattern_handle } => {
            if left_pressed && pattern_handle < patterns.len() && patterns[pattern_handle as int].wf() {
                match mouse_pixel_position.pixel_position {
                    Some(m) => Some((m, patterns[pattern_handle as int])),
                    None => None,
                }
            } else {
                None
            }
        },
        SelectedTool::Pan => None,
    }
}

/// The tile that holds coordinate `c` along an axis of tiles `t` long is
/// tile `idx` exactly when `c` falls within its span; the remainder is then
/// the offset in the tile.
proof fn lemma_tile_of(c: int, t: int, idx: int)
    requires
        t > 0,
        c >= 0,
        idx >= 0,
    ensures
        (c / t == idx) <==> (idx * t <= c <= idx * t + t - 1),
        c / t == idx ==> c % t == c - idx * t,
{
    lemma_fundamental_div_mod(c, t);
    if idx * t <= c && c <= idx * t + t - 1 {
        lemma_fundamental_div_mod_converse(c, t, idx, c - idx * t);
    }
    if c / t == idx {
        assert(t * (c / t) == idx * t) by (nonlinear_arith)
            requires
                c / t == idx,
        ;
    }
}

/// On one axis, the span that `get_x_for_drawing_loop` or
/// `get_y_for_drawing_loop` computes from a footprint corner is the
/// footprint clipped to the tile, and matches pattern indices to the
/// footprint's own.
proof fn lemma_span_matches_footprint(low: bool, n: int, a: int, t: int, lo: int, min_t: int, x: int)
    requires
        n >= 1,
        0 <= a < t,
        0 <= x < t,
        low ==> a == lo - min_t,
        !low ==> a == lo + n - 1 - min_t,
    ensures
        (span_tile_min(low, n, a, t) <= x < span_tile_max(low, n, a, t)) <==> (lo <= min_t + x
            <= lo + n - 1),
        span_pattern_start(low, n, a, t) + x - span_tile_min(low, n, a, t) == min_t + x - lo,
{
}

/// Paints the tile from one corner of the footprint when that corner lies in
/// the tile. `horizontal` and `vertical` say which corner it is.
fn paint_at_corner(
    data: &mut TileData,
    tile_settings: &TileSettings,
    tile_position: &TilePosition,
    corner: IVec2,
    horizontal: Horizontal,
    vertical: Vertical,
    mouse_pixel: UVec2,
    pattern: &Pattern,
) -> (hit: bool)
    requires
        paintable(*tile_settings, old(data).data@.len() as int),
        pattern.wf(),
        corner.x == (if horizontal == Horizontal::Left {
            footprint_left(mouse_pixel.x as int, pattern.size.x as int)
        } else {
            footprint_right(mouse_pixel.x as int, pattern.size.x as int)
        }),
        corner.y == (if vertical == Vertical::Bottom {
            footprint_bottom(mouse_pixel.y as int, pattern.size.y as int)
        } else {
            footprint_top(mouse_pixel.y as int, pattern.size.y as int)
        }),
    ensures
        hit == in_tile(*tile_settings, *tile_position, corner),
        hit ==> final(data).data@ == overpaint(
            old(data).data@,
            *tile_settings,
            *tile_position,
            mouse_pixel,
            *pattern,
        ),
        !hit ==> final(data).data@ == old(data).data@,
{
    if corner.x < 0 || corner.y < 0 {
        return false;
    }
    let tw = tile_settings.tile_width as u64;
    let th = tile_settings.tile_height as u64;
    let cx = corner.x as u64;
    let cy = corner.y as u64;
    let col = tile_position.position.x as u64;
    let row = tile_position.position.y as u64;
    proof {
        lemma_tile_of(cx as int, tw as int, col as int);
        lemma_tile_of(cy as int, th as int, row as int);
    }
    if cx / tw != col || cy / th != row {
        return false;
    }
    let anchor = UVec2 { x: (cx % tw) as u32, y: (cy % th) as u32 };
    let ghost old_data = data.data@;
    draw_pixels_in_tile(anchor, horizontal, vertical, data, tile_settings, pattern);
    proof {
        let tw = tw as int;
        let th = th as int;
        let low_x = horizontal == Horizontal::Left;
        let low_y = vertical == Vertical::Bottom;
        let pw = pattern.size.x as int;
        let ph = pattern.size.y as int;
        let lo_x = footprint_left(mouse_pixel.x as int, pw);
        let lo_y = footprint_bottom(mouse_pixel.y as int, ph);
        let min_x = tile_min_x(*tile_settings, *tile_position);
        let min_y = tile_min_y(*tile_settings, *tile_position);
        lemma_span_sound(low_x, pw, anchor.x as int, tw);
        lemma_span_sound(low_y, ph, anchor.y as int, th);
        let xd = x_data_spec(horizontal, pw, anchor.x as int, tw);
        let yd = y_data_spec(vertical, ph, anchor.y as int, th);
        let painted = blit_spec(old_data, tw, th, xd, yd, *pattern);
        let wanted = overpaint(old_data, *tile_settings, *tile_position, mouse_pixel, *pattern);
        assert forall|k: int| 0 <= k < old_data.len() implies painted[k] == wanted[k] by {
            lemma_byte_decompose(tw, th, k);
            let x = byte_x(tw, k);
            let y = byte_y(tw, th, k);
            lemma_span_matches_footprint(low_x, pw, anchor.x as int, tw, lo_x, min_x, x);
            lemma_span_matches_footprint(low_y, ph, anchor.y as int, th, lo_y, min_y, y);
        }
        assert(painted =~= wanted);
    }
    true
}

/// Painting the footprint over a buffer that already has it changes nothing.
pub proof fn lemma_overpaint_idempotent(
    buf: Seq<u8>,
    s: TileSettings,
    p: TilePosition,
    mouse_pixel: UVec2,
    pattern: Pattern,
)
    ensures
        overpaint(overpaint(buf, s, p, mouse_pixel, pattern), s, p, mouse_pixel, pattern)
            == overpaint(buf, s, p, mouse_pixel, pattern),
{
    let once = overpaint(buf, s, p, mouse_pixel, pattern);
    assert(overpaint(once, s, p, mouse_pixel, pattern) =~= once);
}

/// Paints one stroke of the pattern centred on `mouse_pixel` into the tile:
/// every corner of the footprint that lies in the tile paints the part of the
/// pattern that falls in the tile, and all of them paint the same pixels. The
/// tile is marked changed when it is painted. A tile whose buffer does not
/// match its size is left alone, and so is a tile that holds none of the
/// footprint's corners, even when a pattern wider than a tile covers it.
pub fn paint_tile(tile: &mut Tile, mouse_pixel: UVec2, pattern: &Pattern)
    requires
        pattern.wf(),
    ensures
        final(tile).data.data@ == stroke_buffer(
            old(tile).tile_settings,
            old(tile).tile_position,
            old(tile).data.data@,
            mouse_pixel,
            *pattern,
        ),
        final(tile).changed == (old(tile).changed || stroke_reaches(
            old(tile).tile_settings,
            old(tile).tile_position,
            old(tile).data.data@.len() as int,
            mouse_pixel,
            *pattern,
        )),
        final(tile).tile_settings == old(tile).tile_settings,
        final(tile).tile_position == old(tile).tile_position,
        final(tile).state == old(tile).state,
{
    let tw = tile.tile_settings.tile_width;
    let th = tile.tile_settings.tile_height;
    if tw < 1 || th < 1 || tw > u32::MAX as usize || th > u32::MAX as usize {
        return;
    }
    let len = tile.data.data.len();
    let fits = match tw.checked_mul(th) {
        Some(p) => match p.checked_mul(4) {
            Some(b) => b == len,
            None => false,
        },
        None => false,
    };
    if !fits {
        return;
    }
    let corners = pattern_corners(mouse_pixel, pattern.size);
    let ghost orig = tile.data.data@;
    let ghost s = tile.tile_settings;
    let ghost p = tile.tile_position;
    let ghost painted = overpaint(orig, s, p, mouse_pixel, *pattern);
    proof {
        lemma_overpaint_idempotent(orig, s, p, mouse_pixel, *pattern);
    }
    let hit_top_left = paint_at_corner(
        &mut tile.data,
        &tile.tile_settings,
        &tile.tile_position,
        corners.top_left,
        Horizontal::Left,
        Vertical::Top,
        mouse_pixel,
        pattern,
    );
    let hit_top_right = paint_at_corner(
        &mut tile.data,
        &tile.tile_settings,
        &tile.tile_position,
        corners.top_right,
        Horizontal::Right,
        Vertical::Top,
        mouse_pixel,
        pattern,
    );
    let hit_bottom_left = paint_at_corner(
        &mut tile.data,
        &tile.tile_settings,
        &tile.tile_position,
        corners.bottom_left,
        Horizontal::Left,
        Vertical::Bottom,
        mouse_pixel,
        pattern,
    );
    let hit_bottom_right = paint_at_corner(
        &mut tile.data,
        &tile.tile_settings,
        &tile.tile_position,
        corners.bottom_right,
        Horizontal::Right,
        Vertical::Bottom,
        mouse_pixel,
        pattern,
    );
    if hit_top_left || hit_top_right || hit_bottom_left || hit_bottom_right {
        tile.changed = true;
    }
}

/// One frame of the pencil: when `stroke_of` gives a stroke, each tile gets
/// that stroke; otherwise no tile changes at all.
pub fn use_pencil_tool_seq(
    mouse_pixel_position: &MousePixelPosition,
    left_pressed: bool,
    tool: &SelectedTool,
    patterns: &Vec<Pattern>,
    tiles: &mut Vec<Tile>,
)
    ensures
        final(tiles)@.len() == old(tiles)@.len(),
        forall|i: int|
            0 <= i < old(tiles)@.len() ==> {
                let o = #[trigger] old(tiles)@[i];
                let n = final(tiles)@[i];
                &&& n.tile_settings == o.tile_settings
                &&& n.tile_position == o.tile_position
                &&& n.state == o.state
                &&& match stroke_of(*mouse_pixel_position, left_pressed, *tool, patterns@) {
                    Some((m, pattern)) => {
                        &&& n.data.data@ == stroke_buffer(
                            o.tile_settings,
                            o.tile_position,
                            o.data.data@,
                            m,
                            pattern,
                        )
                        &&& n.changed == (o.changed || stroke_reaches(
                            o.tile_settings,
                            o.tile_position,
                            o.data.data@.len() as int,
                            m,
                            pattern,
                        ))
                    },
                    None => {
                        &&& n.data.data@ == o.data.data@
                        &&& n.changed == o.changed
                    },
                }
            },
{
    if !left_pressed {
        return;
    }
    let pattern_handle = match tool {
        SelectedTool::Pencil { pattern_handle } => *pattern_handle,
        SelectedTool::Pan => {
            return;
        },
    };
    if pattern_handle >= patterns.len() {
        return;
    }
    let pattern = &patterns[pattern_handle];
    if !pattern.is_well_formed() {
        return;
    }
    let mouse_pixel = match mouse_pixel_position.pixel_position {
        Some(m) => m,
        None => {
            return;
        },
    };
    let mut i: usize = 0;
    while i < tiles.len()
        invariant
            pattern.wf(),
            stroke_of(*mouse_pixel_position, left_pressed, *tool, patterns@) == Some(
                (mouse_pixel, *pattern),
            ),
            tiles@.len() == old(tiles)@.len(),
            forall|j: int| i <= j < tiles@.len() ==> #[trigger] tiles@[j] == old(tiles)@[j],
            forall|j: int|
                0 <= j < i ==> {
                    let o = #[trigger] old(tiles)@[j];
                    let n = tiles@[j];
                    &&& n.tile_settings == o.tile_settings
                    &&& n.tile_position == o.tile_position
                    &&& n.state == o.state
                    &&& n.data.data@ == stroke_buffer(
                        o.tile_settings,
                        o.tile_position,
                        o.data.data@,
                        mouse_pixel,
                        *pattern,
                    )
                    &&& n.changed == (o.changed || stroke_reaches(
                        o.tile_settings,
                        o.tile_position,
                        o.data.data@.len() as int,
                        mouse_pixel,
                        *pattern,
                    ))
                },
        decreases tiles.len() - i,
    {
        paint_tile(&mut tiles[i], mouse_pixel, pattern);
        i = i + 1;
    }
}

/// Painting the same stroke at the same pixel twice leaves a tile's buffer
/// exactly as painting it once does.
pub proof fn lemma_stroke_idempotent(
    s: TileSettings,
    p: TilePosition,
    buf: Seq<u8>,
    mouse_pixel: UVec2,
    pattern: Pattern,
)
    ensures
        stroke_buffer(s, p, stroke_buffer(s, p, buf, mouse_pixel, pattern), mouse_pixel, pattern)
            == stroke_buffer(s, p, buf, mouse_pixel, pattern),
{
    lemma_overpaint_idempotent(buf, s, p, mouse_pixel, pattern);
}

/// A stroke centred on grid pixel (0, 0), with a pattern whose halves fit in
/// one tile, changes no tile but the one in column 0, row 0.
pub proof fn lemma_stroke_at_origin(s: TileSettings, p: TilePosition, buf: Seq<u8>, pattern: Pattern)
    requires
        pattern.wf(),
        (pattern.size.x + 1) / 2 <= s.tile_width,
        (pattern.size.y + 1) / 2 <= s.tile_height,
        p.position != (UVec2 { x: 0, y: 0 }),
    ensures
        stroke_buffer(s, p, buf, UVec2 { x: 0, y: 0 }, pattern) == buf,
{
    let tw = s.tile_width as int;
    let th = s.tile_height as int;
    let col = p.position.x as int;
    let row = p.position.y as int;
    if col >= 1 {
        assert(col * tw >= tw) by (nonlinear_arith)
            requires
                col >= 1,
                tw >= 0,
        ;
    }
    if row >= 1 {
        assert(row * th >= th) by (nonlinear_arith)
            requires
                row >= 1,
                th >= 0,
        ;
    }
}

/// Painting a one-pixel opaque red pattern at the centre pixel of a freshly
/// initialised single tile makes that pixel opaque red and leaves every other
/// pixel transparent.
pub proof fn lemma_centre_pixel_round_trip(tw: usize, th: usize, pattern: Pattern)
    requires
        1 <= tw <= u32::MAX,
        1 <= th <= u32::MAX,
        tw * th * 4 <= usize::MAX,
        pattern.size == (UVec2 { x: 1, y: 1 }),
        pattern.pattern_pixels@ == seq![[255u8, 0u8, 0u8, 255u8]],
    ensures
        ({
            let s = TileSettings { tile_width: tw, tile_height: th };
            let p = TilePosition { position: UVec2 { x: 0, y: 0 } };
            let centre = UVec2 { x: (tw / 2) as u32, y: (th / 2) as u32 };
            let out = stroke_buffer(s, p, transparent_spec(tw as int, th as int), centre, pattern);
            &&& out.len() == tw * th * 4
            &&& forall|x: int, y: int, c: int|
                0 <= x < tw && 0 <= y < th && 0 <= c < 4 ==> #[trigger] out[buffer_index(
                    tw as int,
                    th as int,
                    x,
                    y,
                ) + c] == if x == tw / 2 && y == th / 2 {
                    if c == 1 || c == 2 {
                        0u8
                    } else {
                        255u8
                    }
                } else if c == 3 {
                    0u8
                } else {
                    255u8
                }
        }),
{
    let s = TileSettings { tile_width: tw, tile_height: th };
    let p = TilePosition { position: UVec2 { x: 0, y: 0 } };
    let centre = UVec2 { x: (tw / 2) as u32, y: (th / 2) as u32 };
    let fresh = transparent_spec(tw as int, th as int);
    assert(tile_min_x(s, p) == 0 && tile_min_y(s, p) == 0) by (nonlinear_arith)
        requires
            p.position.x == 0,
            p.position.y == 0,
            tile_min_x(s, p) == p.position.x * s.tile_width,
            tile_min_y(s, p) == p.position.y * s.tile_height,
    ;
    assert(touches(s, p, centre, pattern.size));
    assert(pattern.wf());
    let out = stroke_buffer(s, p, fresh, centre, pattern);
    assert forall|x: int, y: int, c: int|
        0 <= x < tw && 0 <= y < th && 0 <= c < 4 implies #[trigger] out[buffer_index(
        tw as int,
        th as int,
        x,
        y,
    ) + c] == if x == tw / 2 && y == th / 2 {
        if c == 1 || c == 2 {
            0u8
        } else {
            255u8
        }
    } else if c == 3 {
        0u8
    } else {
        255u8
    } by {
        lemma_byte_in_bounds(tw as int, th as int, x, y, c);
        lemma_byte_recover(tw as int, th as int, x, y, c);
        let k = buffer_index(tw as int, th as int, x, y) + c;
        assert(pattern.channel(0, 0, c) == pattern.pattern_pixels@[0][c]);
    }
}

} // verus!
