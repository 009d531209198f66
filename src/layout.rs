use vstd::prelude::*;

use crate::geometry::UVec2;

verus! {

/// The largest pixel extent of a tileset on either axis: pixel coordinates
/// must fit in both `i32` and `u32`.
pub const MAX_EXTENT: usize = 0x7fff_ffff;

/// The layout of a tileset: the pixel size of each tile and the number of
/// tiles along each axis.
#[derive(Debug, Clone, Copy, PartialEq, Eq, Structural)]
pub struct TileSetSettings {
    pub tile_width: usize,
    pub tile_height: usize,
    pub tileset_height: usize,
    pub tileset_width: usize,
}

/// The pixel size of one tile.
#[derive(Debug, Default, Clone, Copy, PartialEq, Eq, Structural)]
pub struct TileSettings {
    pub tile_width: usize,
    pub tile_height: usize,
}

/// The column and row of a tile in its grid; rows count upwards.
#[derive(Debug, Default, Clone, Copy, PartialEq, Eq, Structural)]
pub struct TilePosition {
    pub position: UVec2,
}

/// The pixel of the selected tileset under the mouse, if it is over the tileset.
#[derive(Debug, Clone, Copy, PartialEq, Eq, Structural)]
pub struct MousePixelPosition {
    pub pixel_position: Option<UVec2>,
}

impl Default for MousePixelPosition {
    fn default() -> (r: MousePixelPosition)
        ensures
            r.pixel_position.is_none(),
    {
        MousePixelPosition { pixel_position: None }
    }
}

impl TileSetSettings {
    pub open spec fn total_width(self) -> int {
        self.tile_width * self.tileset_width
    }

    pub open spec fn total_height(self) -> int {
        self.tile_height * self.tileset_height
    }

    /// Every dimension is at least one, the pixel extent fits `MAX_EXTENT`
    /// and the number of tiles fits `usize`.
    pub open spec fn is_valid(self) -> bool {
        &&& self.tile_width >= 1
        &&& self.tile_height >= 1
        &&& self.tileset_width >= 1
        &&& self.tileset_height >= 1
        &&& self.total_width() <= MAX_EXTENT
        &&& self.total_height() <= MAX_EXTENT
        &&& self.tileset_width * self.tileset_height <= usize::MAX
    }

    /// Whether the layout is valid.
    pub fn is_valid_layout(&self) -> (r: bool)
        ensures
            r == self.is_valid(),
    {
        if self.tile_width < 1 || self.tile_height < 1 || self.tileset_width < 1
            || self.tileset_height < 1 {
            return false;
        }
        let wide = match self.tile_width.checked_mul(self.tileset_width) {
            Some(w) => w <= MAX_EXTENT,
            None => false,
        };
        let high = match self.tile_height.checked_mul(self.tileset_height) {
            Some(h) => h <= MAX_EXTENT,
            None => false,
        };
        wide && high && self.tileset_width.checked_mul(self.tileset_height).is_some()
    }

    /// A tileset of one 32 by 32 tile.
    pub fn single_tile() -> (r: TileSetSettings)
        ensures
            r.tile_width == 32 && r.tile_height == 32,
            r.tileset_width == 1 && r.tileset_height == 1,
            r.is_valid(),
    {
        TileSetSettings { tile_width: 32, tile_height: 32, tileset_height: 1, tileset_width: 1 }
    }

    /// A tileset of ten by ten tiles of 32 by 32 pixels.
    pub fn multiple_tiles() -> (r: TileSetSettings)
        ensures
            r.tile_width == 32 && r.tile_height == 32,
            r.tileset_width == 10 && r.tileset_height == 10,
            r.is_valid(),
    {
        TileSetSettings { tile_width: 32, tile_height: 32, tileset_height: 10, tileset_width: 10 }
    }

    /// The pixel size of each tile of this tileset.
    pub fn tile_settings(&self) -> (r: TileSettings)
        ensures
            r.tile_width == self.tile_width,
            r.tile_height == self.tile_height,
    {
        TileSettings { tile_width: self.tile_width, tile_height: self.tile_height }
    }
}

impl Default for TileSetSettings {
    fn default() -> (r: TileSetSettings)
        ensures
            r.tile_width == 32 && r.tile_height == 32,
            r.tileset_width == 10 && r.tileset_height == 10,
    {
        TileSetSettings::multiple_tiles()
    }
}

/// The total size of a tileset in pixels.
pub fn get_total_tileset_size_pixels(tileset_settings: &TileSetSettings) -> (r: UVec2)
    requires
        tileset_settings.is_valid(),
    ensures
        r.x == tileset_settings.total_width(),
        r.y == tileset_settings.total_height(),
{
    UVec2 {
        x: (tileset_settings.tile_width * tileset_settings.tileset_width) as u32,
        y: (tileset_settings.tile_height * tileset_settings.tileset_height) as u32,
    }
}

/// The pixel of the tileset at an unscaled mouse position, which is measured
/// from the tileset's centre: the position moves by half the extent to the
/// tileset's bottom-left corner, and is kept when it falls within the extent.
pub open spec fn mouse_pixel_spec(unscaled_x: int, unscaled_y: int, s: TileSetSettings) -> Option<
    UVec2,
> {
    let px = unscaled_x + s.total_width() / 2;
    let py = unscaled_y + s.total_height() / 2;
    if 0 <= px < s.total_width() && 0 <= py < s.total_height() {
        Some(UVec2 { x: px as u32, y: py as u32 })
    } else {
        None
    }
}

/// Resolves the pixel under the mouse. `unscaled_x` and `unscaled_y` are the
/// mouse's world position divided by the tileset's scale and truncated.
pub fn get_mouse_pixel_tileset_pos(
    unscaled_x: i32,
    unscaled_y: i32,
    tileset_settings: &TileSetSettings,
    mouse_pixel_pos: &mut MousePixelPosition,
)
    requires
        tileset_settings.is_valid(),
    ensures
        final(mouse_pixel_pos).pixel_position == mouse_pixel_spec(
            unscaled_x as int,
            unscaled_y as int,
            *tileset_settings,
        ),
{
    let size = get_total_tileset_size_pixels(tileset_settings);
    let width = size.x as i64;
    let height = size.y as i64;
    let px = unscaled_x as i64 + width / 2;
    let py = unscaled_y as i64 + height / 2;
    if 0 <= px && px < width && 0 <= py && py < height {
        mouse_pixel_pos.pixel_position = Some(UVec2 { x: px as u32, y: py as u32 });
    } else {
        mouse_pixel_pos.pixel_position = None;
    }
}

} // verus!
