use vstd::prelude::*;
use vstd::arithmetic::div_mod::lemma_fundamental_div_mod_converse;

use crate::geometry::UVec2;
use crate::layout::{TilePosition, TileSetSettings, TileSettings};
use crate::pixels::{buffer_index, lemma_byte_in_bounds};

verus! {

/// The RGBA pixels of one tile: four bytes per pixel, rows stored from the
/// top row of the tile down to its bottom row.
#[derive(Debug, Default)]
pub struct TileData {
    pub data: Vec<u8>,
}

impl TileData {
    /// The RGBA bytes of pixel `(x, y)`, with `y` counted upwards from the
    /// bottom row; `None` when the pixel is outside the tile or the buffer
    /// does not match the tile's size.
    pub fn read_pixel(&self, tile_settings: &TileSettings, x: usize, y: usize) -> (r: Option<[u8; 4]>)
        ensures
            ({
                let tw = tile_settings.tile_width as int;
                let th = tile_settings.tile_height as int;
                let i = buffer_index(tw, th, x as int, y as int);
                if x < tw && y < th && self.data@.len() == tw * th * 4 {
                    r == Some([self.data@[i], self.data@[i + 1], self.data@[i + 2], self.data@[i + 3]])
                } else {
                    r.is_none()
                }
            }),
    {
        let tw = tile_settings.tile_width;
        let th = tile_settings.tile_height;
        let len = self.data.len();
        if x >= tw || y >= th {
            return None;
        }
        let fits = match tw.checked_mul(th) {
            Some(p) => match p.checked_mul(4) {
                Some(b) => b == len,
                None => false,
            },
            None => false,
        };
        if !fits {
            return None;
        }
        proof {
            lemma_byte_in_bounds(tw as int, th as int, x as int, y as int, 0);
            assert(0 <= (th - 1 - y) * tw + x < tw * th) by (nonlinear_arith)
                requires
                    x < tw,
                    y < th,
            ;
        }
        let i = ((th - 1 - y) * tw + x) * 4;
        Some([self.data[i], self.data[i + 1], self.data[i + 2], self.data[i + 3]])
    }
}

/// Where a tile is in its lifecycle.
#[derive(Debug, Clone, Copy, PartialEq, Eq, Structural)]
pub enum TileState {
    /// Created, with no pixel buffer yet.
    Uninitiated,
    /// Holds a pixel buffer of its size.
    Initialized,
}

/// One cell of a tileset grid with its own pixel buffer. `changed` is set
/// when the buffer is painted and cleared when the change is collected.
#[derive(Debug)]
pub struct Tile {
    pub tile_settings: TileSettings,
    pub tile_position: TilePosition,
    pub data: TileData,
    pub state: TileState,
    pub changed: bool,
}

/// A fully transparent buffer of `tw` by `th` pixels: every pixel is white
/// with alpha zero.
pub open spec fn transparent_spec(tw: int, th: int) -> Seq<u8> {
    Seq::new((tw * th * 4) as nat, |k: int| if k % 4 == 3 { 0u8 } else { 255u8 })
}

/// A buffer of `tw * th * 4` bytes can be held.
pub open spec fn buffer_fits(s: TileSettings) -> bool {
    s.tile_width * s.tile_height * 4 <= usize::MAX
}

/// Builds a transparent buffer of `tw` by `th` pixels.
pub fn transparent_buffer(tw: usize, th: usize) -> (r: Vec<u8>)
    requires
        tw * th * 4 <= usize::MAX,
    ensures
        r@ == transparent_spec(tw as int, th as int),
{
    let pixels = tw * th;
    let mut buffer: Vec<u8> = Vec::with_capacity(pixels * 4);
    let mut i: usize = 0;
    while i < pixels
        invariant
            i <= pixels,
            pixels == tw * th,
            pixels * 4 <= usize::MAX,
            buffer@ =~= Seq::new((i * 4) as nat, |k: int| if k % 4 == 3 { 0u8 } else { 255u8 }),
        decreases pixels - i,
    {
        buffer.push(255);
        buffer.push(255);
        buffer.push(255);
        buffer.push(0);
        i = i + 1;
        assert(buffer@ =~= Seq::new((i * 4) as nat, |k: int| if k % 4 == 3 { 0u8 } else { 255u8 }));
    }
    buffer
}

/// The cache maps sizes to buffers: no size appears twice, and each cached
/// buffer is the transparent buffer of its size.
pub open spec fn cache_ok(cache: Seq<(usize, usize, Vec<u8>)>) -> bool {
    &&& forall|e: int|
        0 <= e < cache.len() ==> #[trigger] cache[e].2@ == transparent_spec(
            cache[e].0 as int,
            cache[e].1 as int,
        )
    &&& forall|e: int, f: int|
        0 <= e < f < cache.len() ==> (#[trigger] cache[e].0, cache[e].1) != (#[trigger] cache[f].0,
            cache[f].1)
}

/// A transparent buffer of the given size, taken from the cache when a buffer
/// of that size was built before, and built and remembered otherwise.
fn cached_transparent_buffer(cache: &mut Vec<(usize, usize, Vec<u8>)>, tw: usize, th: usize) -> (r:
    Vec<u8>)
    requires
        tw * th * 4 <= usize::MAX,
        cache_ok(old(cache)@),
    ensures
        r@ == transparent_spec(tw as int, th as int),
        cache_ok(final(cache)@),
{
    let mut e: usize = 0;
    while e < cache.len()
        invariant
            cache_ok(cache@),
            forall|f: int| 0 <= f < e ==> (#[trigger] cache@[f].0, cache@[f].1) != (tw, th),
        decreases cache.len() - e,
    {
        if cache[e].0 == tw && cache[e].1 == th {
            let found = cache[e].2.clone();
            assert(cache@[e as int].2@ == transparent_spec(tw as int, th as int));
            return found;
        }
        e = e + 1;
    }
    let buffer = transparent_buffer(tw, th);
    cache.push((tw, th, buffer.clone()));
    assert(cache_ok(cache@)) by {
        assert forall|i: int| 0 <= i < cache@.len() implies #[trigger] cache@[i].2@
            == transparent_spec(cache@[i].0 as int, cache@[i].1 as int) by {
            if i < cache@.len() - 1 {
                assert(cache@[i] == old(cache)@[i]);
            }
        }
        assert forall|i: int, j: int| 0 <= i < j < cache@.len() implies (
        #[trigger] cache@[i].0,
            cache@[i].1,
        ) != (#[trigger] cache@[j].0, cache@[j].1) by {
            assert(cache@[i] == old(cache)@[i]);
            if j < cache@.len() - 1 {
                assert(cache@[j] == old(cache)@[j]);
            }
        }
    }
    buffer
}

/// Whether initialising gives the tile a transparent buffer.
pub open spec fn gets_initialized(t: Tile) -> bool {
    t.state == TileState::Uninitiated && buffer_fits(t.tile_settings)
}

/// Gives every uninitiated tile a transparent buffer of its size and marks it
/// initialized. One buffer is built per distinct size and cloned for the
/// other tiles of that size. A tile whose buffer would not fit in memory's
/// address range stays uninitiated; every other field of every tile is kept.
pub fn init_tile_seq(tiles: &mut Vec<Tile>)
    ensures
        final(tiles)@.len() == old(tiles)@.len(),
        forall|i: int|
            0 <= i < old(tiles)@.len() ==> {
                let o = #[trigger] old(tiles)@[i];
                let n = final(tiles)@[i];
                &&& n.tile_settings == o.tile_settings
                &&& n.tile_position == o.tile_position
                &&& n.changed == o.changed
                &&& if gets_initialized(o) {
                    &&& n.state == TileState::Initialized
                    &&& n.data.data@ == transparent_spec(
                        o.tile_settings.tile_width as int,
                        o.tile_settings.tile_height as int,
                    )
                } else {
                    &&& n.state == o.state
                    &&& n.data.data@ == o.data.data@
                }
            },
{
    let mut cache: Vec<(usize, usize, Vec<u8>)> = Vec::new();
    let mut i: usize = 0;
    while i < tiles.len()
        invariant
            cache_ok(cache@),
            tiles@.len() == old(tiles)@.len(),
            forall|j: int|
                i <= j < tiles@.len() ==> #[trigger] tiles@[j] == old(tiles)@[j],
            forall|j: int|
                0 <= j < i ==> {
                    let o = #[trigger] old(tiles)@[j];
                    let n = tiles@[j];
                    &&& n.tile_settings == o.tile_settings
                    &&& n.tile_position == o.tile_position
                    &&& n.changed == o.changed
                    &&& if gets_initialized(o) {
                        &&& n.state == TileState::Initialized
                        &&& n.data.data@ == transparent_spec(
                            o.tile_settings.tile_width as int,
                            o.tile_settings.tile_height as int,
                        )
                    } else {
                        &&& n.state == o.state
                        &&& n.data.data@ == o.data.data@
                    }
                },
        decreases tiles.len() - i,
    {
        let tw = tiles[i].tile_settings.tile_width;
        let th = tiles[i].tile_settings.tile_height;
        let fits = match tw.checked_mul(th) {
            Some(p) => p.checked_mul(4).is_some(),
            None => false,
        };
        if tiles[i].state == TileState::Uninitiated && fits {
            let buffer = cached_transparent_buffer(&mut cache, tw, th);
            let tile = &mut tiles[i];
            tile.data = TileData { data: buffer };
            tile.state = TileState::Initialized;
        }
        i = i + 1;
    }
}

/// The tiles of a new tileset, row by row from the bottom: tile `i` is in
/// column `i % tileset_width` and row `i / tileset_width`. Every tile is
/// uninitiated, unchanged and has an empty buffer.
pub fn init_tileset(tileset_settings: &TileSetSettings) -> (r: Vec<Tile>)
    requires
        tileset_settings.is_valid(),
    ensures
        r@.len() == tileset_settings.tileset_width * tileset_settings.tileset_height,
        forall|i: int|
            0 <= i < r@.len() ==> {
                let t = #[trigger] r@[i];
                &&& t.tile_position.position.x == i % (tileset_settings.tileset_width as int)
                &&& t.tile_position.position.y == i / (tileset_settings.tileset_width as int)
                &&& t.tile_settings.tile_width == tileset_settings.tile_width
                &&& t.tile_settings.tile_height == tileset_settings.tile_height
                &&& t.state == TileState::Uninitiated
                &&& !t.changed
                &&& t.data.data@.len() == 0
            },
{
    let w = tileset_settings.tileset_width;
    let h = tileset_settings.tileset_height;
    let settings = tileset_settings.tile_settings();
    assert(w <= u32::MAX && h <= u32::MAX) by (nonlinear_arith)
        requires
            tileset_settings.tile_width >= 1,
            tileset_settings.tile_height >= 1,
            w == tileset_settings.tileset_width,
            h == tileset_settings.tileset_height,
            tileset_settings.tile_width * w <= u32::MAX,
            tileset_settings.tile_height * h <= u32::MAX,
    ;
    let mut tiles: Vec<Tile> = Vec::new();
    let mut y: usize = 0;
    while y < h
        invariant
            y <= h,
            w >= 1,
            w <= u32::MAX,
            h <= u32::MAX,
            w * h <= usize::MAX,
            w == tileset_settings.tileset_width,
            settings.tile_width == tileset_settings.tile_width,
            settings.tile_height == tileset_settings.tile_height,
            tiles@.len() == y * w,
            forall|i: int|
                0 <= i < tiles@.len() ==> {
                    let t = #[trigger] tiles@[i];
                    &&& t.tile_position.position.x == i % (w as int)
                    &&& t.tile_position.position.y == i / (w as int)
                    &&& t.tile_settings == settings
                    &&& t.state == TileState::Uninitiated
                    &&& !t.changed
                    &&& t.data.data@.len() == 0
                },
        decreases h - y,
    {
        let mut x: usize = 0;
        while x < w
            invariant
                y < h,
                x <= w,
                w >= 1,
                w <= u32::MAX,
                h <= u32::MAX,
                w * h <= usize::MAX,
                w == tileset_settings.tileset_width,
                settings.tile_width == tileset_settings.tile_width,
                settings.tile_height == tileset_settings.tile_height,
                tiles@.len() == y * w + x,
                forall|i: int|
                    0 <= i < tiles@.len() ==> {
                        let t = #[trigger] tiles@[i];
                        &&& t.tile_position.position.x == i % (w as int)
                        &&& t.tile_position.position.y == i / (w as int)
                        &&& t.tile_settings == settings
                        &&& t.state == TileState::Uninitiated
                        &&& !t.changed
                        &&& t.data.data@.len() == 0
                    },
            decreases w - x,
        {
            proof {
                lemma_fundamental_div_mod_converse((y * w + x) as int, w as int, y as int, x as int);
                assert(y * w + x < w * h) by (nonlinear_arith)
                    requires
                        x < w,
                        y < h,
                ;
            }
            tiles.push(
                Tile {
                    tile_settings: settings,
                    tile_position: TilePosition { position: UVec2 { x: x as u32, y: y as u32 } },
                    data: TileData { data: Vec::new() },
                    state: TileState::Uninitiated,
                    changed: false,
                },
            );
            x = x + 1;
        }
        assert((y + 1) * w == y * w + w) by (nonlinear_arith);
        y = y + 1;
    }
    assert(tiles@.len() == w * h) by (nonlinear_arith)
        requires
            tiles@.len() == y * w,
            y == h,
    ;
    tiles
}

/// Collects the indices of the tiles whose buffers changed, in order, and
/// clears their flags; nothing else changes.
pub fn take_changed_tiles(tiles: &mut Vec<Tile>) -> (r: Vec<usize>)
    ensures
        final(tiles)@.len() == old(tiles)@.len(),
        forall|i: int|
            0 <= i < old(tiles)@.len() ==> {
                let o = #[trigger] old(tiles)@[i];
                let n = final(tiles)@[i];
                &&& !n.changed
                &&& n.tile_settings == o.tile_settings
                &&& n.tile_position == o.tile_position
                &&& n.state == o.state
                &&& n.data.data@ == o.data.data@
            },
        forall|j: int| 0 <= j < r@.len() ==> old(tiles)@[#[trigger] r@[j] as int].changed,
        forall|j: int, l: int| 0 <= j < l < r@.len() ==> r@[j] < r@[l],
        forall|i: int|
            0 <= i < old(tiles)@.len() && #[trigger] old(tiles)@[i].changed ==> r@.contains(
                i as usize,
            ),
{
    let mut changed: Vec<usize> = Vec::new();
    let mut i: usize = 0;
    while i < tiles.len()
        invariant
            i <= tiles@.len(),
            tiles@.len() == old(tiles)@.len(),
            forall|j: int| i <= j < tiles@.len() ==> #[trigger] tiles@[j] == old(tiles)@[j],
            forall|j: int|
                0 <= j < i ==> {
                    let o = #[trigger] old(tiles)@[j];
                    let n = tiles@[j];
                    &&& !n.changed
                    &&& n.tile_settings == o.tile_settings
                    &&& n.tile_position == o.tile_position
                    &&& n.state == o.state
                    &&& n.data.data@ == o.data.data@
                },
            forall|j: int| 0 <= j < changed@.len() ==> #[trigger] changed@[j] < i,
            forall|j: int| 0 <= j < changed@.len() ==> old(tiles)@[#[trigger] changed@[j] as int].changed,
            forall|j: int, l: int| 0 <= j < l < changed@.len() ==> changed@[j] < changed@[l],
            forall|j: int|
                0 <= j < i && #[trigger] old(tiles)@[j].changed ==> changed@.contains(j as usize),
        decreases tiles.len() - i,
    {
        if tiles[i].changed {
            let ghost before = changed@;
            changed.push(i);
            assert forall|j: int|
                0 <= j < i && #[trigger] old(tiles)@[j].changed implies changed@.contains(
                j as usize,
            ) by {
                let e = choose|e: int| 0 <= e < before.len() && before[e] == j as usize;
                assert(changed@[e] == j as usize);
            }
            assert(changed@[changed@.len() - 1] == i);
            tiles[i].changed = false;
        }
        i = i + 1;
    }
    changed
}

} // verus!
