use tileset_editor::geometry::UVec2;
use tileset_editor::layout::{MousePixelPosition, TilePosition, TileSetSettings, TileSettings};
use tileset_editor::painting::{paint_tile, use_pencil_tool_seq, SelectedTool};
use tileset_editor::pattern::Pattern;
use tileset_editor::tiles::{init_tile_seq, init_tileset, take_changed_tiles, Tile, TileData, TileState};

const CLEAR: [u8; 4] = [255, 255, 255, 0];
const BLUE: [u8; 4] = [0, 0, 255, 255];
const RED: [u8; 4] = [255, 0, 0, 255];
const BLACK: [u8; 4] = [0, 0, 0, 255];

fn grid(tile: usize, across: usize, up: usize) -> Vec<Tile> {
    let s = TileSetSettings { tile_width: tile, tile_height: tile, tileset_width: across, tileset_height: up };
    let mut tiles = init_tileset(&s);
    init_tile_seq(&mut tiles);
    tiles
}

fn solid(w: u32, h: u32, colour: [u8; 4]) -> Pattern {
    Pattern { size: UVec2::new(w, h), pattern_pixels: vec![colour; (w * h) as usize] }
}

fn at(x: u32, y: u32) -> MousePixelPosition {
    MousePixelPosition { pixel_position: Some(UVec2::new(x, y)) }
}

fn pencil() -> SelectedTool {
    SelectedTool::Pencil { pattern_handle: 0 }
}

fn tile_at(tiles: &[Tile], col: u32, row: u32) -> &Tile {
    tiles.iter().find(|t| t.tile_position.position == UVec2::new(col, row)).unwrap()
}

fn pixel(t: &Tile, x: usize, y: usize) -> [u8; 4] {
    t.data.read_pixel(&t.tile_settings, x, y).unwrap()
}

/// The pixels of a tile that are not transparent, with their colours.
fn painted(t: &Tile) -> Vec<(usize, usize, [u8; 4])> {
    let mut out = Vec::new();
    for y in 0..t.tile_settings.tile_height {
        for x in 0..t.tile_settings.tile_width {
            let p = pixel(t, x, y);
            if p != CLEAR {
                out.push((x, y, p));
            }
        }
    }
    out
}

fn buffers(tiles: &[Tile]) -> Vec<Vec<u8>> {
    tiles.iter().map(|t| t.data.data.clone()).collect()
}

#[test]
fn shared_corner_paints_one_pixel_in_each_of_four_tiles() {
    let mut tiles = grid(4, 2, 2);
    let patterns = vec![solid(2, 2, BLUE)];
    use_pencil_tool_seq(&at(4, 4), true, &pencil(), &patterns, &mut tiles);
    assert_eq!(painted(tile_at(&tiles, 0, 0)), vec![(3, 3, BLUE)]);
    assert_eq!(painted(tile_at(&tiles, 1, 0)), vec![(0, 3, BLUE)]);
    assert_eq!(painted(tile_at(&tiles, 0, 1)), vec![(3, 0, BLUE)]);
    assert_eq!(painted(tile_at(&tiles, 1, 1)), vec![(0, 0, BLUE)]);
    assert_eq!(take_changed_tiles(&mut tiles), vec![0, 1, 2, 3]);
}

#[test]
fn mouse_outside_the_grid_changes_nothing() {
    let mut tiles = grid(4, 2, 2);
    let before = buffers(&tiles);
    let patterns = vec![solid(2, 2, BLUE)];
    let outside = MousePixelPosition { pixel_position: None };
    use_pencil_tool_seq(&outside, true, &pencil(), &patterns, &mut tiles);
    assert_eq!(buffers(&tiles), before);
    assert!(take_changed_tiles(&mut tiles).is_empty());
}

#[test]
fn large_pattern_is_clipped_to_the_tiles_it_reaches() {
    let mut tiles = grid(4, 2, 2);
    let patterns = vec![solid(10, 10, BLUE)];
    use_pencil_tool_seq(&at(2, 2), true, &pencil(), &patterns, &mut tiles);
    // The footprint spans grid pixels -3..=6 on both axes; only its corner
    // (6, 6) lies in a tile, so that tile takes its share, clipped.
    let top_right = tile_at(&tiles, 1, 1);
    let mut expected = Vec::new();
    for y in 0..3 {
        for x in 0..3 {
            expected.push((x, y, BLUE));
        }
    }
    assert_eq!(painted(top_right), expected);
    assert!(painted(tile_at(&tiles, 0, 0)).is_empty());
    assert_eq!(take_changed_tiles(&mut tiles), vec![3]);
}

#[test]
fn same_stroke_twice_equals_once() {
    let patterns = vec![Pattern::checkerboard()];
    let mut once = grid(4, 2, 2);
    use_pencil_tool_seq(&at(4, 3), true, &pencil(), &patterns, &mut once);
    let mut twice = grid(4, 2, 2);
    use_pencil_tool_seq(&at(4, 3), true, &pencil(), &patterns, &mut twice);
    use_pencil_tool_seq(&at(4, 3), true, &pencil(), &patterns, &mut twice);
    assert_eq!(buffers(&once), buffers(&twice));
    assert_ne!(buffers(&once), buffers(&grid(4, 2, 2)));
}

#[test]
fn stroke_at_the_origin_touches_only_the_first_tile() {
    let mut tiles = grid(4, 2, 2);
    let patterns = vec![Pattern::checkerboard()];
    use_pencil_tool_seq(&at(0, 0), true, &pencil(), &patterns, &mut tiles);
    assert_eq!(
        painted(tile_at(&tiles, 0, 0)),
        vec![(0, 0, BLACK), (1, 0, RED), (0, 1, RED), (1, 1, BLACK)]
    );
    for (col, row) in [(1, 0), (0, 1), (1, 1)] {
        assert!(painted(tile_at(&tiles, col, row)).is_empty());
    }
}

#[test]
fn one_red_pixel_at_the_centre_reads_back() {
    let mut tiles = grid(5, 1, 1);
    let patterns = vec![solid(1, 1, RED)];
    use_pencil_tool_seq(&at(2, 2), true, &pencil(), &patterns, &mut tiles);
    let t = &tiles[0];
    assert_eq!(pixel(t, 2, 2), RED);
    assert_eq!(painted(t), vec![(2, 2, RED)]);
}

#[test]
fn checkerboard_row_zero_is_the_bottom_row() {
    let mut tiles = grid(10, 1, 1);
    let patterns = vec![Pattern::checkerboard()];
    use_pencil_tool_seq(&at(5, 5), true, &pencil(), &patterns, &mut tiles);
    let t = &tiles[0];
    assert_eq!(pixel(t, 4, 4), BLACK);
    assert_eq!(pixel(t, 5, 4), RED);
    assert_eq!(pixel(t, 4, 5), RED);
    assert_eq!(pixel(t, 5, 5), BLACK);
    assert_eq!(pixel(t, 6, 6), BLACK);
    assert_eq!(painted(t).len(), 9);
}

#[test]
fn stroke_across_a_vertical_tile_edge() {
    let mut tiles = grid(4, 2, 1);
    let patterns = vec![Pattern::checkerboard()];
    use_pencil_tool_seq(&at(4, 1), true, &pencil(), &patterns, &mut tiles);
    // columns 3..=5 and rows 0..=2 of the grid
    assert_eq!(painted(tile_at(&tiles, 0, 0)), vec![(3, 0, BLACK), (3, 1, RED), (3, 2, BLACK)]);
    assert_eq!(
        painted(tile_at(&tiles, 1, 0)),
        vec![(0, 0, RED), (1, 0, BLACK), (0, 1, BLACK), (1, 1, RED), (0, 2, RED), (1, 2, BLACK)]
    );
}

#[test]
fn no_stroke_without_the_button_or_the_pencil() {
    let patterns = vec![solid(2, 2, BLUE)];
    let mut tiles = grid(4, 2, 2);
    let before = buffers(&tiles);
    use_pencil_tool_seq(&at(4, 4), false, &pencil(), &patterns, &mut tiles);
    assert_eq!(buffers(&tiles), before);
    use_pencil_tool_seq(&at(4, 4), true, &SelectedTool::Pan, &patterns, &mut tiles);
    assert_eq!(buffers(&tiles), before);
}

#[test]
fn missing_or_broken_pattern_is_skipped() {
    let mut tiles = grid(4, 2, 2);
    let before = buffers(&tiles);
    let patterns = vec![Pattern::new(vec![BLUE])];
    use_pencil_tool_seq(&at(4, 4), true, &SelectedTool::Pencil { pattern_handle: 3 }, &patterns, &mut tiles);
    assert_eq!(buffers(&tiles), before);
    use_pencil_tool_seq(&at(4, 4), true, &pencil(), &patterns, &mut tiles);
    assert_eq!(buffers(&tiles), before);
    assert!(take_changed_tiles(&mut tiles).is_empty());
}

#[test]
fn uninitialised_tile_is_not_painted() {
    let mut tile = Tile {
        tile_settings: TileSettings { tile_width: 4, tile_height: 4 },
        tile_position: TilePosition::default(),
        data: TileData::default(),
        state: TileState::Uninitiated,
        changed: false,
    };
    paint_tile(&mut tile, UVec2::new(1, 1), &Pattern::checkerboard());
    assert!(tile.data.data.is_empty());
    assert!(!tile.changed);
}

#[test]
fn tile_out_of_reach_is_not_marked() {
    let mut tiles = grid(4, 3, 1);
    let patterns = vec![solid(3, 3, BLUE)];
    use_pencil_tool_seq(&at(1, 1), true, &pencil(), &patterns, &mut tiles);
    assert_eq!(take_changed_tiles(&mut tiles), vec![0]);
    assert_eq!(painted(&tiles[0]).len(), 9);
}

#[test]
fn no_tiles_selected_is_a_no_op() {
    let mut tiles: Vec<Tile> = Vec::new();
    let patterns = vec![solid(2, 2, BLUE)];
    use_pencil_tool_seq(&at(4, 4), true, &pencil(), &patterns, &mut tiles);
    assert!(tiles.is_empty());
}
