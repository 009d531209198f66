use tileset_editor::blit::{
    draw_pixels_in_tile, get_x_for_drawing_loop, get_y_for_drawing_loop, Horizontal, Vertical,
    XData, YData,
};
use tileset_editor::geometry::UVec2;
use tileset_editor::layout::TileSettings;
use tileset_editor::pattern::Pattern;
use tileset_editor::tiles::{transparent_buffer, TileData};

const CLEAR: [u8; 4] = [255, 255, 255, 0];

/// A pattern whose pixel in column i, row j is [i, j, 7, 255].
fn coded_pattern(w: u32, h: u32) -> Pattern {
    let mut pixels = Vec::new();
    for j in 0..h {
        for i in 0..w {
            pixels.push([i as u8, j as u8, 7, 255]);
        }
    }
    Pattern { size: UVec2::new(w, h), pattern_pixels: pixels }
}

fn tile(w: usize, h: usize) -> (TileSettings, TileData) {
    (TileSettings { tile_width: w, tile_height: h }, TileData { data: transparent_buffer(w, h) })
}

#[test]
fn x_range_from_a_left_edge_is_clipped_at_the_tile() {
    let s = TileSettings { tile_width: 4, tile_height: 4 };
    let p = coded_pattern(3, 3);
    let x = get_x_for_drawing_loop(&Horizontal::Left, &p, UVec2::new(2, 0), &s);
    assert_eq!(x, XData { tile_x_min: 2, tile_x_max: 4, pattern_start_x: 0, pattern_end_x: 2 });
    let x = get_x_for_drawing_loop(&Horizontal::Left, &p, UVec2::new(0, 0), &s);
    assert_eq!(x, XData { tile_x_min: 0, tile_x_max: 3, pattern_start_x: 0, pattern_end_x: 3 });
}

#[test]
fn x_range_from_a_right_edge() {
    let s = TileSettings { tile_width: 4, tile_height: 4 };
    let p = coded_pattern(3, 3);
    let x = get_x_for_drawing_loop(&Horizontal::Right, &p, UVec2::new(1, 0), &s);
    assert_eq!(x, XData { tile_x_min: 0, tile_x_max: 2, pattern_start_x: 1, pattern_end_x: 3 });
    let x = get_x_for_drawing_loop(&Horizontal::Right, &p, UVec2::new(3, 0), &s);
    assert_eq!(x, XData { tile_x_min: 1, tile_x_max: 4, pattern_start_x: 0, pattern_end_x: 3 });
}

#[test]
fn y_ranges_from_top_and_bottom_edges() {
    let s = TileSettings { tile_width: 4, tile_height: 4 };
    let p = coded_pattern(3, 3);
    let y = get_y_for_drawing_loop(&Vertical::Top, &p, UVec2::new(0, 0), &s);
    assert_eq!(y, YData { tile_y_min: 0, tile_y_max: 1, pattern_start_y: 2, pattern_end_y: 3 });
    let y = get_y_for_drawing_loop(&Vertical::Bottom, &p, UVec2::new(0, 3), &s);
    assert_eq!(y, YData { tile_y_min: 3, tile_y_max: 4, pattern_start_y: 0, pattern_end_y: 1 });
    let y = get_y_for_drawing_loop(&Vertical::Top, &p, UVec2::new(0, 3), &s);
    assert_eq!(y, YData { tile_y_min: 1, tile_y_max: 4, pattern_start_y: 0, pattern_end_y: 3 });
}

#[test]
fn pattern_larger_than_tile_is_clipped_from_bottom_left() {
    let (s, mut d) = tile(4, 4);
    let p = coded_pattern(10, 10);
    draw_pixels_in_tile(UVec2::new(1, 2), Horizontal::Left, Vertical::Bottom, &mut d, &s, &p);
    assert_eq!(d.data.len(), 64);
    let mut painted = 0;
    for y in 0..4usize {
        for x in 0..4usize {
            let px = d.read_pixel(&s, x, y).unwrap();
            if x >= 1 && y >= 2 {
                assert_eq!(px, [(x - 1) as u8, (y - 2) as u8, 7, 255]);
                painted += 1;
            } else {
                assert_eq!(px, CLEAR);
            }
        }
    }
    assert_eq!(painted, 6);
}

#[test]
fn pattern_larger_than_tile_is_clipped_from_top_right() {
    let (s, mut d) = tile(4, 4);
    let p = coded_pattern(10, 10);
    draw_pixels_in_tile(UVec2::new(1, 2), Horizontal::Right, Vertical::Top, &mut d, &s, &p);
    for y in 0..4usize {
        for x in 0..4usize {
            let px = d.read_pixel(&s, x, y).unwrap();
            if x <= 1 && y <= 2 {
                assert_eq!(px, [(8 + x) as u8, (7 + y) as u8, 7, 255]);
            } else {
                assert_eq!(px, CLEAR);
            }
        }
    }
}

#[test]
fn pattern_larger_than_tile_at_the_far_corner() {
    let (s, mut d) = tile(4, 4);
    let p = coded_pattern(10, 10);
    draw_pixels_in_tile(UVec2::new(3, 3), Horizontal::Right, Vertical::Top, &mut d, &s, &p);
    for y in 0..4usize {
        for x in 0..4usize {
            assert_eq!(d.read_pixel(&s, x, y).unwrap(), [(6 + x) as u8, (6 + y) as u8, 7, 255]);
        }
    }
}

#[test]
fn rows_are_stored_top_down() {
    let (s, mut d) = tile(2, 3);
    let p = Pattern { size: UVec2::new(1, 1), pattern_pixels: vec![[9, 8, 7, 6]] };
    draw_pixels_in_tile(UVec2::new(1, 0), Horizontal::Left, Vertical::Bottom, &mut d, &s, &p);
    // the bottom row is the last one in the buffer
    assert_eq!(&d.data[20..24], &[9, 8, 7, 6]);
    assert_eq!(&d.data[0..4], &CLEAR);
}

#[test]
fn read_pixel_rejects_outside_and_mismatched_buffers() {
    let (s, d) = tile(2, 2);
    assert_eq!(d.read_pixel(&s, 1, 1), Some(CLEAR));
    assert_eq!(d.read_pixel(&s, 2, 0), None);
    assert_eq!(d.read_pixel(&s, 0, 2), None);
    let short = TileData { data: vec![0; 12] };
    assert_eq!(short.read_pixel(&s, 0, 0), None);
}

#[test]
fn anchor_outside_the_tile_gives_empty_ranges() {
    let s = TileSettings { tile_width: 4, tile_height: 4 };
    let p = coded_pattern(3, 3);
    for side in [Horizontal::Left, Horizontal::Right] {
        let x = get_x_for_drawing_loop(&side, &p, UVec2::new(7, 9), &s);
        assert_eq!(x, XData { tile_x_min: 4, tile_x_max: 4, pattern_start_x: 0, pattern_end_x: 0 });
    }
    for side in [Vertical::Top, Vertical::Bottom] {
        let y = get_y_for_drawing_loop(&side, &p, UVec2::new(0, u32::MAX), &s);
        assert_eq!(y, YData { tile_y_min: 4, tile_y_max: 4, pattern_start_y: 0, pattern_end_y: 0 });
    }
}

#[test]
fn anchor_outside_the_tile_paints_nothing() {
    let (s, mut d) = tile(4, 4);
    let before = d.data.clone();
    let p = coded_pattern(3, 3);
    draw_pixels_in_tile(UVec2::new(4, 1), Horizontal::Right, Vertical::Top, &mut d, &s, &p);
    draw_pixels_in_tile(UVec2::new(1, 40), Horizontal::Left, Vertical::Bottom, &mut d, &s, &p);
    assert_eq!(d.data, before);
}
