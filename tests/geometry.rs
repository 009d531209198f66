use tileset_editor::geometry::{CornerContained, TileRect};

fn rect(left: i32, right: i32, bottom: i32, top: i32) -> TileRect {
    TileRect { left, right, top, bottom }
}

#[test]
fn contains_corner_top_left() {
    let tile = rect(0, 10, 0, 10);
    let brush = rect(8, 12, -2, 2);
    assert_eq!(
        tile.contains_corner(&brush),
        CornerContained::TopLeft { units_right: 2, units_down: 2 }
    );
}

#[test]
fn contains_corner_top_right() {
    let tile = rect(0, 10, 0, 10);
    let brush = rect(-5, 1, -3, 9);
    assert_eq!(
        tile.contains_corner(&brush),
        CornerContained::TopRight { units_left: 1, units_down: 9 }
    );
}

#[test]
fn contains_corner_bottom_left() {
    let tile = rect(0, 10, 0, 10);
    let brush = rect(7, 15, 6, 12);
    assert_eq!(
        tile.contains_corner(&brush),
        CornerContained::BottomLeft { units_right: 3, units_up: 4 }
    );
}

#[test]
fn contains_corner_bottom_right() {
    let tile = rect(0, 10, 0, 10);
    let brush = rect(-2, 3, 6, 12);
    assert_eq!(
        tile.contains_corner(&brush),
        CornerContained::BottomRight { units_left: 3, units_up: 4 }
    );
}

#[test]
fn contains_corner_wholly_inside_reports_top_left() {
    let tile = rect(0, 10, 0, 10);
    let brush = rect(2, 4, 3, 6);
    assert_eq!(
        tile.contains_corner(&brush),
        CornerContained::TopLeft { units_right: 8, units_down: 6 }
    );
}

#[test]
fn flush_edge_is_not_contained() {
    let tile = rect(0, 10, 0, 10);
    let brush = rect(10, 14, 0, 5);
    assert_eq!(tile.contains_corner(&brush), CornerContained::NotContained);
    let below = rect(2, 4, -4, 0);
    assert_eq!(tile.contains_corner(&below), CornerContained::NotContained);
}

#[test]
fn disjoint_rectangles_are_not_contained() {
    let tile = rect(0, 10, 0, 10);
    for brush in [rect(20, 25, 20, 25), rect(-9, -1, 2, 4), rect(3, 4, 11, 30), rect(-5, 15, -8, -1)] {
        assert_eq!(tile.contains_corner(&brush), CornerContained::NotContained);
    }
}

#[test]
fn covering_rectangle_has_no_contained_corner() {
    let tile = rect(0, 10, 0, 10);
    let brush = rect(-5, 15, -5, 15);
    assert_eq!(tile.contains_corner(&brush), CornerContained::NotContained);
}

#[test]
fn scaled_distances_are_divided_per_axis() {
    let tile = rect(0, 10, 0, 10);
    let brush = rect(-5, 1, -3, 9);
    assert_eq!(
        tile.contains_corner_scaled(2, 3, &brush),
        CornerContained::TopRight { units_left: 0, units_down: 3 }
    );
    let brush = rect(7, 15, 6, 12);
    assert_eq!(
        tile.contains_corner_scaled(3, 2, &brush),
        CornerContained::BottomLeft { units_right: 1, units_up: 2 }
    );
    let far = rect(20, 25, 20, 25);
    assert_eq!(tile.contains_corner_scaled(2, 2, &far), CornerContained::NotContained);
}

#[test]
fn is_other_inside_is_strict() {
    let tile = rect(0, 10, 0, 10);
    assert!(!tile.is_other_inside(&rect(10, 14, 0, 5)));
    assert!(tile.is_other_inside(&rect(2, 4, 3, 6)));
    assert!(tile.is_other_inside(&rect(8, 12, -2, 2)));
    assert!(!tile.is_other_inside(&rect(20, 25, 20, 25)));
    assert!(!tile.is_other_inside(&rect(-5, 15, -5, 15)));
}

#[test]
fn corner_touch_is_not_inside() {
    let a = rect(0, 4, 0, 4);
    let b = rect(4, 6, 4, 6);
    assert!(!a.is_other_inside(&b));
    assert_eq!(a.contains_corner(&b), CornerContained::NotContained);
}
