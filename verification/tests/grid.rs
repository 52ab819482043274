use std::collections::HashSet;

use terrarium::grid::Cell;
use terrarium::grid::CellKind;
use terrarium::grid::GridBounds;
use terrarium::grid::CORNER_BOTTOM_LEFT;
use terrarium::grid::CORNER_BOTTOM_RIGHT;
use terrarium::grid::CORNER_TOP_LEFT;
use terrarium::grid::CORNER_TOP_RIGHT;
use terrarium::grid::EDGE_BOTTOM;
use terrarium::grid::EDGE_LEFT;
use terrarium::grid::EDGE_RIGHT;
use terrarium::grid::EDGE_TOP;
use terrarium::grid::FILL;

fn world() -> GridBounds {
    GridBounds::centered(31, 31).expect("31 by 31 can be centred")
}

fn count_of(cells: &[Cell], sprite_index: u32) -> usize {
    cells.iter().filter(|c| c.sprite_index == sprite_index).count()
}

#[test]
fn centered_31_by_31_spans_minus_15_to_15() {
    let b = world();
    assert_eq!(b, GridBounds { x_min: -15, x_max: 15, y_min: -15, y_max: 15 });
    assert_eq!(b.width(), 31);
    assert_eq!(b.height(), 31);
    assert_eq!(b.cell_count(), Some(961));
}

#[test]
fn centered_takes_different_width_and_height() {
    let b = GridBounds::centered(5, 3).unwrap();
    assert_eq!(b, GridBounds { x_min: -2, x_max: 2, y_min: -1, y_max: 1 });
    assert_eq!(b.width(), 5);
    assert_eq!(b.height(), 3);
}

#[test]
fn centered_single_cell() {
    let b = GridBounds::centered(1, 1).unwrap();
    assert_eq!(b, GridBounds { x_min: 0, x_max: 0, y_min: 0, y_max: 0 });
}

#[test]
fn centered_largest_size() {
    let b = GridBounds::centered(i32::MAX, 1).unwrap();
    assert_eq!(b.x_max, 1_073_741_823);
    assert_eq!(b.x_min, -1_073_741_823);
    assert_eq!(b.width(), 2_147_483_647);
}

#[test]
fn centered_refuses_even_sizes() {
    assert_eq!(GridBounds::centered(30, 31), None);
    assert_eq!(GridBounds::centered(31, 30), None);
    assert_eq!(GridBounds::centered(2, 2), None);
}

#[test]
fn centered_refuses_sizes_below_one() {
    assert_eq!(GridBounds::centered(0, 31), None);
    assert_eq!(GridBounds::centered(31, 0), None);
    assert_eq!(GridBounds::centered(-31, 31), None);
    assert_eq!(GridBounds::centered(31, -1), None);
    assert_eq!(GridBounds::centered(i32::MIN, i32::MIN), None);
}

#[test]
fn width_and_height_of_the_widest_bounds() {
    let b = GridBounds { x_min: i32::MIN, x_max: i32::MAX, y_min: i32::MIN, y_max: i32::MAX };
    assert_eq!(b.width(), 4_294_967_296);
    assert_eq!(b.height(), 4_294_967_296);
    assert_eq!(b.cell_count(), None);
}

#[test]
fn cell_count_is_width_times_height() {
    let b = GridBounds { x_min: 3, x_max: 9, y_min: -4, y_max: 0 };
    assert_eq!(b.cell_count(), Some(35));
}

#[test]
fn contains_is_inclusive() {
    let b = world();
    assert!(b.contains(-15, -15));
    assert!(b.contains(15, 15));
    assert!(b.contains(0, 0));
    assert!(!b.contains(16, 0));
    assert!(!b.contains(-16, 0));
    assert!(!b.contains(0, 16));
    assert!(!b.contains(0, -16));
}

#[test]
fn scenario_top_left_fill_and_top_edge() {
    let b = world();
    assert_eq!(b.sprite_index(-15, 15), 18);
    assert_eq!(b.sprite_index(0, 0), 25);
    assert_eq!(b.sprite_index(0, 15), 19);
}

#[test]
fn corners_get_their_own_sprites() {
    let b = world();
    assert_eq!(b.classify(-15, 15), CellKind::TopLeft);
    assert_eq!(b.classify(15, 15), CellKind::TopRight);
    assert_eq!(b.classify(-15, -15), CellKind::BottomLeft);
    assert_eq!(b.classify(15, -15), CellKind::BottomRight);
    assert_eq!(b.sprite_index(-15, 15), 18);
    assert_eq!(b.sprite_index(15, 15), 20);
    assert_eq!(b.sprite_index(-15, -15), 30);
    assert_eq!(b.sprite_index(15, -15), 32);
}

#[test]
fn edges_between_the_corners() {
    let b = world();
    for t in -14..=14 {
        assert_eq!(b.classify(t, 15), CellKind::Top);
        assert_eq!(b.sprite_index(t, 15), 19);
        assert_eq!(b.classify(-15, t), CellKind::Left);
        assert_eq!(b.sprite_index(-15, t), 24);
        assert_eq!(b.classify(15, t), CellKind::Right);
        assert_eq!(b.sprite_index(15, t), 26);
        assert_eq!(b.classify(t, -15), CellKind::Bottom);
        assert_eq!(b.sprite_index(t, -15), 31);
    }
}

#[test]
fn interior_is_fill() {
    let b = world();
    for y in -14..=14 {
        for x in -14..=14 {
            assert_eq!(b.classify(x, y), CellKind::Fill);
            assert_eq!(b.sprite_index(x, y), 25);
        }
    }
}

#[test]
fn sprite_of_each_kind() {
    assert_eq!(CellKind::TopLeft.sprite_index(), 18);
    assert_eq!(CellKind::Top.sprite_index(), 19);
    assert_eq!(CellKind::TopRight.sprite_index(), 20);
    assert_eq!(CellKind::Left.sprite_index(), 24);
    assert_eq!(CellKind::Fill.sprite_index(), 25);
    assert_eq!(CellKind::Right.sprite_index(), 26);
    assert_eq!(CellKind::BottomLeft.sprite_index(), 30);
    assert_eq!(CellKind::Bottom.sprite_index(), 31);
    assert_eq!(CellKind::BottomRight.sprite_index(), 32);
}

#[test]
fn sprite_constants() {
    assert_eq!(
        [
            CORNER_TOP_LEFT,
            EDGE_TOP,
            CORNER_TOP_RIGHT,
            EDGE_LEFT,
            FILL,
            EDGE_RIGHT,
            CORNER_BOTTOM_LEFT,
            EDGE_BOTTOM,
            CORNER_BOTTOM_RIGHT
        ],
        [18, 19, 20, 24, 25, 26, 30, 31, 32]
    );
}

#[test]
fn first_rule_wins_in_a_single_cell() {
    let b = GridBounds { x_min: 0, x_max: 0, y_min: 0, y_max: 0 };
    assert_eq!(b.classify(0, 0), CellKind::TopLeft);
    assert_eq!(b.cells(), vec![Cell { x: 0, y: 0, sprite_index: 18 }]);
}

#[test]
fn single_row_is_top_before_bottom() {
    let b = GridBounds { x_min: -1, x_max: 1, y_min: 0, y_max: 0 };
    assert_eq!(
        b.cells(),
        vec![
            Cell { x: -1, y: 0, sprite_index: 18 },
            Cell { x: 0, y: 0, sprite_index: 19 },
            Cell { x: 1, y: 0, sprite_index: 20 },
        ]
    );
}

#[test]
fn single_column_is_left_before_right() {
    let b = GridBounds { x_min: 0, x_max: 0, y_min: -1, y_max: 1 };
    assert_eq!(
        b.cells(),
        vec![
            Cell { x: 0, y: -1, sprite_index: 30 },
            Cell { x: 0, y: 0, sprite_index: 24 },
            Cell { x: 0, y: 1, sprite_index: 18 },
        ]
    );
}

#[test]
fn classify_outside_the_bounds_follows_the_same_rules() {
    let b = world();
    assert_eq!(b.classify(100, 100), CellKind::Fill);
    assert_eq!(b.classify(100, 15), CellKind::Top);
    assert_eq!(b.classify(-15, 100), CellKind::Left);
}

#[test]
fn cells_of_three_by_three() {
    let b = GridBounds::centered(3, 3).unwrap();
    assert_eq!(
        b.cells(),
        vec![
            Cell { x: -1, y: -1, sprite_index: 30 },
            Cell { x: 0, y: -1, sprite_index: 31 },
            Cell { x: 1, y: -1, sprite_index: 32 },
            Cell { x: -1, y: 0, sprite_index: 24 },
            Cell { x: 0, y: 0, sprite_index: 25 },
            Cell { x: 1, y: 0, sprite_index: 26 },
            Cell { x: -1, y: 1, sprite_index: 18 },
            Cell { x: 0, y: 1, sprite_index: 19 },
            Cell { x: 1, y: 1, sprite_index: 20 },
        ]
    );
}

#[test]
fn cells_of_bounds_away_from_the_origin() {
    let b = GridBounds { x_min: 10, x_max: 11, y_min: -7, y_max: -6 };
    assert_eq!(
        b.cells(),
        vec![
            Cell { x: 10, y: -7, sprite_index: 30 },
            Cell { x: 11, y: -7, sprite_index: 32 },
            Cell { x: 10, y: -6, sprite_index: 18 },
            Cell { x: 11, y: -6, sprite_index: 20 },
        ]
    );
}

#[test]
fn cells_at_the_end_of_the_coordinate_range() {
    let b = GridBounds { x_min: i32::MAX - 1, x_max: i32::MAX, y_min: i32::MAX, y_max: i32::MAX };
    assert_eq!(
        b.cells(),
        vec![
            Cell { x: i32::MAX - 1, y: i32::MAX, sprite_index: 18 },
            Cell { x: i32::MAX, y: i32::MAX, sprite_index: 20 },
        ]
    );
}

#[test]
fn full_grid_has_every_coordinate_once() {
    let b = world();
    let cells = b.cells();
    assert_eq!(cells.len(), 31 * 31);
    let coordinates: HashSet<(i32, i32)> = cells.iter().map(|c| (c.x, c.y)).collect();
    assert_eq!(coordinates.len(), 961);
    for y in -15..=15 {
        for x in -15..=15 {
            assert!(coordinates.contains(&(x, y)));
        }
    }
}

#[test]
fn full_grid_is_listed_row_by_row() {
    let b = world();
    let cells = b.cells();
    assert_eq!(cells[0], Cell { x: -15, y: -15, sprite_index: 30 });
    assert_eq!(cells[30], Cell { x: 15, y: -15, sprite_index: 32 });
    assert_eq!(cells[31], Cell { x: -15, y: -14, sprite_index: 24 });
    assert_eq!(cells[480], Cell { x: 0, y: 0, sprite_index: 25 });
    assert_eq!(cells[960], Cell { x: 15, y: 15, sprite_index: 20 });
    for (i, c) in cells.iter().enumerate() {
        assert_eq!(c.x, -15 + (i % 31) as i32);
        assert_eq!(c.y, -15 + (i / 31) as i32);
        assert_eq!(c.sprite_index, b.sprite_index(c.x, c.y));
    }
}

#[test]
fn full_grid_uses_each_corner_once() {
    let cells = world().cells();
    assert_eq!(count_of(&cells, 18), 1);
    assert_eq!(count_of(&cells, 20), 1);
    assert_eq!(count_of(&cells, 30), 1);
    assert_eq!(count_of(&cells, 32), 1);
    assert_eq!(count_of(&cells, 19), 29);
    assert_eq!(count_of(&cells, 24), 29);
    assert_eq!(count_of(&cells, 26), 29);
    assert_eq!(count_of(&cells, 31), 29);
    assert_eq!(count_of(&cells, 25), 29 * 29);
}
