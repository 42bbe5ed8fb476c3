use warp::level_data::{AuthoringError, LayerInstance};
use warp::wall::WallPlugin;
use warp::walls::{spawn_wall_collision, wall_collider, GridCoords, Rect, WallsPlugin};

fn cells(pairs: &[(i32, i32)]) -> Vec<GridCoords> {
    pairs.iter().map(|&(x, y)| GridCoords { x, y }).collect()
}

#[test]
fn two_by_two_block_merges_into_one_rectangle() {
    let walls = cells(&[(0, 0), (1, 0), (0, 1), (1, 1)]);
    let rects = spawn_wall_collision(&walls, 3, 2);
    assert_eq!(rects, vec![Rect { left: 0, right: 1, top: 1, bottom: 0 }]);
}

#[test]
fn isolated_cell_gives_one_unit_rectangle() {
    let walls = cells(&[(2, 2)]);
    let rects = spawn_wall_collision(&walls, 5, 5);
    assert_eq!(rects, vec![Rect { left: 2, right: 2, top: 2, bottom: 2 }]);
}

#[test]
fn empty_grid_gives_no_rectangles() {
    let walls: Vec<GridCoords> = Vec::new();
    let rects = spawn_wall_collision(&walls, 4, 4);
    assert!(rects.is_empty());
}

#[test]
fn full_row_merges_into_one_rectangle() {
    let walls = cells(&[(0, 1), (1, 1), (2, 1)]);
    let rects = spawn_wall_collision(&walls, 3, 3);
    assert_eq!(rects, vec![Rect { left: 0, right: 2, top: 1, bottom: 1 }]);
}

#[test]
fn separate_columns_stay_separate() {
    let walls = cells(&[(0, 0), (0, 1), (2, 0), (2, 1)]);
    let mut rects = spawn_wall_collision(&walls, 3, 2);
    rects.sort_by_key(|r| r.left);
    assert_eq!(
        rects,
        vec![
            Rect { left: 0, right: 0, top: 1, bottom: 0 },
            Rect { left: 2, right: 2, top: 1, bottom: 0 },
        ]
    );
}

#[test]
fn partially_overlapping_plates_do_not_merge_vertically() {
    // row 0 holds a three-wide run, row 1 a two-wide run: the spans differ,
    // so the greedy merge keeps them as two rectangles
    let walls = cells(&[(0, 0), (1, 0), (2, 0), (0, 1), (1, 1)]);
    let mut rects = spawn_wall_collision(&walls, 3, 2);
    rects.sort_by_key(|r| r.bottom);
    assert_eq!(
        rects,
        vec![
            Rect { left: 0, right: 2, top: 0, bottom: 0 },
            Rect { left: 0, right: 1, top: 1, bottom: 1 },
        ]
    );
}

#[test]
fn merge_is_deterministic_across_calls() {
    let walls = cells(&[(0, 0), (1, 0), (3, 0), (0, 1), (1, 1), (3, 1), (0, 2)]);
    let first = spawn_wall_collision(&walls, 5, 4);
    let second = spawn_wall_collision(&walls, 5, 4);
    assert_eq!(first, second);
}

#[test]
fn wall_collider_doubles_centre_and_half_extents() {
    let rect = Rect { left: 0, right: 1, top: 1, bottom: 0 };
    let c = wall_collider(&rect, 16);
    // centre (16, 16), half extents (16, 16), all doubled
    assert_eq!(c.center_x2, 32);
    assert_eq!(c.center_y2, 32);
    assert_eq!(c.half_w2, 32);
    assert_eq!(c.half_h2, 32);
}

#[test]
fn wall_collider_of_unit_rectangle() {
    let rect = Rect { left: 2, right: 2, top: 2, bottom: 2 };
    let c = wall_collider(&rect, 16);
    // centre (40, 40), half extents (8, 8), all doubled
    assert_eq!(c.center_x2, 80);
    assert_eq!(c.center_y2, 80);
    assert_eq!(c.half_w2, 16);
    assert_eq!(c.half_h2, 16);
}

fn collision_layer(identifier: &str) -> LayerInstance {
    LayerInstance { identifier: identifier.to_string(), c_wid: 3, c_hei: 2, grid_size: 16 }
}

#[test]
fn walls_plugin_step_merges_the_collision_layer() {
    let layers = vec![collision_layer("Entities"), collision_layer("Collision")];
    let walls = cells(&[(0, 0), (1, 0), (0, 1), (1, 1)]);
    let (grid_size, rects) = WallsPlugin::step(&layers, &walls).unwrap();
    assert_eq!(grid_size, 16);
    assert_eq!(rects, vec![Rect { left: 0, right: 1, top: 1, bottom: 0 }]);
}

#[test]
fn walls_plugin_step_reports_a_missing_layer() {
    let layers = vec![collision_layer("Entities")];
    let walls = cells(&[(0, 0)]);
    assert_eq!(WallsPlugin::step(&layers, &walls), Err(AuthoringError::MissingLayer));
}

#[test]
fn wall_plugin_step_uses_the_walls_layer() {
    let layers = vec![collision_layer("Walls")];
    let walls = cells(&[(2, 0)]);
    let (grid_size, rects) = WallPlugin::step(&layers, &walls).unwrap();
    assert_eq!(grid_size, 16);
    assert_eq!(rects, vec![Rect { left: 2, right: 2, top: 0, bottom: 0 }]);
}

#[test]
fn coverage_and_disjointness_hold_cell_by_cell_on_a_jagged_grid() {
    let pattern = [
        "XX.XX.X",
        "XX.XXXX",
        "..XX..X",
        "XXXX..X",
        "X.....X",
    ];
    let mut walls = Vec::new();
    for (y, row) in pattern.iter().enumerate() {
        for (x, c) in row.chars().enumerate() {
            if c == 'X' {
                walls.push(GridCoords { x: x as i32, y: y as i32 });
            }
        }
    }
    let rects = spawn_wall_collision(&walls, 7, 5);
    for y in 0..5i32 {
        for x in 0..7i32 {
            let covering = rects
                .iter()
                .filter(|r| r.left <= x && x <= r.right && r.bottom <= y && y <= r.top)
                .count();
            let is_wall = walls.contains(&GridCoords { x, y });
            assert_eq!(covering, if is_wall { 1 } else { 0 }, "cell ({}, {})", x, y);
        }
    }
}
