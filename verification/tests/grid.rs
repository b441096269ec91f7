use dungeon_level::geometry::Rect;
use dungeon_level::grid::{TileGrid, TILE_FLOOR, TILE_WALL};

fn snapshot(g: &TileGrid) -> Vec<Vec<u32>> {
    let mut rows = Vec::new();
    for y in 0..g.height() {
        let mut row = Vec::new();
        for x in 0..g.width() {
            row.push(g.get(x, y).unwrap());
        }
        rows.push(row);
    }
    rows
}

#[test]
fn tile_codes() {
    assert_eq!(TILE_WALL, 40);
    assert_eq!(TILE_FLOOR, 0);
}

#[test]
fn new_grid_holds_one_value() {
    let g = TileGrid::new(7, 3, 9);
    assert_eq!(g.width(), 7);
    assert_eq!(g.height(), 3);
    for y in 0..3 {
        for x in 0..7 {
            assert_eq!(g.get(x, y), Some(9));
        }
    }
}

#[test]
fn get_outside_the_grid_is_none() {
    let g = TileGrid::new(7, 3, 9);
    assert_eq!(g.get(7, 0), None);
    assert_eq!(g.get(0, 3), None);
    assert_eq!(g.get(3, 7), None);
    assert_eq!(g.get(usize::MAX, usize::MAX), None);
    let empty = TileGrid::new(0, 0, 1);
    assert_eq!(empty.get(0, 0), None);
}

#[test]
fn set_value_changes_one_cell() {
    let mut g = TileGrid::new(4, 4, 1);
    g.set_value(2, 3, 77);
    for y in 0..4 {
        for x in 0..4 {
            let want = if (x, y) == (2, 3) { 77 } else { 1 };
            assert_eq!(g.get(x, y), Some(want));
        }
    }
    // column and row are not swapped
    assert_eq!(g.get(3, 2), Some(1));
}

#[test]
fn fill_overwrites_every_cell() {
    let mut g = TileGrid::new(5, 6, 0);
    g.set_value(1, 1, 3);
    g.fill(TILE_WALL);
    assert_eq!(snapshot(&g), vec![vec![40; 5]; 6]);
}

#[test]
fn smallest_classic_room_is_a_ring_of_wall_round_nine_floor_tiles() {
    let mut g = TileGrid::new(9, 9, 7);
    g.carve_room(&Rect::new(2, 2, 5, 5));
    let mut floor = 0;
    for y in 0..9usize {
        for x in 0..9usize {
            let inside = (3..=5).contains(&x) && (3..=5).contains(&y);
            let in_room = (2..=6).contains(&x) && (2..=6).contains(&y);
            let want = if inside { TILE_FLOOR } else if in_room { TILE_WALL } else { 7 };
            assert_eq!(g.get(x, y), Some(want), "at ({}, {})", x, y);
            if inside {
                floor += 1;
            }
        }
    }
    assert_eq!(floor, 9);
}

#[test]
fn room_of_uneven_sides() {
    let mut g = TileGrid::new(10, 8, 7);
    g.carve_room(&Rect::new(1, 2, 7, 4));
    let want = vec![
        vec![7, 7, 7, 7, 7, 7, 7, 7, 7, 7],
        vec![7, 7, 7, 7, 7, 7, 7, 7, 7, 7],
        vec![7, 40, 40, 40, 40, 40, 40, 40, 7, 7],
        vec![7, 40, 0, 0, 0, 0, 0, 40, 7, 7],
        vec![7, 40, 0, 0, 0, 0, 0, 40, 7, 7],
        vec![7, 40, 40, 40, 40, 40, 40, 40, 7, 7],
        vec![7, 7, 7, 7, 7, 7, 7, 7, 7, 7],
        vec![7, 7, 7, 7, 7, 7, 7, 7, 7, 7],
    ];
    assert_eq!(snapshot(&g), want);
}

#[test]
fn rooms_too_thin_for_floor_are_all_wall() {
    let mut g = TileGrid::new(6, 6, 7);
    g.carve_room(&Rect::new(1, 1, 2, 4));
    g.carve_room(&Rect::new(4, 4, 1, 1));
    for y in 0..6usize {
        for x in 0..6usize {
            let in_a = (1..=2).contains(&x) && (1..=4).contains(&y);
            let in_b = (x, y) == (4, 4);
            let want = if in_a || in_b { TILE_WALL } else { 7 };
            assert_eq!(g.get(x, y), Some(want));
        }
    }
}

#[test]
fn horizontal_corridor_either_way_round() {
    let mut a = TileGrid::new(8, 4, TILE_WALL);
    a.carve_horizontal_corridor(2, 5, 1);
    let mut b = TileGrid::new(8, 4, TILE_WALL);
    b.carve_horizontal_corridor(5, 2, 1);
    let want = vec![
        vec![40, 40, 40, 40, 40, 40, 40, 40],
        vec![40, 40, 0, 0, 0, 0, 40, 40],
        vec![40, 40, 40, 40, 40, 40, 40, 40],
        vec![40, 40, 40, 40, 40, 40, 40, 40],
    ];
    assert_eq!(snapshot(&a), want);
    assert_eq!(snapshot(&b), want);
}

#[test]
fn vertical_corridor_either_way_round() {
    let mut a = TileGrid::new(4, 6, TILE_WALL);
    a.carve_vertical_corridor(1, 4, 2);
    let mut b = TileGrid::new(4, 6, TILE_WALL);
    b.carve_vertical_corridor(4, 1, 2);
    let want = vec![
        vec![40, 40, 40, 40],
        vec![40, 40, 0, 40],
        vec![40, 40, 0, 40],
        vec![40, 40, 0, 40],
        vec![40, 40, 0, 40],
        vec![40, 40, 40, 40],
    ];
    assert_eq!(snapshot(&a), want);
    assert_eq!(snapshot(&b), want);
}

#[test]
fn corridor_of_one_cell() {
    let mut g = TileGrid::new(3, 3, TILE_WALL);
    g.carve_horizontal_corridor(1, 1, 1);
    assert_eq!(g.get(1, 1), Some(TILE_FLOOR));
    assert_eq!(g.get(0, 1), Some(TILE_WALL));
    assert_eq!(g.get(2, 1), Some(TILE_WALL));
    let mut h = TileGrid::new(3, 3, TILE_WALL);
    h.carve_vertical_corridor(2, 2, 0);
    assert_eq!(h.get(0, 2), Some(TILE_FLOOR));
    assert_eq!(h.get(0, 1), Some(TILE_WALL));
}

#[test]
fn corridor_breaks_through_room_walls() {
    let mut g = TileGrid::new(12, 7, TILE_WALL);
    g.carve_room(&Rect::new(1, 1, 5, 5));
    g.carve_horizontal_corridor(3, 10, 3);
    assert_eq!(g.get(5, 3), Some(TILE_FLOOR));
    assert_eq!(g.get(10, 3), Some(TILE_FLOOR));
    assert_eq!(g.get(11, 3), Some(TILE_WALL));
    assert_eq!(g.get(5, 2), Some(TILE_WALL));
}
