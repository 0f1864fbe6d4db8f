use dungeon_core::tile::{tile_of_char, tile_source_rect, TileKind, TileMap, TILE_SIZE};

fn rows_of(strs: &[&str]) -> Vec<Vec<char>> {
    strs.iter().map(|s| s.chars().collect()).collect()
}

fn room_map() -> TileMap {
    let rows = rows_of(&[
        "xxxxx     xxxxxx",
        "xoooxxxxxxxoooox",
        "xsooooooooooooox",
        "xoooxxxxxxxooosx",
        "xxxxx     xxxxxx",
    ]);
    TileMap::from_rows(&rows).unwrap()
}

#[test]
fn tile_of_char_maps_each_symbol() {
    assert_eq!(tile_of_char('x'), TileKind::Wall);
    assert_eq!(tile_of_char('o'), TileKind::Floor);
    assert_eq!(tile_of_char('s'), TileKind::Spawn);
    assert_eq!(tile_of_char(' '), TileKind::Void);
    assert_eq!(tile_of_char('q'), TileKind::Void);
}

#[test]
fn passable_is_floor_like() {
    assert!(TileKind::Floor.passable());
    assert!(TileKind::Spawn.passable());
    assert!(!TileKind::Wall.passable());
    assert!(!TileKind::Void.passable());
}

#[test]
fn from_rows_accepts_rectangular_grid() {
    let map = room_map();
    assert_eq!(map.width, 16);
    assert_eq!(map.height, 5);
}

#[test]
fn from_rows_rejects_empty_and_ragged() {
    assert!(TileMap::from_rows(&Vec::new()).is_none());
    assert!(TileMap::from_rows(&rows_of(&[""])).is_none());
    assert!(TileMap::from_rows(&rows_of(&["xx", "x"])).is_none());
}

#[test]
fn classify_out_of_bounds_is_void() {
    let map = room_map();
    assert_eq!(map.classify(-1, 64), TileKind::Void);
    assert_eq!(map.classify(64, -1), TileKind::Void);
    assert_eq!(map.classify(-500, -500), TileKind::Void);
    assert_eq!(map.classify(16 * TILE_SIZE, 64), TileKind::Void);
    assert_eq!(map.classify(64, 5 * TILE_SIZE), TileKind::Void);
    assert_eq!(map.classify(100_000, 100_000), TileKind::Void);
}

#[test]
fn classify_finds_each_tile_kind() {
    let map = room_map();
    // tile (0, 0) is a wall
    assert_eq!(map.classify(64, 64), TileKind::Wall);
    // tile (1, 1) is floor
    assert_eq!(map.classify(128 + 64, 128 + 64), TileKind::Floor);
    // tile (1, 2) is the first spawn cell
    assert_eq!(map.classify(128 + 64, 2 * 128 + 64), TileKind::Spawn);
    // tile (5, 0) is a blank inside the grid rectangle
    assert_eq!(map.classify(5 * 128 + 64, 64), TileKind::Void);
}

#[test]
fn classify_uses_floor_division_inside_a_tile() {
    let map = room_map();
    // every pixel of tile (1, 1) resolves to the same floor tile
    assert_eq!(map.classify(128, 128), TileKind::Floor);
    assert_eq!(map.classify(255, 255), TileKind::Floor);
    // one pixel further down crosses into the next row, the spawn at (1, 2)
    assert_eq!(map.classify(255, 256), TileKind::Spawn);
}

#[test]
fn spawn_points_in_row_major_order() {
    let map = room_map();
    let pts = map.spawn_points();
    assert_eq!(pts, vec![(192, 320), (14 * 128 + 64, 3 * 128 + 64)]);
}

#[test]
fn spawn_point_is_tile_center() {
    let rows = rows_of(&["xxx", "xsx", "xxx"]);
    let map = TileMap::from_rows(&rows).unwrap();
    let pts = map.spawn_points();
    assert_eq!(pts.len(), 1);
    assert_eq!(pts[0], (192, 192));
    assert_eq!(pts[0].0 * 2, 3 * TILE_SIZE);
    assert_eq!(pts[0].1 * 2, 3 * TILE_SIZE);
}

#[test]
fn spawn_points_empty_without_spawn_cells() {
    let rows = rows_of(&["xx", "xo"]);
    let map = TileMap::from_rows(&rows).unwrap();
    assert!(map.spawn_points().is_empty());
}

#[test]
fn tile_source_rect_per_kind() {
    assert_eq!(tile_source_rect(TileKind::Wall), Some((0, 0)));
    assert_eq!(tile_source_rect(TileKind::Floor), Some((TILE_SIZE, 0)));
    assert_eq!(tile_source_rect(TileKind::Spawn), Some((TILE_SIZE, 0)));
    assert_eq!(tile_source_rect(TileKind::Void), None);
}
