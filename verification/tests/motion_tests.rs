use dungeon_core::motion::{Dir, Player, MOVE_DURATION_MS};
use dungeon_core::tile::TileMap;

fn corridor() -> TileMap {
    // one row of floor, five tiles long
    let rows: Vec<Vec<char>> = vec!["ooooo".chars().collect()];
    TileMap::from_rows(&rows).unwrap()
}

#[test]
fn new_player_is_settled_on_its_point() {
    let p = Player::new_at(192, 64);
    assert_eq!(p.move_timer, 0);
    assert_eq!((p.x, p.y), (192, 64));
    assert_eq!((p.start_x, p.start_y), (192, 64));
    assert_eq!((p.target_x, p.target_y), (192, 64));
}

#[test]
fn move_into_floor_starts_full_timer() {
    let map = corridor();
    let mut p = Player::new_at(192, 64);
    let moved = p.try_move(&map, Dir::Right);
    assert!(moved);
    assert_eq!(p.move_timer, MOVE_DURATION_MS);
    assert_eq!((p.start_x, p.start_y), (192, 64));
    assert_eq!((p.target_x, p.target_y), (320, 64));
    assert_eq!((p.x, p.y), (192, 64));
}

#[test]
fn move_into_void_changes_nothing() {
    let map = corridor();
    let mut p = Player::new_at(64, 64);
    let before = p;
    let moved = p.try_move(&map, Dir::Left);
    assert!(!moved);
    assert_eq!(p, before);
    let moved_down = p.try_move(&map, Dir::Down);
    assert!(!moved_down);
    assert_eq!(p, before);
}

#[test]
fn move_into_wall_changes_nothing() {
    let rows: Vec<Vec<char>> = vec!["oox".chars().collect()];
    let map = TileMap::from_rows(&rows).unwrap();
    let mut p = Player::new_at(192, 64);
    let before = p;
    assert!(!p.try_move(&map, Dir::Right));
    assert_eq!(p, before);
    assert!(p.try_move(&map, Dir::Left));
}

#[test]
fn interpolation_is_exact_at_half_time() {
    let map = corridor();
    let mut p = Player::new_at(192, 64);
    p.try_move(&map, Dir::Right);
    p.step(75);
    assert_eq!(p.move_timer, 75);
    assert_eq!(p.x, 256);
    assert_eq!(p.y, 64);
    assert_eq!((p.start_x, p.target_x), (192, 320));
}

#[test]
fn interpolation_floors_toward_negative_infinity() {
    let map = corridor();
    let mut right = Player::new_at(192, 64);
    right.try_move(&map, Dir::Right);
    right.step(70);
    // 128 * 70 / 150 rounds down to 59
    assert_eq!(right.x, 192 + 59);

    let mut left = Player::new_at(320, 64);
    left.try_move(&map, Dir::Left);
    left.step(70);
    // -128 * 70 / 150 rounds down to -60
    assert_eq!(left.x, 320 - 60);
}

#[test]
fn full_duration_snaps_exactly_onto_target() {
    let map = corridor();
    let mut p = Player::new_at(192, 64);
    p.try_move(&map, Dir::Right);
    p.step(75);
    p.step(75);
    assert_eq!(p.move_timer, 0);
    assert_eq!((p.x, p.y), (320, 64));
    assert_eq!((p.start_x, p.start_y), (320, 64));
    assert_eq!((p.target_x, p.target_y), (320, 64));
}

#[test]
fn any_split_of_the_duration_completes_the_move() {
    let map = corridor();
    let mut p = Player::new_at(192, 64);
    p.try_move(&map, Dir::Right);
    for delta in [50, 20, 30, 10, 40] {
        p.step(delta);
    }
    assert_eq!(p.move_timer, 0);
    assert_eq!((p.x, p.y), (320, 64));
}

#[test]
fn position_approaches_target_monotonically() {
    let map = corridor();
    let mut p = Player::new_at(192, 64);
    p.try_move(&map, Dir::Right);
    let mut last = p.x;
    for _ in 0..15 {
        p.step(10);
        assert!(p.x >= last);
        assert!(p.x <= p.target_x);
        last = p.x;
    }
    assert_eq!(p.x, 320);
}

#[test]
fn oversized_frame_clamps_timer_to_zero() {
    let map = corridor();
    let mut p = Player::new_at(192, 64);
    p.try_move(&map, Dir::Right);
    p.step(100_000);
    assert_eq!(p.move_timer, 0);
    assert_eq!(p.x, 320);
}

#[test]
fn step_on_settled_player_changes_nothing() {
    let mut p = Player::new_at(192, 64);
    let before = p;
    p.step(1000);
    assert_eq!(p, before);
}

#[test]
fn settled_player_can_chain_moves() {
    let map = corridor();
    let mut p = Player::new_at(64, 64);
    assert!(p.try_move(&map, Dir::Right));
    p.step(MOVE_DURATION_MS);
    assert!(p.try_move(&map, Dir::Right));
    p.step(MOVE_DURATION_MS);
    assert_eq!((p.x, p.y), (320, 64));
}
