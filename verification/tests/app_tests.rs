use dungeon_core::app_state::{
    menu_position, splash_alpha_permille, Action, App, GameState, InputFrame, SPLASH_DURATION_MS,
};
use dungeon_core::camera::{fallback_camera, player_camera, CamRect};
use dungeon_core::motion::MOVE_DURATION_MS;
use dungeon_core::tile::TileMap;

fn no_keys() -> InputFrame {
    InputFrame {
        up: false,
        down: false,
        left: false,
        right: false,
        enter: false,
        z: false,
        x: false,
        c: false,
        d: false,
        escape: false,
    }
}

fn rows_of(strs: &[&str]) -> Vec<Vec<char>> {
    strs.iter().map(|s| s.chars().collect()).collect()
}

fn single_spawn_app() -> App {
    let map = TileMap::from_rows(&rows_of(&["xxx", "xsx", "xxx"])).unwrap();
    App::new(map).unwrap()
}

fn walkable_app() -> App {
    let map = TileMap::from_rows(&rows_of(&["xxxxx", "xsoox", "xxxxx"])).unwrap();
    App::new(map).unwrap()
}

/// Skip the splash, leaving the app on the main screen.
fn to_main_screen(app: &mut App) {
    let skip = InputFrame { enter: true, ..no_keys() };
    let action = app.update(&skip, 0);
    assert_eq!(action, Action::Continue);
    assert!(matches!(app.state, GameState::MainScreen));
}

/// Skip the splash and confirm the first option, entering the game.
fn to_in_game(app: &mut App) {
    to_main_screen(app);
    let confirm = InputFrame { z: true, ..no_keys() };
    assert_eq!(app.update(&confirm, 0), Action::Continue);
    assert!(matches!(app.state, GameState::InGame { .. }));
}

#[test]
fn app_starts_at_first_splash_slide() {
    let app = single_spawn_app();
    assert_eq!(app.state, GameState::Splash { index: 0, timer: 0 });
    assert_eq!(app.menu_selection, 0);
}

#[test]
fn app_requires_a_spawn_cell() {
    let map = TileMap::from_rows(&rows_of(&["xox"])).unwrap();
    assert!(App::new(map).is_none());
}

#[test]
fn splash_timer_accumulates() {
    let mut app = single_spawn_app();
    app.update(&no_keys(), 1500);
    assert_eq!(app.state, GameState::Splash { index: 0, timer: 1500 });
}

#[test]
fn splash_advances_after_slide_duration() {
    let mut app = single_spawn_app();
    app.update(&no_keys(), SPLASH_DURATION_MS);
    assert_eq!(app.state, GameState::Splash { index: 1, timer: 0 });
}

#[test]
fn last_splash_slide_leads_to_main_screen() {
    let mut app = single_spawn_app();
    for i in 1..5 {
        app.update(&no_keys(), SPLASH_DURATION_MS);
        assert_eq!(app.state, GameState::Splash { index: i, timer: 0 });
    }
    app.update(&no_keys(), SPLASH_DURATION_MS);
    assert!(matches!(app.state, GameState::MainScreen));
}

#[test]
fn any_skip_key_jumps_to_main_screen() {
    for key in 0..5 {
        let mut app = single_spawn_app();
        let mut input = no_keys();
        match key {
            0 => input.enter = true,
            1 => input.z = true,
            2 => input.x = true,
            3 => input.c = true,
            _ => input.d = true,
        }
        app.update(&input, 10);
        assert!(matches!(app.state, GameState::MainScreen));
    }
}

#[test]
fn menu_selection_cycles_with_down() {
    let mut app = single_spawn_app();
    to_main_screen(&mut app);
    let down = InputFrame { down: true, ..no_keys() };
    let presses: i64 = 4;
    for _ in 0..presses {
        app.update(&down, 16);
    }
    assert_eq!(app.menu_selection, presses % 3);
}

#[test]
fn down_and_up_in_one_frame_cancel_out() {
    let mut app = single_spawn_app();
    to_main_screen(&mut app);
    let both = InputFrame { down: true, up: true, ..no_keys() };
    app.update(&both, 16);
    assert_eq!(app.menu_selection, 0);
}

#[test]
fn menu_up_from_top_wraps_to_last() {
    let mut app = single_spawn_app();
    to_main_screen(&mut app);
    let up = InputFrame { up: true, ..no_keys() };
    app.update(&up, 16);
    assert_eq!(app.menu_selection, 2);
}

#[test]
fn confirm_exit_requests_termination_without_mutation() {
    let mut app = single_spawn_app();
    to_main_screen(&mut app);
    let down = InputFrame { down: true, ..no_keys() };
    app.update(&down, 16);
    app.update(&down, 16);
    assert_eq!(app.menu_selection, 2);
    let confirm = InputFrame { enter: true, ..no_keys() };
    let action = app.update(&confirm, 16);
    assert_eq!(action, Action::Exit);
    assert!(matches!(app.state, GameState::MainScreen));
    assert_eq!(app.menu_selection, 2);
}

#[test]
fn confirm_load_and_back() {
    let mut app = single_spawn_app();
    to_main_screen(&mut app);
    let down = InputFrame { down: true, ..no_keys() };
    app.update(&down, 16);
    let confirm = InputFrame { z: true, ..no_keys() };
    assert_eq!(app.update(&confirm, 16), Action::Continue);
    assert!(matches!(app.state, GameState::Load));
    let back = InputFrame { x: true, ..no_keys() };
    app.update(&back, 16);
    assert!(matches!(app.state, GameState::MainScreen));
}

#[test]
fn new_game_spawns_player_at_single_spawn_center() {
    let mut app = single_spawn_app();
    to_in_game(&mut app);
    match app.state {
        GameState::InGame { player } => {
            assert_eq!((player.x, player.y), (192, 192));
            assert_eq!((player.start_x, player.start_y), (192, 192));
            assert_eq!((player.target_x, player.target_y), (192, 192));
            assert_eq!(player.move_timer, 0);
        }
        _ => unreachable!(),
    }
}

#[test]
fn direction_priority_prefers_right() {
    let mut app = walkable_app();
    to_in_game(&mut app);
    let all_dirs = InputFrame { up: true, down: true, left: true, right: true, ..no_keys() };
    app.update(&all_dirs, 16);
    match app.state {
        GameState::InGame { player } => {
            assert_eq!(player.target_x, player.start_x + 128);
            assert_eq!(player.target_y, player.start_y);
        }
        _ => unreachable!(),
    }
}

#[test]
fn blocked_direction_is_silently_ignored() {
    let mut app = single_spawn_app();
    to_in_game(&mut app);
    let right = InputFrame { right: true, ..no_keys() };
    app.update(&right, 16);
    match app.state {
        GameState::InGame { player } => {
            assert_eq!(player.move_timer, 0);
            assert_eq!((player.x, player.y), (192, 192));
        }
        _ => unreachable!(),
    }
}

#[test]
fn escape_mid_move_destroys_player_immediately() {
    let mut app = walkable_app();
    to_in_game(&mut app);
    let right = InputFrame { right: true, ..no_keys() };
    app.update(&right, 16);
    app.update(&no_keys(), 50);
    match app.state {
        GameState::InGame { player } => {
            assert_eq!(player.move_timer, MOVE_DURATION_MS - 50);
        }
        _ => unreachable!(),
    }
    let esc = InputFrame { escape: true, ..no_keys() };
    assert_eq!(app.update(&esc, 16), Action::Continue);
    assert!(matches!(app.state, GameState::MainScreen));
}

#[test]
fn in_game_frame_advances_the_move() {
    let mut app = walkable_app();
    to_in_game(&mut app);
    let right = InputFrame { right: true, ..no_keys() };
    app.update(&right, 16);
    app.update(&no_keys(), 75);
    app.update(&no_keys(), 75);
    match app.state {
        GameState::InGame { player } => {
            assert_eq!(player.move_timer, 0);
            assert_eq!((player.x, player.y), (320, 192));
        }
        _ => unreachable!(),
    }
}

#[test]
fn splash_alpha_ramps_and_clamps() {
    assert_eq!(splash_alpha_permille(0), 0);
    assert_eq!(splash_alpha_permille(400), 500);
    assert_eq!(splash_alpha_permille(800), 1000);
    assert_eq!(splash_alpha_permille(2000), 1000);
    assert_eq!(splash_alpha_permille(3200), 1000);
    assert_eq!(splash_alpha_permille(3800), 250);
    assert_eq!(splash_alpha_permille(5000), 0);
}

#[test]
fn menu_positions_match_layout() {
    assert_eq!(menu_position(0), (640, 495));
    assert_eq!(menu_position(1), (640, 575));
    assert_eq!(menu_position(2), (640, 655));
}

#[test]
fn player_camera_centers_on_position_with_flipped_height() {
    let r = player_camera(256, 320);
    assert_eq!(r, CamRect { x: -256, y: 704, w: 1024, h: -768 });
}

#[test]
fn fallback_camera_centers_on_map_extent() {
    let rows = rows_of(&[
        "xxxxx     xxxxxx",
        "xoooxxxxxxxoooox",
        "xsooooooooooooox",
        "xoooxxxxxxxooosx",
        "xxxxx     xxxxxx",
    ]);
    let map = TileMap::from_rows(&rows).unwrap();
    let r = fallback_camera(&map);
    assert_eq!(r, CamRect { x: 512, y: -64, w: 1024, h: 768 });
}
