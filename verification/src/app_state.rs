//! The application state machine: splash sequence, main menu, load screen,
//! and the in-game mode that owns the player entity.

use vstd::prelude::*;
use vstd::arithmetic::div_mod::{
    lemma_add_mod_noop, lemma_div_is_ordered, lemma_div_nonincreasing, lemma_div_pos_is_pos,
    lemma_mod_division_less_than_divisor, lemma_small_mod,
};
use vstd::arithmetic::mul::{
    lemma_mul_inequality, lemma_mul_is_commutative, lemma_mul_upper_bound,
};
use crate::motion::{spec_try_move, stepped, Dir, Player};
use crate::tile::{grid_spawn_points, in_coord, TileMap, COORD_LIMIT, MAX_DIM, TILE_SIZE};

verus! {

/// Number of splash slides shown before the main screen.
pub const SPLASH_COUNT: usize = 5;

/// How long one splash slide stays up, in milliseconds.
pub const SPLASH_DURATION_MS: i64 = 4000;

/// Length of a slide's fade-in and fade-out windows, in milliseconds.
pub const FADE_MS: i64 = 800;

/// Number of main-menu options: new game, load, exit.
pub const MENU_OPTIONS_COUNT: i64 = 3;

/// Largest frame time one update accepts, in milliseconds; frames are far
/// shorter in practice, and the bound keeps every timer sum within `i64`.
pub const DELTA_MAX_MS: i64 = 0x10_0000;

/// The keys sampled each frame, each true exactly when the key went down
/// this frame (press edges, not held state).
#[derive(Clone, Copy, Debug, PartialEq, Eq, Structural)]
pub struct InputFrame {
    pub up: bool,
    pub down: bool,
    pub left: bool,
    pub right: bool,
    pub enter: bool,
    pub z: bool,
    pub x: bool,
    pub c: bool,
    pub d: bool,
    pub escape: bool,
}

impl InputFrame {
    /// Any key that skips the splash sequence.
    pub open spec fn skip(self) -> bool {
        self.enter || self.z || self.x || self.c || self.d
    }

    /// Any key that confirms the current menu selection.
    pub open spec fn confirm(self) -> bool {
        self.enter || self.z
    }

    /// The one directional press honored this frame, with the fixed
    /// priority order right, left, down, up.
    pub open spec fn dir(self) -> Option<Dir> {
        if self.right {
            Some(Dir::Right)
        } else if self.left {
            Some(Dir::Left)
        } else if self.down {
            Some(Dir::Down)
        } else if self.up {
            Some(Dir::Up)
        } else {
            None
        }
    }
}

/// Menu selection after one Down-press: one step forward, cyclic.
pub open spec fn menu_down(sel: int) -> int {
    (sel + 1) % (MENU_OPTIONS_COUNT as int)
}

/// Menu selection after one Up-press: one step backward, cyclic.
pub open spec fn menu_up(sel: int) -> int {
    (sel + MENU_OPTIONS_COUNT - 1) % (MENU_OPTIONS_COUNT as int)
}

/// Menu selection after this frame's Down-press, then Up-press, each
/// applied only if pressed, in that order.
pub open spec fn after_menu_keys(sel: int, input: InputFrame) -> int {
    let s1 = if input.down { menu_down(sel) } else { sel };
    if input.up { menu_up(s1) } else { s1 }
}

/// Which mode the application is in; the player entity exists only in the
/// in-game mode, and the splash mode carries its slide index and timer.
#[derive(Clone, Copy, Debug, PartialEq, Eq, Structural)]
pub enum GameState {
    Splash { index: usize, timer: i64 },
    MainScreen,
    InGame { player: Player },
    Load,
}

/// What the caller must do after an update: keep running, or terminate the
/// process normally (exit code zero).
#[derive(Clone, Copy, Debug, PartialEq, Eq, Structural)]
pub enum Action {
    Continue,
    Exit,
}

/// The splash mode after one frame: the timer accumulates; when the slide's
/// duration elapses the next slide starts afresh, and from the last slide,
/// or on a skip key at any slide, the main screen takes over.
pub open spec fn splash_next(index: int, timer: int, skip: bool, delta: int) -> GameState {
    let nt = timer + delta;
    if skip || nt >= SPLASH_DURATION_MS {
        if index < SPLASH_COUNT - 1 && !skip {
            GameState::Splash { index: (index + 1) as usize, timer: 0 }
        } else {
            GameState::MainScreen
        }
    } else {
        GameState::Splash { index: index as usize, timer: nt as i64 }
    }
}

/// A freshly spawned, settled player at a spawn-point center.
pub open spec fn spawn_player(p: (i64, i64)) -> Player {
    Player {
        x: p.0,
        y: p.1,
        start_x: p.0,
        start_y: p.1,
        target_x: p.0,
        target_y: p.1,
        move_timer: 0,
    }
}

/// The player after one in-game frame without an escape press: a moving
/// player advances its animation; a settled one honors at most one
/// directional press.
pub open spec fn ingame_player(p: Player, map: TileMap, input: InputFrame, delta: int) -> Player {
    if p.move_timer > 0 {
        stepped(p, delta)
    } else {
        match input.dir() {
            Some(d) => spec_try_move(p, map, d),
            None => p,
        }
    }
}

/// The whole application: the immutable map and its spawn points, the
/// current mode, and the menu selection (kept across mode changes).
pub struct App {
    pub map: TileMap,
    pub spawn_points: Vec<(i64, i64)>,
    pub state: GameState,
    pub menu_selection: i64,
}

impl App {
    /// The application invariant: the map is well-formed, the spawn list is
    /// exactly the map's spawn-cell centers and is non-empty, the menu
    /// selection indexes a real option, and the mode's own data is sound.
    pub open spec fn wf(self) -> bool {
        &&& self.map.wf()
        &&& self.spawn_points@ == grid_spawn_points(self.map.grid())
        &&& 0 < self.spawn_points@.len() <= 0xffff_ffff
        &&& forall|i: int| 0 <= i < self.spawn_points@.len()
            ==> in_coord((#[trigger] self.spawn_points@[i]).0 as int)
                && in_coord(self.spawn_points@[i].1 as int)
        &&& 0 <= self.menu_selection < MENU_OPTIONS_COUNT
        &&& match self.state {
            GameState::Splash { index, timer } => {
                index < SPLASH_COUNT && 0 <= timer < SPLASH_DURATION_MS
            },
            GameState::InGame { player } => player.wf(),
            GameState::MainScreen => true,
            GameState::Load => true,
        }
    }

    /// Builds the application over a map, starting at the first splash
    /// slide. Returns `None` exactly when the map has no spawn cell — the
    /// fatal configuration error the caller must surface before play.
    pub fn new(map: TileMap) -> (r: Option<App>)
        requires
            map.wf(),
        ensures
            match r {
                Some(app) => {
                    &&& app.wf()
                    &&& app.map == map
                    &&& app.spawn_points@ == grid_spawn_points(map.grid())
                    &&& app.state == (GameState::Splash { index: 0, timer: 0 })
                    &&& app.menu_selection == 0
                    &&& grid_spawn_points(map.grid()).len() > 0
                },
                None => {
                    &&& grid_spawn_points(map.grid()).len() == 0
                    &&& !(exists|r: int, c: int|
                        0 <= r < map.grid().len() && 0 <= c < map.grid()[r].len()
                            && (#[trigger] map.grid()[r][c]) is Spawn)
                },
            },
    {
        let pts = map.spawn_points();
        if pts.len() == 0 {
            proof {
                crate::tile::lemma_grid_spawn_points_nonempty(map.grid());
            }
            return None;
        }
        proof {
            lemma_mul_inequality(map.width as int, MAX_DIM as int, TILE_SIZE as int);
            lemma_mul_inequality(map.height as int, MAX_DIM as int, TILE_SIZE as int);
            lemma_mul_is_commutative(map.width as int, TILE_SIZE as int);
            lemma_mul_is_commutative(map.height as int, TILE_SIZE as int);
            lemma_mul_is_commutative(MAX_DIM as int, TILE_SIZE as int);
            assert(MAX_DIM as int * TILE_SIZE as int <= COORD_LIMIT as int);
            lemma_mul_upper_bound(
                map.width as int, MAX_DIM as int, map.height as int, MAX_DIM as int,
            );
        }
        Some(
            App {
                map,
                spawn_points: pts,
                state: GameState::Splash { index: 0, timer: 0 },
                menu_selection: 0,
            },
        )
    }

    /// One frame of the state machine: reads this frame's pressed keys and
    /// elapsed time, applies the active mode's transition, and says whether
    /// the process should keep running or exit. Confirming the exit option
    /// requests termination and mutates nothing further.
    pub fn update(&mut self, input: &InputFrame, delta_ms: i64) -> (action: Action)
        requires
            old(self).wf(),
            0 <= delta_ms <= DELTA_MAX_MS,
        ensures
            final(self).wf(),
            final(self).map == old(self).map,
            final(self).spawn_points == old(self).spawn_points,
            match old(self).state {
                GameState::Splash { index, timer } => {
                    &&& action is Continue
                    &&& final(self).menu_selection == old(self).menu_selection
                    &&& final(self).state == splash_next(
                        index as int, timer as int, input.skip(), delta_ms as int,
                    )
                },
                GameState::MainScreen => {
                    let sel = after_menu_keys(old(self).menu_selection as int, *input);
                    &&& final(self).menu_selection == sel
                    &&& if input.confirm() && sel == 0 {
                        &&& action is Continue
                        &&& exists|i: int|
                            0 <= i < old(self).spawn_points@.len() && final(self).state
                                == (GameState::InGame {
                                player: spawn_player(#[trigger] old(self).spawn_points@[i]),
                            })
                    } else if input.confirm() && sel == 1 {
                        action is Continue && final(self).state is Load
                    } else if input.confirm() && sel == 2 {
                        action is Exit && final(self).state is MainScreen
                    } else {
                        action is Continue && final(self).state is MainScreen
                    }
                },
                GameState::Load => {
                    &&& action is Continue
                    &&& final(self).menu_selection == old(self).menu_selection
                    &&& final(self).state == if input.x {
                        GameState::MainScreen
                    } else {
                        GameState::Load
                    }
                },
                GameState::InGame { player } => {
                    &&& action is Continue
                    &&& final(self).menu_selection == old(self).menu_selection
                    &&& if input.escape {
                        final(self).state is MainScreen
                    } else {
                        final(self).state == (GameState::InGame {
                            player: ingame_player(player, old(self).map, *input, delta_ms as int),
                        })
                    }
                },
            },
    {
        match self.state {
            GameState::Splash { index, timer } => {
                let skip = input.enter || input.z || input.x || input.c || input.d;
                let nt = timer + delta_ms;
                if skip || nt >= SPLASH_DURATION_MS {
                    if index < SPLASH_COUNT - 1 && !skip {
                        self.state = GameState::Splash { index: index + 1, timer: 0 };
                    } else {
                        self.state = GameState::MainScreen;
                    }
                } else {
                    self.state = GameState::Splash { index, timer: nt };
                }
                Action::Continue
            },
            GameState::MainScreen => {
                let mut sel = self.menu_selection;
                if input.down {
                    sel = ((sel as u64 + 1) % (MENU_OPTIONS_COUNT as u64)) as i64;
                    proof {
                        lemma_mod_division_less_than_divisor(
                            old(self).menu_selection as int + 1, MENU_OPTIONS_COUNT as int,
                        );
                    }
                }
                if input.up {
                    proof {
                        lemma_mod_division_less_than_divisor(
                            sel + MENU_OPTIONS_COUNT - 1, MENU_OPTIONS_COUNT as int,
                        );
                    }
                    sel = ((sel as u64 + (MENU_OPTIONS_COUNT as u64) - 1)
                        % (MENU_OPTIONS_COUNT as u64)) as i64;
                }
                self.menu_selection = sel;
                let confirm = input.enter || input.z;
                if confirm {
                    if sel == 0 {
                        let idx = random_below(self.spawn_points.len());
                        let (sx, sy) = self.spawn_points[idx];
                        let p = Player::new_at(sx, sy);
                        self.state = GameState::InGame { player: p };
                        proof {
                            assert(self.state == (GameState::InGame {
                                player: spawn_player(old(self).spawn_points@[idx as int]),
                            }));
                        }
                        Action::Continue
                    } else if sel == 1 {
                        self.state = GameState::Load;
                        Action::Continue
                    } else {
                        Action::Exit
                    }
                } else {
                    Action::Continue
                }
            },
            GameState::Load => {
                if input.x {
                    self.state = GameState::MainScreen;
                }
                Action::Continue
            },
            GameState::InGame { player } => {
                if input.escape {
                    self.state = GameState::MainScreen;
                } else {
                    let mut p = player;
                    if p.move_timer > 0 {
                        p.step(delta_ms);
                    } else {
                        if input.right {
                            p.try_move(&self.map, Dir::Right);
                        } else if input.left {
                            p.try_move(&self.map, Dir::Left);
                        } else if input.down {
                            p.try_move(&self.map, Dir::Down);
                        } else if input.up {
                            p.try_move(&self.map, Dir::Up);
                        }
                    }
                    self.state = GameState::InGame { player: p };
                }
                Action::Continue
            },
        }
    }
}

/// Relies on macroquad's `rand::gen_range` (the quad_rand generator): for
/// integer types it returns `low + (high - low) * r` with `r` drawn in
/// `[0, 1)`, truncated toward zero, so for `0 < n` within `u32` range the
/// result lies below `n`. The draw depends on a global generator state, so
/// nothing relates two calls.
#[verifier::external_body]
fn random_below(n: usize) -> (r: usize)
    requires
        0 < n <= 0xffff_ffff,
    ensures
        r < n,
{
    macroquad::rand::gen_range(0, n)
}

/// Opacity of a splash slide `timer` milliseconds after it starts, in
/// thousandths: a linear ramp up over the fade window, full opacity in the
/// middle, a linear ramp down over the last fade window, clamped to
/// [0, 1000].
pub open spec fn spec_splash_alpha(timer: int) -> int {
    let raw = if timer < FADE_MS {
        timer * 1000 / (FADE_MS as int)
    } else if timer > SPLASH_DURATION_MS - FADE_MS {
        1000 - (timer - (SPLASH_DURATION_MS - FADE_MS)) * 1000 / (FADE_MS as int)
    } else {
        1000
    };
    if raw < 0 {
        0
    } else if raw > 1000 {
        1000
    } else {
        raw
    }
}

/// Runtime splash opacity, matching `spec_splash_alpha`.
pub fn splash_alpha_permille(timer: i64) -> (a: i64)
    requires
        0 <= timer <= 0x1000_0000,
    ensures
        a == spec_splash_alpha(timer as int),
        0 <= a <= 1000,
{
    if timer < FADE_MS {
        proof {
            lemma_div_pos_is_pos(timer as int * 1000, FADE_MS as int);
            lemma_div_is_ordered(
                timer as int * 1000, (FADE_MS as int - 1) * 1000, FADE_MS as int,
            );
        }
        (((timer as u64) * 1000) / (FADE_MS as u64)) as i64
    } else if timer > SPLASH_DURATION_MS - FADE_MS {
        let over = timer - (SPLASH_DURATION_MS - FADE_MS);
        proof {
            lemma_div_pos_is_pos(over as int * 1000, FADE_MS as int);
            lemma_div_nonincreasing(over as int * 1000, FADE_MS as int);
        }
        let dropped = (((over as u64) * 1000) / (FADE_MS as u64)) as i64;
        if dropped > 1000 {
            0
        } else {
            1000 - dropped
        }
    } else {
        1000
    }
}

/// Screen position of the menu selector sprite for each option.
pub fn menu_position(sel: i64) -> (p: (i64, i64))
    requires
        0 <= sel < MENU_OPTIONS_COUNT,
    ensures
        sel == 0 ==> p == (640i64, 495i64),
        sel == 1 ==> p == (640i64, 575i64),
        sel == 2 ==> p == (640i64, 655i64),
{
    if sel == 0 {
        (640, 495)
    } else if sel == 1 {
        (640, 575)
    } else {
        (640, 655)
    }
}

/// Menu selection after `n` Down-presses starting from the top option.
pub open spec fn downs_from_top(n: nat) -> int
    decreases n,
{
    if n == 0 {
        0
    } else {
        menu_down(downs_from_top((n - 1) as nat))
    }
}

/// `n` Down-presses from the top land on option `n` modulo the option
/// count.
pub proof fn lemma_menu_down_cycles(n: nat)
    ensures
        downs_from_top(n) == n % (MENU_OPTIONS_COUNT as nat),
    decreases n,
{
    if n == 0 {
        lemma_small_mod(0, MENU_OPTIONS_COUNT as nat);
    } else {
        lemma_menu_down_cycles((n - 1) as nat);
        lemma_small_mod(1, MENU_OPTIONS_COUNT as nat);
        lemma_add_mod_noop(n as int - 1, 1, MENU_OPTIONS_COUNT as int);
    }
}

/// One Up-press from the top option wraps backward to the last option.
pub proof fn lemma_menu_up_wraps()
    ensures
        menu_up(0) == MENU_OPTIONS_COUNT - 1,
{
}

} // verus!

