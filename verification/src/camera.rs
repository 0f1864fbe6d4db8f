//! The camera framer: a viewport rectangle computed from the player's
//! continuous position, with a fallback view centered on the whole map.

use vstd::prelude::*;
use vstd::arithmetic::div_mod::lemma_div_multiples_vanish;
use crate::tile::{in_coord, TileMap, TILE_SIZE};

verus! {

/// Width of the window, in pixels.
pub const SCREEN_WIDTH: i64 = 1024;

/// Height of the window, in pixels.
pub const SCREEN_HEIGHT: i64 = 768;

/// A viewport rectangle in world pixels. A negative height expresses a
/// flipped vertical axis: the rectangle then starts at its bottom edge and
/// extends upward, which presents the world with the screen's top-left
/// origin.
#[derive(Clone, Copy, Debug, PartialEq, Eq, Structural)]
pub struct CamRect {
    pub x: i64,
    pub y: i64,
    pub w: i64,
    pub h: i64,
}

/// The viewport that tracks a player at `(px, py)`: one screen centered on
/// that position, its vertical extent negated for the top-left-origin,
/// downward-growing screen space.
pub fn player_camera(px: i64, py: i64) -> (r: CamRect)
    requires
        in_coord(px as int),
        in_coord(py as int),
    ensures
        r.x == px - SCREEN_WIDTH / 2,
        r.y == py + SCREEN_HEIGHT / 2,
        r.w == SCREEN_WIDTH,
        r.h == -SCREEN_HEIGHT,
{
    CamRect {
        x: px - 512,
        y: py + 384,
        w: SCREEN_WIDTH,
        h: -SCREEN_HEIGHT,
    }
}

/// The viewport used when no player exists: one screen centered on the
/// map's total pixel extent, with the ordinary (unflipped) vertical axis.
pub fn fallback_camera(map: &TileMap) -> (r: CamRect)
    requires
        map.wf(),
    ensures
        r.x == (map.width * TILE_SIZE - SCREEN_WIDTH) / 2,
        r.y == (map.height * TILE_SIZE - SCREEN_HEIGHT) / 2,
        r.w == SCREEN_WIDTH,
        r.h == SCREEN_HEIGHT,
{
    let hx: i64 = (map.width as i64) * 64 - 512;
    let hy: i64 = (map.height as i64) * 64 - 384;
    proof {
        assert(map.width * TILE_SIZE - SCREEN_WIDTH == 2 * (hx as int));
        assert(map.height * TILE_SIZE - SCREEN_HEIGHT == 2 * (hy as int));
        lemma_div_multiples_vanish(hx as int, 2);
        lemma_div_multiples_vanish(hy as int, 2);
    }
    CamRect {
        x: hx,
        y: hy,
        w: SCREEN_WIDTH,
        h: SCREEN_HEIGHT,
    }
}

} // verus!
