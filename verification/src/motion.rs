//! The player motion controller: discrete tile-to-tile movement animated by
//! a countdown timer and integer linear interpolation.

use vstd::prelude::*;
use vstd::arithmetic::div_mod::{
    lemma_div_is_ordered, lemma_div_multiples_vanish, lemma_div_of0, lemma_div_pos_is_pos,
    lemma_fundamental_div_mod, lemma_fundamental_div_mod_converse,
};
use vstd::arithmetic::mul::{
    lemma_mul_by_zero_is_zero, lemma_mul_inequality, lemma_mul_is_commutative,
    lemma_mul_nonnegative, lemma_mul_unary_negation, lemma_mul_upper_bound,
};
use crate::tile::{in_coord, TileMap, COORD_LIMIT, TILE_SIZE};

verus! {

/// How long one tile-to-tile move takes, in milliseconds.
pub const MOVE_DURATION_MS: i64 = 150;

/// A directional input, one tile per press.
#[derive(Clone, Copy, Debug, PartialEq, Eq, Structural)]
pub enum Dir {
    Right,
    Left,
    Down,
    Up,
}

impl Dir {
    /// Horizontal sign of the direction.
    pub open spec fn dx(self) -> int {
        match self {
            Dir::Right => 1,
            Dir::Left => -1,
            Dir::Down => 0,
            Dir::Up => 0,
        }
    }

    /// Vertical sign of the direction (the vertical axis grows downward).
    pub open spec fn dy(self) -> int {
        match self {
            Dir::Right => 0,
            Dir::Left => 0,
            Dir::Down => 1,
            Dir::Up => -1,
        }
    }
}

/// Position reached after `elapsed` of `dur` time units of a straight move
/// from `s` to `t`, rounded toward negative infinity.
pub open spec fn lerp(s: int, t: int, elapsed: int, dur: int) -> int {
    s + (t - s) * elapsed / dur
}

/// The player entity: a continuous position, the segment it moves along,
/// and the remaining time of the current move.
#[derive(Clone, Copy, Debug, PartialEq, Eq, Structural)]
pub struct Player {
    pub x: i64,
    pub y: i64,
    pub start_x: i64,
    pub start_y: i64,
    pub target_x: i64,
    pub target_y: i64,
    pub move_timer: i64,
}

impl Player {
    /// The player is settled: no move is in progress.
    pub open spec fn settled(self) -> bool {
        self.move_timer == 0
    }

    /// The motion invariant: the timer stays within one move's duration, all
    /// coordinates stay in range, the position always lies on the segment
    /// from start to target at the elapsed fraction of the move, and a
    /// settled player sits exactly on its start-and-target point.
    pub open spec fn wf(self) -> bool {
        &&& 0 <= self.move_timer <= MOVE_DURATION_MS
        &&& in_coord(self.start_x as int) && in_coord(self.start_y as int)
        &&& in_coord(self.target_x as int) && in_coord(self.target_y as int)
        &&& in_coord(self.x as int) && in_coord(self.y as int)
        &&& self.x == lerp(
            self.start_x as int,
            self.target_x as int,
            MOVE_DURATION_MS - self.move_timer,
            MOVE_DURATION_MS as int,
        )
        &&& self.y == lerp(
            self.start_y as int,
            self.target_y as int,
            MOVE_DURATION_MS - self.move_timer,
            MOVE_DURATION_MS as int,
        )
        &&& (self.settled() ==> self.start_x == self.target_x && self.start_y == self.target_y
            && self.x == self.target_x && self.y == self.target_y)
    }

    /// A settled player standing at `(x, y)`.
    pub fn new_at(x: i64, y: i64) -> (p: Player)
        requires
            in_coord(x as int),
            in_coord(y as int),
        ensures
            p.wf(),
            p.settled(),
            p.x == x && p.y == y,
            p.start_x == x && p.start_y == y,
            p.target_x == x && p.target_y == y,
    {
        proof {
            lemma_lerp_ends(x as int, x as int, MOVE_DURATION_MS as int);
        }
        Player {
            x,
            y,
            start_x: x,
            start_y: y,
            target_x: x,
            target_y: y,
            move_timer: 0,
        }
    }

    /// From a settled position, try to start a one-tile move: if the tile
    /// under the candidate target center is passable, the move begins
    /// (start = current position, target = candidate, full timer); an
    /// impassable candidate leaves the player entirely unchanged.
    #[verifier::rlimit(30)]
    pub fn try_move(&mut self, map: &TileMap, dir: Dir) -> (moved: bool)
        requires
            old(self).wf(),
            old(self).settled(),
            map.wf(),
        ensures
            *final(self) == spec_try_move(*old(self), *map, dir),
            final(self).wf(),
            moved == map.spec_classify(
                old(self).x + dir.dx() * TILE_SIZE,
                old(self).y + dir.dy() * TILE_SIZE,
            ).is_passable(),
            !moved ==> *final(self) == *old(self),
    {
        let (dx, dy): (i64, i64) = match dir {
            Dir::Right => (1, 0),
            Dir::Left => (-1, 0),
            Dir::Down => (0, 1),
            Dir::Up => (0, -1),
        };
        let nx = self.x + dx * TILE_SIZE;
        let ny = self.y + dy * TILE_SIZE;
        let k = map.classify(nx, ny);
        if k.passable() {
            let p = Player {
                x: self.x,
                y: self.y,
                start_x: self.x,
                start_y: self.y,
                target_x: nx,
                target_y: ny,
                move_timer: MOVE_DURATION_MS,
            };
            proof {
                lemma_in_grid_in_coord(*map, nx as int, ny as int);
                lemma_lerp_ends(p.start_x as int, p.target_x as int, MOVE_DURATION_MS as int);
                lemma_lerp_ends(p.start_y as int, p.target_y as int, MOVE_DURATION_MS as int);
                assert(p.x == lerp(
                    p.start_x as int,
                    p.target_x as int,
                    MOVE_DURATION_MS - p.move_timer,
                    MOVE_DURATION_MS as int,
                ));
                assert(p.y == lerp(
                    p.start_y as int,
                    p.target_y as int,
                    MOVE_DURATION_MS - p.move_timer,
                    MOVE_DURATION_MS as int,
                ));
                assert(p.wf());
            }
            *self = p;
            true
        } else {
            false
        }
    }

    /// Advance the current move by `delta_ms` of frame time: the timer
    /// counts down, clamped at zero; while it runs the position follows the
    /// interpolation formula, and when it reaches zero the player snaps
    /// exactly onto the target and settles there. A settled player is
    /// unchanged.
    pub fn step(&mut self, delta_ms: i64)
        requires
            old(self).wf(),
            0 <= delta_ms,
        ensures
            *final(self) == stepped(*old(self), delta_ms as int),
            final(self).wf(),
    {
        let nt: i64 = if self.move_timer > delta_ms {
            self.move_timer - delta_ms
        } else {
            0
        };
        if nt == 0 {
            self.x = self.target_x;
            self.y = self.target_y;
            self.start_x = self.target_x;
            self.start_y = self.target_y;
            self.move_timer = 0;
            proof {
                lemma_lerp_ends(
                    self.target_x as int, self.target_x as int, MOVE_DURATION_MS as int,
                );
                lemma_lerp_ends(
                    self.target_y as int, self.target_y as int, MOVE_DURATION_MS as int,
                );
            }
        } else {
            let elapsed = MOVE_DURATION_MS - nt;
            let nx = lerp_exec(self.start_x, self.target_x, elapsed);
            let ny = lerp_exec(self.start_y, self.target_y, elapsed);
            proof {
                lemma_lerp_within(
                    self.start_x as int,
                    self.target_x as int,
                    elapsed as int,
                    MOVE_DURATION_MS as int,
                );
                lemma_lerp_within(
                    self.start_y as int,
                    self.target_y as int,
                    elapsed as int,
                    MOVE_DURATION_MS as int,
                );
            }
            self.x = nx;
            self.y = ny;
            self.move_timer = nt;
        }
    }
}

/// The outcome of one attempted move, as a mathematical function.
pub open spec fn spec_try_move(p: Player, map: TileMap, dir: Dir) -> Player {
    let nx = p.x + dir.dx() * TILE_SIZE;
    let ny = p.y + dir.dy() * TILE_SIZE;
    if map.spec_classify(nx, ny).is_passable() {
        Player {
            x: p.x,
            y: p.y,
            start_x: p.x,
            start_y: p.y,
            target_x: nx as i64,
            target_y: ny as i64,
            move_timer: MOVE_DURATION_MS,
        }
    } else {
        p
    }
}

/// The outcome of advancing a player by `delta` milliseconds, as a
/// mathematical function: the timer counts down clamped at zero; at zero
/// the player sits settled on its target, otherwise the position is the
/// interpolation at the elapsed time.
pub open spec fn stepped(p: Player, delta: int) -> Player {
    let nt = if p.move_timer - delta > 0 { p.move_timer - delta } else { 0 };
    if nt == 0 {
        Player {
            x: p.target_x,
            y: p.target_y,
            start_x: p.target_x,
            start_y: p.target_y,
            target_x: p.target_x,
            target_y: p.target_y,
            move_timer: 0,
        }
    } else {
        Player {
            x: lerp(
                p.start_x as int,
                p.target_x as int,
                MOVE_DURATION_MS - nt,
                MOVE_DURATION_MS as int,
            ) as i64,
            y: lerp(
                p.start_y as int,
                p.target_y as int,
                MOVE_DURATION_MS - nt,
                MOVE_DURATION_MS as int,
            ) as i64,
            start_x: p.start_x,
            start_y: p.start_y,
            target_x: p.target_x,
            target_y: p.target_y,
            move_timer: nt as i64,
        }
    }
}

/// Floored linear interpolation over one move's duration, computed with
/// unsigned arithmetic on either side of the segment's direction.
fn lerp_exec(s: i64, t: i64, elapsed: i64) -> (r: i64)
    requires
        in_coord(s as int),
        in_coord(t as int),
        0 <= elapsed <= MOVE_DURATION_MS,
    ensures
        r == lerp(s as int, t as int, elapsed as int, MOVE_DURATION_MS as int),
{
    let dur: u64 = MOVE_DURATION_MS as u64;
    if t >= s {
        let diff: u64 = (t - s) as u64;
        proof {
            lemma_mul_upper_bound(
                t - s, 2 * COORD_LIMIT as int, elapsed as int, MOVE_DURATION_MS as int,
            );
        }
        let q: u64 = diff * (elapsed as u64) / dur;
        proof {
            lemma_mul_nonnegative(t - s, elapsed as int);
            lemma_mul_inequality(elapsed as int, MOVE_DURATION_MS as int, t - s);
            lemma_mul_is_commutative(elapsed as int, t - s);
            lemma_mul_is_commutative(MOVE_DURATION_MS as int, t - s);
            lemma_div_is_ordered(
                (t - s) * elapsed,
                (t - s) * MOVE_DURATION_MS,
                MOVE_DURATION_MS as int,
            );
            lemma_mul_is_commutative(t - s, MOVE_DURATION_MS as int);
            lemma_div_multiples_vanish(t - s, MOVE_DURATION_MS as int);
            lemma_div_pos_is_pos((t - s) * elapsed, MOVE_DURATION_MS as int);
        }
        s + (q as i64)
    } else {
        let diff: u64 = (s - t) as u64;
        proof {
            lemma_mul_upper_bound(
                s - t, 2 * COORD_LIMIT as int, elapsed as int, MOVE_DURATION_MS as int,
            );
        }
        let num: u64 = diff * (elapsed as u64);
        let q: u64 = (num + dur - 1) / dur;
        proof {
            let n = (s - t) * elapsed;
            lemma_mul_nonnegative(s - t, elapsed as int);
            lemma_neg_div(n, MOVE_DURATION_MS as int);
            lemma_mul_unary_negation(s - t, elapsed as int);
            // bound the ceiling quotient by the segment length
            lemma_mul_inequality(elapsed as int, MOVE_DURATION_MS as int, s - t);
            lemma_mul_is_commutative(elapsed as int, s - t);
            lemma_mul_is_commutative(MOVE_DURATION_MS as int, s - t);
            lemma_div_is_ordered(
                n + MOVE_DURATION_MS - 1,
                (s - t) * MOVE_DURATION_MS + MOVE_DURATION_MS - 1,
                MOVE_DURATION_MS as int,
            );
            lemma_fundamental_div_mod_converse(
                (s - t) * MOVE_DURATION_MS + MOVE_DURATION_MS - 1,
                MOVE_DURATION_MS as int,
                s - t,
                MOVE_DURATION_MS as int - 1,
            );
            lemma_div_pos_is_pos(n + MOVE_DURATION_MS - 1, MOVE_DURATION_MS as int);
        }
        s - (q as i64)
    }
}

/// Every position the grid classifies as an actual tile (not `Void`) lies
/// inside the map rectangle, hence within the coordinate bounds.
pub proof fn lemma_in_grid_in_coord(map: TileMap, x: int, y: int)
    requires
        map.wf(),
        !(map.spec_classify(x, y) is Void),
    ensures
        0 <= x < map.width * TILE_SIZE,
        0 <= y < map.height * TILE_SIZE,
        in_coord(x),
        in_coord(y),
{
    let d = TILE_SIZE as int;
    lemma_fundamental_div_mod_converse(-1, d, -1, d - 1);
    if x < 0 {
        lemma_div_is_ordered(x, -1, d);
    }
    if y < 0 {
        lemma_div_is_ordered(y, -1, d);
    }
    lemma_fundamental_div_mod(x, d);
    lemma_fundamental_div_mod(y, d);
    lemma_mul_inequality(x / d, map.width - 1, d);
    lemma_mul_inequality(y / d, map.height - 1, d);
    lemma_mul_is_commutative(x / d, d);
    lemma_mul_is_commutative(y / d, d);
    lemma_mul_is_commutative(map.width - 1, d);
    lemma_mul_is_commutative(map.height - 1, d);
    lemma_mul_inequality(map.width as int, crate::tile::MAX_DIM as int, d);
    lemma_mul_inequality(map.height as int, crate::tile::MAX_DIM as int, d);
    lemma_mul_is_commutative(map.width as int, d);
    lemma_mul_is_commutative(map.height as int, d);
    lemma_mul_is_commutative(crate::tile::MAX_DIM as int, d);
}

/// Total of a sequence of frame times.
pub open spec fn sum_of(deltas: Seq<int>) -> int
    decreases deltas.len(),
{
    if deltas.len() == 0 {
        0
    } else {
        deltas[0] + sum_of(deltas.drop_first())
    }
}

/// The player after a whole sequence of frame advances, first frame first.
pub open spec fn run_steps(p: Player, deltas: Seq<int>) -> Player
    decreases deltas.len(),
{
    if deltas.len() == 0 {
        p
    } else {
        run_steps(stepped(p, deltas[0]), deltas.drop_first())
    }
}

/// A sum of non-negative frame times is non-negative.
proof fn lemma_sum_nonneg(deltas: Seq<int>)
    requires
        forall|i: int| 0 <= i < deltas.len() ==> 0 <= #[trigger] deltas[i],
    ensures
        0 <= sum_of(deltas),
    decreases deltas.len(),
{
    if deltas.len() > 0 {
        lemma_sum_nonneg(deltas.drop_first());
    }
}

/// One frame advance preserves the motion invariant, never changes the
/// target, and decrements the timer by the frame time, clamped at zero.
pub proof fn lemma_stepped_wf(p: Player, delta: int)
    requires
        p.wf(),
        0 <= delta,
    ensures
        stepped(p, delta).wf(),
        stepped(p, delta).target_x == p.target_x,
        stepped(p, delta).target_y == p.target_y,
        stepped(p, delta).move_timer == if p.move_timer - delta > 0 {
            p.move_timer - delta
        } else {
            0
        },
{
    let nt = if p.move_timer - delta > 0 { p.move_timer - delta } else { 0 };
    if nt == 0 {
        lemma_lerp_ends(p.target_x as int, p.target_x as int, MOVE_DURATION_MS as int);
        lemma_lerp_ends(p.target_y as int, p.target_y as int, MOVE_DURATION_MS as int);
    } else {
        lemma_lerp_within(
            p.start_x as int, p.target_x as int, MOVE_DURATION_MS - nt, MOVE_DURATION_MS as int,
        );
        lemma_lerp_within(
            p.start_y as int, p.target_y as int, MOVE_DURATION_MS - nt, MOVE_DURATION_MS as int,
        );
    }
}

/// One frame advance moves the player monotonically toward its target and
/// never past it, on both axes independently.
pub proof fn lemma_step_approaches_target(p: Player, delta: int)
    requires
        p.wf(),
        0 <= delta,
    ensures
        p.start_x <= p.target_x ==> p.x <= stepped(p, delta).x <= p.target_x,
        p.target_x <= p.start_x ==> p.target_x <= stepped(p, delta).x <= p.x,
        p.start_y <= p.target_y ==> p.y <= stepped(p, delta).y <= p.target_y,
        p.target_y <= p.start_y ==> p.target_y <= stepped(p, delta).y <= p.y,
{
    let dur = MOVE_DURATION_MS as int;
    let e1 = MOVE_DURATION_MS - p.move_timer;
    let nt = if p.move_timer - delta > 0 { p.move_timer - delta } else { 0 };
    let e2 = MOVE_DURATION_MS - nt;
    lemma_lerp_within(p.start_x as int, p.target_x as int, e1, dur);
    lemma_lerp_within(p.start_y as int, p.target_y as int, e1, dur);
    if nt == 0 {
        lemma_lerp_ends(p.target_x as int, p.target_x as int, dur);
        lemma_lerp_ends(p.target_y as int, p.target_y as int, dur);
    } else {
        lemma_lerp_monotone(p.start_x as int, p.target_x as int, e1, e2, dur);
        lemma_lerp_monotone(p.start_y as int, p.target_y as int, e1, e2, dur);
        lemma_lerp_within(p.start_x as int, p.target_x as int, e2, dur);
        lemma_lerp_within(p.start_y as int, p.target_y as int, e2, dur);
    }
}

/// However the move's duration is split across frames, once the accumulated
/// frame time reaches the remaining timer the player is settled exactly on
/// its target.
pub proof fn lemma_motion_completes(p: Player, deltas: Seq<int>)
    requires
        p.wf(),
        forall|i: int| 0 <= i < deltas.len() ==> 0 <= #[trigger] deltas[i],
        sum_of(deltas) >= p.move_timer,
    ensures
        run_steps(p, deltas).settled(),
        run_steps(p, deltas).wf(),
        run_steps(p, deltas).x == p.target_x,
        run_steps(p, deltas).y == p.target_y,
    decreases deltas.len(),
{
    if deltas.len() > 0 {
        let q = stepped(p, deltas[0]);
        lemma_stepped_wf(p, deltas[0]);
        assert(forall|i: int| 0 <= i < deltas.drop_first().len()
            ==> 0 <= #[trigger] deltas.drop_first()[i]);
        lemma_sum_nonneg(deltas.drop_first());
        lemma_motion_completes(q, deltas.drop_first());
    }
}

/// At elapsed time zero the interpolation sits on the start; at the full
/// duration it sits exactly on the target.
pub proof fn lemma_lerp_ends(s: int, t: int, dur: int)
    requires
        0 < dur,
    ensures
        lerp(s, t, 0, dur) == s,
        lerp(s, t, dur, dur) == t,
{
    lemma_mul_by_zero_is_zero(t - s);
    lemma_div_of0(dur);
    lemma_mul_is_commutative(t - s, dur);
    lemma_div_multiples_vanish(t - s, dur);
}

/// Floor division of a negated non-negative number equals the negated
/// ceiling division: `(-n) / d == -((n + d - 1) / d)`.
proof fn lemma_neg_div(n: int, d: int)
    requires
        0 <= n,
        0 < d,
    ensures
        (-n) / d == -((n + d - 1) / d),
{
    let q = (n + d - 1) / d;
    let r = (n + d - 1) % d;
    lemma_fundamental_div_mod(n + d - 1, d);
    lemma_mul_unary_negation(d, q);
    lemma_fundamental_div_mod_converse(-n, d, -q, d - 1 - r);
}

/// The interpolated position never leaves the segment between start and
/// target: no overshoot in either direction.
pub proof fn lemma_lerp_within(s: int, t: int, e: int, dur: int)
    requires
        0 <= e <= dur,
        0 < dur,
    ensures
        s <= t ==> s <= lerp(s, t, e, dur) <= t,
        t <= s ==> t <= lerp(s, t, e, dur) <= s,
{
    lemma_lerp_monotone(s, t, 0, e, dur);
    lemma_lerp_monotone(s, t, e, dur, dur);
    lemma_lerp_ends(s, t, dur);
}

/// As elapsed time grows, the interpolated position moves monotonically
/// from start toward target.
pub proof fn lemma_lerp_monotone(s: int, t: int, e1: int, e2: int, dur: int)
    requires
        0 <= e1 <= e2 <= dur,
        0 < dur,
    ensures
        s <= t ==> lerp(s, t, e1, dur) <= lerp(s, t, e2, dur),
        t <= s ==> lerp(s, t, e2, dur) <= lerp(s, t, e1, dur),
{
    if s <= t {
        lemma_mul_inequality(e1, e2, t - s);
        lemma_mul_is_commutative(e1, t - s);
        lemma_mul_is_commutative(e2, t - s);
        lemma_div_is_ordered((t - s) * e1, (t - s) * e2, dur);
        lemma_mul_nonnegative(t - s, e1);
        lemma_mul_nonnegative(t - s, e2);
    }
    if t <= s {
        lemma_mul_inequality(e1, e2, s - t);
        lemma_mul_is_commutative(e1, s - t);
        lemma_mul_is_commutative(e2, s - t);
        lemma_mul_unary_negation(s - t, e1);
        lemma_mul_unary_negation(s - t, e2);
        assert((t - s) * e1 == -((s - t) * e1));
        assert((t - s) * e2 == -((s - t) * e2));
        lemma_div_is_ordered((t - s) * e2, (t - s) * e1, dur);
    }
}

} // verus!
