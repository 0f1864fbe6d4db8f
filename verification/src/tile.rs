//! The dungeon room grid: tile kinds, pixel-to-tile classification, and
//! spawn-point discovery.

use vstd::prelude::*;

verus! {

/// Edge length of one square tile, in pixels.
pub const TILE_SIZE: i64 = 128;

/// Largest grid dimension (columns or rows) the library accepts, so that
/// pixel coordinates of tile centers, and the count of cells, always fit
/// comfortably in the integer types the library computes with.
pub const MAX_DIM: usize = 0x8000;

/// Bound on every world coordinate the library works with; wide enough for
/// any map within `MAX_DIM`, narrow enough that adding a tile length or
/// multiplying by a timer never overflows `i64`.
pub const COORD_LIMIT: i64 = 0x4000_0000;

/// Whether a pixel coordinate is within the range the library works with.
pub open spec fn in_coord(v: int) -> bool {
    -(COORD_LIMIT as int) <= v <= COORD_LIMIT as int
}

/// What a world position resolves to on the grid.
#[derive(Clone, Copy, Debug, PartialEq, Eq, Structural)]
pub enum TileKind {
    Wall,
    Floor,
    Spawn,
    Void,
}

impl TileKind {
    /// A tile can be walked onto exactly when it is floor-like.
    pub open spec fn is_passable(self) -> bool {
        self is Floor || self is Spawn
    }

    /// Runtime test matching `is_passable`.
    pub fn passable(self) -> (r: bool)
        ensures
            r == self.is_passable(),
    {
        match self {
            TileKind::Floor => true,
            TileKind::Spawn => true,
            TileKind::Wall => false,
            TileKind::Void => false,
        }
    }
}

/// Meaning of one character of a map row: `x` is a wall, `o` floor,
/// `s` a spawn cell, anything else a hole in the map.
pub open spec fn spec_tile_of_char(c: char) -> TileKind {
    if c == 'x' {
        TileKind::Wall
    } else if c == 'o' {
        TileKind::Floor
    } else if c == 's' {
        TileKind::Spawn
    } else {
        TileKind::Void
    }
}

/// Runtime decoding of one map character, matching `spec_tile_of_char`.
pub fn tile_of_char(c: char) -> (k: TileKind)
    ensures
        k == spec_tile_of_char(c),
{
    if c == 'x' {
        TileKind::Wall
    } else if c == 'o' {
        TileKind::Floor
    } else if c == 's' {
        TileKind::Spawn
    } else {
        TileKind::Void
    }
}

/// The immutable room grid: `height` rows of `width` tiles each.
pub struct TileMap {
    pub cells: Vec<Vec<TileKind>>,
    pub width: usize,
    pub height: usize,
}

impl TileMap {
    /// The grid as a mathematical sequence of rows.
    pub open spec fn grid(self) -> Seq<Seq<TileKind>> {
        self.cells@.map_values(|r: Vec<TileKind>| r@)
    }

    /// The grid is rectangular, non-empty, and within the size limits.
    pub open spec fn wf(self) -> bool {
        &&& 0 < self.width <= MAX_DIM
        &&& 0 < self.height <= MAX_DIM
        &&& self.grid().len() == self.height
        &&& forall|r: int| 0 <= r < self.height ==> (#[trigger] self.grid()[r]).len() == self.width
    }

    /// The tile stored at (column, row), `Void` outside the grid.
    pub open spec fn spec_tile_at(self, col: int, row: int) -> TileKind {
        if 0 <= row < self.grid().len() && 0 <= col < self.grid()[row].len() {
            self.grid()[row][col]
        } else {
            TileKind::Void
        }
    }

    /// The tile a continuous world position falls on: the coordinate divided
    /// by the tile edge, rounded toward negative infinity on both axes.
    pub open spec fn spec_classify(self, x: int, y: int) -> TileKind {
        self.spec_tile_at(x / (TILE_SIZE as int), y / (TILE_SIZE as int))
    }

    /// Builds a map from rows of characters. Returns `None` exactly when the
    /// rows are empty, ragged, have an empty first row, or exceed `MAX_DIM`.
    pub fn from_rows(rows: &Vec<Vec<char>>) -> (m: Option<TileMap>)
        ensures
            match m {
                Some(map) => {
                    &&& map.wf()
                    &&& map.height == rows@.len()
                    &&& map.width == rows@[0].len()
                    &&& map.grid() == rows@.map_values(
                        |r: Vec<char>| r@.map_values(|c: char| spec_tile_of_char(c)),
                    )
                },
                None => {
                    ||| rows@.len() == 0
                    ||| rows@.len() > MAX_DIM
                    ||| rows@[0].len() == 0
                    ||| rows@[0].len() > MAX_DIM
                    ||| exists|r: int|
                        0 <= r < rows@.len() && (#[trigger] rows@[r]).len() != rows@[0].len()
                },
            },
    {
        let ghost target = rows@.map_values(
            |r: Vec<char>| r@.map_values(|c: char| spec_tile_of_char(c)),
        );
        if rows.len() == 0 || rows.len() > MAX_DIM {
            return None;
        }
        let width = rows[0].len();
        if width == 0 || width > MAX_DIM {
            return None;
        }
        let mut cells: Vec<Vec<TileKind>> = Vec::new();
        let mut r: usize = 0;
        while r < rows.len()
            invariant
                0 <= r <= rows@.len(),
                rows@.len() > 0,
                width == rows@[0].len(),
                cells@.len() == r,
                forall|i: int| 0 <= i < r ==> (#[trigger] rows@[i]).len() == width,
                forall|i: int| 0 <= i < r ==> (#[trigger] cells@[i])@ == target[i],
                target.len() == rows@.len(),
                forall|i: int| 0 <= i < rows@.len()
                    ==> #[trigger] target[i] == rows@[i]@.map_values(
                        |c: char| spec_tile_of_char(c),
                    ),
            decreases rows@.len() - r,
        {
            let row = &rows[r];
            if row.len() != width {
                return None;
            }
            let mut out: Vec<TileKind> = Vec::new();
            let mut c: usize = 0;
            while c < row.len()
                invariant
                    0 <= c <= row@.len(),
                    out@.len() == c,
                    forall|j: int| 0 <= j < c
                        ==> #[trigger] out@[j] == spec_tile_of_char(row@[j]),
                decreases row@.len() - c,
            {
                out.push(tile_of_char(row[c]));
                c += 1;
            }
            proof {
                assert(out@ =~= target[r as int]);
            }
            cells.push(out);
            r += 1;
        }
        let map = TileMap { cells, width, height: rows.len() };
        proof {
            assert(map.grid() =~= target);
        }
        Some(map)
    }

    /// Classifies the world position `(x, y)` as the tile it falls on,
    /// `Void` everywhere outside the grid.
    pub fn classify(&self, x: i64, y: i64) -> (k: TileKind)
        requires
            self.wf(),
        ensures
            k == self.spec_classify(x as int, y as int),
    {
        if x < 0 || y < 0 {
            proof {
                vstd::arithmetic::div_mod::lemma_fundamental_div_mod_converse(
                    -1, TILE_SIZE as int, -1, TILE_SIZE as int - 1);
                if x < 0 {
                    vstd::arithmetic::div_mod::lemma_div_is_ordered(
                        x as int, -1, TILE_SIZE as int);
                }
                if y < 0 {
                    vstd::arithmetic::div_mod::lemma_div_is_ordered(
                        y as int, -1, TILE_SIZE as int);
                }
            }
            return TileKind::Void;
        }
        let col: u64 = (x as u64) / (TILE_SIZE as u64);
        let row: u64 = (y as u64) / (TILE_SIZE as u64);
        if row < self.height as u64 && col < self.width as u64 {
            self.cells[row as usize][col as usize]
        } else {
            TileKind::Void
        }
    }

    /// Collects the pixel center of every spawn cell, in row-major order.
    /// All returned coordinates lie within the map, hence within bounds.
    pub fn spawn_points(&self) -> (pts: Vec<(i64, i64)>)
        requires
            self.wf(),
        ensures
            pts@ == grid_spawn_points(self.grid()),
            pts@.len() <= self.width * self.height,
            forall|i: int| 0 <= i < pts@.len()
                ==> 0 < (#[trigger] pts@[i]).0 < self.width * TILE_SIZE
                    && 0 < pts@[i].1 < self.height * TILE_SIZE,
    {
        let mut pts: Vec<(i64, i64)> = Vec::new();
        let ghost grid = self.grid();
        let mut r: usize = 0;
        while r < self.height
            invariant
                self.wf(),
                grid == self.grid(),
                0 <= r <= self.height,
                pts@ == grid_spawn_points(grid.take(r as int)),
                pts@.len() <= r * self.width,
                forall|i: int| 0 <= i < pts@.len()
                    ==> 0 < (#[trigger] pts@[i]).0 < self.width * TILE_SIZE
                        && 0 < pts@[i].1 < self.height * TILE_SIZE,
            decreases self.height - r,
        {
            let row = &self.cells[r];
            proof {
                assert(grid[r as int] == row@);
                assert(grid[r as int].len() == self.width);
            }
            let ghost pts_before = pts@;
            let mut c: usize = 0;
            while c < row.len()
                invariant
                    self.wf(),
                    grid == self.grid(),
                    0 <= r < self.height,
                    row == &self.cells[r as int],
                    row@.len() == self.width,
                    0 <= c <= row@.len(),
                    pts@ == pts_before + row_spawn_points(grid[r as int].take(c as int), r as int),
                    pts@.len() <= r * self.width + c,
                    forall|i: int| 0 <= i < pts@.len()
                        ==> 0 < (#[trigger] pts@[i]).0 < self.width * TILE_SIZE
                            && 0 < pts@[i].1 < self.height * TILE_SIZE,
                decreases row@.len() - c,
            {
                proof {
                    assert(grid[r as int].take(c as int + 1).drop_last()
                        =~= grid[r as int].take(c as int));
                    assert(grid[r as int].take(c as int + 1).last() == grid[r as int][c as int]);
                }
                if matches!(row[c], TileKind::Spawn) {
                    let px: i64 = (c as i64) * TILE_SIZE + TILE_SIZE / 2;
                    let py: i64 = (r as i64) * TILE_SIZE + TILE_SIZE / 2;
                    pts.push((px, py));
                }
                c += 1;
            }
            proof {
                assert(grid[r as int].take(self.width as int) =~= grid[r as int]);
                assert(grid.take(r as int + 1).drop_last() =~= grid.take(r as int));
                assert(grid.take(r as int + 1).last() == grid[r as int]);
                vstd::arithmetic::mul::lemma_mul_is_distributive_add_other_way(
                    self.width as int, r as int, 1,
                );
            }
            r += 1;
        }
        proof {
            assert(grid.take(self.height as int) =~= grid);
            vstd::arithmetic::mul::lemma_mul_is_commutative(
                self.height as int, self.width as int,
            );
        }
        pts
    }
}

/// Pixel center of the tile at (column, row).
pub open spec fn spawn_center(col: int, row: int) -> (i64, i64) {
    (
        (col * TILE_SIZE + TILE_SIZE / 2) as i64,
        (row * TILE_SIZE + TILE_SIZE / 2) as i64,
    )
}

/// Centers of the spawn cells among the first tiles of row `row_idx`,
/// left to right.
pub open spec fn row_spawn_points(row: Seq<TileKind>, row_idx: int) -> Seq<(i64, i64)>
    decreases row.len(),
{
    if row.len() == 0 {
        Seq::empty()
    } else {
        row_spawn_points(row.drop_last(), row_idx) + if row.last() is Spawn {
            seq![spawn_center(row.len() - 1, row_idx)]
        } else {
            Seq::empty()
        }
    }
}

/// Centers of all spawn cells of the grid, in row-major order.
pub open spec fn grid_spawn_points(grid: Seq<Seq<TileKind>>) -> Seq<(i64, i64)>
    decreases grid.len(),
{
    if grid.len() == 0 {
        Seq::empty()
    } else {
        grid_spawn_points(grid.drop_last()) + row_spawn_points(grid.last(), grid.len() - 1)
    }
}

/// A row contributes a spawn-point center exactly when it holds a spawn
/// cell.
pub proof fn lemma_row_spawn_points_nonempty(row: Seq<TileKind>, row_idx: int)
    ensures
        row_spawn_points(row, row_idx).len() > 0 <==> exists|c: int|
            0 <= c < row.len() && (#[trigger] row[c]) is Spawn,
    decreases row.len(),
{
    if row.len() > 0 {
        lemma_row_spawn_points_nonempty(row.drop_last(), row_idx);
        if row.last() is Spawn {
            assert(row[row.len() - 1] is Spawn);
        } else {
            if row_spawn_points(row, row_idx).len() > 0 {
                let c = choose|c: int|
                    0 <= c < row.drop_last().len() && (#[trigger] row.drop_last()[c]) is Spawn;
                assert(row[c] is Spawn);
            }
            if exists|c: int| 0 <= c < row.len() && (#[trigger] row[c]) is Spawn {
                let c = choose|c: int| 0 <= c < row.len() && (#[trigger] row[c]) is Spawn;
                assert(0 <= c < row.drop_last().len() && row.drop_last()[c] is Spawn);
            }
        }
    }
}

/// The map yields a spawn point exactly when some cell of the grid is a
/// spawn cell: the configuration check at startup tests precisely this.
pub proof fn lemma_grid_spawn_points_nonempty(grid: Seq<Seq<TileKind>>)
    ensures
        grid_spawn_points(grid).len() > 0 <==> exists|r: int, c: int|
            0 <= r < grid.len() && 0 <= c < grid[r].len() && (#[trigger] grid[r][c]) is Spawn,
    decreases grid.len(),
{
    if grid.len() > 0 {
        let prefix = grid.drop_last();
        let last_idx = grid.len() - 1;
        lemma_grid_spawn_points_nonempty(prefix);
        lemma_row_spawn_points_nonempty(grid.last(), last_idx);
        if grid_spawn_points(grid).len() > 0 {
            if grid_spawn_points(prefix).len() > 0 {
                let (r, c) = choose|r: int, c: int|
                    0 <= r < prefix.len() && 0 <= c < prefix[r].len()
                        && (#[trigger] prefix[r][c]) is Spawn;
                assert(grid[r][c] is Spawn);
            } else {
                let c = choose|c: int|
                    0 <= c < grid.last().len() && (#[trigger] grid.last()[c]) is Spawn;
                assert(grid[last_idx][c] is Spawn);
            }
        }
        if exists|r: int, c: int|
            0 <= r < grid.len() && 0 <= c < grid[r].len() && (#[trigger] grid[r][c]) is Spawn {
            let (r, c) = choose|r: int, c: int|
                0 <= r < grid.len() && 0 <= c < grid[r].len() && (#[trigger] grid[r][c]) is Spawn;
            if r < last_idx {
                assert(prefix[r][c] is Spawn);
            } else {
                assert(grid.last()[c] is Spawn);
            }
        }
    }
}

/// Every world position outside the grid rectangle classifies as `Void`:
/// the grid spans `[0, width * TILE_SIZE) x [0, height * TILE_SIZE)`.
pub proof fn lemma_classify_void_outside(map: TileMap, x: int, y: int)
    requires
        map.wf(),
        x < 0 || y < 0 || x >= map.width * TILE_SIZE || y >= map.height * TILE_SIZE,
    ensures
        map.spec_classify(x, y) is Void,
{
    let d = TILE_SIZE as int;
    vstd::arithmetic::div_mod::lemma_fundamental_div_mod_converse(-1, d, -1, d - 1);
    if x < 0 {
        vstd::arithmetic::div_mod::lemma_div_is_ordered(x, -1, d);
    } else if y < 0 {
        vstd::arithmetic::div_mod::lemma_div_is_ordered(y, -1, d);
    } else if x >= map.width * d {
        vstd::arithmetic::div_mod::lemma_div_is_ordered(map.width * d, x, d);
        vstd::arithmetic::div_mod::lemma_div_by_multiple(map.width as int, d);
    } else {
        vstd::arithmetic::div_mod::lemma_div_is_ordered(map.height * d, y, d);
        vstd::arithmetic::div_mod::lemma_div_by_multiple(map.height as int, d);
    }
}

/// Where in the tileset texture each tile kind is drawn from: walls use the
/// first `TILE_SIZE` square, floor and spawn cells the second, and `Void`
/// is not drawn at all.
pub fn tile_source_rect(k: TileKind) -> (r: Option<(i64, i64)>)
    ensures
        r == match k {
            TileKind::Wall => Some((0i64, 0i64)),
            TileKind::Floor => Some((TILE_SIZE, 0i64)),
            TileKind::Spawn => Some((TILE_SIZE, 0i64)),
            TileKind::Void => None::<(i64, i64)>,
        },
{
    match k {
        TileKind::Wall => Some((0, 0)),
        TileKind::Floor => Some((TILE_SIZE, 0)),
        TileKind::Spawn => Some((TILE_SIZE, 0)),
        TileKind::Void => None,
    }
}

} // verus!
