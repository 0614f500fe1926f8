//! The tile grid and the mapping between world coordinates and grid cells.
//!
//! World coordinates are fixed-point integers: one pixel of the arena is
//! `UNITS_PER_PIXEL` units. The origin is the bottom-left corner of the arena.
use vstd::prelude::*;

verus! {

/// World units per arena pixel.
pub const UNITS_PER_PIXEL: i64 = 10;

/// Number of tile columns.
pub const TILE_COUNT_HORIZONTAL: usize = 13;

/// Number of tile rows.
pub const TILE_COUNT_VERTICAL: usize = 11;

/// Number of cells in the grid.
pub const TILE_COUNT: usize = 143;

/// Width of one tile in world units (16 pixels).
pub const TILE_WIDTH: i64 = 160;

/// Height of one tile in world units (16 pixels).
pub const TILE_HEIGHT: i64 = 160;

/// Half of a tile's width in world units.
pub const TILE_WIDTH_HALF: i64 = 80;

/// Half of a tile's height in world units.
pub const TILE_HEIGHT_HALF: i64 = 80;

/// Width of the arena in world units (208 pixels).
pub const ARENA_WIDTH: i64 = 2080;

/// Height of the arena in world units (176 pixels).
pub const ARENA_HEIGHT: i64 = 1760;

/// What occupies a cell.
#[derive(Clone, Copy, Debug, PartialEq, Eq, Structural)]
pub enum TileStatus {
    Free,
    Wall,
    PermanentWall,
}

/// One cell of the grid: its status and its `[column, row]` coordinates.
#[derive(Clone, Copy, Debug, PartialEq, Eq)]
pub struct Tile {
    pub status: TileStatus,
    pub coordinates: [usize; 2],
}

/// Whether `(col, row)` names a cell of the grid.
pub open spec fn in_grid(col: int, row: int) -> bool {
    0 <= col < TILE_COUNT_HORIZONTAL && 0 <= row < TILE_COUNT_VERTICAL
}

/// Position of cell `(col, row)` in the column-major cell store.
pub open spec fn cell_index(col: int, row: int) -> int {
    col * 11 + row
}

/// The tile that a grid holding `statuses` has at `(col, row)`.
pub open spec fn tile_spec(statuses: Seq<TileStatus>, col: int, row: int) -> Tile {
    Tile { status: statuses[cell_index(col, row)], coordinates: [col as usize, row as usize] }
}

/// The arena's tiles, indexed by `[column][row]`.
///
/// Its view is the status of every cell, at `cell_index(col, row)`; a
/// well-formed map has one tile per cell, each carrying its own coordinates.
pub struct TileMap {
    tiles: Vec<Tile>,
}

impl View for TileMap {
    type V = Seq<TileStatus>;

    closed spec fn view(&self) -> Seq<TileStatus> {
        Seq::new(self.tiles@.len(), |i: int| self.tiles@[i].status)
    }
}

impl TileMap {
    /// Every tile carries the coordinates of the cell that it fills.
    pub closed spec fn coordinates_consistent(&self) -> bool {
        forall|col: int, row: int|
            in_grid(col, row) ==> (#[trigger] self.tiles@[cell_index(col, row)]).coordinates
                == [col as usize, row as usize]
    }

    /// The map has one tile per cell, each at the place that its coordinates name.
    pub open spec fn wf(&self) -> bool {
        &&& self@.len() == TILE_COUNT
        &&& self.coordinates_consistent()
    }

    /// The tile at `(col, row)`.
    pub open spec fn tile(&self, col: int, row: int) -> Tile {
        tile_spec(self@, col, row)
    }

    /// The tile that contains the world point `(x, y)`: the cell found by
    /// floor division of each coordinate by the tile size, or `None` outside
    /// the arena.
    pub open spec fn tile_at_point(&self, x: int, y: int) -> Option<Tile> {
        if point_in_arena(x, y) {
            Some(self.tile(x / TILE_WIDTH as int, y / TILE_HEIGHT as int))
        } else {
            None
        }
    }

    /// Builds a map from the status of each cell, in `cell_index` order.
    pub fn from_statuses(statuses: &Vec<TileStatus>) -> (r: TileMap)
        requires
            statuses@.len() == TILE_COUNT,
        ensures
            r.wf(),
            r@ == statuses@,
    {
        let mut tiles: Vec<Tile> = Vec::new();
        let mut i: usize = 0;
        while i < TILE_COUNT
            invariant
                statuses@.len() == TILE_COUNT,
                i <= TILE_COUNT,
                tiles@.len() == i,
                forall|j: int| 0 <= j < i ==> (#[trigger] tiles@[j]).status == statuses@[j],
                forall|col: int, row: int|
                    in_grid(col, row) && cell_index(col, row) < i ==> (#[trigger] tiles@[cell_index(
                        col,
                        row,
                    )]).coordinates == [col as usize, row as usize],
            decreases TILE_COUNT - i,
        {
            let col: usize = i / TILE_COUNT_VERTICAL;
            let row: usize = i % TILE_COUNT_VERTICAL;
            tiles.push(Tile { status: statuses[i], coordinates: [col, row] });
            i = i + 1;
        }
        let r = TileMap { tiles };
        assert(r@ =~= statuses@);
        r
    }

    /// The tile that contains the world point `(x, y)`, found by floor
    /// division by the tile size; `None` outside the arena.
    pub fn get_tile(&self, x: i64, y: i64) -> (r: Option<Tile>)
        requires
            self.wf(),
        ensures
            r == self.tile_at_point(x as int, y as int),
    {
        if x < 0 || x >= ARENA_WIDTH || y < 0 || y >= ARENA_HEIGHT {
            None
        } else {
            let col = (x / TILE_WIDTH) as usize;
            let row = (y / TILE_HEIGHT) as usize;
            Some(self.get_tile_by_key(col, row))
        }
    }

    /// The tile at `(col, row)`.
    pub fn get_tile_by_key(&self, col: usize, row: usize) -> (r: Tile)
        requires
            self.wf(),
            in_grid(col as int, row as int),
        ensures
            r == self.tile(col as int, row as int),
    {
        self.tiles[col * TILE_COUNT_VERTICAL + row]
    }

    /// Sets the status of the cell `(col, row)`, leaving every other cell as it was.
    pub fn update_tile(&mut self, col: usize, row: usize, status: TileStatus)
        requires
            old(self).wf(),
            in_grid(col as int, row as int),
        ensures
            final(self).wf(),
            final(self)@ == old(self)@.update(cell_index(col as int, row as int), status),
    {
        let i = col * TILE_COUNT_VERTICAL + row;
        let mut tile = self.tiles[i];
        tile.status = status;
        self.tiles.set(i, tile);
        assert(self@ =~= old(self)@.update(cell_index(col as int, row as int), status));
    }
}

impl Default for TileMap {
    /// A map whose cells are all free.
    fn default() -> (r: TileMap)
        ensures
            r.wf(),
            forall|i: int| 0 <= i < TILE_COUNT ==> r@[i] == TileStatus::Free,
    {
        let statuses: Vec<TileStatus> = vec![TileStatus::Free; TILE_COUNT];
        TileMap::from_statuses(&statuses)
    }
}

/// Whether the world point `(x, y)` lies inside the arena.
pub open spec fn point_in_arena(x: int, y: int) -> bool {
    0 <= x < ARENA_WIDTH && 0 <= y < ARENA_HEIGHT
}

/// World x coordinate of the centre of column `col`.
pub open spec fn centre_x(col: int) -> int {
    col * TILE_WIDTH + TILE_WIDTH_HALF
}

/// World y coordinate of the centre of row `row`.
pub open spec fn centre_y(row: int) -> int {
    row * TILE_HEIGHT + TILE_HEIGHT_HALF
}

/// The world point at the centre of the cell `(col, row)`.
pub fn tile_centre(col: usize, row: usize) -> (r: (i64, i64))
    requires
        in_grid(col as int, row as int),
    ensures
        r == (centre_x(col as int) as i64, centre_y(row as int) as i64),
{
    (col as i64 * TILE_WIDTH + TILE_WIDTH_HALF, row as i64 * TILE_HEIGHT + TILE_HEIGHT_HALF)
}

/// Looking up the centre of any cell of the grid gives that cell's own
/// tile, whose coordinates are the cell's column and row.
pub proof fn lemma_tile_centre_lookup(m: TileMap, col: int, row: int)
    requires
        m.wf(),
        in_grid(col, row),
    ensures
        m.tile_at_point(centre_x(col), centre_y(row)) == Some(m.tile(col, row)),
        m.tile(col, row).coordinates == [col as usize, row as usize],
        m.tile(col, row).status == m@[cell_index(col, row)],
{
    assert(centre_x(col) / TILE_WIDTH as int == col);
    assert(centre_y(row) / TILE_HEIGHT as int == row);
}

} // verus!
