//! The movement resolver: per-tick player displacement, checked against the
//! grid one axis at a time.
use vstd::prelude::*;

use crate::grid::{
    cell_index, TileMap, TileStatus, ARENA_HEIGHT, ARENA_WIDTH, TILE_HEIGHT, TILE_WIDTH,
};
use crate::player::{centre_in_arena, Player, PLAYER_HEIGHT_HALF, PLAYER_WIDTH_HALF};

verus! {

/// Distance a player travels in one tick at full deflection, in world units
/// (1.2 pixels).
pub const PLAYER_SPEED: i64 = 12;

/// The axis value of full deflection: axis values are thousandths.
pub const AXIS_FULL: i64 = 1000;

/// `v` clamped to `[lo, hi]`.
pub open spec fn clamp(v: int, lo: int, hi: int) -> int {
    if v > hi {
        hi
    } else if v < lo {
        lo
    } else {
        v
    }
}

/// `v` clamped to the horizontal range of a player's centre.
pub open spec fn clamp_horizontal(v: int) -> int {
    clamp(v, PLAYER_WIDTH_HALF as int, ARENA_WIDTH - PLAYER_WIDTH_HALF)
}

/// `v` clamped to the vertical range of a player's centre.
pub open spec fn clamp_vertical(v: int) -> int {
    clamp(v, PLAYER_HEIGHT_HALF as int, ARENA_HEIGHT - PLAYER_HEIGHT_HALF)
}

fn clamp_to_arena_horizontal_boundaries(value: i64) -> (r: i64)
    ensures
        r == clamp_horizontal(value as int),
{
    if value > ARENA_WIDTH - PLAYER_WIDTH_HALF {
        ARENA_WIDTH - PLAYER_WIDTH_HALF
    } else if value < PLAYER_WIDTH_HALF {
        PLAYER_WIDTH_HALF
    } else {
        value
    }
}

fn clamp_to_arena_vertical_boundaries(value: i64) -> (r: i64)
    ensures
        r == clamp_vertical(value as int),
{
    if value > ARENA_HEIGHT - PLAYER_HEIGHT_HALF {
        ARENA_HEIGHT - PLAYER_HEIGHT_HALF
    } else if value < PLAYER_HEIGHT_HALF {
        PLAYER_HEIGHT_HALF
    } else {
        value
    }
}

/// The displacement for one tick of an axis value, rounded toward zero.
pub open spec fn displacement(axis: int) -> int {
    if axis >= 0 {
        axis * PLAYER_SPEED / (AXIS_FULL as int)
    } else {
        -((-axis) * PLAYER_SPEED / (AXIS_FULL as int))
    }
}

/// The displacement for one tick of an axis value (thousandths of full
/// deflection), rounded toward zero.
pub fn axis_displacement(axis: i32) -> (d: i32)
    ensures
        d == displacement(axis as int),
{
    let a = axis as i64;
    if a >= 0 {
        (a * PLAYER_SPEED / AXIS_FULL) as i32
    } else {
        (-((-a) * PLAYER_SPEED / AXIS_FULL)) as i32
    }
}

/// Status of the cell that holds the world point `(x, y)` of the arena.
pub open spec fn status_at_point(g: Seq<TileStatus>, x: int, y: int) -> TileStatus {
    g[cell_index(x / TILE_WIDTH as int, y / TILE_HEIGHT as int)]
}

/// The leading edge, on the axis of travel, of a player at `pos` after a
/// displacement `d`, clamped to the arena.
pub open spec fn leading_edge_x(pos: int, d: int) -> int {
    if d > 0 {
        clamp_horizontal(pos + d + PLAYER_WIDTH_HALF)
    } else {
        clamp_horizontal(pos + d - PLAYER_WIDTH_HALF)
    }
}

/// As `leading_edge_x`, on the vertical axis.
pub open spec fn leading_edge_y(pos: int, d: int) -> int {
    if d > 0 {
        clamp_vertical(pos + d + PLAYER_HEIGHT_HALF)
    } else {
        clamp_vertical(pos + d - PLAYER_HEIGHT_HALF)
    }
}

/// The horizontal move is open: both cells sampled at the leading edge, at
/// the top and bottom corners of the player's box, are free.
pub open spec fn open_x(g: Seq<TileStatus>, x: int, y: int, dx: int) -> bool {
    &&& status_at_point(g, leading_edge_x(x, dx), clamp_vertical(y + PLAYER_HEIGHT_HALF))
        == TileStatus::Free
    &&& status_at_point(g, leading_edge_x(x, dx), clamp_vertical(y - PLAYER_HEIGHT_HALF))
        == TileStatus::Free
}

/// The vertical move is open: both cells sampled at the leading edge, at the
/// left and right corners of the player's box, are free.
pub open spec fn open_y(g: Seq<TileStatus>, x: int, y: int, dy: int) -> bool {
    &&& status_at_point(g, clamp_horizontal(x + PLAYER_WIDTH_HALF), leading_edge_y(y, dy))
        == TileStatus::Free
    &&& status_at_point(g, clamp_horizontal(x - PLAYER_WIDTH_HALF), leading_edge_y(y, dy))
        == TileStatus::Free
}

/// The horizontal coordinate after trying to move by `dx`: the clamped
/// displaced position when the move is open, the old one otherwise.
pub open spec fn moved_x(g: Seq<TileStatus>, x: int, y: int, dx: int) -> int {
    if dx != 0 && open_x(g, x, y, dx) {
        clamp_horizontal(x + dx)
    } else {
        x
    }
}

/// The vertical coordinate after trying to move by `dy`.
pub open spec fn moved_y(g: Seq<TileStatus>, x: int, y: int, dy: int) -> int {
    if dy != 0 && open_y(g, x, y, dy) {
        clamp_vertical(y + dy)
    } else {
        y
    }
}

/// The position after one tick: the horizontal axis first, then the
/// vertical one from the new horizontal position.
pub open spec fn move_step(g: Seq<TileStatus>, x: int, y: int, dx: int, dy: int) -> (int, int) {
    let nx = moved_x(g, x, y, dx);
    (nx, moved_y(g, nx, y, dy))
}

/// Whether the cell at the world point `(x, y)` is free; the point lies in the arena.
fn free_at(map: &TileMap, x: i64, y: i64) -> (r: bool)
    requires
        map.wf(),
        0 <= x < ARENA_WIDTH,
        0 <= y < ARENA_HEIGHT,
    ensures
        r == (status_at_point(map@, x as int, y as int) == TileStatus::Free),
{
    match map.get_tile(x, y) {
        Some(tile) => tile.status == TileStatus::Free,
        None => false,
    }
}

/// Resolves a horizontal displacement `dx` of a player centred at `(x, y)`.
pub fn move_horizontal(map: &TileMap, x: i32, y: i32, dx: i32) -> (r: i32)
    requires
        map.wf(),
    ensures
        r == moved_x(map@, x as int, y as int, dx as int),
{
    if dx == 0 {
        return x;
    }
    let x = x as i64;
    let y = y as i64;
    let d = dx as i64;
    let edge = if d > 0 {
        clamp_to_arena_horizontal_boundaries(x + d + PLAYER_WIDTH_HALF)
    } else {
        clamp_to_arena_horizontal_boundaries(x + d - PLAYER_WIDTH_HALF)
    };
    let top = clamp_to_arena_vertical_boundaries(y + PLAYER_HEIGHT_HALF);
    let bottom = clamp_to_arena_vertical_boundaries(y - PLAYER_HEIGHT_HALF);
    if free_at(map, edge, top) && free_at(map, edge, bottom) {
        clamp_to_arena_horizontal_boundaries(x + d) as i32
    } else {
        x as i32
    }
}

/// Resolves a vertical displacement `dy` of a player centred at `(x, y)`.
pub fn move_vertical(map: &TileMap, x: i32, y: i32, dy: i32) -> (r: i32)
    requires
        map.wf(),
    ensures
        r == moved_y(map@, x as int, y as int, dy as int),
{
    if dy == 0 {
        return y;
    }
    let x = x as i64;
    let y = y as i64;
    let d = dy as i64;
    let edge = if d > 0 {
        clamp_to_arena_vertical_boundaries(y + d + PLAYER_HEIGHT_HALF)
    } else {
        clamp_to_arena_vertical_boundaries(y + d - PLAYER_HEIGHT_HALF)
    };
    let right = clamp_to_arena_horizontal_boundaries(x + PLAYER_WIDTH_HALF);
    let left = clamp_to_arena_horizontal_boundaries(x - PLAYER_WIDTH_HALF);
    if free_at(map, right, edge) && free_at(map, left, edge) {
        clamp_to_arena_vertical_boundaries(y + d) as i32
    } else {
        y as i32
    }
}

/// Moves the players that the local input drives by the displacements that
/// the two axis values give; the other players stay where they are.
pub struct MovementSystem;

/// `p` after one tick of movement with axis values `axis_x` and `axis_y`.
pub open spec fn player_moved(g: Seq<TileStatus>, p: Player, axis_x: int, axis_y: int) -> Player {
    if p.is_human {
        let pos = move_step(g, p.x as int, p.y as int, displacement(axis_x), displacement(axis_y));
        Player { x: pos.0 as i32, y: pos.1 as i32, ..p }
    } else {
        p
    }
}

impl MovementSystem {
    /// One tick of movement. Axis values are thousandths of full deflection
    /// (`AXIS_FULL`); the horizontal axis is resolved first.
    pub fn run(&self, map: &TileMap, players: &mut Vec<Player>, axis_x: i32, axis_y: i32)
        requires
            map.wf(),
        ensures
            final(players)@.len() == old(players)@.len(),
            forall|i: int|
                0 <= i < old(players)@.len() ==> #[trigger] final(players)@[i] == player_moved(
                    map@,
                    old(players)@[i],
                    axis_x as int,
                    axis_y as int,
                ),
            forall|i: int|
                0 <= i < old(players)@.len() && (#[trigger] old(players)@[i]).in_arena()
                    ==> final(players)@[i].in_arena(),
    {
        let dx = axis_displacement(axis_x);
        let dy = axis_displacement(axis_y);
        let n = players.len();
        let mut i: usize = 0;
        while i < n
            invariant
                map.wf(),
                n == old(players)@.len(),
                players@.len() == n,
                i <= n,
                dx == displacement(axis_x as int),
                dy == displacement(axis_y as int),
                forall|j: int|
                    0 <= j < i ==> #[trigger] players@[j] == player_moved(
                        map@,
                        old(players)@[j],
                        axis_x as int,
                        axis_y as int,
                    ),
                forall|j: int| i <= j < n ==> #[trigger] players@[j] == old(players)@[j],
            decreases n - i,
        {
            let p = players[i];
            if p.is_human {
                let x = move_horizontal(map, p.x, p.y, dx);
                let y = move_vertical(map, x, p.y, dy);
                players.set(i, Player { x, y, ..p });
            }
            i = i + 1;
        }
    }
}

/// The position after a sequence of per-tick displacements `(dx, dy)`.
pub open spec fn walk(g: Seq<TileStatus>, x: int, y: int, moves: Seq<(int, int)>) -> (int, int)
    decreases moves.len(),
{
    if moves.len() == 0 {
        (x, y)
    } else {
        let p = walk(g, x, y, moves.drop_last());
        move_step(g, p.0, p.1, moves.last().0, moves.last().1)
    }
}

/// Whatever the grid and whatever the displacements, a player that starts
/// inside the arena stays inside it: its centre never leaves
/// `[half-extent, dimension - half-extent]` on either axis.
pub proof fn lemma_movement_stays_in_arena(
    g: Seq<TileStatus>,
    x: int,
    y: int,
    moves: Seq<(int, int)>,
)
    requires
        centre_in_arena(x, y),
    ensures
        centre_in_arena(walk(g, x, y, moves).0, walk(g, x, y, moves).1),
    decreases moves.len(),
{
    if moves.len() > 0 {
        lemma_movement_stays_in_arena(g, x, y, moves.drop_last());
    }
}

/// A horizontal move whose leading edge reaches a cell that is not free, at
/// either corner of the player's box, leaves the horizontal coordinate as it was.
pub proof fn lemma_blocked_horizontal(g: Seq<TileStatus>, x: int, y: int, dx: int)
    requires
        status_at_point(g, leading_edge_x(x, dx), clamp_vertical(y + PLAYER_HEIGHT_HALF))
            != TileStatus::Free || status_at_point(
            g,
            leading_edge_x(x, dx),
            clamp_vertical(y - PLAYER_HEIGHT_HALF),
        ) != TileStatus::Free,
    ensures
        moved_x(g, x, y, dx) == x,
{
}

/// A vertical move whose leading edge reaches a cell that is not free, at
/// either corner of the player's box, leaves the vertical coordinate as it was.
pub proof fn lemma_blocked_vertical(g: Seq<TileStatus>, x: int, y: int, dy: int)
    requires
        status_at_point(g, clamp_horizontal(x + PLAYER_WIDTH_HALF), leading_edge_y(y, dy))
            != TileStatus::Free || status_at_point(
            g,
            clamp_horizontal(x - PLAYER_WIDTH_HALF),
            leading_edge_y(y, dy),
        ) != TileStatus::Free,
    ensures
        moved_y(g, x, y, dy) == y,
{
}

} // verus!
