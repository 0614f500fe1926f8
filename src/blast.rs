//! Blast propagation: from a detonation cell, four rays walk outward through
//! the grid, clearing the destructible wall that stops them and yielding the
//! world-space regions that the blast covers.
use vstd::prelude::*;

use crate::geometry::Aabb;
use crate::grid::{
    cell_index, in_grid, TileMap, TileStatus, TILE_COUNT, TILE_COUNT_HORIZONTAL,
    TILE_COUNT_VERTICAL, TILE_HEIGHT, TILE_WIDTH,
};

verus! {

/// The four directions in which a blast travels.
#[derive(Clone, Copy, Debug, PartialEq, Eq, Structural)]
pub enum Direction {
    Up,
    Right,
    Down,
    Left,
}

/// The cell `step` cells away from `(col, row)` in direction `dir`.
pub open spec fn step_cell(col: int, row: int, dir: Direction, step: int) -> (int, int) {
    match dir {
        Direction::Up => (col, row + step),
        Direction::Right => (col + step, row),
        Direction::Down => (col, row - step),
        Direction::Left => (col - step, row),
    }
}

/// Whether the cell `step` cells away in direction `dir` lies in the grid.
pub open spec fn step_in_grid(col: int, row: int, dir: Direction, step: int) -> bool {
    in_grid(step_cell(col, row, dir, step).0, step_cell(col, row, dir, step).1)
}

/// Status, in `g`, of the cell `step` cells away in direction `dir`.
pub open spec fn ray_status(
    g: Seq<TileStatus>,
    col: int,
    row: int,
    dir: Direction,
    step: int,
) -> TileStatus {
    g[cell_index(step_cell(col, row, dir, step).0, step_cell(col, row, dir, step).1)]
}

/// How many cells a ray of `power` reaches when it has already passed the
/// cells before `step`: it passes free cells, ends on a destructible wall
/// (which it reaches), and stops before a permanent wall or the grid's edge.
pub open spec fn reach_from(
    g: Seq<TileStatus>,
    col: int,
    row: int,
    dir: Direction,
    power: int,
    step: int,
) -> int
    decreases power + 1 - step,
{
    if step > power {
        power
    } else if !step_in_grid(col, row, dir, step) {
        step - 1
    } else if ray_status(g, col, row, dir, step) == TileStatus::Free {
        reach_from(g, col, row, dir, power, step + 1)
    } else if ray_status(g, col, row, dir, step) == TileStatus::Wall {
        step
    } else {
        step - 1
    }
}

/// How many cells, beyond the origin, the ray in direction `dir` reaches.
pub open spec fn reach(g: Seq<TileStatus>, col: int, row: int, dir: Direction, power: int) -> int {
    reach_from(g, col, row, dir, power, 1)
}

/// The box covering the cell `(col, row)`.
pub open spec fn cell_box(col: int, row: int) -> Aabb {
    Aabb {
        min_x: (col * TILE_WIDTH) as i64,
        min_y: (row * TILE_HEIGHT) as i64,
        max_x: (col * TILE_WIDTH + TILE_WIDTH) as i64,
        max_y: (row * TILE_HEIGHT + TILE_HEIGHT) as i64,
    }
}

/// The box covering the origin cell and the `len` cells after it in
/// direction `dir`: one tile across, from the origin's near edge to the far
/// edge of the last cell.
pub open spec fn arm_box(col: int, row: int, dir: Direction, len: int) -> Aabb {
    let origin = cell_box(col, row);
    let last = cell_box(step_cell(col, row, dir, len).0, step_cell(col, row, dir, len).1);
    match dir {
        Direction::Up | Direction::Right => Aabb {
            min_x: origin.min_x,
            min_y: origin.min_y,
            max_x: last.max_x,
            max_y: last.max_y,
        },
        Direction::Down | Direction::Left => Aabb {
            min_x: last.min_x,
            min_y: last.min_y,
            max_x: origin.max_x,
            max_y: origin.max_y,
        },
    }
}

/// The region that the blast covers in direction `dir`: none when the ray
/// reaches no cell.
pub open spec fn arm(g: Seq<TileStatus>, col: int, row: int, dir: Direction, power: int) -> Option<
    Aabb,
> {
    let k = reach(g, col, row, dir, power);
    if k > 0 {
        Some(arm_box(col, row, dir, k))
    } else {
        None
    }
}

/// The destructible wall that the ray in direction `dir` clears, if it ends on one.
pub open spec fn cleared_cell(
    g: Seq<TileStatus>,
    col: int,
    row: int,
    dir: Direction,
    power: int,
) -> Option<(int, int)> {
    let k = reach(g, col, row, dir, power);
    if k > 0 && ray_status(g, col, row, dir, k) == TileStatus::Wall {
        Some(step_cell(col, row, dir, k))
    } else {
        None
    }
}

/// `acc` with the wall cleared by the ray in direction `dir` over `g` set free.
pub open spec fn clear_along(
    acc: Seq<TileStatus>,
    g: Seq<TileStatus>,
    col: int,
    row: int,
    dir: Direction,
    power: int,
) -> Seq<TileStatus> {
    match cleared_cell(g, col, row, dir, power) {
        Some(cell) => acc.update(cell_index(cell.0, cell.1), TileStatus::Free),
        None => acc,
    }
}

/// The grid after a blast of `power` at `(col, row)` on grid `g`: each of
/// the four rays, all walking the grid as it was, clears the wall it ends on.
pub open spec fn after_blast(g: Seq<TileStatus>, col: int, row: int, power: int) -> Seq<
    TileStatus,
> {
    let g1 = clear_along(g, g, col, row, Direction::Up, power);
    let g2 = clear_along(g1, g, col, row, Direction::Right, power);
    let g3 = clear_along(g2, g, col, row, Direction::Down, power);
    clear_along(g3, g, col, row, Direction::Left, power)
}

/// The cleared cell of one ray, as a sequence of zero or one cells.
pub open spec fn cleared_seq(
    g: Seq<TileStatus>,
    col: int,
    row: int,
    dir: Direction,
    power: int,
) -> Seq<(usize, usize)> {
    match cleared_cell(g, col, row, dir, power) {
        Some(cell) => seq![(cell.0 as usize, cell.1 as usize)],
        None => seq![],
    }
}

/// The directional regions of a blast, in the order up, right, down, left.
pub open spec fn blast_regions(g: Seq<TileStatus>, col: int, row: int, power: int) -> Seq<Aabb> {
    option_seq(arm(g, col, row, Direction::Up, power)) + option_seq(
        arm(g, col, row, Direction::Right, power),
    ) + option_seq(arm(g, col, row, Direction::Down, power)) + option_seq(
        arm(g, col, row, Direction::Left, power),
    )
}

/// The cells whose walls a blast clears, in the order up, right, down, left.
pub open spec fn blast_cleared(g: Seq<TileStatus>, col: int, row: int, power: int) -> Seq<
    (usize, usize),
> {
    cleared_seq(g, col, row, Direction::Up, power) + cleared_seq(
        g,
        col,
        row,
        Direction::Right,
        power,
    ) + cleared_seq(g, col, row, Direction::Down, power) + cleared_seq(
        g,
        col,
        row,
        Direction::Left,
        power,
    )
}

/// `a` and `b` agree on every grid cell of the ray in direction `dir`.
pub open spec fn agree_on_ray(
    a: Seq<TileStatus>,
    b: Seq<TileStatus>,
    col: int,
    row: int,
    dir: Direction,
    power: int,
) -> bool {
    forall|s: int|
        1 <= s <= power && step_in_grid(col, row, dir, s) ==> #[trigger] ray_status(
            a,
            col,
            row,
            dir,
            s,
        ) == ray_status(b, col, row, dir, s)
}

/// A ray's walk depends only on the cells of that ray.
proof fn lemma_reach_frame(
    a: Seq<TileStatus>,
    b: Seq<TileStatus>,
    col: int,
    row: int,
    dir: Direction,
    power: int,
    step: int,
)
    requires
        agree_on_ray(a, b, col, row, dir, power),
        1 <= step,
    ensures
        reach_from(a, col, row, dir, power, step) == reach_from(b, col, row, dir, power, step),
    decreases power + 1 - step,
{
    if step <= power && step_in_grid(col, row, dir, step) {
        assert(ray_status(a, col, row, dir, step) == ray_status(b, col, row, dir, step));
        lemma_reach_frame(a, b, col, row, dir, power, step + 1);
    }
}

/// Grids that agree on a ray give that ray the same region and the same cleared cell.
proof fn lemma_ray_frame(
    a: Seq<TileStatus>,
    b: Seq<TileStatus>,
    col: int,
    row: int,
    dir: Direction,
    power: int,
)
    requires
        agree_on_ray(a, b, col, row, dir, power),
        0 <= power,
    ensures
        reach(a, col, row, dir, power) == reach(b, col, row, dir, power),
        arm(a, col, row, dir, power) == arm(b, col, row, dir, power),
        cleared_cell(a, col, row, dir, power) == cleared_cell(b, col, row, dir, power),
{
    lemma_reach_frame(a, b, col, row, dir, power, 1);
    let k = reach(b, col, row, dir, power);
    lemma_reach_bounds(b, col, row, dir, power, 1);
    if k > 0 {
        assert(ray_status(a, col, row, dir, k) == ray_status(b, col, row, dir, k));
    }
}

/// A ray reaches at most `power` cells, each of them in the grid.
proof fn lemma_reach_bounds(
    g: Seq<TileStatus>,
    col: int,
    row: int,
    dir: Direction,
    power: int,
    step: int,
)
    requires
        1 <= step,
        0 <= power,
        step <= power + 1,
        forall|s: int| 1 <= s < step ==> step_in_grid(col, row, dir, s),
    ensures
        step - 1 <= reach_from(g, col, row, dir, power, step) <= power,
        forall|s: int|
            1 <= s <= reach_from(g, col, row, dir, power, step) ==> step_in_grid(col, row, dir, s),
    decreases power + 1 - step,
{
    if step <= power && step_in_grid(col, row, dir, step)
        && ray_status(g, col, row, dir, step) == TileStatus::Free {
        lemma_reach_bounds(g, col, row, dir, power, step + 1);
    }
}

/// Distinct cells of the grid have distinct places in the cell store.
proof fn lemma_cell_index_injective(c1: int, r1: int, c2: int, r2: int)
    requires
        in_grid(c1, r1),
        in_grid(c2, r2),
        cell_index(c1, r1) == cell_index(c2, r2),
    ensures
        c1 == c2 && r1 == r2,
{
}

/// Clearing the end of one ray leaves the cells of every other ray alone.
proof fn lemma_clear_keeps_other_ray(
    acc: Seq<TileStatus>,
    g: Seq<TileStatus>,
    col: int,
    row: int,
    cleared: Direction,
    kept: Direction,
    power: int,
)
    requires
        acc.len() == TILE_COUNT,
        in_grid(col, row),
        0 <= power,
        cleared != kept,
        agree_on_ray(acc, g, col, row, kept, power),
    ensures
        agree_on_ray(clear_along(acc, g, col, row, cleared, power), g, col, row, kept, power),
{
    let k = reach(g, col, row, cleared, power);
    lemma_reach_bounds(g, col, row, cleared, power, 1);
    let out = clear_along(acc, g, col, row, cleared, power);
    if let Some(cell) = cleared_cell(g, col, row, cleared, power) {
        assert(step_in_grid(col, row, cleared, k));
        assert forall|s: int| 1 <= s <= power && step_in_grid(col, row, kept, s) implies #[trigger] ray_status(
            out,
            col,
            row,
            kept,
            s,
        ) == ray_status(g, col, row, kept, s) by {
            let kc = step_cell(col, row, kept, s);
            if cell_index(kc.0, kc.1) == cell_index(cell.0, cell.1) {
                lemma_cell_index_injective(kc.0, kc.1, cell.0, cell.1);
            }
            assert(ray_status(acc, col, row, kept, s) == ray_status(g, col, row, kept, s));
        }
    }
}

/// The cell `step` cells away from `(col, row)` in direction `dir`, when it
/// lies in the grid.
fn next_cell(col: usize, row: usize, dir: Direction, step: usize) -> (r: Option<(usize, usize)>)
    requires
        in_grid(col as int, row as int),
        step <= 256,
    ensures
        r == (if step_in_grid(col as int, row as int, dir, step as int) {
            Some(
                (
                    step_cell(col as int, row as int, dir, step as int).0 as usize,
                    step_cell(col as int, row as int, dir, step as int).1 as usize,
                ),
            )
        } else {
            None
        }),
{
    match dir {
        Direction::Up => {
            if row + step < TILE_COUNT_VERTICAL {
                Some((col, row + step))
            } else {
                None
            }
        },
        Direction::Right => {
            if col + step < TILE_COUNT_HORIZONTAL {
                Some((col + step, row))
            } else {
                None
            }
        },
        Direction::Down => {
            if step <= row {
                Some((col, row - step))
            } else {
                None
            }
        },
        Direction::Left => {
            if step <= col {
                Some((col - step, row))
            } else {
                None
            }
        },
    }
}

/// How many cells the ray in direction `dir` reaches.
fn ray_reach(map: &TileMap, col: usize, row: usize, dir: Direction, power: u8) -> (k: usize)
    requires
        map.wf(),
        in_grid(col as int, row as int),
    ensures
        k == reach(map@, col as int, row as int, dir, power as int),
{
    let mut step: usize = 1;
    while step <= power as usize
        invariant
            map.wf(),
            in_grid(col as int, row as int),
            1 <= step <= power as usize + 1,
            reach(map@, col as int, row as int, dir, power as int) == reach_from(
                map@,
                col as int,
                row as int,
                dir,
                power as int,
                step as int,
            ),
        decreases power as usize + 1 - step,
    {
        match next_cell(col, row, dir, step) {
            None => {
                return step - 1;
            },
            Some((c, r)) => {
                let status = map.get_tile_by_key(c, r).status;
                match status {
                    TileStatus::Free => {},
                    TileStatus::Wall => {
                        return step;
                    },
                    TileStatus::PermanentWall => {
                        return step - 1;
                    },
                }
            },
        }
        step = step + 1;
    }
    power as usize
}

/// The box covering the cell `(col, row)`.
pub fn tile_box(col: usize, row: usize) -> (r: Aabb)
    requires
        in_grid(col as int, row as int),
    ensures
        r == cell_box(col as int, row as int),
{
    let x = col as i64 * TILE_WIDTH;
    let y = row as i64 * TILE_HEIGHT;
    Aabb { min_x: x, min_y: y, max_x: x + TILE_WIDTH, max_y: y + TILE_HEIGHT }
}

/// Walks the ray in direction `dir`, clears the wall it ends on, and returns
/// the region it covers and the cell it cleared.
fn cast_ray(map: &mut TileMap, col: usize, row: usize, dir: Direction, power: u8) -> (r: (
    Option<Aabb>,
    Option<(usize, usize)>,
))
    requires
        old(map).wf(),
        in_grid(col as int, row as int),
    ensures
        final(map).wf(),
        r.0 == arm(old(map)@, col as int, row as int, dir, power as int),
        final(map)@ == clear_along(old(map)@, old(map)@, col as int, row as int, dir, power as int),
        r.1 == (match cleared_cell(old(map)@, col as int, row as int, dir, power as int) {
            Some(cell) => Some((cell.0 as usize, cell.1 as usize)),
            None => None,
        }),
{
    let ghost g = map@;
    let k = ray_reach(map, col, row, dir, power);
    proof {
        lemma_reach_bounds(g, col as int, row as int, dir, power as int, 1);
    }
    if k == 0 {
        return (None, None);
    }
    let (c, r) = match next_cell(col, row, dir, k) {
        Some(cell) => cell,
        None => {
            return (None, None);
        },
    };
    let origin = tile_box(col, row);
    let last = tile_box(c, r);
    let region = match dir {
        Direction::Up | Direction::Right => Aabb {
            min_x: origin.min_x,
            min_y: origin.min_y,
            max_x: last.max_x,
            max_y: last.max_y,
        },
        Direction::Down | Direction::Left => Aabb {
            min_x: last.min_x,
            min_y: last.min_y,
            max_x: origin.max_x,
            max_y: origin.max_y,
        },
    };
    let status = map.get_tile_by_key(c, r).status;
    if status == TileStatus::Wall {
        map.update_tile(c, r, TileStatus::Free);
        (Some(region), Some((c, r)))
    } else {
        (Some(region), None)
    }
}

/// What a detonation produced.
pub struct Blast {
    /// The region over the detonation cell.
    pub center: Aabb,
    /// The region of each ray that reached at least one cell.
    pub up: Option<Aabb>,
    pub right: Option<Aabb>,
    pub down: Option<Aabb>,
    pub left: Option<Aabb>,
    /// The cells whose destructible walls were cleared, in the order up,
    /// right, down, left.
    pub cleared: Vec<(usize, usize)>,
}

/// A region that may be absent, as a sequence of zero or one regions.
pub open spec fn option_seq(o: Option<Aabb>) -> Seq<Aabb> {
    match o {
        Some(b) => seq![b],
        None => seq![],
    }
}

impl Blast {
    /// The directional regions that are present, in the order up, right, down, left.
    pub open spec fn arm_regions(&self) -> Seq<Aabb> {
        option_seq(self.up) + option_seq(self.right) + option_seq(self.down) + option_seq(self.left)
    }

    /// The directional regions that are present, in the order up, right, down, left.
    pub fn regions(&self) -> (r: Vec<Aabb>)
        ensures
            r@ == self.arm_regions(),
    {
        let mut r: Vec<Aabb> = Vec::new();
        if let Some(b) = self.up {
            r.push(b);
        }
        if let Some(b) = self.right {
            r.push(b);
        }
        if let Some(b) = self.down {
            r.push(b);
        }
        if let Some(b) = self.left {
            r.push(b);
        }
        assert(r@ =~= self.arm_regions());
        r
    }

    /// This is what a blast of `power` at `(col, row)` on grid `g` produces.
    pub open spec fn is_blast_of(&self, g: Seq<TileStatus>, col: int, row: int, power: int) -> bool {
        &&& self.center == cell_box(col, row)
        &&& self.up == arm(g, col, row, Direction::Up, power)
        &&& self.right == arm(g, col, row, Direction::Right, power)
        &&& self.down == arm(g, col, row, Direction::Down, power)
        &&& self.left == arm(g, col, row, Direction::Left, power)
        &&& self.cleared@ == blast_cleared(g, col, row, power)
    }
}

/// Detonates a bomb of `power` at the cell `(col, row)`.
///
/// Each ray walks outward up to `power` cells: it passes free cells, stops
/// on a destructible wall (which becomes free and is the ray's last cell),
/// and stops before a permanent wall or the grid's edge. Every ray reads the
/// grid as it was before the detonation.
pub fn propagate_blast(map: &mut TileMap, col: usize, row: usize, power: u8) -> (b: Blast)
    requires
        old(map).wf(),
        in_grid(col as int, row as int),
    ensures
        final(map).wf(),
        b.is_blast_of(old(map)@, col as int, row as int, power as int),
        final(map)@ == after_blast(old(map)@, col as int, row as int, power as int),
{
    let ghost g = map@;
    let ghost c = col as int;
    let ghost w = row as int;
    let ghost p = power as int;
    let mut cleared: Vec<(usize, usize)> = Vec::new();

    let (up, cell) = cast_ray(map, col, row, Direction::Up, power);
    if let Some(cell) = cell {
        cleared.push(cell);
    }
    let ghost g1 = map@;
    proof {
        lemma_clear_keeps_other_ray(g, g, c, w, Direction::Up, Direction::Right, p);
        lemma_clear_keeps_other_ray(g, g, c, w, Direction::Up, Direction::Down, p);
        lemma_clear_keeps_other_ray(g, g, c, w, Direction::Up, Direction::Left, p);
        lemma_ray_frame(g1, g, c, w, Direction::Right, p);
    }

    let (right, cell) = cast_ray(map, col, row, Direction::Right, power);
    if let Some(cell) = cell {
        cleared.push(cell);
    }
    let ghost g2 = map@;
    proof {
        assert(g2 == clear_along(g1, g, c, w, Direction::Right, p));
        lemma_clear_keeps_other_ray(g1, g, c, w, Direction::Right, Direction::Down, p);
        lemma_clear_keeps_other_ray(g1, g, c, w, Direction::Right, Direction::Left, p);
        lemma_ray_frame(g2, g, c, w, Direction::Down, p);
    }

    let (down, cell) = cast_ray(map, col, row, Direction::Down, power);
    if let Some(cell) = cell {
        cleared.push(cell);
    }
    let ghost g3 = map@;
    proof {
        assert(g3 == clear_along(g2, g, c, w, Direction::Down, p));
        lemma_clear_keeps_other_ray(g2, g, c, w, Direction::Down, Direction::Left, p);
        lemma_ray_frame(g3, g, c, w, Direction::Left, p);
    }

    let (left, cell) = cast_ray(map, col, row, Direction::Left, power);
    if let Some(cell) = cell {
        cleared.push(cell);
    }
    proof {
        assert(map@ == clear_along(g3, g, c, w, Direction::Left, p));
    }
    let b = Blast { center: tile_box(col, row), up, right, down, left, cleared };
    assert(b.cleared@ =~= blast_cleared(g, c, w, p));
    b
}

/// Past `step`, every cell of the ray up to `power` is free and in the grid:
/// the ray runs its full length.
proof fn lemma_reach_open(
    g: Seq<TileStatus>,
    col: int,
    row: int,
    dir: Direction,
    power: int,
    step: int,
)
    requires
        1 <= step <= power + 1,
        forall|s: int|
            step <= s <= power ==> step_in_grid(col, row, dir, s) && #[trigger] ray_status(
                g,
                col,
                row,
                dir,
                s,
            ) == TileStatus::Free,
    ensures
        reach_from(g, col, row, dir, power, step) == power,
    decreases power + 1 - step,
{
    if step <= power {
        assert(ray_status(g, col, row, dir, step) == TileStatus::Free);
        lemma_reach_open(g, col, row, dir, power, step + 1);
    }
}

/// The ray passes free cells up to a destructible wall at step `k`, and ends there.
proof fn lemma_reach_wall(
    g: Seq<TileStatus>,
    col: int,
    row: int,
    dir: Direction,
    power: int,
    step: int,
    k: int,
)
    requires
        1 <= step <= k <= power,
        forall|s: int|
            step <= s < k ==> step_in_grid(col, row, dir, s) && #[trigger] ray_status(
                g,
                col,
                row,
                dir,
                s,
            ) == TileStatus::Free,
        step_in_grid(col, row, dir, k),
        ray_status(g, col, row, dir, k) == TileStatus::Wall,
    ensures
        reach_from(g, col, row, dir, power, step) == k,
    decreases k - step,
{
    if step < k {
        assert(ray_status(g, col, row, dir, step) == TileStatus::Free);
        lemma_reach_wall(g, col, row, dir, power, step + 1, k);
    }
}

/// A permanent wall at step `k` keeps the ray short of it.
proof fn lemma_reach_permanent(
    g: Seq<TileStatus>,
    col: int,
    row: int,
    dir: Direction,
    power: int,
    step: int,
    k: int,
)
    requires
        1 <= step <= k,
        step_in_grid(col, row, dir, k),
        ray_status(g, col, row, dir, k) == TileStatus::PermanentWall,
    ensures
        reach_from(g, col, row, dir, power, step) <= k - 1,
    decreases power + 1 - step,
{
    if step <= power && step < k && step_in_grid(col, row, dir, step) && ray_status(
        g,
        col,
        row,
        dir,
        step,
    ) == TileStatus::Free {
        lemma_reach_permanent(g, col, row, dir, power, step + 1, k);
    }
}

/// A cell that no ray clears keeps its status through a blast; a cell that a
/// ray clears becomes free.
proof fn lemma_after_blast_at(g: Seq<TileStatus>, col: int, row: int, power: int, c: int, r: int)
    requires
        g.len() == TILE_COUNT,
        in_grid(col, row),
        in_grid(c, r),
        0 <= power,
    ensures
        after_blast(g, col, row, power).len() == TILE_COUNT,
        (cleared_cell(g, col, row, Direction::Up, power) != Some((c, r)) && cleared_cell(
            g,
            col,
            row,
            Direction::Right,
            power,
        ) != Some((c, r)) && cleared_cell(g, col, row, Direction::Down, power) != Some((c, r))
            && cleared_cell(g, col, row, Direction::Left, power) != Some((c, r))) ==> after_blast(
            g,
            col,
            row,
            power,
        )[cell_index(c, r)] == g[cell_index(c, r)],
        forall|d: Direction|
            #[trigger] cleared_cell(g, col, row, d, power) == Some((c, r)) ==> after_blast(
                g,
                col,
                row,
                power,
            )[cell_index(c, r)] == TileStatus::Free,
{
    lemma_reach_bounds(g, col, row, Direction::Up, power, 1);
    lemma_reach_bounds(g, col, row, Direction::Right, power, 1);
    lemma_reach_bounds(g, col, row, Direction::Down, power, 1);
    lemma_reach_bounds(g, col, row, Direction::Left, power, 1);
    assert forall|d: Direction| #[trigger] cleared_cell(g, col, row, d, power) is Some implies {
        let cell = cleared_cell(g, col, row, d, power).unwrap();
        &&& in_grid(cell.0, cell.1)
        &&& (cell != (c, r) ==> cell_index(cell.0, cell.1) != cell_index(c, r))
    } by {
        lemma_reach_bounds(g, col, row, d, power, 1);
        let k = reach(g, col, row, d, power);
        assert(step_in_grid(col, row, d, k));
        let cell = cleared_cell(g, col, row, d, power).unwrap();
        if cell_index(cell.0, cell.1) == cell_index(c, r) {
            lemma_cell_index_injective(cell.0, cell.1, c, r);
        }
    }
    let _ = cleared_cell(g, col, row, Direction::Up, power);
    let _ = cleared_cell(g, col, row, Direction::Right, power);
    let _ = cleared_cell(g, col, row, Direction::Down, power);
    let _ = cleared_cell(g, col, row, Direction::Left, power);
}

/// A blast of `power` whose four rays meet only free cells of the grid for
/// `power` steps gives four directional regions, each spanning the origin
/// and `power` cells, beside the central region, and clears nothing.
pub proof fn lemma_open_blast(g: Seq<TileStatus>, col: int, row: int, power: int, b: Blast)
    requires
        g.len() == TILE_COUNT,
        in_grid(col, row),
        1 <= power <= 255,
        forall|d: Direction, s: int|
            1 <= s <= power ==> step_in_grid(col, row, d, s) && #[trigger] ray_status(
                g,
                col,
                row,
                d,
                s,
            ) == TileStatus::Free,
        b.is_blast_of(g, col, row, power),
    ensures
        b.center == cell_box(col, row),
        b.up == Some(arm_box(col, row, Direction::Up, power)),
        b.right == Some(arm_box(col, row, Direction::Right, power)),
        b.down == Some(arm_box(col, row, Direction::Down, power)),
        b.left == Some(arm_box(col, row, Direction::Left, power)),
        b.arm_regions().len() == 4,
        b.cleared@.len() == 0,
        after_blast(g, col, row, power) == g,
{
    lemma_reach_open(g, col, row, Direction::Up, power, 1);
    lemma_reach_open(g, col, row, Direction::Right, power, 1);
    lemma_reach_open(g, col, row, Direction::Down, power, 1);
    lemma_reach_open(g, col, row, Direction::Left, power, 1);
    assert(ray_status(g, col, row, Direction::Up, power) == TileStatus::Free);
    assert(ray_status(g, col, row, Direction::Right, power) == TileStatus::Free);
    assert(ray_status(g, col, row, Direction::Down, power) == TileStatus::Free);
    assert(ray_status(g, col, row, Direction::Left, power) == TileStatus::Free);
    assert(b.cleared@ =~= Seq::<(usize, usize)>::empty());
}

/// A destructible wall at step `k` (at most `power`), with only free cells
/// before it, ends the ray there: that direction's region spans the origin
/// and `k` cells, and the wall's cell becomes free.
pub proof fn lemma_destructible_wall_blast(
    g: Seq<TileStatus>,
    col: int,
    row: int,
    power: int,
    dir: Direction,
    k: int,
)
    requires
        g.len() == TILE_COUNT,
        in_grid(col, row),
        1 <= k <= power,
        forall|s: int|
            1 <= s < k ==> step_in_grid(col, row, dir, s) && #[trigger] ray_status(
                g,
                col,
                row,
                dir,
                s,
            ) == TileStatus::Free,
        step_in_grid(col, row, dir, k),
        ray_status(g, col, row, dir, k) == TileStatus::Wall,
    ensures
        arm(g, col, row, dir, power) == Some(arm_box(col, row, dir, k)),
        ray_status(after_blast(g, col, row, power), col, row, dir, k) == TileStatus::Free,
{
    lemma_reach_wall(g, col, row, dir, power, 1, k);
    let cell = step_cell(col, row, dir, k);
    assert(cleared_cell(g, col, row, dir, power) == Some(cell));
    lemma_after_blast_at(g, col, row, power, cell.0, cell.1);
}

/// A permanent wall at step `k` bounds the ray: its region spans fewer than
/// `k` cells beyond the origin, and no cell of that ray at or beyond step `k`
/// changes status.
pub proof fn lemma_permanent_wall_blast(
    g: Seq<TileStatus>,
    col: int,
    row: int,
    power: int,
    dir: Direction,
    k: int,
)
    requires
        g.len() == TILE_COUNT,
        in_grid(col, row),
        0 <= power,
        1 <= k,
        step_in_grid(col, row, dir, k),
        ray_status(g, col, row, dir, k) == TileStatus::PermanentWall,
    ensures
        reach(g, col, row, dir, power) <= k - 1,
        arm(g, col, row, dir, power) is None || exists|j: int|
            1 <= j <= k - 1 && arm(g, col, row, dir, power) == Some(arm_box(col, row, dir, j)),
        forall|s: int|
            k <= s && step_in_grid(col, row, dir, s) ==> #[trigger] ray_status(
                after_blast(g, col, row, power),
                col,
                row,
                dir,
                s,
            ) == ray_status(g, col, row, dir, s),
{
    lemma_reach_permanent(g, col, row, dir, power, 1, k);
    lemma_reach_bounds(g, col, row, dir, power, 1);
    let j = reach(g, col, row, dir, power);
    if j > 0 {
        assert(1 <= j <= k - 1 && arm(g, col, row, dir, power) == Some(arm_box(col, row, dir, j)));
    }
    assert forall|s: int| k <= s && step_in_grid(col, row, dir, s) implies #[trigger] ray_status(
        after_blast(g, col, row, power),
        col,
        row,
        dir,
        s,
    ) == ray_status(g, col, row, dir, s) by {
        let cell = step_cell(col, row, dir, s);
        lemma_after_blast_at(g, col, row, power, cell.0, cell.1);
        lemma_reach_bounds(g, col, row, Direction::Up, power, 1);
        lemma_reach_bounds(g, col, row, Direction::Right, power, 1);
        lemma_reach_bounds(g, col, row, Direction::Down, power, 1);
        lemma_reach_bounds(g, col, row, Direction::Left, power, 1);
    }
}

} // verus!
