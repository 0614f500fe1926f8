//! Bombs: placement on the cell under a player, and the fuse.
use vstd::prelude::*;

use crate::grid::{
    centre_x, centre_y, point_in_arena, tile_centre, TileMap, TILE_HEIGHT, TILE_WIDTH,
};

verus! {

/// Time from placement to detonation, in milliseconds of game time.
pub const FUSE_DURATION_MS: u64 = 3000;

/// Power of a newly placed bomb: how many cells its blast travels.
pub const BOMB_POWER: u8 = 1;

/// A live bomb: when it was placed, how far its blast travels, who placed
/// it, and the world position where it lies (the centre of a cell).
#[derive(Clone, Copy, Debug, PartialEq, Eq, Structural)]
pub struct Bomb {
    pub created_time: u64,
    pub power: u8,
    pub player_number: u8,
    pub x: i32,
    pub y: i32,
}

impl Bomb {
    /// The bomb lies inside the arena.
    pub open spec fn in_arena(&self) -> bool {
        point_in_arena(self.x as int, self.y as int)
    }

    /// The cell under the bomb.
    pub open spec fn cell(&self) -> (int, int) {
        (self.x as int / TILE_WIDTH as int, self.y as int / TILE_HEIGHT as int)
    }

    /// At time `now` the fuse has burnt down: the full fuse duration has
    /// passed since the bomb was placed (a placement time after `now` never
    /// counts as elapsed).
    pub open spec fn fuse_burnt(&self, now: int) -> bool {
        now >= self.created_time && now - self.created_time >= FUSE_DURATION_MS
    }

    /// Whether the bomb detonates at time `now`.
    pub fn should_detonate(&self, now: u64) -> (r: bool)
        ensures
            r == self.fuse_burnt(now as int),
    {
        now >= self.created_time && now - self.created_time >= FUSE_DURATION_MS
    }
}

/// The bomb that the player with number `player_number`, centred at
/// `(x, y)`, places at time `now`: it lies at the centre of the cell under
/// the player, with the standard power.
pub open spec fn placed_bomb(x: int, y: int, player_number: u8, now: u64) -> Bomb {
    Bomb {
        created_time: now,
        power: BOMB_POWER,
        player_number,
        x: centre_x(x / TILE_WIDTH as int) as i32,
        y: centre_y(y / TILE_HEIGHT as int) as i32,
    }
}

/// Places a bomb for the player `player_number` centred at `(x, y)`, at time `now`.
pub fn spawn_bomb(map: &TileMap, x: i32, y: i32, player_number: u8, now: u64) -> (b: Bomb)
    requires
        map.wf(),
        point_in_arena(x as int, y as int),
    ensures
        b == placed_bomb(x as int, y as int, player_number, now),
        b.in_arena(),
{
    match map.get_tile(x as i64, y as i64) {
        Some(tile) => {
            let (cx, cy) = tile_centre(tile.coordinates[0], tile.coordinates[1]);
            Bomb { created_time: now, power: BOMB_POWER, player_number, x: cx as i32, y: cy as i32 }
        },
        // Cannot happen: the point lies in the arena.
        None => Bomb { created_time: now, power: BOMB_POWER, player_number, x, y },
    }
}

} // verus!
