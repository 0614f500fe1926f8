//! Players: their state, their bounding boxes and where they start.
use vstd::prelude::*;

use crate::geometry::Aabb;
use crate::grid::{ARENA_HEIGHT, ARENA_WIDTH};

verus! {

/// Half of a player's width in world units (6 pixels).
pub const PLAYER_WIDTH_HALF: i64 = 60;

/// Half of a player's height in world units (6 pixels).
pub const PLAYER_HEIGHT_HALF: i64 = 60;

/// Number of players at the start of a game.
pub const PLAYER_COUNT: u8 = 4;

/// A player: whether the local input drives it, its slot number, how many
/// bombs it may still place, and the world position of its centre.
#[derive(Clone, Copy, Debug, PartialEq, Eq, Structural)]
pub struct Player {
    pub is_human: bool,
    pub number: u8,
    pub num_bombs: u8,
    pub x: i32,
    pub y: i32,
}

/// Whether the centre `(x, y)` keeps a player's box inside the arena.
pub open spec fn centre_in_arena(x: int, y: int) -> bool {
    &&& PLAYER_WIDTH_HALF <= x <= ARENA_WIDTH - PLAYER_WIDTH_HALF
    &&& PLAYER_HEIGHT_HALF <= y <= ARENA_HEIGHT - PLAYER_HEIGHT_HALF
}

/// The player that starts in slot `i`: one per corner, slot 0 driven by
/// the local input, each with one bomb.
pub open spec fn spawn_player(i: int) -> Player {
    Player {
        is_human: i == 0,
        number: i as u8,
        num_bombs: 1,
        x: (if i % 2 == 0 {
            PLAYER_WIDTH_HALF as int
        } else {
            ARENA_WIDTH - PLAYER_WIDTH_HALF
        }) as i32,
        y: (if i < 2 {
            PLAYER_HEIGHT_HALF as int
        } else {
            ARENA_HEIGHT - PLAYER_HEIGHT_HALF
        }) as i32,
    }
}

impl Player {
    /// The player's box lies inside the arena.
    pub open spec fn in_arena(&self) -> bool {
        centre_in_arena(self.x as int, self.y as int)
    }

    /// The player's bounding box, centred on its position.
    pub open spec fn box_spec(&self) -> Aabb {
        Aabb {
            min_x: (self.x - PLAYER_WIDTH_HALF) as i64,
            min_y: (self.y - PLAYER_HEIGHT_HALF) as i64,
            max_x: (self.x + PLAYER_WIDTH_HALF) as i64,
            max_y: (self.y + PLAYER_HEIGHT_HALF) as i64,
        }
    }

    /// The player's bounding box, centred on its position.
    pub fn bounding_box(&self) -> (r: Aabb)
        ensures
            r == self.box_spec(),
    {
        let x = self.x as i64;
        let y = self.y as i64;
        Aabb {
            min_x: x - PLAYER_WIDTH_HALF,
            min_y: y - PLAYER_HEIGHT_HALF,
            max_x: x + PLAYER_WIDTH_HALF,
            max_y: y + PLAYER_HEIGHT_HALF,
        }
    }
}

/// The players of a new game, one per corner of the arena, in slot order.
pub fn init_players() -> (r: Vec<Player>)
    ensures
        r@.len() == PLAYER_COUNT,
        forall|i: int| 0 <= i < PLAYER_COUNT ==> #[trigger] r@[i] == spawn_player(i),
{
    let mut r: Vec<Player> = Vec::new();
    let mut i: u8 = 0;
    while i < PLAYER_COUNT
        invariant
            i <= PLAYER_COUNT,
            r@.len() == i,
            forall|j: int| 0 <= j < i ==> #[trigger] r@[j] == spawn_player(j),
        decreases PLAYER_COUNT - i,
    {
        let x: i64 = if i % 2 == 0 {
            PLAYER_WIDTH_HALF
        } else {
            ARENA_WIDTH - PLAYER_WIDTH_HALF
        };
        let y: i64 = if i < 2 {
            PLAYER_HEIGHT_HALF
        } else {
            ARENA_HEIGHT - PLAYER_HEIGHT_HALF
        };
        r.push(Player { is_human: i == 0, number: i, num_bombs: 1, x: x as i32, y: y as i32 });
        i = i + 1;
    }
    r
}

} // verus!
