//! The actions system: bomb placement on the fire input.
use vstd::prelude::*;

use crate::bomb::{placed_bomb, spawn_bomb, Bomb};
use crate::grid::{point_in_arena, TileMap};
use crate::player::Player;

verus! {

/// Places a bomb under each player that the local input drives and that
/// still has a bomb to place, when the fire input is down.
pub struct ActionsSystem;

/// Player `p` places a bomb on this tick.
pub open spec fn fires(p: Player, fire: bool) -> bool {
    fire && p.is_human && p.num_bombs > 0
}

/// `p` after this tick: one bomb fewer if it fired.
pub open spec fn after_fire(p: Player, fire: bool) -> Player {
    if fires(p, fire) {
        Player { num_bombs: (p.num_bombs - 1) as u8, ..p }
    } else {
        p
    }
}

/// The bombs that `players` place on this tick, in player order.
pub open spec fn bombs_placed(players: Seq<Player>, fire: bool, now: u64) -> Seq<Bomb>
    decreases players.len(),
{
    if players.len() == 0 {
        seq![]
    } else {
        let p = players.last();
        bombs_placed(players.drop_last(), fire, now) + if fires(p, fire) {
            seq![placed_bomb(p.x as int, p.y as int, p.number, now)]
        } else {
            seq![]
        }
    }
}

impl ActionsSystem {
    /// One tick of actions at time `now`; returns the bombs placed.
    pub fn run(&self, fire: bool, map: &TileMap, players: &mut Vec<Player>, now: u64) -> (r: Vec<
        Bomb,
    >)
        requires
            map.wf(),
            forall|i: int|
                0 <= i < old(players)@.len() ==> point_in_arena(
                    #[trigger] old(players)@[i].x as int,
                    old(players)@[i].y as int,
                ),
        ensures
            final(players)@.len() == old(players)@.len(),
            forall|i: int|
                0 <= i < old(players)@.len() ==> #[trigger] final(players)@[i] == after_fire(
                    old(players)@[i],
                    fire,
                ),
            r@ == bombs_placed(old(players)@, fire, now),
    {
        let mut r: Vec<Bomb> = Vec::new();
        let n = players.len();
        let mut i: usize = 0;
        while i < n
            invariant
                map.wf(),
                n == old(players)@.len(),
                players@.len() == n,
                i <= n,
                forall|j: int|
                    0 <= j < n ==> point_in_arena(
                        #[trigger] old(players)@[j].x as int,
                        old(players)@[j].y as int,
                    ),
                forall|j: int|
                    0 <= j < i ==> #[trigger] players@[j] == after_fire(old(players)@[j], fire),
                forall|j: int| i <= j < n ==> #[trigger] players@[j] == old(players)@[j],
                r@ == bombs_placed(old(players)@.take(i as int), fire, now),
            decreases n - i,
        {
            let p = players[i];
            assert(old(players)@.take(i + 1).drop_last() =~= old(players)@.take(i as int));
            if fire && p.is_human && p.num_bombs > 0 {
                players.set(i, Player { num_bombs: p.num_bombs - 1, ..p });
                let bomb = spawn_bomb(map, p.x, p.y, p.number, now);
                r.push(bomb);
            }
            i = i + 1;
        }
        assert(old(players)@.take(n as int) =~= old(players)@);
        r
    }
}

} // verus!
