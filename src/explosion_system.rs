//! The explosion system: eliminations, the decay of blast regions, and the
//! detonation of bombs whose fuse has burnt down.
use vstd::prelude::*;

use crate::blast::{after_blast, blast_cleared, blast_regions, cell_box, propagate_blast};
use crate::bomb::Bomb;
use crate::explosion::{create_explosion, explosions_over, Explosion};
use crate::grid::{cell_index, TileMap, TileStatus};
use crate::player::Player;

verus! {

/// Resolves, once per tick, what the blast regions and the bombs do.
pub struct ExplosionSystem;

/// What one tick of the explosion system decided.
pub struct TickOutcome {
    /// For each player, whether a blast region eliminated it.
    pub eliminated: Vec<bool>,
    /// For each blast region, whether it has run out its time.
    pub expired: Vec<bool>,
    /// For each bomb, whether it detonated.
    pub detonated: Vec<bool>,
    /// The blast regions that the detonations created.
    pub spawned: Vec<Explosion>,
    /// The cells whose destructible walls the detonations cleared.
    pub cleared: Vec<(usize, usize)>,
}

/// Some region of `explosions` touches the box of `p`.
pub open spec fn hit_by_any(explosions: Seq<Explosion>, p: Player) -> bool {
    exists|j: int|
        0 <= j < explosions.len() && (#[trigger] explosions[j]).collision_polygon.touches(
            p.box_spec(),
        )
}

/// A bomb of the player with number `number` detonates at `now`.
pub open spec fn owner_detonated(bombs: Seq<Bomb>, number: u8, now: int) -> bool {
    exists|k: int|
        0 <= k < bombs.len() && (#[trigger] bombs[k]).fuse_burnt(now) && bombs[k].player_number
            == number
}

/// `p` after the tick: its bomb allowance is back to one when one of its
/// bombs detonated.
pub open spec fn refilled(p: Player, bombs: Seq<Bomb>, now: int) -> Player {
    if owner_detonated(bombs, p.number, now) {
        Player { num_bombs: 1, ..p }
    } else {
        p
    }
}

/// The explosions that the detonation of `b` creates on grid `g` at `now`.
pub open spec fn detonation_explosions(g: Seq<TileStatus>, b: Bomb, now: u64) -> Seq<Explosion> {
    explosions_over(
        blast_regions(g, b.cell().0, b.cell().1, b.power as int).push(
            cell_box(b.cell().0, b.cell().1),
        ),
        now,
    )
}

/// The grid, the new explosions and the cleared cells after the bombs of
/// `bombs` whose fuse has burnt down detonate at `now`, one after another in
/// the order of the sequence, starting from grid `g`.
pub open spec fn detonations(g: Seq<TileStatus>, bombs: Seq<Bomb>, now: u64) -> (
    Seq<TileStatus>,
    Seq<Explosion>,
    Seq<(usize, usize)>,
)
    decreases bombs.len(),
{
    if bombs.len() == 0 {
        (g, seq![], seq![])
    } else {
        let prev = detonations(g, bombs.drop_last(), now);
        let b = bombs.last();
        if b.fuse_burnt(now as int) {
            (
                after_blast(prev.0, b.cell().0, b.cell().1, b.power as int),
                prev.1 + detonation_explosions(prev.0, b, now),
                prev.2 + blast_cleared(prev.0, b.cell().0, b.cell().1, b.power as int),
            )
        } else {
            prev
        }
    }
}

/// Whether some region of `explosions` touches `b`.
fn hits_any(explosions: &Vec<Explosion>, p: &Player) -> (r: bool)
    ensures
        r == hit_by_any(explosions@, *p),
{
    let b = p.bounding_box();
    let mut j: usize = 0;
    while j < explosions.len()
        invariant
            j <= explosions@.len(),
            b == p.box_spec(),
            forall|k: int|
                0 <= k < j ==> !(#[trigger] explosions@[k]).collision_polygon.touches(p.box_spec()),
        decreases explosions@.len() - j,
    {
        if explosions[j].collision_polygon.intersects(&b) {
            return true;
        }
        j = j + 1;
    }
    false
}

/// Whether a bomb of the player with number `number` detonates at `now`.
fn owns_detonated(bombs: &Vec<Bomb>, number: u8, now: u64) -> (r: bool)
    ensures
        r == owner_detonated(bombs@, number, now as int),
{
    let mut k: usize = 0;
    while k < bombs.len()
        invariant
            k <= bombs@.len(),
            forall|i: int|
                0 <= i < k ==> !((#[trigger] bombs@[i]).fuse_burnt(now as int)
                    && bombs@[i].player_number == number),
        decreases bombs@.len() - k,
    {
        if bombs[k].should_detonate(now) && bombs[k].player_number == number {
            return true;
        }
        k = k + 1;
    }
    false
}

impl ExplosionSystem {
    /// One tick at time `now`.
    ///
    /// Every player whose box touches a live blast region is eliminated;
    /// every region that has stood for its duration expires; every bomb whose
    /// fuse has burnt down detonates, in the order of `bombs`, clearing walls
    /// on the map and creating new regions (which threaten players from the
    /// next tick on); and every player whose bomb detonated gets its bomb
    /// allowance back.
    pub fn run(
        &self,
        map: &mut TileMap,
        players: &mut Vec<Player>,
        bombs: &Vec<Bomb>,
        explosions: &Vec<Explosion>,
        now: u64,
    ) -> (r: TickOutcome)
        requires
            old(map).wf(),
            forall|k: int| 0 <= k < bombs@.len() ==> (#[trigger] bombs@[k]).in_arena(),
        ensures
            final(map).wf(),
            r.eliminated@.len() == old(players)@.len(),
            forall|i: int|
                0 <= i < old(players)@.len() ==> #[trigger] r.eliminated@[i] == hit_by_any(
                    explosions@,
                    old(players)@[i],
                ),
            r.expired@.len() == explosions@.len(),
            forall|j: int|
                0 <= j < explosions@.len() ==> #[trigger] r.expired@[j]
                    == explosions@[j].expired_at(now as int),
            r.detonated@.len() == bombs@.len(),
            forall|k: int|
                0 <= k < bombs@.len() ==> #[trigger] r.detonated@[k] == bombs@[k].fuse_burnt(
                    now as int,
                ),
            final(map)@ == detonations(old(map)@, bombs@, now).0,
            r.spawned@ == detonations(old(map)@, bombs@, now).1,
            r.cleared@ == detonations(old(map)@, bombs@, now).2,
            final(players)@.len() == old(players)@.len(),
            forall|i: int|
                0 <= i < old(players)@.len() ==> #[trigger] final(players)@[i] == refilled(
                    old(players)@[i],
                    bombs@,
                    now as int,
                ),
    {
        let mut eliminated: Vec<bool> = Vec::new();
        let mut i: usize = 0;
        while i < players.len()
            invariant
                i <= players@.len(),
                eliminated@.len() == i,
                forall|k: int|
                    0 <= k < i ==> #[trigger] eliminated@[k] == hit_by_any(explosions@, players@[k]),
            decreases players@.len() - i,
        {
            eliminated.push(hits_any(explosions, &players[i]));
            i = i + 1;
        }

        let mut expired: Vec<bool> = Vec::new();
        let mut j: usize = 0;
        while j < explosions.len()
            invariant
                j <= explosions@.len(),
                expired@.len() == j,
                forall|k: int|
                    0 <= k < j ==> #[trigger] expired@[k] == explosions@[k].expired_at(now as int),
            decreases explosions@.len() - j,
        {
            expired.push(explosions[j].is_expired(now));
            j = j + 1;
        }

        let ghost g = map@;
        let mut detonated: Vec<bool> = Vec::new();
        let mut spawned: Vec<Explosion> = Vec::new();
        let mut cleared: Vec<(usize, usize)> = Vec::new();
        let mut k: usize = 0;
        while k < bombs.len()
            invariant
                k <= bombs@.len(),
                map.wf(),
                forall|m: int| 0 <= m < bombs@.len() ==> (#[trigger] bombs@[m]).in_arena(),
                detonated@.len() == k,
                forall|m: int|
                    0 <= m < k ==> #[trigger] detonated@[m] == bombs@[m].fuse_burnt(now as int),
                map@ == detonations(g, bombs@.take(k as int), now).0,
                spawned@ == detonations(g, bombs@.take(k as int), now).1,
                cleared@ == detonations(g, bombs@.take(k as int), now).2,
            decreases bombs@.len() - k,
        {
            let bomb = bombs[k];
            let fires = bomb.should_detonate(now);
            detonated.push(fires);
            assert(bombs@.take(k + 1).drop_last() =~= bombs@.take(k as int));
            if fires {
                if let Some(tile) = map.get_tile(bomb.x as i64, bomb.y as i64) {
                    let blast = propagate_blast(
                        map,
                        tile.coordinates[0],
                        tile.coordinates[1],
                        bomb.power,
                    );
                    let regions = blast.regions();
                    let mut created = create_explosion(&regions, &blast.center, now);
                    spawned.append(&mut created);
                    let mut walls = blast.cleared;
                    cleared.append(&mut walls);
                }
            }
            k = k + 1;
        }
        assert(bombs@.take(bombs@.len() as int) =~= bombs@);

        let mut i: usize = 0;
        let n = players.len();
        while i < n
            invariant
                n == old(players)@.len(),
                players@.len() == n,
                i <= n,
                forall|m: int|
                    0 <= m < i ==> #[trigger] players@[m] == refilled(
                        old(players)@[m],
                        bombs@,
                        now as int,
                    ),
                forall|m: int| i <= m < n ==> #[trigger] players@[m] == old(players)@[m],
            decreases n - i,
        {
            let p = players[i];
            if owns_detonated(bombs, p.number, now) {
                players.set(i, Player { num_bombs: 1, ..p });
            }
            i = i + 1;
        }
        TickOutcome { eliminated, expired, detonated, spawned, cleared }
    }
}

/// A player whose box overlaps a blast region over a nonzero area is
/// eliminated on the tick in which that region is checked.
pub proof fn lemma_overlap_eliminates(explosions: Seq<Explosion>, p: Player, j: int)
    requires
        0 <= j < explosions.len(),
        explosions[j].collision_polygon.overlaps_with_area(p.box_spec()),
    ensures
        hit_by_any(explosions, p),
{
    assert(explosions[j].collision_polygon.touches(p.box_spec()));
}

} // verus!
