//! Explosions: the blast regions that stand in the arena for a short while.
use vstd::prelude::*;

use crate::geometry::Aabb;

verus! {

/// How long a blast region stays, in milliseconds of game time.
pub const EXPLOSION_DURATION_MS: u64 = 500;

/// A blast region and the time it was created.
#[derive(Clone, Copy, Debug, PartialEq, Eq, Structural)]
pub struct Explosion {
    pub created_time: u64,
    pub collision_polygon: Aabb,
}

impl Explosion {
    /// At time `now` the region has stood for its full duration.
    pub open spec fn expired_at(&self, now: int) -> bool {
        now >= self.created_time && now - self.created_time >= EXPLOSION_DURATION_MS
    }

    /// Whether the region is gone at time `now`.
    pub fn is_expired(&self, now: u64) -> (r: bool)
        ensures
            r == self.expired_at(now as int),
    {
        now >= self.created_time && now - self.created_time >= EXPLOSION_DURATION_MS
    }
}

/// Explosions created at `now` over each of `regions`, in order.
pub open spec fn explosions_over(regions: Seq<Aabb>, now: u64) -> Seq<Explosion> {
    Seq::new(
        regions.len(),
        |i: int| Explosion { created_time: now, collision_polygon: regions[i] },
    )
}

/// The explosions of one detonation: one per directional region, then the
/// central one, all created at `now`.
pub fn create_explosion(bboxes: &Vec<Aabb>, center_bbox: &Aabb, now: u64) -> (r: Vec<Explosion>)
    ensures
        r@ == explosions_over(bboxes@.push(*center_bbox), now),
{
    let mut r: Vec<Explosion> = Vec::new();
    let mut i: usize = 0;
    while i < bboxes.len()
        invariant
            i <= bboxes@.len(),
            r@ == explosions_over(bboxes@.take(i as int), now),
        decreases bboxes@.len() - i,
    {
        r.push(Explosion { created_time: now, collision_polygon: bboxes[i] });
        i = i + 1;
        assert(r@ =~= explosions_over(bboxes@.take(i as int), now));
    }
    r.push(Explosion { created_time: now, collision_polygon: *center_bbox });
    assert(bboxes@.take(bboxes@.len() as int) =~= bboxes@);
    assert(r@ =~= explosions_over(bboxes@.push(*center_bbox), now));
    r
}

} // verus!
