//! Creating the player and the balls at the start of a game.

use vstd::prelude::*;
use rand::Rng;
use crate::geometry::Vector2;
use crate::arena::{Arena, Mobile, Player};
use crate::config::{BALL_SIZE, PLAYER_RANGE, PLAYER_SIZE, PLAYER_SPEED};

verus! {

/// Relies on rand's `thread_rng().gen_range(0..bound)`: an integer drawn from
/// `[0, bound)`. It panics on an empty range, which `requires` rules out.
#[verifier::external_body]
fn random_below(bound: i32) -> (r: i32)
    requires
        bound > 0,
    ensures
        0 <= r < bound,
{
    rand::thread_rng().gen_range(0..bound)
}

/// The player of a `width` by `height` arena: at the centre, with the
/// configured size, speed and range.
pub fn spawn_player(width: i32, height: i32) -> (p: Player)
    requires
        width > 0,
        height > 0,
    ensures
        p.position.x == width / 2,
        p.position.y == height / 2,
        p.radius == PLAYER_SIZE / 2,
        p.speed == PLAYER_SPEED,
        p.range == PLAYER_RANGE,
{
    Player {
        position: Vector2 { x: width / 2, y: height / 2 },
        radius: PLAYER_SIZE / 2,
        speed: PLAYER_SPEED,
        range: PLAYER_RANGE,
    }
}

/// A random point of the arena, `[0, width) x [0, height)`.
pub fn random_position(width: i32, height: i32) -> (r: Vector2)
    requires
        width > 0,
        height > 0,
    ensures
        0 <= r.x < width,
        0 <= r.y < height,
{
    let x = random_below(width);
    let y = random_below(height);
    Vector2 { x, y }
}

/// The arena's state after `count` balls were added at random points inside
/// it, at rest and free, with consecutive fresh handles.
pub open spec fn balls_added(before: Arena, after: Arena, count: int) -> bool {
    &&& after.mobiles@.len() == before.mobiles@.len() + count
    &&& after.next_id == before.next_id + count
    &&& after.mobiles@.subrange(0, before.mobiles@.len() as int) == before.mobiles@
    &&& forall|k: int|
        before.mobiles@.len() <= k < after.mobiles@.len() ==> {
            let m = #[trigger] after.mobiles@[k];
            &&& m.id == before.next_id + (k - before.mobiles@.len())
            &&& 0 <= m.position.x < before.width
            &&& 0 <= m.position.y < before.height
            &&& m.velocity == Vector2 { x: 0, y: 0 }
            &&& m.impulse == Vector2 { x: 0, y: 0 }
            &&& m.radius == BALL_SIZE / 2
            &&& !m.locked
            &&& !m.removal_pending
        }
}

impl Arena {
    /// Spawns `count` balls at random points of the arena, at rest, and
    /// returns their handles.
    pub fn spawn_ball(&mut self, count: u32) -> (ids: Vec<u64>)
        requires
            old(self).wf(),
            old(self).next_id + count < u64::MAX,
        ensures
            final(self).wf(),
            balls_added(*old(self), *final(self), count as int),
            final(self).width == old(self).width,
            final(self).height == old(self).height,
            final(self).player == old(self).player,
            final(self).shoot_strength == old(self).shoot_strength,
            final(self).score == old(self).score,
            ids@.len() == count,
            forall|k: int| 0 <= k < count ==> #[trigger] ids@[k] == old(self).next_id + k,
    {
        let ghost start = *self;
        let mut ids: Vec<u64> = Vec::new();
        let mut n: u32 = 0;
        proof {
            assert(self.mobiles@.subrange(0, self.mobiles@.len() as int) =~= self.mobiles@);
        }
        while n < count
            invariant
                self.wf(),
                start.wf(),
                0 <= n <= count,
                start.next_id + count < u64::MAX,
                balls_added(start, *self, n as int),
                self.width == start.width,
                self.height == start.height,
                self.player == start.player,
                self.shoot_strength == start.shoot_strength,
                self.score == start.score,
                ids@.len() == n,
                forall|k: int| 0 <= k < n ==> #[trigger] ids@[k] == start.next_id + k,
            decreases count - n,
        {
            let position = random_position(self.width, self.height);
            let ghost mid = *self;
            let id = self.spawn_mobile(position, Vector2 { x: 0, y: 0 }, BALL_SIZE / 2);
            ids.push(id);
            n = n + 1;
            proof {
                assert(self.mobiles@.subrange(0, start.mobiles@.len() as int) =~= start.mobiles@)
                    by {
                    assert(mid.mobiles@.subrange(0, start.mobiles@.len() as int) == start.mobiles@);
                }
                assert forall|k: int|
                    start.mobiles@.len() <= k < self.mobiles@.len() implies {
                    let m = #[trigger] self.mobiles@[k];
                    &&& m.id == start.next_id + (k - start.mobiles@.len())
                    &&& 0 <= m.position.x < start.width
                    &&& 0 <= m.position.y < start.height
                    &&& m.velocity == Vector2 { x: 0, y: 0 }
                    &&& m.impulse == Vector2 { x: 0, y: 0 }
                    &&& m.radius == BALL_SIZE / 2
                    &&& !m.locked
                    &&& !m.removal_pending
                } by {
                    if k < self.mobiles@.len() - 1 {
                        assert(self.mobiles@[k] == mid.mobiles@[k]);
                    }
                }
            }
        }
        ids
    }
}

} // verus!
