//! The arena: one kinematic player, the mobile entities, the running score,
//! and the per-tick rules that act on them.

use vstd::prelude::*;
use crate::geometry::{Vector2, is_direction, scaled_direction};
use crate::targeting::{in_range, in_range_spec, in_contact, closer_than};
use crate::input::{movement_delta, movement_component, INTENT_SCALE};
use crate::geometry::magnitude;

verus! {

/// The player: a kinematic body moved directly by intent.
#[derive(Clone, Copy, Debug, PartialEq, Eq, Structural)]
pub struct Player {
    pub position: Vector2,
    pub radius: i32,
    /// World units per second at full intent.
    pub speed: u32,
    /// Range margin added to the sum of radii for shooting and locking.
    pub range: i32,
}

/// A mobile entity ("ball"): moved by the host's physics, shot, locked, and
/// kept inside or scored out of the arena.
#[derive(Clone, Copy, Debug, PartialEq, Eq, Structural)]
pub struct Mobile {
    /// Handle, unique among the live entities and never reused by the arena.
    pub id: u64,
    pub position: Vector2,
    pub velocity: Vector2,
    /// One-shot impulse for the host's next physics step.
    pub impulse: Vector2,
    pub radius: i32,
    pub locked: bool,
    /// Left the arena and awaits despawn.
    pub removal_pending: bool,
}

/// The simulation root.
#[derive(Debug)]
pub struct Arena {
    pub width: i32,
    pub height: i32,
    pub player: Player,
    /// Length of the impulse a shot gives each target.
    pub shoot_strength: i32,
    pub mobiles: Vec<Mobile>,
    pub score: u64,
    /// The handle the next spawned entity receives.
    pub next_id: u64,
}

/// The range policy applied to one entity.
pub open spec fn targets(p: Player, m: Mobile) -> bool {
    in_range_spec(p.position, m.position, p.radius as int, m.radius as int, p.range as int)
}

/// `n` is `m` after a shot by `p`: the lock is released, and an entity in
/// range gets an impulse of length `strength` pointing away from the player.
pub open spec fn is_shot(m: Mobile, n: Mobile, p: Player, strength: int) -> bool {
    &&& n.id == m.id
    &&& n.position == m.position
    &&& n.velocity == m.velocity
    &&& n.radius == m.radius
    &&& n.removal_pending == m.removal_pending
    &&& !n.locked
    &&& if targets(p, m) {
        is_direction(p.position, m.position, strength, n.impulse)
    } else {
        n.impulse == m.impulse
    }
}

/// `m` after a lock attempt by `p`: stopped and locked if in range.
pub open spec fn locked_by(m: Mobile, p: Player) -> Mobile {
    if targets(p, m) {
        Mobile { velocity: Vector2 { x: 0, y: 0 }, locked: true, ..m }
    } else {
        m
    }
}

/// Where a locked entity is held: beside the player on the positive x side,
/// touching it.
pub open spec fn follow_offset_x(p: Player, m: Mobile) -> int {
    p.position.x + p.radius + m.radius
}

/// `m` after the follow step: a locked entity is moved beside the player
/// and held still there.
pub open spec fn followed(m: Mobile, p: Player) -> Mobile {
    if m.locked {
        Mobile {
            position: Vector2 { x: follow_offset_x(p, m) as i32, y: p.position.y },
            velocity: Vector2 { x: 0, y: 0 },
            ..m
        }
    } else {
        m
    }
}

/// Outside the rectangle `[0, width] x [0, height]`.
pub open spec fn out_of_bounds(m: Mobile, width: int, height: int) -> bool {
    m.position.x < 0 || m.position.x > width || m.position.y < 0 || m.position.y > height
}

/// Outside the arena and not yet queued for removal.
pub open spec fn newly_out(m: Mobile, width: int, height: int) -> bool {
    out_of_bounds(m, width, height) && !m.removal_pending
}

/// `m` after the scoring pass: queued for removal if it newly left.
pub open spec fn marked(m: Mobile, width: int, height: int) -> Mobile {
    if newly_out(m, width, height) {
        Mobile { removal_pending: true, ..m }
    } else {
        m
    }
}

pub open spec fn handle_of(m: Mobile) -> u64 {
    m.id
}

pub open spec fn is_pending(m: Mobile) -> bool {
    m.removal_pending
}

pub open spec fn is_live(m: Mobile) -> bool {
    !m.removal_pending
}

/// The edge of a body of radius `r` at `pos` passes `0` or `bound`.
pub open spec fn crosses(pos: int, r: int, bound: int) -> bool {
    pos + r > bound || pos - r < 0
}

/// `pos` pulled back so that a body of radius `r` moving at `vel` lies
/// against the wall its leading edge passed. When both edges pass their
/// walls, a body moving toward `0` is placed against the wall at `0`, and
/// any other against the wall at `bound`.
pub open spec fn clamp_axis(pos: int, vel: int, r: int, bound: int) -> int {
    if pos + r > bound && !(vel < 0 && pos - r < 0) {
        bound - r
    } else if pos - r < 0 {
        r
    } else {
        pos
    }
}

/// Reflecting `vel` on this axis, if it is reflected, stays in range.
pub open spec fn reflect_fits(vel: int, pos: int, r: int, bound: int) -> bool {
    crosses(pos, r, bound) ==> vel != i32::MIN
}

/// The player after the confine pass: clamped into the arena. The player is
/// kinematic and has no velocity, so where it overlaps both walls of an axis
/// it is placed against the far one.
pub open spec fn confined_player(p: Player, width: int, height: int) -> Player {
    Player {
        position: Vector2 {
            x: clamp_axis(p.position.x as int, 0, p.radius as int, width) as i32,
            y: clamp_axis(p.position.y as int, 0, p.radius as int, height) as i32,
        },
        ..p
    }
}

/// A velocity component reflected when its axis crossed an edge.
pub open spec fn bounce_axis(vel: int, pos: int, r: int, bound: int) -> int {
    if crosses(pos, r, bound) {
        -vel
    } else {
        vel
    }
}

/// `m` after confine-and-bounce in a `width` by `height` arena.
pub open spec fn confined(m: Mobile, width: int, height: int) -> Mobile {
    Mobile {
        position: Vector2 {
            x: clamp_axis(
                m.position.x as int,
                m.velocity.x as int,
                m.radius as int,
                width,
            ) as i32,
            y: clamp_axis(
                m.position.y as int,
                m.velocity.y as int,
                m.radius as int,
                height,
            ) as i32,
        },
        velocity: Vector2 {
            x: bounce_axis(m.velocity.x as int, m.position.x as int, m.radius as int, width) as i32,
            y: bounce_axis(m.velocity.y as int, m.position.y as int, m.radius as int, height) as i32,
        },
        ..m
    }
}

/// Leaves the arena on this pass: newly outside, or already queued.
pub open spec fn leaves(m: Mobile, width: int, height: int) -> bool {
    newly_out(m, width, height) || m.removal_pending
}

/// Stays in the arena on this pass.
pub open spec fn stays(m: Mobile, width: int, height: int) -> bool {
    !leaves(m, width, height)
}

/// The player's body overlaps the entity's.
pub open spec fn touches(p: Player, m: Mobile) -> bool {
    closer_than(p.position, m.position, p.radius + m.radius)
}

/// The player's position after moving one tick of `dt_micros` along `intent`.
pub open spec fn moved_position(p: Player, intent: Vector2, dt_micros: int) -> Vector2 {
    Vector2 {
        x: (p.position.x + movement_component(intent.x as int, p.speed as int, dt_micros)) as i32,
        y: (p.position.y + movement_component(intent.y as int, p.speed as int, dt_micros)) as i32,
    }
}

/// What `movement_delta` needs of its arguments, and that the moved
/// position stays within the integer range of a coordinate.
pub open spec fn can_move(p: Player, intent: Vector2, dt_micros: int) -> bool {
    &&& magnitude(intent.x as int) <= INTENT_SCALE
    &&& magnitude(intent.y as int) <= INTENT_SCALE
    &&& fits_i32(movement_component(intent.x as int, p.speed as int, dt_micros))
    &&& fits_i32(movement_component(intent.y as int, p.speed as int, dt_micros))
    &&& fits_i32(p.position.x + movement_component(intent.x as int, p.speed as int, dt_micros))
    &&& fits_i32(p.position.y + movement_component(intent.y as int, p.speed as int, dt_micros))
}

pub open spec fn fits_i32(v: int) -> bool {
    i32::MIN <= v <= i32::MAX
}

impl Arena {
    /// The arena's invariant: a non-empty rectangle, non-negative sizes and
    /// strength, handles strictly increasing in spawn order and below
    /// `next_id`, and every locked entity at rest.
    pub open spec fn wf(&self) -> bool {
        &&& self.width > 0
        &&& self.height > 0
        &&& self.player.radius >= 0
        &&& self.shoot_strength >= 0
        &&& forall|i: int| 0 <= i < self.mobiles@.len() ==> #[trigger] self.mobiles@[i].radius >= 0
        &&& forall|i: int|
            0 <= i < self.mobiles@.len() ==> #[trigger] self.mobiles@[i].id < self.next_id
        &&& forall|i: int, j: int|
            0 <= i < j < self.mobiles@.len() ==> self.mobiles@[i].id < self.mobiles@[j].id
        &&& forall|i: int|
            0 <= i < self.mobiles@.len() && (#[trigger] self.mobiles@[i]).locked
                ==> self.mobiles@[i].velocity == (Vector2 { x: 0, y: 0 })
    }

    /// Everything but the mobile entities is unchanged.
    pub open spec fn same_but_mobiles(&self, other: &Arena) -> bool {
        &&& self.width == other.width
        &&& self.height == other.height
        &&& self.player == other.player
        &&& self.shoot_strength == other.shoot_strength
        &&& self.score == other.score
        &&& self.next_id == other.next_id
    }

    /// Same entities, in the same order, with the same handles and radii.
    pub open spec fn same_entities(&self, other: &Arena) -> bool {
        &&& self.mobiles@.len() == other.mobiles@.len()
        &&& forall|i: int|
            0 <= i < self.mobiles@.len() ==> {
                &&& (#[trigger] self.mobiles@[i]).id == other.mobiles@[i].id
                &&& self.mobiles@[i].radius == other.mobiles@[i].radius
            }
    }

    /// A follow step beside player `p` can place every locked entity without
    /// leaving the integer range of a coordinate.
    pub open spec fn follow_fits_for(&self, p: Player) -> bool {
        forall|i: int|
            0 <= i < self.mobiles@.len() && (#[trigger] self.mobiles@[i]).locked ==> fits_i32(
                follow_offset_x(p, self.mobiles@[i]),
            )
    }

    pub open spec fn follow_fits(&self) -> bool {
        self.follow_fits_for(self.player)
    }

    /// Every velocity component that the confine pass reflects stays in range.
    pub open spec fn bounce_fits(&self) -> bool {
        forall|i: int|
            0 <= i < self.mobiles@.len() ==> {
                &&& reflect_fits(
                    (#[trigger] self.mobiles@[i]).velocity.x as int,
                    self.mobiles@[i].position.x as int,
                    self.mobiles@[i].radius as int,
                    self.width as int,
                )
                &&& reflect_fits(
                    self.mobiles@[i].velocity.y as int,
                    self.mobiles@[i].position.y as int,
                    self.mobiles@[i].radius as int,
                    self.height as int,
                )
            }
    }

    /// An empty arena of the given size with the given player.
    pub fn new(width: i32, height: i32, player: Player, shoot_strength: i32) -> (r: Arena)
        requires
            width > 0,
            height > 0,
            player.radius >= 0,
            shoot_strength >= 0,
        ensures
            r.wf(),
            r.width == width,
            r.height == height,
            r.player == player,
            r.shoot_strength == shoot_strength,
            r.mobiles@.len() == 0,
            r.score == 0,
            r.next_id == 0,
    {
        Arena { width, height, player, shoot_strength, mobiles: Vec::new(), score: 0, next_id: 0 }
    }

    /// Adds a free entity and returns its fresh handle.
    pub fn spawn_mobile(&mut self, position: Vector2, velocity: Vector2, radius: i32) -> (id: u64)
        requires
            old(self).wf(),
            radius >= 0,
            old(self).next_id < u64::MAX,
        ensures
            final(self).wf(),
            id == old(self).next_id,
            final(self).next_id == old(self).next_id + 1,
            final(self).mobiles@ == old(self).mobiles@.push(
                Mobile {
                    id,
                    position,
                    velocity,
                    impulse: Vector2 { x: 0, y: 0 },
                    radius,
                    locked: false,
                    removal_pending: false,
                },
            ),
            final(self).width == old(self).width,
            final(self).height == old(self).height,
            final(self).player == old(self).player,
            final(self).shoot_strength == old(self).shoot_strength,
            final(self).score == old(self).score,
    {
        let id = self.next_id;
        let m = Mobile {
            id,
            position,
            velocity,
            impulse: Vector2 { x: 0, y: 0 },
            radius,
            locked: false,
            removal_pending: false,
        };
        self.mobiles.push(m);
        self.next_id = id + 1;
        id
    }

    /// Shoots: every entity loses its lock; each one in range gets an
    /// impulse of length `shoot_strength` directed away from the player.
    pub fn shoot(&mut self)
        requires
            old(self).wf(),
        ensures
            final(self).wf(),
            final(self).same_but_mobiles(old(self)),
            final(self).mobiles@.len() == old(self).mobiles@.len(),
            forall|i: int|
                0 <= i < old(self).mobiles@.len() ==> is_shot(
                    old(self).mobiles@[i],
                    #[trigger] final(self).mobiles@[i],
                    old(self).player,
                    old(self).shoot_strength as int,
                ),
    {
        let ghost start = *self;
        let p = self.player;
        let strength = self.shoot_strength;
        let mut i: usize = 0;
        while i < self.mobiles.len()
            invariant
                start.wf(),
                self.same_but_mobiles(&start),
                p == start.player,
                strength == start.shoot_strength,
                self.mobiles@.len() == start.mobiles@.len(),
                0 <= i <= self.mobiles@.len(),
                forall|j: int|
                    0 <= j < i ==> is_shot(
                        start.mobiles@[j],
                        #[trigger] self.mobiles@[j],
                        p,
                        strength as int,
                    ),
                forall|j: int| i <= j < self.mobiles@.len() ==> #[trigger] self.mobiles@[j] == start.mobiles@[j],
            decreases self.mobiles@.len() - i,
        {
            let mut m = self.mobiles[i];
            m.locked = false;
            if in_range(p.position, m.position, p.radius, m.radius, p.range) {
                m.impulse = scaled_direction(p.position, m.position, strength);
            }
            self.mobiles.set(i, m);
            i = i + 1;
        }
        proof {
            assert(self.same_entities(&start));
        }
    }

    /// Locks every entity in range: its velocity becomes zero and it is
    /// marked locked. Entities out of range are untouched.
    pub fn lock(&mut self)
        requires
            old(self).wf(),
        ensures
            final(self).wf(),
            final(self).same_but_mobiles(old(self)),
            final(self).mobiles@ == old(self).mobiles@.map_values(
                |m: Mobile| locked_by(m, old(self).player),
            ),
    {
        let ghost start = *self;
        let p = self.player;
        let mut i: usize = 0;
        while i < self.mobiles.len()
            invariant
                start.wf(),
                self.same_but_mobiles(&start),
                p == start.player,
                self.mobiles@.len() == start.mobiles@.len(),
                0 <= i <= self.mobiles@.len(),
                forall|j: int|
                    0 <= j < i ==> #[trigger] self.mobiles@[j] == locked_by(start.mobiles@[j], p),
                forall|j: int| i <= j < self.mobiles@.len() ==> #[trigger] self.mobiles@[j] == start.mobiles@[j],
            decreases self.mobiles@.len() - i,
        {
            let mut m = self.mobiles[i];
            if in_range(p.position, m.position, p.radius, m.radius, p.range) {
                m.velocity = Vector2 { x: 0, y: 0 };
                m.locked = true;
            }
            self.mobiles.set(i, m);
            i = i + 1;
        }
        proof {
            assert(self.mobiles@ =~= start.mobiles@.map_values(|m: Mobile| locked_by(m, p)));
            assert(self.same_entities(&start));
        }
    }

    /// Moves every locked entity beside the player (at the sum of the two
    /// radii along +x); free entities are untouched.
    pub fn follow(&mut self)
        requires
            old(self).wf(),
            old(self).follow_fits(),
        ensures
            final(self).wf(),
            final(self).same_but_mobiles(old(self)),
            final(self).mobiles@ == old(self).mobiles@.map_values(
                |m: Mobile| followed(m, old(self).player),
            ),
    {
        let ghost start = *self;
        let p = self.player;
        let mut i: usize = 0;
        while i < self.mobiles.len()
            invariant
                start.wf(),
                start.follow_fits(),
                self.same_but_mobiles(&start),
                p == start.player,
                self.mobiles@.len() == start.mobiles@.len(),
                0 <= i <= self.mobiles@.len(),
                forall|j: int|
                    0 <= j < i ==> #[trigger] self.mobiles@[j] == followed(start.mobiles@[j], p),
                forall|j: int| i <= j < self.mobiles@.len() ==> #[trigger] self.mobiles@[j] == start.mobiles@[j],
            decreases self.mobiles@.len() - i,
        {
            let mut m = self.mobiles[i];
            if m.locked {
                proof {
                    assert(fits_i32(follow_offset_x(p, start.mobiles@[i as int])));
                }
                let x = p.position.x as i64 + p.radius as i64 + m.radius as i64;
                m.position = Vector2 { x: x as i32, y: p.position.y };
                m.velocity = Vector2 { x: 0, y: 0 };
            }
            self.mobiles.set(i, m);
            i = i + 1;
        }
        proof {
            assert(self.mobiles@ =~= start.mobiles@.map_values(|m: Mobile| followed(m, p)));
            assert(self.same_entities(&start));
        }
    }
}

impl Arena {
    /// Scoring pass: every entity that is outside the arena and not already
    /// queued is queued for removal and adds one to the score. Returns the
    /// removal events (handles) of this pass, in entity order.
    pub fn mark_out_of_bounds(&mut self) -> (events: Vec<u64>)
        requires
            old(self).wf(),
            old(self).score + old(self).mobiles@.len() <= u64::MAX,
        ensures
            final(self).wf(),
            final(self).width == old(self).width,
            final(self).height == old(self).height,
            final(self).player == old(self).player,
            final(self).shoot_strength == old(self).shoot_strength,
            final(self).next_id == old(self).next_id,
            final(self).mobiles@ == old(self).mobiles@.map_values(
                |m: Mobile| marked(m, old(self).width as int, old(self).height as int),
            ),
            events@ == old(self).mobiles@.filter(
                |m: Mobile| newly_out(m, old(self).width as int, old(self).height as int),
            ).map_values(|m: Mobile| handle_of(m)),
            final(self).score == old(self).score + events@.len(),
    {
        let ghost start = *self;
        let ghost w = self.width as int;
        let ghost h = self.height as int;
        let ghost pred = |m: Mobile| newly_out(m, w, h);
        let mut events: Vec<u64> = Vec::new();
        let mut i: usize = 0;
        while i < self.mobiles.len()
            invariant
                start.wf(),
                w == start.width,
                h == start.height,
                pred == (|m: Mobile| newly_out(m, w, h)),
                self.same_but_mobiles_and_score(&start),
                self.mobiles@.len() == start.mobiles@.len(),
                0 <= i <= self.mobiles@.len(),
                start.score + start.mobiles@.len() <= u64::MAX,
                forall|j: int|
                    0 <= j < i ==> #[trigger] self.mobiles@[j] == marked(start.mobiles@[j], w, h),
                forall|j: int| i <= j < self.mobiles@.len() ==> #[trigger] self.mobiles@[j] == start.mobiles@[j],
                events@ == start.mobiles@.subrange(0, i as int).filter(pred).map_values(
                    |m: Mobile| handle_of(m),
                ),
                self.score == start.score + events@.len(),
                events@.len() <= i,
            decreases self.mobiles@.len() - i,
        {
            let mut m = self.mobiles[i];
            let ghost before = start.mobiles@.subrange(0, i as int);
            let ghost after = start.mobiles@.subrange(0, i as int + 1);
            proof {
                reveal(Seq::filter);
                assert(after.drop_last() =~= before);
                assert(after.last() == m);
            }
            let out = m.position.x < 0 || m.position.x > self.width || m.position.y < 0
                || m.position.y > self.height;
            if out && !m.removal_pending {
                m.removal_pending = true;
                events.push(m.id);
                self.score = self.score + 1;
                proof {
                    assert(after.filter(pred) == before.filter(pred).push(start.mobiles@[i as int]));
                    assert(after.filter(pred).map_values(|m: Mobile| handle_of(m)) =~= before.filter(
                        pred,
                    ).map_values(|m: Mobile| handle_of(m)).push(m.id));
                }
            } else {
                proof {
                    assert(after.filter(pred) == before.filter(pred));
                }
            }
            self.mobiles.set(i, m);
            i = i + 1;
        }
        proof {
            assert(start.mobiles@.subrange(0, i as int) =~= start.mobiles@);
            assert(self.mobiles@ =~= start.mobiles@.map_values(|m: Mobile| marked(m, w, h)));
            assert(self.same_entities(&start));
        }
        events
    }

    /// Everything but the mobile entities and the score is unchanged.
    pub open spec fn same_but_mobiles_and_score(&self, other: &Arena) -> bool {
        &&& self.width == other.width
        &&& self.height == other.height
        &&& self.player == other.player
        &&& self.shoot_strength == other.shoot_strength
        &&& self.next_id == other.next_id
    }

    /// Drain step: removes every entity queued for removal, keeping the
    /// order of the rest, and returns the removed handles in entity order.
    pub fn despawn_marked(&mut self) -> (removed: Vec<u64>)
        requires
            old(self).wf(),
        ensures
            final(self).wf(),
            final(self).same_but_mobiles(old(self)),
            final(self).mobiles@ == old(self).mobiles@.filter(|m: Mobile| is_live(m)),
            removed@ == old(self).mobiles@.filter(|m: Mobile| is_pending(m)).map_values(
                |m: Mobile| handle_of(m),
            ),
    {
        let ghost start = *self;
        let ghost keep = |m: Mobile| is_live(m);
        let ghost drop = |m: Mobile| is_pending(m);
        let mut kept: Vec<Mobile> = Vec::new();
        let mut removed: Vec<u64> = Vec::new();
        let mut i: usize = 0;
        while i < self.mobiles.len()
            invariant
                start.wf(),
                *self == start,
                keep == (|m: Mobile| is_live(m)),
                drop == (|m: Mobile| is_pending(m)),
                0 <= i <= self.mobiles@.len(),
                kept@ == start.mobiles@.subrange(0, i as int).filter(keep),
                removed@ == start.mobiles@.subrange(0, i as int).filter(drop).map_values(
                    |m: Mobile| handle_of(m),
                ),
                forall|a: int| 0 <= a < kept@.len() ==> #[trigger] kept@[a].radius >= 0,
                forall|a: int|
                    0 <= a < kept@.len() && (#[trigger] kept@[a]).locked ==> kept@[a].velocity
                        == (Vector2 { x: 0, y: 0 }),
                forall|a: int| 0 <= a < kept@.len() ==> #[trigger] kept@[a].id < start.next_id,
                forall|a: int, b: int| 0 <= a < b < kept@.len() ==> kept@[a].id < kept@[b].id,
                forall|a: int, j: int|
                    #![trigger kept@[a], start.mobiles@[j]]
                    0 <= a < kept@.len() && i <= j < start.mobiles@.len() ==> kept@[a].id
                        < start.mobiles@[j].id,
            decreases self.mobiles@.len() - i,
        {
            let m = self.mobiles[i];
            let ghost before = start.mobiles@.subrange(0, i as int);
            let ghost after = start.mobiles@.subrange(0, i as int + 1);
            proof {
                reveal(Seq::filter);
                assert(after.drop_last() =~= before);
                assert(after.last() == m);
            }
            if m.removal_pending {
                removed.push(m.id);
                proof {
                    assert(after.filter(keep) == before.filter(keep));
                    assert(after.filter(drop).map_values(|m: Mobile| handle_of(m)) =~= before.filter(
                        drop,
                    ).map_values(|m: Mobile| handle_of(m)).push(m.id));
                }
            } else {
                kept.push(m);
                proof {
                    assert(after.filter(keep) == before.filter(keep).push(m));
                    assert(after.filter(drop) == before.filter(drop));
                }
            }
            i = i + 1;
        }
        proof {
            assert(start.mobiles@.subrange(0, i as int) =~= start.mobiles@);
        }
        self.mobiles = kept;
        removed
    }

    /// Confine-and-bounce pass: on each axis, an entity whose edge passes a
    /// wall is pulled back inside and that axis of its velocity is reversed.
    pub fn confine_and_bounce(&mut self)
        requires
            old(self).wf(),
            old(self).bounce_fits(),
        ensures
            final(self).wf(),
            final(self).same_but_mobiles(old(self)),
            final(self).mobiles@ == old(self).mobiles@.map_values(
                |m: Mobile| confined(m, old(self).width as int, old(self).height as int),
            ),
    {
        let ghost start = *self;
        let ghost w = self.width as int;
        let ghost h = self.height as int;
        let mut i: usize = 0;
        while i < self.mobiles.len()
            invariant
                start.wf(),
                start.bounce_fits(),
                w == start.width,
                h == start.height,
                self.same_but_mobiles(&start),
                self.mobiles@.len() == start.mobiles@.len(),
                0 <= i <= self.mobiles@.len(),
                forall|j: int|
                    0 <= j < i ==> #[trigger] self.mobiles@[j] == confined(start.mobiles@[j], w, h),
                forall|j: int| i <= j < self.mobiles@.len() ==> #[trigger] self.mobiles@[j] == start.mobiles@[j],
            decreases self.mobiles@.len() - i,
        {
            let mut m = self.mobiles[i];
            proof {
                assert(start.mobiles@[i as int] == m);
            }
            let (x, vx) = confine_axis(m.position.x, m.velocity.x, m.radius, self.width);
            let (y, vy) = confine_axis(m.position.y, m.velocity.y, m.radius, self.height);
            proof {
                if m.locked {
                    assert(m.velocity == Vector2 { x: 0, y: 0 });
                }
            }
            m.position = Vector2 { x, y };
            m.velocity = Vector2 { x: vx, y: vy };
            self.mobiles.set(i, m);
            i = i + 1;
        }
        proof {
            assert(self.mobiles@ =~= start.mobiles@.map_values(|m: Mobile| confined(m, w, h)));
            assert(self.same_entities(&start));
        }
    }

    /// Keeps the player inside the arena by clamping its position; the player
    /// has no velocity to reflect.
    pub fn confine_player(&mut self)
        requires
            old(self).wf(),
        ensures
            final(self).wf(),
            final(self).player == confined_player(
                old(self).player,
                old(self).width as int,
                old(self).height as int,
            ),
            final(self).mobiles@ == old(self).mobiles@,
            final(self).width == old(self).width,
            final(self).height == old(self).height,
            final(self).shoot_strength == old(self).shoot_strength,
            final(self).score == old(self).score,
            final(self).next_id == old(self).next_id,
    {
        let (x, _) = confine_axis(self.player.position.x, 0, self.player.radius, self.width);
        let (y, _) = confine_axis(self.player.position.y, 0, self.player.radius, self.height);
        self.player.position = Vector2 { x, y };
    }
}

impl Arena {
    /// Moves the player by `intent * speed * dt` (kinematic: nothing else
    /// changes).
    pub fn move_player(&mut self, intent: Vector2, dt_micros: u32)
        requires
            old(self).wf(),
            can_move(old(self).player, intent, dt_micros as int),
        ensures
            final(self).wf(),
            final(self).player.position == moved_position(
                old(self).player,
                intent,
                dt_micros as int,
            ),
            final(self).player.radius == old(self).player.radius,
            final(self).player.speed == old(self).player.speed,
            final(self).player.range == old(self).player.range,
            final(self).mobiles@ == old(self).mobiles@,
            final(self).width == old(self).width,
            final(self).height == old(self).height,
            final(self).shoot_strength == old(self).shoot_strength,
            final(self).score == old(self).score,
            final(self).next_id == old(self).next_id,
    {
        let delta = movement_delta(intent, self.player.speed, dt_micros);
        let x = self.player.position.x + delta.x;
        let y = self.player.position.y + delta.y;
        self.player.position = Vector2 { x, y };
    }

    /// True iff the player overlaps some entity (the game is lost).
    pub fn game_over(&self) -> (r: bool)
        ensures
            r == exists|i: int|
                0 <= i < self.mobiles@.len() && touches(self.player, #[trigger] self.mobiles@[i]),
    {
        let mut i: usize = 0;
        while i < self.mobiles.len()
            invariant
                0 <= i <= self.mobiles@.len(),
                forall|j: int| 0 <= j < i ==> !touches(self.player, #[trigger] self.mobiles@[j]),
            decreases self.mobiles@.len() - i,
        {
            let m = self.mobiles[i];
            if in_contact(self.player.position, m.position, self.player.radius, m.radius) {
                assert(touches(self.player, self.mobiles@[i as int]));
                return true;
            }
            i = i + 1;
        }
        false
    }

    /// Score-and-despawn for one tick: entities outside the arena are queued
    /// and scored, then every queued entity is despawned. Returns the removed
    /// handles. The score grows by one for each entity newly outside, so it
    /// accumulates over ticks.
    pub fn score_and_despawn(&mut self) -> (removed: Vec<u64>)
        requires
            old(self).wf(),
            old(self).score + old(self).mobiles@.len() <= u64::MAX,
        ensures
            final(self).wf(),
            final(self).width == old(self).width,
            final(self).height == old(self).height,
            final(self).player == old(self).player,
            final(self).shoot_strength == old(self).shoot_strength,
            final(self).next_id == old(self).next_id,
            final(self).mobiles@ == old(self).mobiles@.filter(
                |m: Mobile| stays(m, old(self).width as int, old(self).height as int),
            ),
            removed@ == old(self).mobiles@.filter(
                |m: Mobile| leaves(m, old(self).width as int, old(self).height as int),
            ).map_values(|m: Mobile| handle_of(m)),
            final(self).score == old(self).score + old(self).mobiles@.filter(
                |m: Mobile| newly_out(m, old(self).width as int, old(self).height as int),
            ).len(),
    {
        let ghost start = *self;
        let events = self.mark_out_of_bounds();
        proof {
            lemma_filter_marked(start.mobiles@, start.width as int, start.height as int);
            assert(events@.len() == start.mobiles@.filter(
                |m: Mobile| newly_out(m, start.width as int, start.height as int),
            ).len());
        }
        self.despawn_marked()
    }
}

proof fn lemma_filter_marked(s: Seq<Mobile>, w: int, h: int)
    ensures
        s.map_values(|m: Mobile| marked(m, w, h)).filter(|m: Mobile| is_live(m)) == s.filter(
            |m: Mobile| stays(m, w, h),
        ),
        s.map_values(|m: Mobile| marked(m, w, h)).filter(|m: Mobile| is_pending(m)).map_values(
            |m: Mobile| handle_of(m),
        ) == s.filter(|m: Mobile| leaves(m, w, h)).map_values(|m: Mobile| handle_of(m)),
    decreases s.len(),
{
    reveal(Seq::filter);
    let mk = |m: Mobile| marked(m, w, h);
    let t = s.map_values(mk);
    if s.len() == 0 {
        assert(t.filter(|m: Mobile| is_live(m)) =~= s.filter(|m: Mobile| stays(m, w, h)));
        assert(t.filter(|m: Mobile| is_pending(m)).map_values(|m: Mobile| handle_of(m))
            =~= s.filter(|m: Mobile| leaves(m, w, h)).map_values(|m: Mobile| handle_of(m)));
    } else {
        let r = s.drop_last();
        lemma_filter_marked(r, w, h);
        assert(t.drop_last() =~= r.map_values(mk));
        assert(t.last() == marked(s.last(), w, h));
        let tl = r.map_values(mk).filter(|m: Mobile| is_pending(m));
        let sl = r.filter(|m: Mobile| leaves(m, w, h));
        if leaves(s.last(), w, h) {
            assert(tl.push(t.last()).map_values(|m: Mobile| handle_of(m)) =~= tl.map_values(
                |m: Mobile| handle_of(m),
            ).push(s.last().id));
            assert(sl.push(s.last()).map_values(|m: Mobile| handle_of(m)) =~= sl.map_values(
                |m: Mobile| handle_of(m),
            ).push(s.last().id));
        }
    }
}

/// One axis of confine-and-bounce: the clamped position and the possibly
/// reflected velocity.
fn confine_axis(pos: i32, vel: i32, r: i32, bound: i32) -> (res: (i32, i32))
    requires
        r >= 0,
        bound > 0,
        reflect_fits(vel as int, pos as int, r as int, bound as int),
    ensures
        res.0 == clamp_axis(pos as int, vel as int, r as int, bound as int),
        res.1 == bounce_axis(vel as int, pos as int, r as int, bound as int),
{
    let past_far = pos as i64 + r as i64 > bound as i64;
    let past_near = (pos as i64) - (r as i64) < 0;
    if past_far && !(vel < 0 && past_near) {
        (bound - r, -vel)
    } else if past_near {
        (r, -vel)
    } else {
        (pos, vel)
    }
}

} // verus!
