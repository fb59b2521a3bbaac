//! One simulation tick, around the host's physics step: the input step
//! (move, then shoot or lock) before it, and the settle step (follow, then
//! the boundary policy) after it.

use vstd::prelude::*;
use crate::input::{TickInput, DirectionKeys, INTENT_SCALE, axis_sum, origin, movement_component};
use crate::geometry::{Vector2, is_direction};
use crate::arena::{
    Arena, Mobile, Player, can_move, confined, confined_player, follow_offset_x, followed,
    handle_of, is_shot, leaves, locked_by, moved_position, newly_out, out_of_bounds, reflect_fits,
    stays, targets, fits_i32,
};

verus! {

/// How the arena treats entities at its edges; one is chosen per game mode.
#[derive(Clone, Copy, Debug, PartialEq, Eq, Structural)]
pub enum BoundaryPolicy {
    /// Entities that leave the arena score a point each and are despawned.
    ScoreAndDespawn,
    /// Entities are kept inside and bounce off the walls.
    ConfineAndBounce,
}

impl Arena {
    /// Input step: the player moves by its intent; then a shot, if
    /// triggered, acts on every entity, and otherwise a lock, if triggered.
    /// Shooting and locking never both act in one tick.
    pub fn apply_input(&mut self, input: TickInput, dt_micros: u32)
        requires
            old(self).wf(),
            can_move(old(self).player, input.intent, dt_micros as int),
        ensures
            final(self).wf(),
            final(self).player.position == moved_position(
                old(self).player,
                input.intent,
                dt_micros as int,
            ),
            final(self).player.radius == old(self).player.radius,
            final(self).player.speed == old(self).player.speed,
            final(self).player.range == old(self).player.range,
            final(self).width == old(self).width,
            final(self).height == old(self).height,
            final(self).shoot_strength == old(self).shoot_strength,
            final(self).score == old(self).score,
            final(self).next_id == old(self).next_id,
            input.shoot ==> {
                &&& final(self).mobiles@.len() == old(self).mobiles@.len()
                &&& forall|i: int|
                    0 <= i < old(self).mobiles@.len() ==> is_shot(
                        old(self).mobiles@[i],
                        #[trigger] final(self).mobiles@[i],
                        final(self).player,
                        old(self).shoot_strength as int,
                    )
            },
            !input.shoot && input.lock ==> final(self).mobiles@ == old(self).mobiles@.map_values(
                |m: Mobile| locked_by(m, final(self).player),
            ),
            !input.shoot && !input.lock ==> final(self).mobiles@ == old(self).mobiles@,
    {
        self.move_player(input.intent, dt_micros);
        if input.shoot {
            self.shoot();
        } else if input.lock {
            self.lock();
        }
    }

    /// The player that the settle step places locked entities beside: as it
    /// is when scoring, clamped into the arena when confining.
    pub open spec fn settled_player(&self, policy: BoundaryPolicy) -> Player {
        if policy == BoundaryPolicy::ScoreAndDespawn {
            self.player
        } else {
            confined_player(self.player, self.width as int, self.height as int)
        }
    }

    /// Settle step, after the host's physics. When confining, the player is
    /// first clamped into the arena. Locked entities are then placed beside
    /// the player, and the boundary policy acts on every entity. Returns the
    /// handles despawned this tick (none when confining).
    pub fn settle(&mut self, policy: BoundaryPolicy) -> (removed: Vec<u64>)
        requires
            old(self).wf(),
            old(self).follow_fits_for(old(self).settled_player(policy)),
            policy == BoundaryPolicy::ScoreAndDespawn ==> old(self).score + old(
                self,
            ).mobiles@.len() <= u64::MAX,
            policy == BoundaryPolicy::ConfineAndBounce ==> old(self).bounce_fits(),
        ensures
            final(self).wf(),
            final(self).width == old(self).width,
            final(self).height == old(self).height,
            final(self).player == old(self).settled_player(policy),
            final(self).shoot_strength == old(self).shoot_strength,
            final(self).next_id == old(self).next_id,
            ({
                let w = old(self).width as int;
                let h = old(self).height as int;
                let q = old(self).settled_player(policy);
                let placed = old(self).mobiles@.map_values(|m: Mobile| followed(m, q));
                if policy == BoundaryPolicy::ScoreAndDespawn {
                    &&& final(self).mobiles@ == placed.filter(|m: Mobile| stays(m, w, h))
                    &&& removed@ == placed.filter(|m: Mobile| leaves(m, w, h)).map_values(
                        |m: Mobile| handle_of(m),
                    )
                    &&& final(self).score == old(self).score + placed.filter(
                        |m: Mobile| newly_out(m, w, h),
                    ).len()
                } else {
                    &&& final(self).mobiles@ == placed.map_values(|m: Mobile| confined(m, w, h))
                    &&& removed@.len() == 0
                    &&& final(self).score == old(self).score
                }
            }),
    {
        match policy {
            BoundaryPolicy::ScoreAndDespawn => {
                self.follow();
                self.score_and_despawn()
            },
            BoundaryPolicy::ConfineAndBounce => {
                let ghost start = *self;
                self.confine_player();
                self.follow();
                proof {
                    assert forall|i: int| 0 <= i < self.mobiles@.len() implies {
                        &&& reflect_fits(
                            (#[trigger] self.mobiles@[i]).velocity.x as int,
                            self.mobiles@[i].position.x as int,
                            self.mobiles@[i].radius as int,
                            self.width as int,
                        )
                        &&& reflect_fits(
                            self.mobiles@[i].velocity.y as int,
                            self.mobiles@[i].position.y as int,
                            self.mobiles@[i].radius as int,
                            self.height as int,
                        )
                    } by {
                        assert(self.mobiles@[i] == followed(start.mobiles@[i], self.player));
                    }
                }
                self.confine_and_bounce();
                Vec::new()
            },
        }
    }
}

/// A lock holds an entity exactly beside the player: locking an entity in
/// range locks it, and each follow step puts a locked entity at the player's
/// position plus the sum of the two radii along +x, wherever the player then
/// is, and leaves it locked for the next step; only a shot releases it.
pub proof fn lemma_lock_then_follow(m: Mobile, p: Player, q: Player, strength: int, n: Mobile)
    requires
        targets(p, m),
        fits_i32(follow_offset_x(q, m)),
    ensures
        locked_by(m, p).locked,
        m.locked ==> followed(m, q).locked,
        m.locked ==> followed(m, q).position.x == q.position.x + q.radius + m.radius,
        m.locked ==> followed(m, q).position.y == q.position.y,
        followed(locked_by(m, p), q).locked,
        followed(locked_by(m, p), q).position.x == q.position.x + q.radius + m.radius,
        followed(locked_by(m, p), q).position.y == q.position.y,
        is_shot(m, n, q, strength) ==> !n.locked,
{
}

/// An entity moving right along x whose edge has crossed the right wall
/// ends the confine pass touching that wall, with its velocity reversed;
/// an entity clear of the top and bottom walls keeps its height.
pub proof fn lemma_bounce_off_right_wall(m: Mobile, width: i32, height: i32)
    requires
        width > 0,
        height > 0,
        m.radius >= 0,
        m.velocity.x > 0,
        m.velocity.y == 0,
        m.position.x + m.radius > width,
    ensures
        confined(m, width as int, height as int).position.x == width - m.radius,
        confined(m, width as int, height as int).velocity.x == -m.velocity.x,
        confined(m, width as int, height as int).velocity.y == 0,
        m.radius <= m.position.y <= height - m.radius ==> confined(
            m,
            width as int,
            height as int,
        ).position.y == m.position.y,
{
}

/// While no entity is already queued for removal, score-and-despawn adds
/// exactly one point per removed entity, so over separate crossings the
/// score counts every entity that left.
pub proof fn lemma_one_point_per_removal(s: Seq<Mobile>, width: int, height: int)
    requires
        forall|i: int| 0 <= i < s.len() ==> !(#[trigger] s[i]).removal_pending,
    ensures
        s.filter(|m: Mobile| newly_out(m, width, height)).len() == s.filter(
            |m: Mobile| leaves(m, width, height),
        ).len(),
    decreases s.len(),
{
    reveal(Seq::filter);
    if s.len() > 0 {
        let r = s.drop_last();
        assert forall|i: int| 0 <= i < r.len() implies !(#[trigger] r[i]).removal_pending by {
            assert(r[i] == s[i]);
        }
        lemma_one_point_per_removal(r, width, height);
        assert(!s[s.len() - 1].removal_pending);
    }
}

/// With no direction held (or only opposite ones), the intent is exactly
/// zero, moving by it is always possible, and the player stays where it is.
pub proof fn lemma_still_without_input(keys: DirectionKeys, intent: Vector2, p: Player, dt_micros: nat)
    requires
        axis_sum(keys) == origin(),
        is_direction(origin(), axis_sum(keys), INTENT_SCALE as int, intent),
        dt_micros <= u32::MAX,
    ensures
        intent == origin(),
        can_move(p, intent, dt_micros as int),
        moved_position(p, intent, dt_micros as int) == p.position,
{
    let o = origin();
    assert((o.x - o.x) * (o.x - o.x) + (o.y - o.y) * (o.y - o.y) == 0) by (nonlinear_arith);
    assert(0 * (p.speed as int) * (dt_micros as int) == 0) by (nonlinear_arith);
    assert(movement_component(0, p.speed as int, dt_micros as int) == 0);
}

/// A locked entity after one follow step beside each player of `players`,
/// in order (the player may move between steps).
pub open spec fn followed_through(m: Mobile, players: Seq<Player>) -> Mobile
    decreases players.len(),
{
    if players.len() == 0 {
        m
    } else {
        followed(followed_through(m, players.drop_last()), players.last())
    }
}

/// Over any number of ticks, a locked entity stays locked, at rest, and
/// exactly beside the player's position of the latest tick.
pub proof fn lemma_locked_follows_every_tick(m: Mobile, players: Seq<Player>)
    requires
        m.locked,
        players.len() > 0,
        forall|k: int| 0 <= k < players.len() ==> fits_i32(follow_offset_x(#[trigger] players[k], m)),
    ensures
        followed_through(m, players).locked,
        followed_through(m, players).radius == m.radius,
        followed_through(m, players).id == m.id,
        followed_through(m, players).velocity == (Vector2 { x: 0, y: 0 }),
        followed_through(m, players).position.x == players.last().position.x
            + players.last().radius + m.radius,
        followed_through(m, players).position.y == players.last().position.y,
    decreases players.len(),
{
    let rest = players.drop_last();
    if rest.len() > 0 {
        assert forall|k: int| 0 <= k < rest.len() implies fits_i32(
            follow_offset_x(#[trigger] rest[k], m),
        ) by {
            assert(rest[k] == players[k]);
        }
        lemma_locked_follows_every_tick(m, rest);
    } else {
        assert(followed_through(m, rest) == m);
    }
    let prev = followed_through(m, rest);
    assert(prev.locked && prev.radius == m.radius && prev.id == m.id);
    assert(players.last() == players[players.len() - 1]);
    assert(fits_i32(follow_offset_x(players.last(), m)));
    assert(followed_through(m, players) == followed(prev, players.last()));
}

/// One entity outside the arena among entities inside it, none queued:
/// score-and-despawn scores exactly one point and removes exactly that
/// entity, keeping the others in order.
pub proof fn lemma_single_exit(s: Seq<Mobile>, width: int, height: int, k: int)
    requires
        0 <= k < s.len(),
        out_of_bounds(s[k], width, height),
        forall|i: int| 0 <= i < s.len() ==> !(#[trigger] s[i]).removal_pending,
        forall|i: int| 0 <= i < s.len() && i != k ==> !out_of_bounds(#[trigger] s[i], width, height),
    ensures
        s.filter(|m: Mobile| newly_out(m, width, height)).len() == 1,
        s.filter(|m: Mobile| leaves(m, width, height)).map_values(|m: Mobile| handle_of(m)) == seq![
            s[k].id,
        ],
        s.filter(|m: Mobile| stays(m, width, height)) == s.remove(k),
    decreases s.len(),
{
    reveal(Seq::filter);
    let r = s.drop_last();
    let newly = |m: Mobile| newly_out(m, width, height);
    let lv = |m: Mobile| leaves(m, width, height);
    let st = |m: Mobile| stays(m, width, height);
    if k == s.len() - 1 {
        lemma_none_leave(r, width, height);
        assert(s.filter(lv) =~= seq![s[k]]);
        assert(s.filter(lv).map_values(|m: Mobile| handle_of(m)) =~= seq![s[k].id]);
        assert(s.filter(st) =~= s.remove(k));
    } else {
        assert forall|i: int| 0 <= i < r.len() implies !(#[trigger] r[i]).removal_pending by {
            assert(r[i] == s[i]);
        }
        assert forall|i: int| 0 <= i < r.len() && i != k implies !out_of_bounds(
            #[trigger] r[i],
            width,
            height,
        ) by {
            assert(r[i] == s[i]);
        }
        lemma_single_exit(r, width, height, k);
        assert(s.last() == s[s.len() - 1]);
        assert(s.filter(lv) == r.filter(lv));
        assert(s.filter(st) == r.filter(st).push(s.last()));
        assert(s.remove(k) =~= r.remove(k).push(s.last()));
    }
}

/// Among entities inside the arena, none queued, none leaves.
proof fn lemma_none_leave(s: Seq<Mobile>, width: int, height: int)
    requires
        forall|i: int| 0 <= i < s.len() ==> !(#[trigger] s[i]).removal_pending,
        forall|i: int| 0 <= i < s.len() ==> !out_of_bounds(#[trigger] s[i], width, height),
    ensures
        s.filter(|m: Mobile| newly_out(m, width, height)).len() == 0,
        s.filter(|m: Mobile| leaves(m, width, height)).len() == 0,
        s.filter(|m: Mobile| stays(m, width, height)) == s,
    decreases s.len(),
{
    reveal(Seq::filter);
    if s.len() > 0 {
        let r = s.drop_last();
        assert forall|i: int| 0 <= i < r.len() implies !(#[trigger] r[i]).removal_pending
            && !out_of_bounds(r[i], width, height) by {
            assert(r[i] == s[i]);
        }
        lemma_none_leave(r, width, height);
        assert(s.last() == s[s.len() - 1]);
        assert(r.push(s.last()) =~= s);
    } else {
        assert(s.filter(|m: Mobile| stays(m, width, height)) =~= s);
    }
}

} // verus!
