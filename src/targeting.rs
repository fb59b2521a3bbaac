//! The single range policy shared by shooting and locking, and the contact
//! test that ends a game.

use vstd::prelude::*;
use crate::geometry::{Vector2, dist_sq};

verus! {

/// The two points are at most `reach` apart.
pub open spec fn within_reach(a: Vector2, b: Vector2, reach: int) -> bool {
    reach >= 0 && dist_sq(a, b) <= reach * reach
}

/// The two points are strictly closer than `reach`.
pub open spec fn closer_than(a: Vector2, b: Vector2, reach: int) -> bool {
    reach > 0 && dist_sq(a, b) < reach * reach
}

/// Reach of the range policy: the sum of the radii plus the range margin.
pub open spec fn reach_of(player_radius: int, entity_radius: int, extra_range: int) -> int {
    player_radius + entity_radius + extra_range
}

pub open spec fn in_range_spec(
    player_pos: Vector2,
    entity_pos: Vector2,
    player_radius: int,
    entity_radius: int,
    extra_range: int,
) -> bool {
    within_reach(player_pos, entity_pos, reach_of(player_radius, entity_radius, extra_range))
}

fn squared_distance(a: Vector2, b: Vector2) -> (r: i128)
    ensures
        r == dist_sq(a, b),
        r >= 0,
{
    let dx: i128 = b.x as i128 - a.x as i128;
    let dy: i128 = b.y as i128 - a.y as i128;
    proof {
        assert(0 <= dx * dx < 0x1_0000_0000_0000_0000 && 0 <= dy * dy < 0x1_0000_0000_0000_0000)
            by (nonlinear_arith)
            requires
                -0x1_0000_0000 < dx < 0x1_0000_0000,
                -0x1_0000_0000 < dy < 0x1_0000_0000,
        ;
    }
    dx * dx + dy * dy
}

fn square_of(reach: i64) -> (r: i128)
    requires
        -0x1_0000_0000_0000 < reach < 0x1_0000_0000_0000,
    ensures
        r == reach * reach,
{
    proof {
        assert(0 <= reach * reach < 0x1_0000_0000_0000_0000_0000_0000) by (nonlinear_arith)
            requires
                -0x1_0000_0000_0000 < reach < 0x1_0000_0000_0000,
        ;
    }
    (reach as i128) * (reach as i128)
}

/// True iff the Euclidean distance between the two positions is at most
/// `player_radius + entity_radius + extra_range`.
pub fn in_range(
    player_pos: Vector2,
    entity_pos: Vector2,
    player_radius: i32,
    entity_radius: i32,
    extra_range: i32,
) -> (r: bool)
    ensures
        r == in_range_spec(
            player_pos,
            entity_pos,
            player_radius as int,
            entity_radius as int,
            extra_range as int,
        ),
{
    let reach: i64 = player_radius as i64 + entity_radius as i64 + extra_range as i64;
    if reach < 0 {
        false
    } else {
        squared_distance(player_pos, entity_pos) <= square_of(reach)
    }
}

/// True iff the two bodies overlap: their centres are closer than the sum of
/// their radii.
pub fn in_contact(a: Vector2, b: Vector2, a_radius: i32, b_radius: i32) -> (r: bool)
    ensures
        r == closer_than(a, b, a_radius + b_radius),
{
    let reach: i64 = a_radius as i64 + b_radius as i64;
    if reach <= 0 {
        false
    } else {
        squared_distance(a, b) < square_of(reach)
    }
}

/// The range policy does not depend on which body is the player, and a wider
/// range margin never takes a pair out of range.
pub proof fn lemma_in_range_symmetric_monotone(
    p: Vector2,
    e: Vector2,
    pr: int,
    er: int,
    extra: int,
    wider: int,
)
    requires
        extra <= wider,
    ensures
        in_range_spec(p, e, pr, er, extra) == in_range_spec(e, p, er, pr, extra),
        in_range_spec(p, e, pr, er, extra) ==> in_range_spec(p, e, pr, er, wider),
{
    assert(dist_sq(p, e) == dist_sq(e, p)) by (nonlinear_arith);
    let r1 = reach_of(pr, er, extra);
    let r2 = reach_of(pr, er, wider);
    if r1 >= 0 {
        assert(r1 * r1 <= r2 * r2) by (nonlinear_arith)
            requires
                0 <= r1 <= r2,
        ;
    }
}

} // verus!
