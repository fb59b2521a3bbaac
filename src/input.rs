//! Turning held keys into a normalized intent vector, detecting key presses
//! on their rising edge, and scaling intent into a per-tick displacement.

use vstd::prelude::*;
use crate::geometry::{Vector2, dist_sq, is_direction, magnitude, scaled_direction, lemma_direction_length};

verus! {

/// Length of a unit intent vector: intent components are fixed-point
/// numbers with this many steps per world unit of direction.
pub const INTENT_SCALE: i32 = 1_000_000;

/// Microseconds in one second, the unit of a tick's elapsed time.
pub const MICROS_PER_SECOND: u64 = 1_000_000;

/// Which of the four movement directions are held this tick (each direction
/// may be bound to several physical keys; the host ORs them).
#[derive(Clone, Copy, Debug, PartialEq, Eq, Structural)]
pub struct DirectionKeys {
    pub left: bool,
    pub right: bool,
    pub up: bool,
    pub down: bool,
}

/// Raw key state of one tick: held directions and whether the shoot and lock
/// keys are currently down.
#[derive(Clone, Copy, Debug, PartialEq, Eq, Structural)]
pub struct KeySnapshot {
    pub directions: DirectionKeys,
    pub shoot_down: bool,
    pub lock_down: bool,
}

/// What one tick of input asks of the simulation.
#[derive(Clone, Copy, Debug, PartialEq, Eq, Structural)]
pub struct TickInput {
    pub intent: Vector2,
    pub shoot: bool,
    pub lock: bool,
}

/// Rising-edge detector for one key.
#[derive(Clone, Copy, Debug, PartialEq, Eq, Structural)]
pub struct KeyEdge {
    pub was_down: bool,
}

/// Edge detectors for the two action keys.
#[derive(Clone, Copy, Debug, PartialEq, Eq, Structural)]
pub struct InputMapper {
    pub shoot: KeyEdge,
    pub lock: KeyEdge,
}

/// Contribution of one axis: +1 for the positive key, -1 for the negative.
pub open spec fn axis_value(negative: bool, positive: bool) -> int {
    (if positive {
        1int
    } else {
        0int
    }) - (if negative {
        1int
    } else {
        0int
    })
}

/// Sum of the unit vectors of the held directions (up is +y).
pub open spec fn axis_sum(keys: DirectionKeys) -> Vector2 {
    Vector2 {
        x: axis_value(keys.left, keys.right) as i32,
        y: axis_value(keys.down, keys.up) as i32,
    }
}

pub open spec fn origin() -> Vector2 {
    Vector2 { x: 0, y: 0 }
}

/// `a / b` rounded toward zero (`b > 0`).
pub open spec fn div_toward_zero(a: int, b: int) -> int {
    if a >= 0 {
        a / b
    } else {
        -((-a) / b)
    }
}

/// Displacement along one axis: `intent * speed * dt`, with intent in
/// `INTENT_SCALE` steps and `dt` in microseconds, rounded toward zero.
pub open spec fn movement_component(intent: int, speed: int, dt_micros: int) -> int {
    div_toward_zero(intent * speed * dt_micros, INTENT_SCALE as int * MICROS_PER_SECOND as int)
}

/// The normalized intent of the held directions: the sum of their unit
/// vectors scaled to `INTENT_SCALE`, or exactly zero when the sum is zero.
pub fn intent_vector(keys: DirectionKeys) -> (r: Vector2)
    ensures
        is_direction(origin(), axis_sum(keys), INTENT_SCALE as int, r),
        magnitude(r.x as int) <= INTENT_SCALE,
        magnitude(r.y as int) <= INTENT_SCALE,
{
    let mut x: i32 = 0;
    let mut y: i32 = 0;
    if keys.left {
        x = x - 1;
    }
    if keys.right {
        x = x + 1;
    }
    if keys.up {
        y = y + 1;
    }
    if keys.down {
        y = y - 1;
    }
    let sum = Vector2 { x, y };
    assert(sum == axis_sum(keys));
    scaled_direction(Vector2 { x: 0, y: 0 }, sum, INTENT_SCALE)
}

/// A normalized intent vector is exactly zero when the held directions
/// cancel out or none is held, and otherwise has length `INTENT_SCALE` up to
/// rounding each component toward zero.
pub proof fn lemma_intent_unit_or_zero(keys: DirectionKeys, r: Vector2)
    requires
        is_direction(origin(), axis_sum(keys), INTENT_SCALE as int, r),
    ensures
        axis_sum(keys) == origin() ==> r == origin(),
        axis_sum(keys) != origin() ==> {
            &&& r.x * r.x + r.y * r.y <= INTENT_SCALE * INTENT_SCALE
            &&& INTENT_SCALE * INTENT_SCALE < (magnitude(r.x as int) + 1) * (magnitude(r.x as int)
                + 1) + (magnitude(r.y as int) + 1) * (magnitude(r.y as int) + 1)
        },
{
    if axis_sum(keys) != origin() {
        lemma_direction_length(origin(), axis_sum(keys), INTENT_SCALE as int, r);
    } else {
        let o = origin();
        assert((o.x - o.x) * (o.x - o.x) == 0 && (o.y - o.y) * (o.y - o.y) == 0) by (nonlinear_arith);
        assert(dist_sq(o, o) == 0);
    }
}

/// The displacement of one tick: `intent * speed * dt` on each axis, rounded
/// toward zero. `speed` is in world units per second, `dt_micros` in
/// microseconds.
pub fn movement_delta(intent: Vector2, speed: u32, dt_micros: u32) -> (r: Vector2)
    requires
        magnitude(intent.x as int) <= INTENT_SCALE,
        magnitude(intent.y as int) <= INTENT_SCALE,
        i32::MIN <= movement_component(intent.x as int, speed as int, dt_micros as int)
            <= i32::MAX,
        i32::MIN <= movement_component(intent.y as int, speed as int, dt_micros as int)
            <= i32::MAX,
    ensures
        r.x == movement_component(intent.x as int, speed as int, dt_micros as int),
        r.y == movement_component(intent.y as int, speed as int, dt_micros as int),
{
    let x = scale_axis(intent.x, speed, dt_micros);
    let y = scale_axis(intent.y, speed, dt_micros);
    Vector2 { x, y }
}

fn scale_axis(i: i32, speed: u32, dt_micros: u32) -> (r: i32)
    requires
        magnitude(i as int) <= INTENT_SCALE,
        i32::MIN <= movement_component(i as int, speed as int, dt_micros as int) <= i32::MAX,
    ensures
        r == movement_component(i as int, speed as int, dt_micros as int),
{
    let a: u128 = if i < 0 {
        (0 - (i as i64)) as u128
    } else {
        i as u128
    };
    let denom: u128 = (INTENT_SCALE as u128) * (MICROS_PER_SECOND as u128);
    proof {
        let ai = a as int;
        let sd = (speed as int) * (dt_micros as int);
        assert(0 <= sd <= 0x1_0000_0000 * 0x1_0000_0000) by (nonlinear_arith)
            requires
                sd == (speed as int) * (dt_micros as int),
                0 <= speed < 0x1_0000_0000,
                0 <= dt_micros < 0x1_0000_0000,
        ;
        assert(ai * sd <= 1_000_000 * (0x1_0000_0000 * 0x1_0000_0000)) by (nonlinear_arith)
            requires
                0 <= ai <= 1_000_000,
                0 <= sd <= 0x1_0000_0000 * 0x1_0000_0000,
        ;
        assert(0 <= ai * (speed as int) <= 1_000_000 * 0x1_0000_0000) by (nonlinear_arith)
            requires
                0 <= ai <= 1_000_000,
                0 <= speed < 0x1_0000_0000,
        ;
        assert((ai * (speed as int)) * (dt_micros as int) == ai * sd) by (nonlinear_arith)
            requires
                sd == (speed as int) * (dt_micros as int),
        ;
    }
    let p: u128 = a * (speed as u128) * (dt_micros as u128);
    let q: u128 = p / denom;
    proof {
        let ii = i as int;
        if ii < 0 {
            assert((-ii) * (speed as int) * (dt_micros as int) == -(ii * (speed as int) * (
            dt_micros as int))) by (nonlinear_arith);
        }
        assert(ii * (speed as int) * (dt_micros as int) >= 0 <==> ii >= 0 || (speed as int) * (
        dt_micros as int) == 0) by (nonlinear_arith)
            requires
                speed >= 0,
                dt_micros >= 0,
        ;
    }
    if i < 0 {
        (0 - (q as i64)) as i32
    } else {
        q as i32
    }
}

impl KeyEdge {
    pub fn new() -> (r: KeyEdge)
        ensures
            !r.was_down,
    {
        KeyEdge { was_down: false }
    }

    /// Records the key's state for this tick; true only when it went from up
    /// to down since the previous tick.
    pub fn pressed(&mut self, down: bool) -> (r: bool)
        ensures
            r == (down && !old(self).was_down),
            final(self).was_down == down,
    {
        let r = down && !self.was_down;
        self.was_down = down;
        r
    }
}

impl InputMapper {
    pub fn new() -> (r: InputMapper)
        ensures
            !r.shoot.was_down,
            !r.lock.was_down,
    {
        InputMapper { shoot: KeyEdge::new(), lock: KeyEdge::new() }
    }

    /// Maps one tick's key state to a normalized intent and the two
    /// edge-triggered actions.
    pub fn map(&mut self, keys: KeySnapshot) -> (r: TickInput)
        ensures
            is_direction(origin(), axis_sum(keys.directions), INTENT_SCALE as int, r.intent),
            magnitude(r.intent.x as int) <= INTENT_SCALE,
            magnitude(r.intent.y as int) <= INTENT_SCALE,
            r.shoot == (keys.shoot_down && !old(self).shoot.was_down),
            r.lock == (keys.lock_down && !old(self).lock.was_down),
            final(self).shoot.was_down == keys.shoot_down,
            final(self).lock.was_down == keys.lock_down,
    {
        let intent = intent_vector(keys.directions);
        let shoot = self.shoot.pressed(keys.shoot_down);
        let lock = self.lock.pressed(keys.lock_down);
        TickInput { intent, shoot, lock }
    }
}

} // verus!
