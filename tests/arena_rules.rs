use ball_arena::{
    Arena, BoundaryPolicy, DirectionKeys, Player, TickInput, Vector2, BALL_SIZE, INTENT_SCALE,
    PLAYER_RANGE, PLAYER_SIZE, PLAYER_SPEED, SHOOT_BASE_STRENGTH, intent_vector, random_position,
    spawn_player,
};

fn player_at(x: i32, y: i32, radius: i32) -> Player {
    Player { position: Vector2::new(x, y), radius, speed: 500, range: 10 }
}

fn arena_with(player: Player) -> Arena {
    Arena::new(800, 600, player, 5)
}

fn zero() -> Vector2 {
    Vector2::new(0, 0)
}

fn moving_right() -> Vector2 {
    intent_vector(DirectionKeys { left: false, right: true, up: false, down: false })
}

#[test]
fn spawn_player_centres_configured_player() {
    let p = spawn_player(800, 600);
    assert_eq!(p.position, Vector2::new(400, 300));
    assert_eq!(p.radius, PLAYER_SIZE / 2);
    assert_eq!(p.speed, PLAYER_SPEED);
    assert_eq!(p.range, PLAYER_RANGE);
}

#[test]
fn random_positions_lie_inside_the_arena() {
    for _ in 0..200 {
        let v = random_position(3, 2);
        assert!(0 <= v.x && v.x < 3);
        assert!(0 <= v.y && v.y < 2);
    }
    for _ in 0..50 {
        assert_eq!(random_position(1, 1), Vector2::new(0, 0));
    }
}

#[test]
fn spawn_ball_adds_resting_free_balls_with_fresh_handles() {
    let mut a = arena_with(spawn_player(800, 600));
    let ids = a.spawn_ball(3);
    assert_eq!(ids, vec![0, 1, 2]);
    assert_eq!(a.mobiles.len(), 3);
    assert_eq!(a.next_id, 3);
    for (k, m) in a.mobiles.iter().enumerate() {
        assert_eq!(m.id, k as u64);
        assert!(0 <= m.position.x && m.position.x < 800);
        assert!(0 <= m.position.y && m.position.y < 600);
        assert_eq!(m.velocity, zero());
        assert_eq!(m.radius, BALL_SIZE / 2);
        assert!(!m.locked);
    }
    let more = a.spawn_ball(1);
    assert_eq!(more, vec![3]);
}

#[test]
fn shoot_pushes_in_range_entities_away_from_player() {
    let mut a = arena_with(player_at(100, 100, 30));
    a.spawn_mobile(Vector2::new(130, 140), zero(), 35);
    a.spawn_mobile(Vector2::new(70, 60), Vector2::new(1, 2), 35);
    a.spawn_mobile(Vector2::new(100, 100), zero(), 35);
    a.mobiles[0].locked = true;
    a.shoot();
    assert_eq!(a.mobiles[0].impulse, Vector2::new(3, 4));
    assert_eq!(a.mobiles[0].velocity, zero());
    assert!(!a.mobiles[0].locked);
    assert_eq!(a.mobiles[1].velocity, Vector2::new(1, 2));
    assert_eq!(a.mobiles[1].impulse, Vector2::new(-3, -4));
    assert_eq!(a.mobiles[2].impulse, zero());
}

#[test]
fn shoot_out_of_range_only_releases_lock() {
    let mut a = arena_with(player_at(100, 100, 30));
    a.spawn_mobile(Vector2::new(500, 500), Vector2::new(7, -3), 35);
    a.spawn_mobile(Vector2::new(600, 100), zero(), 35);
    a.mobiles[0].impulse = Vector2::new(2, 2);
    a.mobiles[1].locked = true;
    a.shoot();
    assert_eq!(a.mobiles[0].velocity, Vector2::new(7, -3));
    assert_eq!(a.mobiles[0].impulse, Vector2::new(2, 2));
    assert_eq!(a.mobiles[0].position, Vector2::new(500, 500));
    assert!(!a.mobiles[0].locked);
    assert!(!a.mobiles[1].locked);
    assert_eq!(a.mobiles[1].velocity, zero());
    assert_eq!(a.mobiles[1].impulse, zero());
    assert_eq!(a.mobiles[1].position, Vector2::new(600, 100));
}

#[test]
fn lock_stops_and_locks_every_entity_in_range() {
    let mut a = arena_with(player_at(400, 300, 30));
    a.spawn_mobile(Vector2::new(460, 300), Vector2::new(5, 5), 30);
    a.spawn_mobile(Vector2::new(340, 300), Vector2::new(-5, 1), 30);
    a.spawn_mobile(Vector2::new(600, 300), Vector2::new(9, 9), 30);
    a.lock();
    assert!(a.mobiles[0].locked && a.mobiles[1].locked);
    assert_eq!(a.mobiles[0].velocity, zero());
    assert_eq!(a.mobiles[1].velocity, zero());
    assert!(!a.mobiles[2].locked);
    assert_eq!(a.mobiles[2].velocity, Vector2::new(9, 9));
    a.lock();
    assert!(a.mobiles[0].locked && a.mobiles[1].locked && !a.mobiles[2].locked);
}

#[test]
fn locked_entity_follows_moving_player_for_many_ticks() {
    let mut a = arena_with(player_at(100, 300, 30));
    a.spawn_mobile(Vector2::new(150, 320), Vector2::new(3, 0), 35);
    a.spawn_mobile(Vector2::new(700, 500), Vector2::new(1, 1), 35);
    a.lock();
    assert!(a.mobiles[0].locked);
    let free_before = a.mobiles[1];
    let right = moving_right();
    for tick in 0..100 {
        let input = TickInput { intent: right, shoot: false, lock: false };
        a.apply_input(input, 10_000);
        let removed = a.settle(BoundaryPolicy::ConfineAndBounce);
        assert!(removed.is_empty());
        let p = a.player.position;
        assert_eq!(p, Vector2::new(100 + 5 * (tick + 1), 300));
        assert_eq!(a.mobiles[0].position, Vector2::new(p.x + 30 + 35, p.y));
        assert!(a.mobiles[0].locked);
    }
    assert_eq!(a.mobiles[1].position, free_before.position);
    a.apply_input(TickInput { intent: zero(), shoot: true, lock: false }, 10_000);
    assert!(!a.mobiles[0].locked);
    assert_eq!(a.mobiles[0].impulse, Vector2::new(5, 0));
    let held = a.mobiles[0].position;
    a.apply_input(TickInput { intent: right, shoot: false, lock: false }, 10_000);
    a.settle(BoundaryPolicy::ConfineAndBounce);
    assert_eq!(a.mobiles[0].position, held);
}

#[test]
fn shoot_takes_precedence_over_lock_in_one_tick() {
    let mut a = arena_with(player_at(400, 300, 30));
    a.spawn_mobile(Vector2::new(460, 300), Vector2::new(1, 0), 30);
    a.apply_input(TickInput { intent: zero(), shoot: true, lock: true }, 16_000);
    assert!(!a.mobiles[0].locked);
    assert_eq!(a.mobiles[0].impulse, Vector2::new(5, 0));
    assert_eq!(a.mobiles[0].velocity, Vector2::new(1, 0));
}

#[test]
fn entity_past_the_right_edge_is_scored_and_removed() {
    let mut a = arena_with(player_at(400, 300, 30));
    let inside = a.spawn_mobile(Vector2::new(400, 400), zero(), 35);
    let out = a.spawn_mobile(Vector2::new(801, 300), zero(), 35);
    let removed = a.settle(BoundaryPolicy::ScoreAndDespawn);
    assert_eq!(removed, vec![out]);
    assert_eq!(a.score, 1);
    assert_eq!(a.mobiles.len(), 1);
    assert_eq!(a.mobiles[0].id, inside);
}

#[test]
fn score_accumulates_over_separate_crossings() {
    let mut a = arena_with(player_at(400, 300, 30));
    for n in 1..=5u64 {
        let id = a.spawn_mobile(Vector2::new(801, 300), zero(), 35);
        let removed = a.score_and_despawn();
        assert_eq!(removed, vec![id]);
        assert_eq!(a.score, n);
        assert!(a.mobiles.is_empty());
    }
    let removed = a.score_and_despawn();
    assert!(removed.is_empty());
    assert_eq!(a.score, 5);
}

#[test]
fn every_edge_counts_as_out_of_bounds() {
    let mut a = arena_with(player_at(400, 300, 30));
    a.spawn_mobile(Vector2::new(-1, 300), zero(), 35);
    a.spawn_mobile(Vector2::new(400, -1), zero(), 35);
    a.spawn_mobile(Vector2::new(400, 601), zero(), 35);
    a.spawn_mobile(Vector2::new(800, 600), zero(), 35);
    a.spawn_mobile(Vector2::new(0, 0), zero(), 35);
    let removed = a.score_and_despawn();
    assert_eq!(removed, vec![0, 1, 2]);
    assert_eq!(a.score, 3);
    assert_eq!(a.mobiles.len(), 2);
}

#[test]
fn marking_twice_scores_once_and_drain_removes() {
    let mut a = arena_with(player_at(400, 300, 30));
    a.spawn_mobile(Vector2::new(900, 300), zero(), 35);
    a.spawn_mobile(Vector2::new(10, 10), zero(), 35);
    let events = a.mark_out_of_bounds();
    assert_eq!(events, vec![0]);
    assert!(a.mobiles[0].removal_pending);
    assert_eq!(a.mobiles.len(), 2);
    let again = a.mark_out_of_bounds();
    assert!(again.is_empty());
    assert_eq!(a.score, 1);
    let removed = a.despawn_marked();
    assert_eq!(removed, vec![0]);
    assert_eq!(a.mobiles.len(), 1);
    assert_eq!(a.mobiles[0].id, 1);
}

#[test]
fn crossing_the_right_wall_clamps_and_reflects() {
    let mut a = arena_with(player_at(400, 300, 30));
    a.spawn_mobile(Vector2::new(760, 300), Vector2::new(10, 0), 35);
    let v = a.mobiles[0].velocity;
    a.mobiles[0].position = Vector2::new(760 + v.x, 300 + v.y);
    let removed = a.settle(BoundaryPolicy::ConfineAndBounce);
    assert!(removed.is_empty());
    assert_eq!(a.mobiles[0].position, Vector2::new(800 - 35, 300));
    assert_eq!(a.mobiles[0].velocity, Vector2::new(-10, 0));
    assert_eq!(a.score, 0);
}

#[test]
fn confine_handles_each_axis_independently() {
    let mut a = arena_with(player_at(400, 300, 30));
    a.spawn_mobile(Vector2::new(10, 590), Vector2::new(-4, 6), 20);
    a.spawn_mobile(Vector2::new(400, 300), Vector2::new(-4, 6), 20);
    a.confine_and_bounce();
    assert_eq!(a.mobiles[0].position, Vector2::new(20, 580));
    assert_eq!(a.mobiles[0].velocity, Vector2::new(4, -6));
    assert_eq!(a.mobiles[1].position, Vector2::new(400, 300));
    assert_eq!(a.mobiles[1].velocity, Vector2::new(-4, 6));
}

#[test]
fn confine_player_clamps_position() {
    let mut a = arena_with(player_at(-50, 620, 30));
    a.confine_player();
    assert_eq!(a.player.position, Vector2::new(30, 570));
    a.player.position = Vector2::new(400, 300);
    a.confine_player();
    assert_eq!(a.player.position, Vector2::new(400, 300));
}

#[test]
fn move_player_applies_intent_speed_and_time() {
    let mut a = arena_with(player_at(100, 300, 30));
    a.spawn_mobile(Vector2::new(500, 500), Vector2::new(1, 1), 35);
    a.move_player(moving_right(), 200_000);
    assert_eq!(a.player.position, Vector2::new(200, 300));
    assert_eq!(a.mobiles[0].position, Vector2::new(500, 500));
    let left_down = intent_vector(DirectionKeys { left: true, right: false, up: false, down: true });
    a.move_player(left_down, 100_000);
    assert_eq!(a.player.position, Vector2::new(165, 265));
    a.move_player(Vector2::new(0, 0), 100_000);
    assert_eq!(a.player.position, Vector2::new(165, 265));
    assert_eq!(INTENT_SCALE, 1_000_000);
}

#[test]
fn game_over_when_player_touches_an_entity() {
    let mut a = arena_with(player_at(400, 300, 30));
    a.spawn_mobile(Vector2::new(500, 300), zero(), 35);
    assert!(!a.game_over());
    a.spawn_mobile(Vector2::new(464, 300), zero(), 35);
    assert!(a.game_over());
    let mut b = arena_with(player_at(400, 300, 30));
    b.spawn_mobile(Vector2::new(465, 300), zero(), 35);
    assert!(!b.game_over());
}

#[test]
fn lock_scenario_out_of_reach_leaves_entity_free() {
    let mut a = arena_with(player_at(100, 300, 30));
    a.spawn_mobile(Vector2::new(400, 300), zero(), 30);
    a.apply_input(TickInput { intent: zero(), shoot: false, lock: true }, 16_000);
    assert!(!a.mobiles[0].locked);
    assert_eq!(a.mobiles[0].velocity, zero());
    a.apply_input(TickInput { intent: moving_right(), shoot: false, lock: false }, 200_000);
    assert_eq!(a.player.position, Vector2::new(200, 300));
    a.settle(BoundaryPolicy::ScoreAndDespawn);
    assert_eq!(a.mobiles[0].position, Vector2::new(400, 300));
}

#[test]
fn lock_scenario_in_reach_then_follow() {
    let mut a = arena_with(player_at(340, 300, 30));
    a.spawn_mobile(Vector2::new(400, 300), zero(), 30);
    a.apply_input(TickInput { intent: zero(), shoot: false, lock: true }, 16_000);
    assert!(a.mobiles[0].locked);
    assert_eq!(a.mobiles[0].velocity, zero());
    a.player.position = Vector2::new(100, 300);
    a.apply_input(TickInput { intent: moving_right(), shoot: false, lock: false }, 200_000);
    assert_eq!(a.player.position, Vector2::new(200, 300));
    let removed = a.settle(BoundaryPolicy::ScoreAndDespawn);
    assert!(removed.is_empty());
    assert_eq!(a.mobiles[0].position, Vector2::new(200 + 60, 300));
    assert!(a.mobiles[0].locked);
}

#[test]
fn default_tuning_uses_shoot_strength() {
    let mut a = Arena::new(800, 600, spawn_player(800, 600), SHOOT_BASE_STRENGTH);
    a.spawn_mobile(Vector2::new(400, 240), zero(), BALL_SIZE / 2);
    a.shoot();
    assert_eq!(a.mobiles[0].impulse, Vector2::new(0, -SHOOT_BASE_STRENGTH));
}

#[test]
fn follow_holds_locked_entity_at_rest() {
    let mut a = arena_with(player_at(400, 300, 30));
    a.spawn_mobile(Vector2::new(460, 300), Vector2::new(4, 4), 30);
    a.spawn_mobile(Vector2::new(100, 100), Vector2::new(4, 4), 30);
    a.lock();
    a.mobiles[0].velocity = Vector2::new(1, 0);
    a.follow();
    assert_eq!(a.mobiles[0].position, Vector2::new(460, 300));
    assert_eq!(a.mobiles[0].velocity, zero());
    assert_eq!(a.mobiles[1].velocity, Vector2::new(4, 4));
}

#[test]
fn wide_body_moving_left_is_placed_against_the_left_wall() {
    let mut a = arena_with(player_at(400, 300, 30));
    a.spawn_mobile(Vector2::new(400, 300), Vector2::new(-1, 0), 500);
    a.spawn_mobile(Vector2::new(400, 300), Vector2::new(1, 0), 500);
    a.spawn_mobile(Vector2::new(-5, 300), Vector2::new(-3, 0), 20);
    a.confine_and_bounce();
    assert_eq!(a.mobiles[0].position.x, 500);
    assert_eq!(a.mobiles[0].velocity, Vector2::new(1, 0));
    assert_eq!(a.mobiles[1].position.x, 300);
    assert_eq!(a.mobiles[1].velocity, Vector2::new(-1, 0));
    assert_eq!(a.mobiles[2].position, Vector2::new(20, 300));
    assert_eq!(a.mobiles[2].velocity, Vector2::new(3, 0));
}

#[test]
fn confine_settle_clamps_player_before_following() {
    let mut a = arena_with(player_at(790, 300, 30));
    a.spawn_mobile(Vector2::new(790, 340), zero(), 30);
    a.lock();
    assert!(a.mobiles[0].locked);
    let removed = a.settle(BoundaryPolicy::ConfineAndBounce);
    assert!(removed.is_empty());
    assert_eq!(a.player.position, Vector2::new(770, 300));
    assert_eq!(a.mobiles[0].position, Vector2::new(800 - 30, 300));
    assert_eq!(a.mobiles[0].velocity, zero());
}

#[test]
fn score_settle_leaves_player_unclamped() {
    let mut a = arena_with(player_at(790, 300, 30));
    a.settle(BoundaryPolicy::ScoreAndDespawn);
    assert_eq!(a.player.position, Vector2::new(790, 300));
}

#[test]
fn no_keys_no_movement() {
    let mut a = arena_with(player_at(123, 456, 30));
    let still = intent_vector(DirectionKeys { left: false, right: false, up: false, down: false });
    a.move_player(still, u32::MAX);
    assert_eq!(a.player.position, Vector2::new(123, 456));
}
