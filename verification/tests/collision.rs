use breakout_pong::collision::{reflect, resolve_collisions, strike, Contact};
use breakout_pong::entity::{Entity, EntityKind, PlayerId};
use breakout_pong::geometry::{Aabb, Side, Vector2};
use breakout_pong::scoreboard::Scoreboard;

fn v(x: i64, y: i64) -> Vector2 {
    Vector2 { x, y }
}

fn aabb(cx: i64, cy: i64, w: i64, h: i64) -> Aabb {
    Aabb { center: v(cx, cy), size: v(w, h) }
}

fn wall(cx: i64, cy: i64, w: i64, h: i64) -> Entity {
    Entity { position: v(cx, cy), size: v(w, h), kind: EntityKind::Wall }
}

fn block(owner: PlayerId, cx: i64, cy: i64) -> Entity {
    Entity { position: v(cx, cy), size: v(25, 80), kind: EntityKind::ScorableBlock { owner } }
}

fn paddle(cx: i64, cy: i64) -> Entity {
    Entity {
        position: v(cx, cy),
        size: v(20, 120),
        kind: EntityKind::Paddle { owner: PlayerId::Player1, speed: 500 },
    }
}

fn board(score1: u32, score2: u32) -> Scoreboard {
    Scoreboard { score1, score2 }
}

#[test]
fn reflection_flips_only_a_component_that_points_into_the_face() {
    assert_eq!(reflect(v(3, 4), Side::Left), v(-3, 4));
    assert_eq!(reflect(v(-3, 4), Side::Left), v(-3, 4));
    assert_eq!(reflect(v(-3, 4), Side::Right), v(3, 4));
    assert_eq!(reflect(v(3, 4), Side::Right), v(3, 4));
    assert_eq!(reflect(v(3, -4), Side::Top), v(3, 4));
    assert_eq!(reflect(v(3, 4), Side::Top), v(3, 4));
    assert_eq!(reflect(v(3, 4), Side::Bottom), v(3, -4));
    assert_eq!(reflect(v(3, -4), Side::Bottom), v(3, -4));
}

#[test]
fn reflection_leaves_a_ball_at_rest_alone() {
    for side in [Side::Left, Side::Right, Side::Top, Side::Bottom] {
        assert_eq!(reflect(v(0, 0), side), v(0, 0));
    }
}

#[test]
fn reflection_is_idempotent() {
    let velocities = [v(3, 4), v(-3, 4), v(3, -4), v(-3, -4), v(0, 7), v(i64::MAX, i64::MIN + 1)];
    for velocity in velocities {
        for side in [Side::Left, Side::Right, Side::Top, Side::Bottom] {
            let once = reflect(velocity, side);
            assert_eq!(reflect(once, side), once);
        }
    }
}

#[test]
fn reflection_at_the_ends_of_the_range() {
    assert_eq!(reflect(v(i64::MAX, 1), Side::Left), v(-i64::MAX, 1));
    assert_eq!(reflect(v(-i64::MAX, 1), Side::Right), v(i64::MAX, 1));
}

#[test]
fn a_ball_that_misses_changes_nothing() {
    let contact = strike(aabb(0, 0, 20, 20), v(5, 5), board(1, 2), &wall(100, 0, 10, 100));
    assert_eq!(
        contact,
        Contact { velocity: v(5, 5), scoreboard: board(1, 2), destroyed: false, solid: false }
    );
}

#[test]
fn a_wall_reflects_and_is_solid() {
    let contact = strike(aabb(88, 0, 20, 20), v(5, 5), board(1, 2), &wall(100, 0, 10, 100));
    assert_eq!(
        contact,
        Contact { velocity: v(-5, 5), scoreboard: board(1, 2), destroyed: false, solid: true }
    );
}

#[test]
fn a_paddle_reflects_and_is_soft() {
    let contact = strike(aabb(381, 0, 20, 20), v(5, 5), board(1, 2), &paddle(400, 0));
    assert_eq!(
        contact,
        Contact { velocity: v(-5, 5), scoreboard: board(1, 2), destroyed: false, solid: false }
    );
}

#[test]
fn a_block_credits_its_owner_and_is_destroyed() {
    let ball = aabb(410, 0, 20, 20);
    let first = strike(ball, v(5, 5), board(1, 2), &block(PlayerId::Player1, 430, 0));
    assert_eq!(
        first,
        Contact { velocity: v(-5, 5), scoreboard: board(2, 2), destroyed: true, solid: false }
    );
    let second = strike(ball, v(5, 5), board(1, 2), &block(PlayerId::Player2, 430, 0));
    assert_eq!(
        second,
        Contact { velocity: v(-5, 5), scoreboard: board(1, 3), destroyed: true, solid: false }
    );
}

#[test]
fn a_block_is_destroyed_even_when_the_ball_moves_away() {
    let contact =
        strike(aabb(410, 0, 20, 20), v(-5, 5), board(0, 0), &block(PlayerId::Player1, 430, 0));
    assert_eq!(
        contact,
        Contact { velocity: v(-5, 5), scoreboard: board(1, 0), destroyed: true, solid: false }
    );
}

#[test]
fn a_ball_is_no_collider() {
    let other = Entity {
        position: v(0, 0),
        size: v(20, 20),
        kind: EntityKind::Ball { velocity: v(1, 1) },
    };
    let contact = strike(aabb(5, 0, 20, 20), v(-5, 5), board(0, 0), &other);
    assert_eq!(
        contact,
        Contact { velocity: v(-5, 5), scoreboard: board(0, 0), destroyed: false, solid: false }
    );
}

#[test]
fn a_wall_struck_from_the_left_turns_the_ball_once() {
    // The ball approaches the right wall from the left.
    let ball = aabb(440, 0, 20, 20);
    let mut velocity = v(282, -282);
    let mut scoreboard = board(0, 0);
    let mut colliders = vec![wall(450, 0, 10, 610)];
    resolve_collisions(ball, &mut velocity, &mut scoreboard, &mut colliders);
    assert_eq!(velocity, v(-282, -282));
    assert!(velocity.x < 0);
    // Resolved again at once, the receding ball is not turned back.
    resolve_collisions(ball, &mut velocity, &mut scoreboard, &mut colliders);
    assert_eq!(velocity, v(-282, -282));
    assert_eq!(colliders, vec![wall(450, 0, 10, 610)]);
    assert_eq!(scoreboard, board(0, 0));
}

#[test]
fn the_bottom_wall_turns_a_falling_ball_upward() {
    let ball = aabb(235_700, -285_700, 20_000, 20_000);
    let mut velocity = v(282_842, -282_842);
    let mut scoreboard = board(0, 0);
    let mut colliders = vec![wall(0, -300_000, 910_000, 10_000)];
    resolve_collisions(ball, &mut velocity, &mut scoreboard, &mut colliders);
    assert_eq!(velocity, v(282_842, 282_842));
}

#[test]
fn the_first_wall_ends_the_resolution() {
    // The ball overlaps a wall and a block; the wall comes first.
    let ball = aabb(0, 0, 20, 20);
    let mut velocity = v(5, 5);
    let mut scoreboard = board(0, 0);
    let mut colliders = vec![wall(15, 0, 20, 100), block(PlayerId::Player1, 0, 45)];
    resolve_collisions(ball, &mut velocity, &mut scoreboard, &mut colliders);
    assert_eq!(velocity, v(-5, 5));
    assert_eq!(scoreboard, board(0, 0));
    assert_eq!(colliders, vec![wall(15, 0, 20, 100), block(PlayerId::Player1, 0, 45)]);
}

#[test]
fn a_block_before_a_wall_is_destroyed_as_well() {
    let ball = aabb(0, 0, 20, 20);
    let mut velocity = v(5, 5);
    let mut scoreboard = board(0, 0);
    let mut colliders = vec![block(PlayerId::Player1, 0, 45), wall(15, 0, 20, 100)];
    resolve_collisions(ball, &mut velocity, &mut scoreboard, &mut colliders);
    // The block is struck from below, the wall from the left.
    assert_eq!(velocity, v(-5, -5));
    assert_eq!(scoreboard, board(1, 0));
    assert_eq!(colliders, vec![wall(15, 0, 20, 100)]);
}

#[test]
fn several_soft_colliders_are_all_resolved() {
    let ball = aabb(0, 0, 20, 20);
    let mut velocity = v(5, 5);
    let mut scoreboard = board(3, 4);
    let far = wall(1_000, 1_000, 10, 10);
    let mut colliders = vec![
        far,
        block(PlayerId::Player1, 20, 0),
        block(PlayerId::Player2, 20, 10),
        block(PlayerId::Player2, 500, 500),
        block(PlayerId::Player1, -20, 0),
    ];
    resolve_collisions(ball, &mut velocity, &mut scoreboard, &mut colliders);
    // Struck on the left faces of two blocks, then on the right face of a third.
    assert_eq!(velocity, v(5, 5));
    assert_eq!(scoreboard, board(5, 5));
    assert_eq!(colliders, vec![far, block(PlayerId::Player2, 500, 500)]);
}

#[test]
fn equal_blocks_are_each_credited_once() {
    let ball = aabb(0, 0, 20, 20);
    let mut velocity = v(5, 0);
    let mut scoreboard = board(0, 0);
    let same = block(PlayerId::Player2, 20, 0);
    let mut colliders = vec![same, same, same];
    resolve_collisions(ball, &mut velocity, &mut scoreboard, &mut colliders);
    assert_eq!(scoreboard, board(0, 3));
    assert_eq!(colliders, vec![]);
}

#[test]
fn a_destroyed_block_is_not_met_again() {
    let ball = aabb(0, 0, 20, 20);
    let mut velocity = v(5, 5);
    let mut scoreboard = board(0, 0);
    let keeper = paddle(-15, 0);
    let mut colliders = vec![keeper, block(PlayerId::Player1, 20, 0)];
    resolve_collisions(ball, &mut velocity, &mut scoreboard, &mut colliders);
    assert_eq!(scoreboard, board(1, 0));
    assert_eq!(colliders, vec![keeper]);
    for _ in 0..3 {
        resolve_collisions(ball, &mut velocity, &mut scoreboard, &mut colliders);
        assert_eq!(scoreboard, board(1, 0));
        assert_eq!(colliders, vec![keeper]);
    }
}

#[test]
fn nothing_to_collide_with_changes_nothing() {
    let mut velocity = v(5, 5);
    let mut scoreboard = board(7, 8);
    let mut colliders: Vec<Entity> = vec![];
    resolve_collisions(aabb(0, 0, 20, 20), &mut velocity, &mut scoreboard, &mut colliders);
    assert_eq!(velocity, v(5, 5));
    assert_eq!(scoreboard, board(7, 8));
    assert!(colliders.is_empty());
}

#[test]
fn scores_count_up_by_one() {
    let mut scoreboard = Scoreboard::new();
    assert_eq!(scoreboard, board(0, 0));
    scoreboard.credit(PlayerId::Player1);
    assert_eq!(scoreboard, board(1, 0));
    scoreboard.credit(PlayerId::Player2);
    scoreboard.credit(PlayerId::Player2);
    assert_eq!(scoreboard, board(1, 2));
    assert_eq!(scoreboard.score(PlayerId::Player1), 1);
    assert_eq!(scoreboard.score(PlayerId::Player2), 2);
    let mut high = board(u32::MAX - 1, 0);
    high.credit(PlayerId::Player1);
    assert_eq!(high, board(u32::MAX, 0));
}
