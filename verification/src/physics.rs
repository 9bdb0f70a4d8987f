//! The movement of paddles and ball over one tick of fixed length.
//!
//! A tick lasts one second divided by the tick rate. Speeds are given per
//! second; the distance covered in a tick is the speed divided by the tick
//! rate, rounded toward zero.

use vstd::prelude::*;
use crate::arith::{clamp, clamped, div_toward_zero, saturate, toward_zero};
use crate::entity::{Entity, EntityKind};
use crate::geometry::Vector2;

verus! {

/// What a player asks of a paddle during one tick.
#[derive(Clone, Copy, Debug, PartialEq, Eq, Structural)]
pub enum Direction {
    Down,
    Still,
    Up,
}

/// The directions that both players ask for during one tick.
#[derive(Clone, Copy, Debug, PartialEq, Eq, Structural)]
pub struct TickInput {
    pub paddle1: Direction,
    pub paddle2: Direction,
}

impl Direction {
    /// -1 for `Down`, 0 for `Still`, +1 for `Up`.
    pub open spec fn sign(self) -> int {
        match self {
            Direction::Down => -1,
            Direction::Still => 0,
            Direction::Up => 1,
        }
    }

    /// The direction that two held keys ask for: each key pulls its way,
    /// and both together cancel.
    pub open spec fn of_keys(down: bool, up: bool) -> Direction {
        if down && !up {
            Direction::Down
        } else if up && !down {
            Direction::Up
        } else {
            Direction::Still
        }
    }

    pub fn from_keys(down: bool, up: bool) -> (direction: Direction)
        ensures
            direction == Direction::of_keys(down, up),
            direction.sign() == (if up { 1int } else { 0 }) - (if down { 1int } else { 0 }),
    {
        if down && !up {
            Direction::Down
        } else if up && !down {
            Direction::Up
        } else {
            Direction::Still
        }
    }
}

/// The height of a paddle after one tick: the old height plus the distance
/// covered in the asked direction, limited to `[low, high]`.
pub open spec fn paddle_height_after(
    y: int,
    direction: Direction,
    speed: int,
    ticks_per_second: int,
    low: int,
    high: int,
) -> int {
    clamped(y + direction.sign() * toward_zero(speed, ticks_per_second), low, high)
}

/// One coordinate of the ball after one tick. A ball at the edge of the
/// coordinate range stays there.
pub open spec fn coordinate_after(position: int, velocity: int, ticks_per_second: int) -> int {
    clamped(position + toward_zero(velocity, ticks_per_second), i64::MIN as int, i64::MAX as int)
}

/// A paddle after one tick; any other entity unchanged.
pub open spec fn paddle_moved(
    entity: Entity,
    direction: Direction,
    ticks_per_second: u32,
    low: i64,
    high: i64,
) -> Entity {
    match entity.kind {
        EntityKind::Paddle { owner, speed } => Entity {
            position: Vector2 {
                x: entity.position.x,
                y: paddle_height_after(
                    entity.position.y as int,
                    direction,
                    speed as int,
                    ticks_per_second as int,
                    low as int,
                    high as int,
                ) as i64,
            },
            size: entity.size,
            kind: entity.kind,
        },
        EntityKind::Ball { velocity } => entity,
        EntityKind::Wall => entity,
        EntityKind::ScorableBlock { owner } => entity,
    }
}

/// A ball after one tick; any other entity unchanged.
pub open spec fn ball_moved(entity: Entity, ticks_per_second: u32) -> Entity {
    match entity.kind {
        EntityKind::Ball { velocity } => Entity {
            position: Vector2 {
                x: coordinate_after(
                    entity.position.x as int,
                    velocity.x as int,
                    ticks_per_second as int,
                ) as i64,
                y: coordinate_after(
                    entity.position.y as int,
                    velocity.y as int,
                    ticks_per_second as int,
                ) as i64,
            },
            size: entity.size,
            kind: entity.kind,
        },
        EntityKind::Paddle { owner, speed } => entity,
        EntityKind::Wall => entity,
        EntityKind::ScorableBlock { owner } => entity,
    }
}

/// Moves a paddle for one tick in the asked direction and keeps it within
/// `[low, high]`. Only the height of a paddle changes; an entity of another
/// kind is left as it is.
pub fn move_paddle(
    entity: &mut Entity,
    direction: Direction,
    ticks_per_second: u32,
    low: i64,
    high: i64,
)
    requires
        ticks_per_second > 0,
    ensures
        *final(entity) == paddle_moved(*old(entity), direction, ticks_per_second, low, high),
        old(entity).kind is Paddle && low <= high ==> low <= final(entity).position.y <= high,
        final(entity).wf() == old(entity).wf(),
{
    match entity.kind {
        EntityKind::Paddle { owner, speed } => {
            let distance: i64 = div_toward_zero(speed, ticks_per_second);
            let target: i128 = match direction {
                Direction::Down => entity.position.y as i128 - distance as i128,
                Direction::Still => entity.position.y as i128,
                Direction::Up => entity.position.y as i128 + distance as i128,
            };
            entity.position.y = clamp(target, low, high);
        },
        EntityKind::Ball { velocity } => {},
        EntityKind::Wall => {},
        EntityKind::ScorableBlock { owner } => {},
    }
}

/// Moves a ball for one tick along its velocity. Only the position of a
/// ball changes; an entity of another kind is left as it is.
pub fn move_ball(entity: &mut Entity, ticks_per_second: u32)
    requires
        ticks_per_second > 0,
    ensures
        *final(entity) == ball_moved(*old(entity), ticks_per_second),
        final(entity).wf() == old(entity).wf(),
{
    match entity.kind {
        EntityKind::Ball { velocity } => {
            let dx: i64 = div_toward_zero(velocity.x, ticks_per_second);
            let dy: i64 = div_toward_zero(velocity.y, ticks_per_second);
            entity.position.x = saturate(entity.position.x as i128 + dx as i128);
            entity.position.y = saturate(entity.position.y as i128 + dy as i128);
        },
        EntityKind::Paddle { owner, speed } => {},
        EntityKind::Wall => {},
        EntityKind::ScorableBlock { owner } => {},
    }
}

/// The entity after one paddle move for each direction, in order.
pub open spec fn paddle_after_inputs(
    entity: Entity,
    inputs: Seq<Direction>,
    ticks_per_second: u32,
    low: i64,
    high: i64,
) -> Entity
    decreases inputs.len(),
{
    if inputs.len() == 0 {
        entity
    } else {
        paddle_moved(
            paddle_after_inputs(entity, inputs.drop_last(), ticks_per_second, low, high),
            inputs.last(),
            ticks_per_second,
            low,
            high,
        )
    }
}

/// Whatever directions are asked over any number of ticks, a paddle that
/// starts within `[low, high]` stays within `[low, high]`.
pub proof fn lemma_paddle_stays_within_limits(
    entity: Entity,
    inputs: Seq<Direction>,
    ticks_per_second: u32,
    low: i64,
    high: i64,
)
    requires
        entity.kind is Paddle,
        low <= high,
        low <= entity.position.y <= high,
    ensures
        ({
            let moved = paddle_after_inputs(entity, inputs, ticks_per_second, low, high);
            &&& low <= moved.position.y <= high
            &&& moved.position.x == entity.position.x
            &&& moved.size == entity.size
            &&& moved.kind == entity.kind
        }),
    decreases inputs.len(),
{
    if inputs.len() > 0 {
        lemma_paddle_stays_within_limits(entity, inputs.drop_last(), ticks_per_second, low, high);
    }
}

} // verus!
