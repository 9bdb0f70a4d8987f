//! The simulated objects: a ball, paddles, walls and scorable blocks.

use vstd::prelude::*;
use crate::geometry::{Aabb, Vector2};

verus! {

/// One of the two players.
#[derive(Clone, Copy, Debug, PartialEq, Eq, Structural)]
pub enum PlayerId {
    Player1,
    Player2,
}

/// What an entity is, with the data that only its kind carries.
///
/// The owner of a scorable block is the player whose score grows when the
/// ball destroys the block.
#[derive(Clone, Copy, Debug, PartialEq, Eq, Structural)]
pub enum EntityKind {
    Paddle { owner: PlayerId, speed: i64 },
    Ball { velocity: Vector2 },
    Wall,
    ScorableBlock { owner: PlayerId },
}

/// A simulated object: the centre of its bounding box, the extent of the
/// box, and its kind.
#[derive(Clone, Copy, Debug, PartialEq, Eq, Structural)]
pub struct Entity {
    pub position: Vector2,
    pub size: Vector2,
    pub kind: EntityKind,
}

/// Both components can change sign without leaving the coordinate range.
pub open spec fn reversible(velocity: Vector2) -> bool {
    velocity.x > i64::MIN && velocity.y > i64::MIN
}

impl Entity {
    /// The bounding box of the entity.
    pub open spec fn bounds(self) -> Aabb {
        Aabb { center: self.position, size: self.size }
    }

    /// The extent is non-negative, a paddle's speed is non-negative and a
    /// ball's velocity is reversible.
    pub open spec fn wf(self) -> bool {
        &&& self.size.x >= 0
        &&& self.size.y >= 0
        &&& match self.kind {
            EntityKind::Paddle { owner, speed } => speed >= 0,
            EntityKind::Ball { velocity } => reversible(velocity),
            EntityKind::Wall => true,
            EntityKind::ScorableBlock { owner } => true,
        }
    }

    /// A paddle that `player` steers.
    pub open spec fn is_paddle_of(self, player: PlayerId) -> bool {
        self.kind matches EntityKind::Paddle { owner, speed } && owner == player
    }

    /// A wall or a scorable block: what the ball meets besides the paddles.
    pub open spec fn is_obstacle(self) -> bool {
        self.kind is Wall || self.kind is ScorableBlock
    }

    /// The velocity of a ball; the zero vector for any other kind.
    pub open spec fn velocity(self) -> Vector2 {
        match self.kind {
            EntityKind::Ball { velocity } => velocity,
            _ => Vector2 { x: 0, y: 0 },
        }
    }

    /// The velocity of a ball; the zero vector for any other kind.
    pub fn ball_velocity(&self) -> (velocity: Vector2)
        ensures
            velocity == self.velocity(),
    {
        match self.kind {
            EntityKind::Ball { velocity } => velocity,
            EntityKind::Paddle { owner, speed } => Vector2 { x: 0, y: 0 },
            EntityKind::Wall => Vector2 { x: 0, y: 0 },
            EntityKind::ScorableBlock { owner } => Vector2 { x: 0, y: 0 },
        }
    }

    /// The bounding box of the entity.
    pub fn bounding_box(&self) -> (aabb: Aabb)
        ensures
            aabb == self.bounds(),
    {
        Aabb { center: self.position, size: self.size }
    }
}

} // verus!
