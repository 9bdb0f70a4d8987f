//! The arena: its configuration, the test that a configuration can be
//! played, and the entities that a session starts with.

use vstd::prelude::*;
use crate::arith::{diagonal_component, diagonal_component_of};
use crate::clock::MAX_TICKS_PER_SECOND;
use crate::entity::{Entity, EntityKind, PlayerId};
use crate::geometry::Vector2;

verus! {

/// Width of a paddle.
pub const PADDLE_WIDTH: i64 = 20_000;

/// Height of a paddle.
pub const PADDLE_HEIGHT: i64 = 120_000;

/// Distance of a paddle's centre from the centre line of the side wall
/// behind it.
pub const PADDLE_INSET: i64 = 50_000;

/// Distance of a paddle's starting height from the limit of its travel.
pub const PADDLE_START_INSET: i64 = 20_000;

/// Width and height of the ball.
pub const BALL_SIZE: i64 = 20_000;

/// Height at which the ball starts, on the vertical centre line.
pub const BALL_START_Y: i64 = -50_000;

/// Width of a scorable block.
pub const BLOCK_WIDTH: i64 = 25_000;

/// Height of a scorable block.
pub const BLOCK_HEIGHT: i64 = 80_000;

/// Distance of a block's centre from the centre line of the side wall
/// behind it.
pub const BLOCK_INSET: i64 = 20_000;

/// Height of the lowest block's centre above the centre line of the bottom
/// wall.
pub const BLOCK_BASE: i64 = 48_000;

/// The largest extent, speed or spacing that a configuration may ask for.
pub const MAX_EXTENT: i64 = 1_000_000_000_000;

/// The largest number of blocks per side that a configuration may ask for.
pub const MAX_ROWS: u32 = 1_000_000;

/// The constants of an arena, in grid steps and grid steps per second.
#[derive(Clone, Copy, Debug, PartialEq, Eq, Structural)]
pub struct ArenaConfig {
    /// Distance between the centre lines of the left and right walls.
    pub bounds_width: i64,
    /// Distance between the centre lines of the bottom and top walls.
    pub bounds_height: i64,
    pub wall_thickness: i64,
    pub paddle_speed: i64,
    pub ball_speed: i64,
    /// Number of scorable blocks on each side.
    pub block_row_count: u32,
    /// Vertical distance between the centres of neighbouring blocks.
    pub block_row_spacing: i64,
}

/// Why a configuration cannot be played.
#[derive(Clone, Copy, Debug, PartialEq, Eq, Structural)]
pub enum ConfigError {
    /// A bound or the wall thickness is negative.
    NegativeSize,
    /// A speed is negative.
    NegativeSpeed,
    /// The block spacing is negative.
    NegativeSpacing,
    /// An extent, speed or spacing exceeds `MAX_EXTENT`, or the number of
    /// rows exceeds `MAX_ROWS`.
    TooLarge,
    /// The arena leaves the paddles no room to stand or to travel.
    ArenaTooSmall,
    /// The tick rate is zero.
    ZeroTickRate,
    /// The tick rate exceeds `MAX_TICKS_PER_SECOND`.
    TickRateTooHigh,
}

impl ArenaConfig {
    /// The first fault of the configuration and tick rate, if there is one.
    pub open spec fn fault(self, ticks_per_second: u32) -> Option<ConfigError> {
        if self.bounds_width < 0 || self.bounds_height < 0 || self.wall_thickness < 0 {
            Some(ConfigError::NegativeSize)
        } else if self.paddle_speed < 0 || self.ball_speed < 0 {
            Some(ConfigError::NegativeSpeed)
        } else if self.block_row_spacing < 0 {
            Some(ConfigError::NegativeSpacing)
        } else if self.bounds_width > MAX_EXTENT || self.bounds_height > MAX_EXTENT
            || self.wall_thickness > MAX_EXTENT || self.paddle_speed > MAX_EXTENT
            || self.ball_speed > MAX_EXTENT || self.block_row_spacing > MAX_EXTENT
            || self.block_row_count > MAX_ROWS {
            Some(ConfigError::TooLarge)
        } else if self.bounds_width / 2 < PADDLE_INSET || self.paddle_limit()
            < PADDLE_START_INSET {
            Some(ConfigError::ArenaTooSmall)
        } else if ticks_per_second == 0 {
            Some(ConfigError::ZeroTickRate)
        } else if ticks_per_second > MAX_TICKS_PER_SECOND {
            Some(ConfigError::TickRateTooHigh)
        } else {
            None
        }
    }

    /// The configuration by itself can be played.
    pub open spec fn wf(self) -> bool {
        self.fault(1) is None
    }

    /// How far from the horizontal centre line a paddle's centre may go:
    /// the paddle stops two wall thicknesses short of the centre line of
    /// the top or bottom wall.
    pub open spec fn paddle_limit(self) -> int {
        self.bounds_height / 2 - PADDLE_HEIGHT / 2 - 2 * self.wall_thickness
    }

    /// The paddle of `player` at the start of a session: the first player's
    /// on the right and high, the second player's on the left and low.
    pub open spec fn paddle(self, player: PlayerId) -> Entity {
        let x = self.bounds_width / 2 - PADDLE_INSET;
        let y = self.paddle_limit() - PADDLE_START_INSET;
        Entity {
            position: match player {
                PlayerId::Player1 => Vector2 { x: x as i64, y: y as i64 },
                PlayerId::Player2 => Vector2 { x: (-x) as i64, y: (-y) as i64 },
            },
            size: Vector2 { x: PADDLE_WIDTH, y: PADDLE_HEIGHT },
            kind: EntityKind::Paddle { owner: player, speed: self.paddle_speed },
        }
    }

    /// The ball at the start of a session: below the centre, moving right
    /// and down along the diagonal at the configured speed.
    pub open spec fn ball(self) -> Entity {
        let component = diagonal_component(self.ball_speed as int);
        Entity {
            position: Vector2 { x: 0, y: BALL_START_Y },
            size: Vector2 { x: BALL_SIZE, y: BALL_SIZE },
            kind: EntityKind::Ball {
                velocity: Vector2 { x: component as i64, y: (-component) as i64 },
            },
        }
    }

    /// The four walls in the order left, right, bottom, top. Each is centred
    /// on a bound and reaches half a thickness past the corners.
    pub open spec fn walls(self) -> Seq<Entity> {
        let half_width = self.bounds_width / 2;
        let half_height = self.bounds_height / 2;
        let upright = Vector2 {
            x: self.wall_thickness,
            y: (self.bounds_height + self.wall_thickness) as i64,
        };
        let level = Vector2 {
            x: (self.bounds_width + self.wall_thickness) as i64,
            y: self.wall_thickness,
        };
        seq![
            Entity {
                position: Vector2 { x: (-half_width) as i64, y: 0 },
                size: upright,
                kind: EntityKind::Wall,
            },
            Entity {
                position: Vector2 { x: half_width as i64, y: 0 },
                size: upright,
                kind: EntityKind::Wall,
            },
            Entity {
                position: Vector2 { x: 0, y: (-half_height) as i64 },
                size: level,
                kind: EntityKind::Wall,
            },
            Entity {
                position: Vector2 { x: 0, y: half_height as i64 },
                size: level,
                kind: EntityKind::Wall,
            },
        ]
    }

    /// The block in the given row that scores for `player`. Rows count from
    /// the bottom; the first player's blocks stand on the right.
    pub open spec fn block(self, player: PlayerId, row: int) -> Entity {
        let x = self.bounds_width / 2 - BLOCK_INSET;
        let y = -(self.bounds_height / 2) + BLOCK_BASE + row * self.block_row_spacing;
        Entity {
            position: match player {
                PlayerId::Player1 => Vector2 { x: x as i64, y: y as i64 },
                PlayerId::Player2 => Vector2 { x: (-x) as i64, y: y as i64 },
            },
            size: Vector2 { x: BLOCK_WIDTH, y: BLOCK_HEIGHT },
            kind: EntityKind::ScorableBlock { owner: player },
        }
    }

    /// The blocks that score for `player`, from the bottom row up.
    pub open spec fn blocks(self, player: PlayerId) -> Seq<Entity> {
        Seq::new(self.block_row_count as nat, |row: int| self.block(player, row))
    }

    /// Walls and blocks in the order of their creation: the walls, the first
    /// player's blocks, the second player's blocks.
    pub open spec fn obstacles(self) -> Seq<Entity> {
        self.walls() + self.blocks(PlayerId::Player1) + self.blocks(PlayerId::Player2)
    }

    /// The arena of the reference layout: 900 by 600 units, walls 10 units
    /// thick, paddles at 500 and the ball at 400 units per second, 7 blocks
    /// per side, 84 units apart.
    pub fn reference() -> (config: ArenaConfig)
        ensures
            config == (ArenaConfig {
                bounds_width: 900_000,
                bounds_height: 600_000,
                wall_thickness: 10_000,
                paddle_speed: 500_000,
                ball_speed: 400_000,
                block_row_count: 7,
                block_row_spacing: 84_000,
            }),
            config.fault(60) is None,
            config.paddle_limit() == 220_000,
    {
        ArenaConfig {
            bounds_width: 900_000,
            bounds_height: 600_000,
            wall_thickness: 10_000,
            paddle_speed: 500_000,
            ball_speed: 400_000,
            block_row_count: 7,
            block_row_spacing: 84_000,
        }
    }

    /// Tests a configuration and a tick rate before a session is set up.
    pub fn validate(&self, ticks_per_second: u32) -> (outcome: Result<(), ConfigError>)
        ensures
            outcome == match self.fault(ticks_per_second) {
                Some(error) => Err::<(), ConfigError>(error),
                None => Ok(()),
            },
    {
        if self.bounds_width < 0 || self.bounds_height < 0 || self.wall_thickness < 0 {
            Err(ConfigError::NegativeSize)
        } else if self.paddle_speed < 0 || self.ball_speed < 0 {
            Err(ConfigError::NegativeSpeed)
        } else if self.block_row_spacing < 0 {
            Err(ConfigError::NegativeSpacing)
        } else if self.bounds_width > MAX_EXTENT || self.bounds_height > MAX_EXTENT
            || self.wall_thickness > MAX_EXTENT || self.paddle_speed > MAX_EXTENT
            || self.ball_speed > MAX_EXTENT || self.block_row_spacing > MAX_EXTENT
            || self.block_row_count > MAX_ROWS {
            Err(ConfigError::TooLarge)
        } else if self.bounds_width / 2 < PADDLE_INSET || self.bounds_height / 2 - PADDLE_HEIGHT
            / 2 - 2 * self.wall_thickness < PADDLE_START_INSET {
            Err(ConfigError::ArenaTooSmall)
        } else if ticks_per_second == 0 {
            Err(ConfigError::ZeroTickRate)
        } else if ticks_per_second > MAX_TICKS_PER_SECOND {
            Err(ConfigError::TickRateTooHigh)
        } else {
            Ok(())
        }
    }
}

impl ArenaConfig {
    /// Computes `paddle_limit`.
    pub fn paddle_travel(&self) -> (limit: i64)
        requires
            self.wf(),
        ensures
            limit == self.paddle_limit(),
            limit >= PADDLE_START_INSET,
    {
        self.bounds_height / 2 - PADDLE_HEIGHT / 2 - 2 * self.wall_thickness
    }

    /// Makes the paddle of `player` as a session starts with it.
    pub fn starting_paddle(&self, player: PlayerId) -> (paddle: Entity)
        requires
            self.wf(),
        ensures
            paddle == self.paddle(player),
            paddle.wf(),
            paddle.is_paddle_of(player),
            -self.paddle_limit() <= paddle.position.y <= self.paddle_limit(),
    {
        let x: i64 = self.bounds_width / 2 - PADDLE_INSET;
        let y: i64 = self.paddle_travel() - PADDLE_START_INSET;
        Entity {
            position: match player {
                PlayerId::Player1 => Vector2 { x, y },
                PlayerId::Player2 => Vector2 { x: -x, y: -y },
            },
            size: Vector2 { x: PADDLE_WIDTH, y: PADDLE_HEIGHT },
            kind: EntityKind::Paddle { owner: player, speed: self.paddle_speed },
        }
    }

    /// Makes the ball as a session starts with it.
    pub fn starting_ball(&self) -> (ball: Entity)
        requires
            self.wf(),
        ensures
            ball == self.ball(),
            ball.wf(),
            ball.kind is Ball,
    {
        let component: i64 = diagonal_component_of(self.ball_speed);
        Entity {
            position: Vector2 { x: 0, y: BALL_START_Y },
            size: Vector2 { x: BALL_SIZE, y: BALL_SIZE },
            kind: EntityKind::Ball { velocity: Vector2 { x: component, y: -component } },
        }
    }

    /// Makes the block in the given row that scores for `player`.
    pub fn starting_block(&self, player: PlayerId, row: u32) -> (block: Entity)
        requires
            self.wf(),
            row < self.block_row_count,
        ensures
            block == self.block(player, row as int),
            block.wf(),
    {
        proof {
            assert(0 <= row * self.block_row_spacing <= MAX_ROWS * MAX_EXTENT) by (nonlinear_arith)
                requires
                    0 <= row <= MAX_ROWS,
                    0 <= self.block_row_spacing <= MAX_EXTENT,
            ;
        }
        let x: i64 = self.bounds_width / 2 - BLOCK_INSET;
        let y: i64 = -(self.bounds_height / 2) + BLOCK_BASE + (row as i64) * self.block_row_spacing;
        Entity {
            position: match player {
                PlayerId::Player1 => Vector2 { x, y },
                PlayerId::Player2 => Vector2 { x: -x, y },
            },
            size: Vector2 { x: BLOCK_WIDTH, y: BLOCK_HEIGHT },
            kind: EntityKind::ScorableBlock { owner: player },
        }
    }

    /// Appends the blocks that score for `player` to `obstacles`.
    fn push_blocks(&self, player: PlayerId, obstacles: &mut Vec<Entity>)
        requires
            self.wf(),
        ensures
            final(obstacles)@ == old(obstacles)@ + self.blocks(player),
    {
        let ghost before = obstacles@;
        let mut row: u32 = 0;
        while row < self.block_row_count
            invariant
                self.wf(),
                row <= self.block_row_count,
                obstacles@.len() == before.len() + row,
                obstacles@ == before + self.blocks(player).take(row as int),
            decreases self.block_row_count - row,
        {
            let block = self.starting_block(player, row);
            obstacles.push(block);
            proof {
                assert(self.blocks(player).take(row as int + 1) =~= self.blocks(player).take(
                    row as int,
                ).push(block));
            }
            row = row + 1;
        }
        proof {
            assert(self.blocks(player).take(row as int) =~= self.blocks(player));
        }
    }

    /// Makes the walls and blocks as a session starts with them, in the
    /// order of their creation.
    pub fn starting_obstacles(&self) -> (obstacles: Vec<Entity>)
        requires
            self.wf(),
        ensures
            obstacles@ == self.obstacles(),
            obstacles@.len() == 4 + 2 * self.block_row_count,
    {
        let half_width: i64 = self.bounds_width / 2;
        let half_height: i64 = self.bounds_height / 2;
        let upright = Vector2 { x: self.wall_thickness, y: self.bounds_height + self.wall_thickness };
        let level = Vector2 { x: self.bounds_width + self.wall_thickness, y: self.wall_thickness };
        let mut obstacles: Vec<Entity> = Vec::new();
        obstacles.push(
            Entity { position: Vector2 { x: -half_width, y: 0 }, size: upright, kind: EntityKind::Wall },
        );
        obstacles.push(
            Entity { position: Vector2 { x: half_width, y: 0 }, size: upright, kind: EntityKind::Wall },
        );
        obstacles.push(
            Entity { position: Vector2 { x: 0, y: -half_height }, size: level, kind: EntityKind::Wall },
        );
        obstacles.push(
            Entity { position: Vector2 { x: 0, y: half_height }, size: level, kind: EntityKind::Wall },
        );
        proof {
            assert(obstacles@ =~= self.walls());
        }
        self.push_blocks(PlayerId::Player1, &mut obstacles);
        self.push_blocks(PlayerId::Player2, &mut obstacles);
        obstacles
    }
}

} // verus!
