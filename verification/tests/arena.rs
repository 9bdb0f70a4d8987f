use breakout_pong::arena::{ArenaConfig, ConfigError};
use breakout_pong::entity::{Entity, EntityKind, PlayerId};
use breakout_pong::geometry::Vector2;

fn v(x: i64, y: i64) -> Vector2 {
    Vector2 { x, y }
}

#[test]
fn the_reference_arena_is_playable() {
    let config = ArenaConfig::reference();
    assert_eq!(config.bounds_width, 900_000);
    assert_eq!(config.bounds_height, 600_000);
    assert_eq!(config.wall_thickness, 10_000);
    assert_eq!(config.paddle_speed, 500_000);
    assert_eq!(config.ball_speed, 400_000);
    assert_eq!(config.block_row_count, 7);
    assert_eq!(config.block_row_spacing, 84_000);
    assert_eq!(config.validate(60), Ok(()));
    assert_eq!(config.paddle_travel(), 220_000);
}

#[test]
fn negative_sizes_are_refused() {
    let reference = ArenaConfig::reference();
    let narrow = ArenaConfig { bounds_width: -1, ..reference };
    assert_eq!(narrow.validate(60), Err(ConfigError::NegativeSize));
    let low = ArenaConfig { bounds_height: -600_000, ..reference };
    assert_eq!(low.validate(60), Err(ConfigError::NegativeSize));
    let thin = ArenaConfig { wall_thickness: -1, ..reference };
    assert_eq!(thin.validate(60), Err(ConfigError::NegativeSize));
}

#[test]
fn negative_speeds_are_refused() {
    let reference = ArenaConfig::reference();
    let paddle = ArenaConfig { paddle_speed: -1, ..reference };
    assert_eq!(paddle.validate(60), Err(ConfigError::NegativeSpeed));
    let ball = ArenaConfig { ball_speed: i64::MIN, ..reference };
    assert_eq!(ball.validate(60), Err(ConfigError::NegativeSpeed));
}

#[test]
fn negative_spacing_is_refused() {
    let config = ArenaConfig { block_row_spacing: -84_000, ..ArenaConfig::reference() };
    assert_eq!(config.validate(60), Err(ConfigError::NegativeSpacing));
}

#[test]
fn values_beyond_the_limits_are_refused() {
    let reference = ArenaConfig::reference();
    let wide = ArenaConfig { bounds_width: 1_000_000_000_001, ..reference };
    assert_eq!(wide.validate(60), Err(ConfigError::TooLarge));
    let fast = ArenaConfig { ball_speed: i64::MAX, ..reference };
    assert_eq!(fast.validate(60), Err(ConfigError::TooLarge));
    let many = ArenaConfig { block_row_count: 1_000_001, ..reference };
    assert_eq!(many.validate(60), Err(ConfigError::TooLarge));
    let most = ArenaConfig {
        bounds_width: 1_000_000_000_000,
        bounds_height: 1_000_000_000_000,
        wall_thickness: 0,
        paddle_speed: 1_000_000_000_000,
        ball_speed: 1_000_000_000_000,
        block_row_count: 1_000_000,
        block_row_spacing: 1_000_000_000_000,
    };
    assert_eq!(most.validate(60), Ok(()));
}

#[test]
fn an_arena_without_room_for_the_paddles_is_refused() {
    let reference = ArenaConfig::reference();
    let narrow = ArenaConfig { bounds_width: 99_999, ..reference };
    assert_eq!(narrow.validate(60), Err(ConfigError::ArenaTooSmall));
    let just_wide_enough = ArenaConfig { bounds_width: 100_000, ..reference };
    assert_eq!(just_wide_enough.validate(60), Ok(()));
    let low = ArenaConfig { bounds_height: 199_999, ..reference };
    assert_eq!(low.validate(60), Err(ConfigError::ArenaTooSmall));
    let just_high_enough = ArenaConfig { bounds_height: 200_000, ..reference };
    assert_eq!(just_high_enough.validate(60), Ok(()));
    let thick = ArenaConfig { wall_thickness: 110_001, ..reference };
    assert_eq!(thick.validate(60), Err(ConfigError::ArenaTooSmall));
    let empty = ArenaConfig {
        bounds_width: 0,
        bounds_height: 0,
        wall_thickness: 0,
        paddle_speed: 0,
        ball_speed: 0,
        block_row_count: 0,
        block_row_spacing: 0,
    };
    assert_eq!(empty.validate(60), Err(ConfigError::ArenaTooSmall));
}

#[test]
fn a_tick_rate_of_zero_is_refused() {
    assert_eq!(ArenaConfig::reference().validate(0), Err(ConfigError::ZeroTickRate));
    assert_eq!(ArenaConfig::reference().validate(1), Ok(()));
}

#[test]
fn a_tick_rate_beyond_the_limit_is_refused() {
    assert_eq!(ArenaConfig::reference().validate(1_000_000_000), Ok(()));
    assert_eq!(ArenaConfig::reference().validate(1_000_000_001), Err(ConfigError::TickRateTooHigh));
    assert_eq!(ArenaConfig::reference().validate(u32::MAX), Err(ConfigError::TickRateTooHigh));
}

#[test]
fn the_first_fault_is_reported() {
    let reference = ArenaConfig::reference();
    let config = ArenaConfig { bounds_width: -1, ball_speed: -1, block_row_spacing: -1, ..reference };
    assert_eq!(config.validate(0), Err(ConfigError::NegativeSize));
    let config = ArenaConfig { ball_speed: -1, block_row_spacing: -1, ..reference };
    assert_eq!(config.validate(0), Err(ConfigError::NegativeSpeed));
    let config = ArenaConfig { block_row_spacing: -1, block_row_count: u32::MAX, ..reference };
    assert_eq!(config.validate(0), Err(ConfigError::NegativeSpacing));
    let config = ArenaConfig { block_row_count: u32::MAX, bounds_width: 0, ..reference };
    assert_eq!(config.validate(0), Err(ConfigError::TooLarge));
    let config = ArenaConfig { bounds_width: 0, ..reference };
    assert_eq!(config.validate(0), Err(ConfigError::ArenaTooSmall));
}

#[test]
fn the_paddles_start_on_opposite_sides() {
    let config = ArenaConfig::reference();
    assert_eq!(
        config.starting_paddle(PlayerId::Player1),
        Entity {
            position: v(400_000, 200_000),
            size: v(20_000, 120_000),
            kind: EntityKind::Paddle { owner: PlayerId::Player1, speed: 500_000 },
        }
    );
    assert_eq!(
        config.starting_paddle(PlayerId::Player2),
        Entity {
            position: v(-400_000, -200_000),
            size: v(20_000, 120_000),
            kind: EntityKind::Paddle { owner: PlayerId::Player2, speed: 500_000 },
        }
    );
}

#[test]
fn the_ball_starts_on_the_diagonal() {
    let ball = ArenaConfig::reference().starting_ball();
    assert_eq!(
        ball,
        Entity {
            position: v(0, -50_000),
            size: v(20_000, 20_000),
            kind: EntityKind::Ball { velocity: v(282_842, -282_842) },
        }
    );
    let speed = ((282_842f64 * 282_842f64) * 2.0).sqrt() / 1000.0;
    assert!((speed - 400.0).abs() < 0.01);
}

#[test]
fn walls_come_first_and_then_the_blocks_of_each_player() {
    let obstacles = ArenaConfig::reference().starting_obstacles();
    assert_eq!(obstacles.len(), 18);
    let wall = |x: i64, y: i64, w: i64, h: i64| Entity {
        position: v(x, y),
        size: v(w, h),
        kind: EntityKind::Wall,
    };
    assert_eq!(obstacles[0], wall(-450_000, 0, 10_000, 610_000));
    assert_eq!(obstacles[1], wall(450_000, 0, 10_000, 610_000));
    assert_eq!(obstacles[2], wall(0, -300_000, 910_000, 10_000));
    assert_eq!(obstacles[3], wall(0, 300_000, 910_000, 10_000));
    for row in 0..7 {
        assert_eq!(
            obstacles[4 + row],
            Entity {
                position: v(430_000, -252_000 + 84_000 * row as i64),
                size: v(25_000, 80_000),
                kind: EntityKind::ScorableBlock { owner: PlayerId::Player1 },
            }
        );
        assert_eq!(
            obstacles[11 + row],
            Entity {
                position: v(-430_000, -252_000 + 84_000 * row as i64),
                size: v(25_000, 80_000),
                kind: EntityKind::ScorableBlock { owner: PlayerId::Player2 },
            }
        );
        assert_eq!(obstacles[4 + row], ArenaConfig::reference().starting_block(PlayerId::Player1, row as u32));
    }
}

#[test]
fn an_arena_without_blocks_has_only_walls() {
    let config = ArenaConfig { block_row_count: 0, ..ArenaConfig::reference() };
    let obstacles = config.starting_obstacles();
    assert_eq!(obstacles.len(), 4);
    assert!(obstacles.iter().all(|e| e.kind == EntityKind::Wall));
}

#[test]
fn odd_bounds_are_halved_toward_zero() {
    let config = ArenaConfig { bounds_width: 900_001, bounds_height: 600_001, ..ArenaConfig::reference() };
    assert_eq!(config.validate(60), Ok(()));
    let obstacles = config.starting_obstacles();
    assert_eq!(obstacles[0].position, v(-450_000, 0));
    assert_eq!(obstacles[0].size, v(10_000, 610_001));
    assert_eq!(obstacles[3].position, v(0, 300_000));
    assert_eq!(obstacles[3].size, v(910_001, 10_000));
    assert_eq!(config.paddle_travel(), 220_000);
}
