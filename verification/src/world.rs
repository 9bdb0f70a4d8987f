//! The world: the entities, the score and the state stack of one game, and
//! the systems that advance it tick by tick.

use vstd::prelude::*;
use crate::arena::{ArenaConfig, ConfigError};
use crate::arith::sum;
use crate::clock::{carried_over, ticks_due, Timestep, NANOS_PER_SECOND};
use crate::collision::{
    blocks_of, lemma_blocks_of_concat, lemma_blocks_of_uniform, lemma_remains_are_obstacles,
    lemma_resolution_accounts, resolve_collisions, resolved, strike, struck,
};
use crate::entity::{Entity, EntityKind, PlayerId};
use crate::physics::{ball_moved, move_ball, move_paddle, paddle_moved, Direction, TickInput};
use crate::scoreboard::Scoreboard;
use crate::state::{Command, GameState, StateStack, Transition};

verus! {

/// The world as the contracts see it.
pub struct WorldModel {
    pub config: ArenaConfig,
    pub ticks_per_second: u32,
    /// Frame time that has not yet filled a tick, in parts of a tick.
    pub carried: u64,
    pub states: StateStack,
    pub scoreboard: Scoreboard,
    pub ball: Entity,
    pub paddle1: Entity,
    pub paddle2: Entity,
    /// Walls and scorable blocks in the order of their creation.
    pub obstacles: Seq<Entity>,
}

impl WorldModel {
    /// The invariant of the world.
    ///
    /// There is one ball and one paddle for each player; the paddles are
    /// within the limits of their travel; besides them there are only walls
    /// and scorable blocks; and each player's score together with the
    /// blocks that still stand for that player is the number of blocks that
    /// the session began with.
    pub open spec fn wf(self) -> bool {
        let limit = self.config.paddle_limit();
        let rows = self.config.block_row_count;
        &&& self.config.fault(self.ticks_per_second) is None
        &&& self.carried < NANOS_PER_SECOND
        &&& self.ball.kind is Ball
        &&& self.ball.wf()
        &&& self.paddle1.is_paddle_of(PlayerId::Player1)
        &&& self.paddle1.wf()
        &&& -limit <= self.paddle1.position.y <= limit
        &&& self.paddle2.is_paddle_of(PlayerId::Player2)
        &&& self.paddle2.wf()
        &&& -limit <= self.paddle2.position.y <= limit
        &&& forall|i: int|
            0 <= i < self.obstacles.len() ==> (#[trigger] self.obstacles[i]).is_obstacle()
        &&& self.scoreboard.score1 + blocks_of(self.obstacles, PlayerId::Player1) == rows
        &&& self.scoreboard.score2 + blocks_of(self.obstacles, PlayerId::Player2) == rows
        &&& self.scoreboard.total() + self.obstacles.len() == 4 + 2 * rows
    }

    /// The paddle of a player.
    pub open spec fn paddle(self, player: PlayerId) -> Entity {
        match player {
            PlayerId::Player1 => self.paddle1,
            PlayerId::Player2 => self.paddle2,
        }
    }

    /// The world with the entities and the score of a session that begins.
    /// No frame time is carried into the session.
    pub open spec fn reset(self) -> WorldModel {
        WorldModel {
            carried: 0,
            scoreboard: Scoreboard { score1: 0, score2: 0 },
            ball: self.config.ball(),
            paddle1: self.config.paddle(PlayerId::Player1),
            paddle2: self.config.paddle(PlayerId::Player2),
            obstacles: self.config.obstacles(),
            ..self
        }
    }

    /// A new world: the menu is live, and the arena is laid out.
    pub open spec fn fresh(config: ArenaConfig, ticks_per_second: u32) -> WorldModel {
        WorldModel {
            config,
            ticks_per_second,
            carried: 0,
            states: StateStack::Menu,
            scoreboard: Scoreboard { score1: 0, score2: 0 },
            ball: config.ball(),
            paddle1: config.paddle(PlayerId::Player1),
            paddle2: config.paddle(PlayerId::Player2),
            obstacles: config.obstacles(),
        }
    }

    /// The world after a command. Starting a session resets entities and
    /// score; pausing and resuming touch nothing but the state stack; a
    /// command that is not valid in the live state changes nothing.
    pub open spec fn after(self, command: Command) -> WorldModel {
        let moved = WorldModel { states: self.states.after(command), ..self };
        if self.states.transition(command) == Transition::Started {
            moved.reset()
        } else {
            moved
        }
    }

    /// The world after the paddle of `player` moved for one tick.
    pub open spec fn with_paddle_moved(self, player: PlayerId, direction: Direction) -> WorldModel {
        let limit = self.config.paddle_limit();
        match player {
            PlayerId::Player1 => WorldModel {
                paddle1: paddle_moved(
                    self.paddle1,
                    direction,
                    self.ticks_per_second,
                    (-limit) as i64,
                    limit as i64,
                ),
                ..self
            },
            PlayerId::Player2 => WorldModel {
                paddle2: paddle_moved(
                    self.paddle2,
                    direction,
                    self.ticks_per_second,
                    (-limit) as i64,
                    limit as i64,
                ),
                ..self
            },
        }
    }

    /// The world after the ball moved for one tick.
    pub open spec fn with_ball_moved(self) -> WorldModel {
        WorldModel { ball: ball_moved(self.ball, self.ticks_per_second), ..self }
    }

    /// The world after the collisions of the ball were resolved: against the
    /// first player's paddle, the second player's paddle, and then the
    /// obstacles in their order.
    pub open spec fn with_collisions_resolved(self) -> WorldModel {
        let ball_box = self.ball.bounds();
        let first = struck(ball_box, self.ball.velocity(), self.scoreboard, self.paddle1);
        let second = struck(ball_box, first.velocity, first.scoreboard, self.paddle2);
        let after = resolved(ball_box, second.velocity, second.scoreboard, self.obstacles);
        WorldModel {
            ball: Entity {
                position: self.ball.position,
                size: self.ball.size,
                kind: EntityKind::Ball { velocity: after.velocity },
            },
            scoreboard: after.scoreboard,
            obstacles: after.survivors,
            ..self
        }
    }

    /// The world after one tick. While `Playing` is live the paddles move,
    /// then the ball, then the ball's collisions are resolved; in any other
    /// state nothing happens.
    pub open spec fn ticked(self, input: TickInput) -> WorldModel {
        if self.states.is_running() {
            self.with_paddle_moved(PlayerId::Player1, input.paddle1).with_paddle_moved(
                PlayerId::Player2,
                input.paddle2,
            ).with_ball_moved().with_collisions_resolved()
        } else {
            self
        }
    }

    /// The world after a frame that took `elapsed_nanos` nanoseconds. While
    /// `Playing` is live the frame's time is added to the time carried, the
    /// whole ticks that this makes are run with the frame's input, and the
    /// rest is carried on; in any other state no time passes.
    pub open spec fn advanced(self, elapsed_nanos: u64, input: TickInput) -> WorldModel {
        if self.states.is_running() {
            let due = ticks_due(
                self.carried as int,
                elapsed_nanos as int,
                self.ticks_per_second as int,
            );
            let rest = carried_over(
                self.carried as int,
                elapsed_nanos as int,
                self.ticks_per_second as int,
            );
            (WorldModel { carried: rest as u64, ..self }).run(Seq::new(due as nat, |k: int| input))
        } else {
            self
        }
    }

    /// The world after one tick for each input, in order.
    pub open spec fn run(self, inputs: Seq<TickInput>) -> WorldModel
        decreases inputs.len(),
    {
        if inputs.len() == 0 {
            self
        } else {
            self.run(inputs.drop_last()).ticked(inputs.last())
        }
    }
}

/// The world of one game.
pub struct World {
    config: ArenaConfig,
    clock: Timestep,
    states: StateStack,
    scoreboard: Scoreboard,
    ball: Entity,
    paddle1: Entity,
    paddle2: Entity,
    obstacles: Vec<Entity>,
}

impl World {
    pub closed spec fn view(&self) -> WorldModel {
        WorldModel {
            config: self.config,
            ticks_per_second: self.clock.rate(),
            carried: self.clock.carried(),
            states: self.states,
            scoreboard: self.scoreboard,
            ball: self.ball,
            paddle1: self.paddle1,
            paddle2: self.paddle2,
            obstacles: self.obstacles@,
        }
    }

    pub open spec fn wf(&self) -> bool {
        self@.wf()
    }

    /// Makes the world of a game that has not begun: the menu is live and
    /// the arena is laid out. A configuration that cannot be played is
    /// refused with its first fault.
    pub fn new(config: ArenaConfig, ticks_per_second: u32) -> (made: Result<World, ConfigError>)
        ensures
            match made {
                Ok(world) => config.fault(ticks_per_second) is None && world@ == WorldModel::fresh(
                    config,
                    ticks_per_second,
                ) && world.wf(),
                Err(error) => config.fault(ticks_per_second) == Some(error),
            },
    {
        match config.validate(ticks_per_second) {
            Err(error) => Err(error),
            Ok(()) => {
                let world = World {
                    config,
                    clock: Timestep::new(ticks_per_second).unwrap(),
                    states: StateStack::new(),
                    scoreboard: Scoreboard::new(),
                    ball: config.starting_ball(),
                    paddle1: config.starting_paddle(PlayerId::Player1),
                    paddle2: config.starting_paddle(PlayerId::Player2),
                    obstacles: config.starting_obstacles(),
                };
                proof {
                    lemma_reset_is_sound(world@);
                }
                Ok(world)
            },
        }
    }

    /// Sets up a session: the score returns to zero and ball, paddles,
    /// walls and blocks are made anew. The state stack is left alone.
    pub fn setup(&mut self)
        requires
            old(self).wf(),
        ensures
            final(self)@ == old(self)@.reset(),
            final(self).wf(),
    {
        self.clock.restart();
        self.scoreboard = Scoreboard::new();
        self.ball = self.config.starting_ball();
        self.paddle1 = self.config.starting_paddle(PlayerId::Player1);
        self.paddle2 = self.config.starting_paddle(PlayerId::Player2);
        self.obstacles = self.config.starting_obstacles();
        proof {
            lemma_reset_is_sound(old(self)@);
        }
    }

    /// Applies a command to the state stack and, where it starts a session,
    /// sets the session up.
    pub fn handle(&mut self, command: Command) -> (transition: Transition)
        requires
            old(self).wf(),
        ensures
            final(self)@ == old(self)@.after(command),
            transition == old(self)@.states.transition(command),
            final(self).wf(),
    {
        let transition = self.states.apply(command);
        match transition {
            Transition::Started => {
                self.setup();
            },
            Transition::Ignored => {},
            Transition::Suspended => {},
            Transition::Resumed => {},
        }
        transition
    }

    /// The menu: a click on its button starts a session.
    pub fn menu(&mut self, clicked: bool) -> (transition: Transition)
        requires
            old(self).wf(),
        ensures
            final(self)@ == if clicked {
                old(self)@.after(Command::Start)
            } else {
                old(self)@
            },
            transition == if clicked {
                old(self)@.states.transition(Command::Start)
            } else {
                Transition::Ignored
            },
            final(self).wf(),
    {
        if clicked {
            self.handle(Command::Start)
        } else {
            Transition::Ignored
        }
    }

    /// The pause key: a fresh press pauses a running game or resumes a
    /// paused one.
    pub fn space_to_pause(&mut self, just_pressed: bool) -> (transition: Transition)
        requires
            old(self).wf(),
        ensures
            final(self)@ == if just_pressed {
                old(self)@.after(Command::TogglePause)
            } else {
                old(self)@
            },
            transition == if just_pressed {
                old(self)@.states.transition(Command::TogglePause)
            } else {
                Transition::Ignored
            },
            final(self).wf(),
    {
        if just_pressed {
            self.handle(Command::TogglePause)
        } else {
            Transition::Ignored
        }
    }

    /// Moves the first player's paddle for one tick as the held keys ask.
    pub fn paddle1_movement_system(&mut self, down: bool, up: bool)
        requires
            old(self).wf(),
        ensures
            final(self)@ == old(self)@.with_paddle_moved(
                PlayerId::Player1,
                Direction::of_keys(down, up),
            ),
            final(self).wf(),
    {
        let limit: i64 = self.config.paddle_travel();
        move_paddle(
            &mut self.paddle1,
            Direction::from_keys(down, up),
            self.clock.ticks_per_second(),
            -limit,
            limit,
        );
    }

    /// Moves the second player's paddle for one tick as the held keys ask.
    pub fn paddle2_movement_system(&mut self, down: bool, up: bool)
        requires
            old(self).wf(),
        ensures
            final(self)@ == old(self)@.with_paddle_moved(
                PlayerId::Player2,
                Direction::of_keys(down, up),
            ),
            final(self).wf(),
    {
        let limit: i64 = self.config.paddle_travel();
        move_paddle(
            &mut self.paddle2,
            Direction::from_keys(down, up),
            self.clock.ticks_per_second(),
            -limit,
            limit,
        );
    }

    /// Moves the paddle of `player` for one tick in the given direction.
    pub fn move_paddle_of(&mut self, player: PlayerId, direction: Direction)
        requires
            old(self).wf(),
        ensures
            final(self)@ == old(self)@.with_paddle_moved(player, direction),
            final(self).wf(),
    {
        let limit: i64 = self.config.paddle_travel();
        match player {
            PlayerId::Player1 => {
                move_paddle(&mut self.paddle1, direction, self.clock.ticks_per_second(), -limit, limit);
            },
            PlayerId::Player2 => {
                move_paddle(&mut self.paddle2, direction, self.clock.ticks_per_second(), -limit, limit);
            },
        }
    }

    /// Moves the ball for one tick along its velocity.
    pub fn ball_movement_system(&mut self)
        requires
            old(self).wf(),
        ensures
            final(self)@ == old(self)@.with_ball_moved(),
            final(self).wf(),
    {
        move_ball(&mut self.ball, self.clock.ticks_per_second());
    }

    /// Resolves the collisions of the ball where it stands: it is tested
    /// against the paddles and then against walls and blocks in the order
    /// of their creation; blocks that it overlaps are credited and removed,
    /// and the first wall that it overlaps ends the resolution.
    pub fn ball_collision_system(&mut self)
        requires
            old(self).wf(),
        ensures
            final(self)@ == old(self)@.with_collisions_resolved(),
            final(self).wf(),
    {
        let ball_box = self.ball.bounding_box();
        let first = strike(ball_box, self.ball.ball_velocity(), self.scoreboard, &self.paddle1);
        let second = strike(ball_box, first.velocity, first.scoreboard, &self.paddle2);
        let mut velocity = second.velocity;
        self.scoreboard = second.scoreboard;
        resolve_collisions(ball_box, &mut velocity, &mut self.scoreboard, &mut self.obstacles);
        self.ball.kind = EntityKind::Ball { velocity };
        proof {
            lemma_collisions_keep_wf(old(self)@);
        }
    }

    /// Advances the simulation by one tick. While `Playing` is live the
    /// paddles move as asked, then the ball moves, then its collisions are
    /// resolved; in any other state the tick does nothing.
    pub fn tick(&mut self, input: TickInput)
        requires
            old(self).wf(),
        ensures
            final(self)@ == old(self)@.ticked(input),
            final(self).wf(),
    {
        match self.states.current() {
            GameState::Playing => {
                self.move_paddle_of(PlayerId::Player1, input.paddle1);
                self.move_paddle_of(PlayerId::Player2, input.paddle2);
                self.ball_movement_system();
                self.ball_collision_system();
            },
            GameState::Menu => {},
            GameState::Paused => {},
        }
    }

    /// Advances the simulation by `count` ticks with the same input.
    pub fn run_ticks(&mut self, count: u64, input: TickInput)
        requires
            old(self).wf(),
        ensures
            final(self)@ == old(self)@.run(Seq::new(count as nat, |k: int| input)),
            final(self).wf(),
    {
        let mut done: u64 = 0;
        while done < count
            invariant
                done <= count,
                self.wf(),
                self@ == old(self)@.run(Seq::new(done as nat, |k: int| input)),
            decreases count - done,
        {
            self.tick(input);
            done = done + 1;
            proof {
                let inputs = Seq::new(done as nat, |k: int| input);
                assert(inputs.drop_last() =~= Seq::new((done - 1) as nat, |k: int| input));
                assert(inputs.last() == input);
            }
        }
    }

    /// Advances the simulation by one frame of the given length: the ticks
    /// that have become due are run with the frame's input, and the time
    /// that fills no tick is carried to the next frame. Outside `Playing`
    /// no time passes. Returns the number of ticks that were run.
    pub fn advance(&mut self, elapsed_nanos: u64, input: TickInput) -> (ticks: u64)
        requires
            old(self).wf(),
        ensures
            final(self)@ == old(self)@.advanced(elapsed_nanos, input),
            final(self).wf(),
            ticks == if old(self)@.states.is_running() {
                ticks_due(
                    old(self)@.carried as int,
                    elapsed_nanos as int,
                    old(self)@.ticks_per_second as int,
                )
            } else {
                0
            },
    {
        match self.states.current() {
            GameState::Playing => {
                let due = self.clock.advance(elapsed_nanos);
                self.run_ticks(due, input);
                due
            },
            GameState::Menu => 0,
            GameState::Paused => 0,
        }
    }

    /// The live state.
    pub fn state(&self) -> (state: GameState)
        ensures
            state == self@.states.top(),
    {
        self.states.current()
    }

    /// The state stack.
    pub fn states(&self) -> (states: StateStack)
        ensures
            states == self@.states,
    {
        self.states
    }

    pub fn scoreboard(&self) -> (scoreboard: Scoreboard)
        ensures
            scoreboard == self@.scoreboard,
    {
        self.scoreboard
    }

    /// The number of blocks destroyed in this session.
    pub fn total_score(&self) -> (total: u32)
        requires
            self.wf(),
        ensures
            total == self@.scoreboard.total(),
            total + self@.obstacles.len() == 4 + 2 * self@.config.block_row_count,
    {
        sum(self.scoreboard.score1, self.scoreboard.score2)
    }

    pub fn ball(&self) -> (ball: Entity)
        ensures
            ball == self@.ball,
    {
        self.ball
    }

    pub fn paddle(&self, player: PlayerId) -> (paddle: Entity)
        ensures
            paddle == self@.paddle(player),
    {
        match player {
            PlayerId::Player1 => self.paddle1,
            PlayerId::Player2 => self.paddle2,
        }
    }

    /// The walls and the blocks that still stand, in the order of their
    /// creation.
    pub fn obstacles(&self) -> (obstacles: &Vec<Entity>)
        ensures
            obstacles@ == self@.obstacles,
    {
        &self.obstacles
    }

    pub fn config(&self) -> (config: ArenaConfig)
        ensures
            config == self@.config,
    {
        self.config
    }

    pub fn ticks_per_second(&self) -> (rate: u32)
        ensures
            rate == self@.ticks_per_second,
    {
        self.clock.ticks_per_second()
    }
}

/// The layout of a playable arena: four walls and as many blocks for each
/// player as the configuration asks for, a ball, and two paddles within the
/// limits of their travel.
pub proof fn lemma_layout_is_sound(config: ArenaConfig)
    requires
        config.wf(),
    ensures
        config.obstacles().len() == 4 + 2 * config.block_row_count,
        forall|i: int|
            0 <= i < config.obstacles().len() ==> (#[trigger] config.obstacles()[i]).is_obstacle(),
        blocks_of(config.obstacles(), PlayerId::Player1) == config.block_row_count,
        blocks_of(config.obstacles(), PlayerId::Player2) == config.block_row_count,
        config.ball().kind is Ball,
        config.ball().wf(),
        forall|player: PlayerId|
            {
                let paddle = #[trigger] config.paddle(player);
                &&& paddle.is_paddle_of(player)
                &&& paddle.wf()
                &&& -config.paddle_limit() <= paddle.position.y <= config.paddle_limit()
            },
{
    let walls = config.walls();
    let blocks1 = config.blocks(PlayerId::Player1);
    let blocks2 = config.blocks(PlayerId::Player2);
    crate::arith::lemma_diagonal_component_exists(config.ball_speed as int);
    assert forall|player: PlayerId| #![auto] blocks_of(config.obstacles(), player)
        == config.block_row_count by {
        lemma_blocks_of_uniform(walls, EntityKind::Wall, player);
        lemma_blocks_of_uniform(
            blocks1,
            EntityKind::ScorableBlock { owner: PlayerId::Player1 },
            player,
        );
        lemma_blocks_of_uniform(
            blocks2,
            EntityKind::ScorableBlock { owner: PlayerId::Player2 },
            player,
        );
        lemma_blocks_of_concat(walls, blocks1, player);
        lemma_blocks_of_concat(walls + blocks1, blocks2, player);
    }
    assert(blocks_of(config.obstacles(), PlayerId::Player1) == config.block_row_count);
    assert(blocks_of(config.obstacles(), PlayerId::Player2) == config.block_row_count);
}

/// A new world and a world whose session has just begun are well formed.
pub proof fn lemma_reset_is_sound(world: WorldModel)
    requires
        world.config.fault(world.ticks_per_second) is None,
    ensures
        world.reset().wf(),
        WorldModel::fresh(world.config, world.ticks_per_second).wf(),
{
    lemma_layout_is_sound(world.config);
    assert(world.config.paddle(PlayerId::Player1).wf());
    assert(world.config.paddle(PlayerId::Player2).wf());
}

/// A command keeps the world well formed.
pub proof fn lemma_command_keeps_wf(world: WorldModel, command: Command)
    requires
        world.wf(),
    ensures
        world.after(command).wf(),
{
    lemma_reset_is_sound(WorldModel { states: world.states.after(command), ..world });
}

/// Moving a paddle keeps the world well formed: the paddle stays within the
/// limits of its travel.
pub proof fn lemma_paddle_move_keeps_wf(world: WorldModel, player: PlayerId, direction: Direction)
    requires
        world.wf(),
    ensures
        world.with_paddle_moved(player, direction).wf(),
{
}

/// Moving the ball keeps the world well formed.
pub proof fn lemma_ball_move_keeps_wf(world: WorldModel)
    requires
        world.wf(),
    ensures
        world.with_ball_moved().wf(),
{
}

/// Resolving the collisions keeps the world well formed: whatever a player
/// gains in score, that player's standing blocks lose in number.
pub proof fn lemma_collisions_keep_wf(world: WorldModel)
    requires
        world.wf(),
    ensures
        world.with_collisions_resolved().wf(),
{
    let ball_box = world.ball.bounds();
    let first = struck(ball_box, world.ball.velocity(), world.scoreboard, world.paddle1);
    let second = struck(ball_box, first.velocity, first.scoreboard, world.paddle2);
    lemma_resolution_accounts(
        ball_box,
        second.velocity,
        second.scoreboard,
        world.obstacles,
        PlayerId::Player1,
    );
    lemma_resolution_accounts(
        ball_box,
        second.velocity,
        second.scoreboard,
        world.obstacles,
        PlayerId::Player2,
    );
    let after = resolved(ball_box, second.velocity, second.scoreboard, world.obstacles);
    lemma_remains_are_obstacles(after.survivors, world.obstacles);
}

/// A tick keeps the world well formed.
pub proof fn lemma_tick_keeps_wf(world: WorldModel, input: TickInput)
    requires
        world.wf(),
    ensures
        world.ticked(input).wf(),
{
    if world.states.is_running() {
        let one = world.with_paddle_moved(PlayerId::Player1, input.paddle1);
        lemma_paddle_move_keeps_wf(world, PlayerId::Player1, input.paddle1);
        let two = one.with_paddle_moved(PlayerId::Player2, input.paddle2);
        lemma_paddle_move_keeps_wf(one, PlayerId::Player2, input.paddle2);
        let three = two.with_ball_moved();
        lemma_ball_move_keeps_wf(two);
        lemma_collisions_keep_wf(three);
    }
}

} // verus!
