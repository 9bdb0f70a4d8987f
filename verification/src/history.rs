//! What holds of a world over any number of ticks, and over any history of
//! ticks, frames and commands.

use vstd::prelude::*;
use crate::collision::{
    blocks_of, lemma_remains_of_itself, lemma_remains_of_transitive, lemma_resolution_accounts,
    remains_of, resolved, struck,
};
use crate::entity::PlayerId;
use crate::physics::TickInput;
use crate::state::{Command, StateStack};
use crate::world::{lemma_command_keeps_wf, lemma_tick_keeps_wf, WorldModel};

verus! {

/// One tick leaves configuration, tick rate and state stack alone, never
/// lowers a score, and takes nothing from the obstacles but scorable blocks.
pub proof fn lemma_tick_accounts(world: WorldModel, input: TickInput, player: PlayerId)
    requires
        world.wf(),
    ensures
        ({
            let after = world.ticked(input);
            &&& after.config == world.config
            &&& after.ticks_per_second == world.ticks_per_second
            &&& after.states == world.states
            &&& after.scoreboard.of(player) >= world.scoreboard.of(player)
            &&& after.scoreboard.of(player) - world.scoreboard.of(player) == blocks_of(
                world.obstacles,
                player,
            ) - blocks_of(after.obstacles, player)
            &&& remains_of(after.obstacles, world.obstacles)
        }),
{
    if world.states.is_running() {
        let moved = world.with_paddle_moved(PlayerId::Player1, input.paddle1).with_paddle_moved(
            PlayerId::Player2,
            input.paddle2,
        ).with_ball_moved();
        let ball_box = moved.ball.bounds();
        let first = struck(ball_box, moved.ball.velocity(), moved.scoreboard, moved.paddle1);
        let second = struck(ball_box, first.velocity, first.scoreboard, moved.paddle2);
        lemma_resolution_accounts(
            ball_box,
            second.velocity,
            second.scoreboard,
            moved.obstacles,
            player,
        );
    } else {
        lemma_remains_of_itself(world.obstacles);
    }
}

/// Any number of ticks keeps the world well formed and leaves configuration,
/// tick rate and state stack alone.
pub proof fn lemma_run_keeps_wf(world: WorldModel, inputs: Seq<TickInput>)
    requires
        world.wf(),
    ensures
        world.run(inputs).wf(),
        world.run(inputs).config == world.config,
        world.run(inputs).ticks_per_second == world.ticks_per_second,
        world.run(inputs).states == world.states,
    decreases inputs.len(),
{
    if inputs.len() > 0 {
        lemma_run_keeps_wf(world, inputs.drop_last());
        let before = world.run(inputs.drop_last());
        lemma_tick_keeps_wf(before, inputs.last());
        lemma_tick_accounts(before, inputs.last(), PlayerId::Player1);
    }
}

/// Over any number of ticks no score ever goes down, and a score goes up by
/// exactly the number of the player's blocks that were destroyed.
pub proof fn lemma_scores_count_destroyed_blocks(
    world: WorldModel,
    inputs: Seq<TickInput>,
    player: PlayerId,
)
    requires
        world.wf(),
    ensures
        world.run(inputs).scoreboard.of(player) >= world.scoreboard.of(player),
        world.run(inputs).scoreboard.of(player) - world.scoreboard.of(player) == blocks_of(
            world.obstacles,
            player,
        ) - blocks_of(world.run(inputs).obstacles, player),
    decreases inputs.len(),
{
    if inputs.len() > 0 {
        lemma_scores_count_destroyed_blocks(world, inputs.drop_last(), player);
        lemma_run_keeps_wf(world, inputs.drop_last());
        lemma_tick_accounts(world.run(inputs.drop_last()), inputs.last(), player);
    }
}

/// Over any number of ticks the obstacles only lose scorable blocks: what
/// stands at the end stood at the start, in the same order and no more
/// often, so a destroyed block never meets the ball again; and every
/// obstacle of the start either still stands or has been credited once.
pub proof fn lemma_destroyed_blocks_stay_destroyed(world: WorldModel, inputs: Seq<TickInput>)
    requires
        world.wf(),
    ensures
        remains_of(world.run(inputs).obstacles, world.obstacles),
        world.run(inputs).scoreboard.total() + world.run(inputs).obstacles.len()
            == world.scoreboard.total() + world.obstacles.len(),
    decreases inputs.len(),
{
    lemma_run_keeps_wf(world, inputs);
    if inputs.len() == 0 {
        lemma_remains_of_itself(world.obstacles);
    } else {
        lemma_destroyed_blocks_stay_destroyed(world, inputs.drop_last());
        lemma_run_keeps_wf(world, inputs.drop_last());
        let before = world.run(inputs.drop_last());
        lemma_tick_accounts(before, inputs.last(), PlayerId::Player1);
        lemma_remains_of_transitive(world.run(inputs).obstacles, before.obstacles, world.obstacles);
    }
}

/// Whatever the players ask over any number of ticks, both paddles stay
/// within the limits of their travel.
pub proof fn lemma_paddles_stay_within_limits(world: WorldModel, inputs: Seq<TickInput>)
    requires
        world.wf(),
    ensures
        ({
            let after = world.run(inputs);
            let limit = world.config.paddle_limit();
            &&& -limit <= after.paddle1.position.y <= limit
            &&& -limit <= after.paddle2.position.y <= limit
        }),
{
    lemma_run_keeps_wf(world, inputs);
}

/// While the game is not running, ticks change nothing.
pub proof fn lemma_idle_ticks_change_nothing(world: WorldModel, inputs: Seq<TickInput>)
    requires
        !world.states.is_running(),
    ensures
        world.run(inputs) == world,
    decreases inputs.len(),
{
    if inputs.len() > 0 {
        lemma_idle_ticks_change_nothing(world, inputs.drop_last());
    }
}

/// While the game is not running, frames change nothing, however long they
/// take: no time is carried into the running game.
pub proof fn lemma_idle_frames_change_nothing(
    world: WorldModel,
    elapsed_nanos: u64,
    input: TickInput,
)
    requires
        !world.states.is_running(),
    ensures
        world.advanced(elapsed_nanos, input) == world,
{
}

/// Something that happens to a world.
pub enum Event {
    /// One tick with the given input.
    Tick(TickInput),
    /// One frame of the given length in nanoseconds, with the given input.
    Frame(u64, TickInput),
    /// A command to the state machine.
    Command(Command),
}

/// The world after an event.
pub open spec fn after_event(world: WorldModel, event: Event) -> WorldModel {
    match event {
        Event::Tick(input) => world.ticked(input),
        Event::Frame(elapsed_nanos, input) => world.advanced(elapsed_nanos, input),
        Event::Command(command) => world.after(command),
    }
}

/// The world after a history of events, in order.
pub open spec fn replay(world: WorldModel, events: Seq<Event>) -> WorldModel
    decreases events.len(),
{
    if events.len() == 0 {
        world
    } else {
        after_event(replay(world, events.drop_last()), events.last())
    }
}

/// What an event leaves of a session: the world stays well formed; and
/// unless the event starts a session, no score goes down, each score goes up
/// by the number of the player's blocks that were destroyed, and the
/// obstacles lose nothing but scorable blocks.
pub proof fn lemma_event_accounts(world: WorldModel, event: Event, player: PlayerId)
    requires
        world.wf(),
    ensures
        ({
            let after = after_event(world, event);
            &&& after.wf()
            &&& after.config == world.config
            &&& after.ticks_per_second == world.ticks_per_second
            &&& world.states != StateStack::Menu ==> {
                &&& after.states != StateStack::Menu
                &&& after.scoreboard.of(player) >= world.scoreboard.of(player)
                &&& after.scoreboard.of(player) - world.scoreboard.of(player) == blocks_of(
                    world.obstacles,
                    player,
                ) - blocks_of(after.obstacles, player)
                &&& remains_of(after.obstacles, world.obstacles)
            }
        }),
{
    match event {
        Event::Tick(input) => {
            lemma_tick_keeps_wf(world, input);
            lemma_tick_accounts(world, input, player);
        },
        Event::Frame(elapsed_nanos, input) => {
            if world.states.is_running() {
                let due = crate::clock::ticks_due(
                    world.carried as int,
                    elapsed_nanos as int,
                    world.ticks_per_second as int,
                );
                let rest = crate::clock::carried_over(
                    world.carried as int,
                    elapsed_nanos as int,
                    world.ticks_per_second as int,
                );
                assert(0 <= elapsed_nanos * world.ticks_per_second) by (nonlinear_arith)
                    requires
                        0 <= elapsed_nanos,
                        0 <= world.ticks_per_second,
                ;
                let wound = WorldModel { carried: rest as u64, ..world };
                let inputs = Seq::new(due as nat, |k: int| input);
                lemma_run_keeps_wf(wound, inputs);
                lemma_scores_count_destroyed_blocks(wound, inputs, player);
                lemma_destroyed_blocks_stay_destroyed(wound, inputs);
            } else {
                lemma_remains_of_itself(world.obstacles);
            }
        },
        Event::Command(command) => {
            lemma_command_keeps_wf(world, command);
            lemma_remains_of_itself(world.obstacles);
        },
    }
}

/// Whatever happens, in whatever order, the world stays well formed: there
/// is one ball, one paddle for each player within the limits of its travel,
/// and every block of the session either stands or has been credited once.
pub proof fn lemma_history_keeps_wf(world: WorldModel, events: Seq<Event>)
    requires
        world.wf(),
    ensures
        replay(world, events).wf(),
        replay(world, events).config == world.config,
        replay(world, events).ticks_per_second == world.ticks_per_second,
        ({
            let after = replay(world, events);
            let limit = world.config.paddle_limit();
            &&& -limit <= after.paddle1.position.y <= limit
            &&& -limit <= after.paddle2.position.y <= limit
        }),
    decreases events.len(),
{
    if events.len() > 0 {
        lemma_history_keeps_wf(world, events.drop_last());
        lemma_event_accounts(replay(world, events.drop_last()), events.last(), PlayerId::Player1);
    }
}

/// Once a session has begun, whatever happens, in whatever order: no score
/// ever goes down, each score has gone up by exactly the number of the
/// player's blocks that were destroyed, and what stands of the obstacles
/// stood before, so no block is destroyed twice.
pub proof fn lemma_session_history(world: WorldModel, events: Seq<Event>, player: PlayerId)
    requires
        world.wf(),
        world.states != StateStack::Menu,
    ensures
        ({
            let after = replay(world, events);
            &&& after.states != StateStack::Menu
            &&& after.scoreboard.of(player) >= world.scoreboard.of(player)
            &&& after.scoreboard.of(player) - world.scoreboard.of(player) == blocks_of(
                world.obstacles,
                player,
            ) - blocks_of(after.obstacles, player)
            &&& remains_of(after.obstacles, world.obstacles)
        }),
    decreases events.len(),
{
    if events.len() == 0 {
        lemma_remains_of_itself(world.obstacles);
    } else {
        let before = replay(world, events.drop_last());
        lemma_session_history(world, events.drop_last(), player);
        lemma_history_keeps_wf(world, events.drop_last());
        lemma_event_accounts(before, events.last(), player);
        lemma_remains_of_transitive(replay(world, events).obstacles, before.obstacles, world.obstacles);
    }
}

/// While the game is not running, ticks and frames change nothing, however
/// many there are and however long they take.
pub proof fn lemma_idle_history_changes_nothing(world: WorldModel, events: Seq<Event>)
    requires
        !world.states.is_running(),
        forall|i: int| 0 <= i < events.len() ==> !(#[trigger] events[i] is Command),
    ensures
        replay(world, events) == world,
    decreases events.len(),
{
    if events.len() > 0 {
        let earlier = events.drop_last();
        assert forall|i: int| 0 <= i < earlier.len() implies !(#[trigger] earlier[i] is Command) by {
            assert(earlier[i] == events[i]);
        }
        lemma_idle_history_changes_nothing(world, earlier);
        assert(!(events[events.len() - 1] is Command));
    }
}

/// A pause is transparent: pausing a running game, letting any number of
/// ticks and frames pass and resuming gives back the world as it was before
/// the pause, with every position, both scores and the time it carried.
pub proof fn lemma_pause_is_transparent(world: WorldModel, events: Seq<Event>)
    requires
        world.states.is_running(),
        forall|i: int| 0 <= i < events.len() ==> !(#[trigger] events[i] is Command),
    ensures
        ({
            let paused = world.after(Command::TogglePause);
            &&& paused.ball == world.ball
            &&& paused.paddle1 == world.paddle1
            &&& paused.paddle2 == world.paddle2
            &&& paused.obstacles == world.obstacles
            &&& paused.scoreboard == world.scoreboard
            &&& replay(paused, events) == paused
            &&& replay(paused, events).after(Command::TogglePause) == world
        }),
{
    lemma_idle_history_changes_nothing(world.after(Command::TogglePause), events);
}

} // verus!
