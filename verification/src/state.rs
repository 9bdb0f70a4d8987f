//! The top-level state machine: a menu, a running game, and a pause that
//! lies over the running game.

use vstd::prelude::*;

verus! {

/// A state of the game. Only the state on top of the stack is live.
#[derive(Clone, Copy, Debug, PartialEq, Eq, Structural)]
pub enum GameState {
    Menu,
    Playing,
    Paused,
}

/// What the players can ask of the state machine.
#[derive(Clone, Copy, Debug, PartialEq, Eq, Structural)]
pub enum Command {
    /// The menu was confirmed.
    Start,
    /// The pause key was pressed.
    TogglePause,
}

/// What a command did to the stack.
#[derive(Clone, Copy, Debug, PartialEq, Eq, Structural)]
pub enum Transition {
    /// The command is not valid in the live state; nothing changed.
    Ignored,
    /// `Menu` was replaced by `Playing`: a new session begins.
    Started,
    /// `Paused` was pushed onto `Playing`.
    Suspended,
    /// `Paused` was popped; `Playing` is live again.
    Resumed,
}

/// The state stack. It is never deeper than two: a pause can only lie on a
/// running game, and the menu has nothing below or above it.
#[derive(Clone, Copy, Debug, PartialEq, Eq, Structural)]
pub enum StateStack {
    Menu,
    Playing { paused: bool },
}

impl StateStack {
    /// The stack from bottom to top.
    pub open spec fn view(self) -> Seq<GameState> {
        match self {
            StateStack::Menu => seq![GameState::Menu],
            StateStack::Playing { paused } => if paused {
                seq![GameState::Playing, GameState::Paused]
            } else {
                seq![GameState::Playing]
            },
        }
    }

    /// The live state: the top of the stack.
    pub open spec fn top(self) -> GameState {
        match self {
            StateStack::Menu => GameState::Menu,
            StateStack::Playing { paused } => if paused {
                GameState::Paused
            } else {
                GameState::Playing
            },
        }
    }

    /// The simulation advances: `Playing` is live.
    pub open spec fn is_running(self) -> bool {
        self == (StateStack::Playing { paused: false })
    }

    /// The stack after a command. A command that is not valid in the live
    /// state leaves the stack as it is.
    pub open spec fn after(self, command: Command) -> StateStack {
        match (self, command) {
            (StateStack::Menu, Command::Start) => StateStack::Playing { paused: false },
            (StateStack::Playing { paused }, Command::TogglePause) => StateStack::Playing {
                paused: !paused,
            },
            _ => self,
        }
    }

    /// What a command does in this state.
    pub open spec fn transition(self, command: Command) -> Transition {
        match (self, command) {
            (StateStack::Menu, Command::Start) => Transition::Started,
            (StateStack::Playing { paused }, Command::TogglePause) => if paused {
                Transition::Resumed
            } else {
                Transition::Suspended
            },
            _ => Transition::Ignored,
        }
    }

    /// The initial stack: the menu alone.
    pub fn new() -> (stack: StateStack)
        ensures
            stack == StateStack::Menu,
            stack@ == seq![GameState::Menu],
    {
        StateStack::Menu
    }

    pub fn current(&self) -> (state: GameState)
        ensures
            state == self.top(),
            state == self@.last(),
    {
        match self {
            StateStack::Menu => GameState::Menu,
            StateStack::Playing { paused } => if *paused {
                GameState::Paused
            } else {
                GameState::Playing
            },
        }
    }

    pub fn depth(&self) -> (depth: usize)
        ensures
            depth == self@.len(),
            1 <= depth <= 2,
    {
        match self {
            StateStack::Menu => 1,
            StateStack::Playing { paused } => if *paused {
                2
            } else {
                1
            },
        }
    }

    /// Applies a command and reports what it did.
    pub fn apply(&mut self, command: Command) -> (transition: Transition)
        ensures
            *final(self) == old(self).after(command),
            transition == old(self).transition(command),
    {
        match (*self, command) {
            (StateStack::Menu, Command::Start) => {
                *self = StateStack::Playing { paused: false };
                Transition::Started
            },
            (StateStack::Playing { paused }, Command::TogglePause) => {
                *self = StateStack::Playing { paused: !paused };
                if paused {
                    Transition::Resumed
                } else {
                    Transition::Suspended
                }
            },
            (StateStack::Menu, Command::TogglePause) => Transition::Ignored,
            (StateStack::Playing { paused }, Command::Start) => Transition::Ignored,
        }
    }
}

/// What a command does to the stack, in terms of stack operations: `Start`
/// replaces the menu, `TogglePause` pushes `Paused` onto a running game or
/// pops it again, and every other request leaves the stack alone. The bottom
/// of the stack is never `Paused`, and `Menu` and `Paused` never share a
/// stack.
pub proof fn lemma_stack_discipline(stack: StateStack, command: Command)
    ensures
        stack.transition(command) == Transition::Started ==> stack@ == seq![GameState::Menu]
            && stack.after(command)@ == seq![GameState::Playing],
        stack.transition(command) == Transition::Suspended ==> stack.top() == GameState::Playing
            && stack.after(command)@ == stack@.push(GameState::Paused),
        stack.transition(command) == Transition::Resumed ==> stack.top() == GameState::Paused
            && stack.after(command)@ == stack@.drop_last(),
        stack.transition(command) == Transition::Ignored ==> stack.after(command) == stack,
        stack.transition(command) == Transition::Ignored <==> (stack.top() == GameState::Menu
            && command == Command::TogglePause) || (stack.top() != GameState::Menu && command
            == Command::Start),
        stack@[0] != GameState::Paused,
        stack@.last() == stack.top(),
        stack@.contains(GameState::Menu) ==> stack@.len() == 1,
{
    match stack {
        StateStack::Menu => {
            assert(stack@ =~= seq![GameState::Menu]);
        },
        StateStack::Playing { paused } => {
            if paused {
                assert(stack.after(Command::TogglePause)@ =~= stack@.drop_last());
                assert(stack@[0] == GameState::Playing && stack@[1] == GameState::Paused);
            } else {
                assert(stack.after(Command::TogglePause)@ =~= stack@.push(GameState::Paused));
                assert(stack@[0] == GameState::Playing);
            }
        },
    }
}

} // verus!
