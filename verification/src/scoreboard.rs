//! The two score counters, one per player.

use vstd::prelude::*;
use crate::entity::PlayerId;

verus! {

#[derive(Clone, Copy, Debug, PartialEq, Eq, Structural)]
pub struct Scoreboard {
    pub score1: u32,
    pub score2: u32,
}

impl Scoreboard {
    /// The counter of one player.
    pub open spec fn of(self, player: PlayerId) -> int {
        match player {
            PlayerId::Player1 => self.score1 as int,
            PlayerId::Player2 => self.score2 as int,
        }
    }

    /// Both counters together.
    pub open spec fn total(self) -> int {
        self.score1 + self.score2
    }

    /// The board after one point for `player`.
    pub open spec fn credited(self, player: PlayerId) -> Scoreboard
        recommends
            self.of(player) < u32::MAX,
    {
        match player {
            PlayerId::Player1 => Scoreboard { score1: (self.score1 + 1) as u32, score2: self.score2 },
            PlayerId::Player2 => Scoreboard { score1: self.score1, score2: (self.score2 + 1) as u32 },
        }
    }

    /// A board with both counters at zero.
    pub fn new() -> (board: Scoreboard)
        ensures
            board == (Scoreboard { score1: 0, score2: 0 }),
    {
        Scoreboard { score1: 0, score2: 0 }
    }

    pub fn score(&self, player: PlayerId) -> (points: u32)
        ensures
            points == self.of(player),
    {
        match player {
            PlayerId::Player1 => self.score1,
            PlayerId::Player2 => self.score2,
        }
    }

    /// Adds one point to the counter of `player` and leaves the other alone.
    pub fn credit(&mut self, player: PlayerId)
        requires
            old(self).of(player) < u32::MAX,
        ensures
            *final(self) == old(self).credited(player),
            final(self).of(player) == old(self).of(player) + 1,
            final(self).total() == old(self).total() + 1,
    {
        match player {
            PlayerId::Player1 => {
                self.score1 = self.score1 + 1;
            },
            PlayerId::Player2 => {
                self.score2 = self.score2 + 1;
            },
        }
    }
}

} // verus!
