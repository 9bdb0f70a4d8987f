//! A simulation engine for a two-player arcade game in which a ball bounces
//! between walls, two paddles and two rows of scorable blocks.
//!
//! The engine is deterministic. Positions, extents and speeds are integers
//! on a grid of `geometry::UNIT` steps per world unit, time advances in
//! ticks of fixed length, and every function states what it computes in its
//! contract.
//!
//! - `geometry`: vectors, bounding boxes and the overlap test.
//! - `entity`, `scoreboard`: the simulated objects and the two counters.
//! - `physics`: the movement of paddles and ball over one tick.
//! - `collision`: reflection, scoring and the removal of destroyed blocks.
//! - `state`: the stack of menu, running game and pause.
//! - `arena`: the configuration and the layout it gives.
//! - `clock`: frame times in, whole ticks out.
//! - `world`: all of the above as one value, advanced tick by tick.
//! - `history`: what holds of a world over any number of ticks.
//! - `arith`: the integer helpers the others share.

pub mod arena;
pub mod arith;
pub mod clock;
pub mod collision;
pub mod entity;
pub mod geometry;
pub mod history;
pub mod physics;
pub mod scoreboard;
pub mod state;
pub mod world;
