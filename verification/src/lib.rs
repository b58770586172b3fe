//! Core of a terminal snake game: a bounded grid, a snake that moves one
//! cell per tick, food placement on a free cell, and the state machine that
//! advances the session by one tick and detects the terminal conditions.

pub mod game;
pub mod render;
mod rng;

use vstd::prelude::*;

verus! {

/// Width of the default board, in cells.
pub const WIDTH: u32 = 40;

/// Height of the default board, in cells.
pub const HEIGHT: u32 = 25;

/// A cell of the board: x (column) first, y (row) second.
#[derive(PartialEq, Eq, Structural, Clone, Copy, Debug)]
pub struct Point(pub u32, pub u32);

} // verus!
