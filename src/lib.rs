//! A dice race between six coloured snails: the board that tracks how far
//! each snail has come, and the layout that places the board on a screen.
use vstd::prelude::*;

pub mod board;
pub mod color;
pub mod dice;
pub mod display;

verus! {

/// Why a game could not be set up.
#[derive(Debug, PartialEq, Eq, Structural, Clone, Copy)]
pub enum GameError {
    /// The goal must be a positive distance.
    InvalidGoal,
    /// At least one die must be rolled per round.
    InvalidDiceCount,
}

} // verus!
