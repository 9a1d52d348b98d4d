//! A verified chess rules engine on a 0x88 board: piece encoding, position
//! state, legal-move generation, reversible move application, and perft
//! node counting.

use vstd::prelude::*;

pub mod helpers;
pub mod move_and_undo;
pub mod move_generator;
pub mod peices;
pub mod position;

verus! {

/// The ways an operation of the engine can fail: malformed position text,
/// an algebraic coordinate outside the board, or an undo with no matching
/// pending move application.
#[derive(Clone, Copy, PartialEq, Eq, Structural, Debug)]
pub enum EngineError {
    ParseError,
    InvalidCoordinate,
    IllegalUndo,
}

} // verus!
