//! The rules of a falling-block puzzle game: pieces, the playfield, collision,
//! line clearing, scoring and the game's state machine.
use vstd::prelude::*;

pub mod pieces;
pub mod playfield;
pub mod tetromino;
pub mod game;
pub mod render;

verus! {

} // verus!
