//! Placement legality circuit core for a 10x10 battleship board.
//!
//! A ship placement is committed as a 100-bit little-endian vector (row-major
//! board index). This crate holds the verified core of the placement legality
//! argument: witness-trace construction, each gate rule that the circuit
//! arithmetizes, and the encoding between ship coordinates and bit vectors.

use vstd::prelude::*;

pub mod binary;
pub mod ship;
pub mod gadget;
pub mod chip;
pub mod legality;

verus! {

/// Number of cells on the board, and length of a placement bit vector.
pub const BOARD_SIZE: usize = 100;

} // verus!
