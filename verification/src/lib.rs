//! A discrete-time predator–prey simulation on a fixed-size 2D grid.
//!
//! The grid is a flat row-major sequence of cells, each empty or holding a
//! predator or a prey animal. A step draws one random position, applies the
//! update rule of the species whose turn it is, and flips the turn. The
//! update rule, the population accounting and the textual rendering are
//! verified; the random draws come from `rand` behind trusted wrappers.

pub mod board;
pub mod cell;
pub mod cli;
pub mod rules;
