//! A two-player naval combat game on a square grid: the board and its cells,
//! ship placement with overlap detection, and a computer opponent that places
//! a fleet and picks targets according to a difficulty level.
//!
//! Every function carries a contract that is checked by Verus. The few calls
//! into the `rand` crate are isolated in the `random` module.

pub mod ship;
pub mod difficulty;
pub mod board;
pub mod render;
pub mod board_lemmas;
pub mod fleet;
pub mod fleet_room;
pub mod random;
pub mod ai;
pub mod game;
