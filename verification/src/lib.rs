//! A two-player connect-four engine on a seven-column, six-row grid.
//!
//! [`grid`] is the mathematical model of the grid and the facts proved of it,
//! [`board`] the grid itself with its gravity drop and win detection, and
//! [`game`] the match played on it: turns, cursor and phases. [`input`]
//! turns key strokes into the actions of a match, and [`render`] a match
//! into the lines of text that show it.

pub mod board;
pub mod game;
pub mod input;
pub mod grid;
pub mod render;
