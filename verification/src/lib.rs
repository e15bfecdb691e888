//! Coordinates and grids for puzzles on a square lattice.
//!
//! - [`point`]: points with integer coordinates, their arithmetic, the four cardinal
//!   steps and two distances; [`point_laws`] and [`point_order`] say what holds of them.
//! - [`utils`]: sums and extremes of the rows and columns of a grid, turning a grid over
//!   its diagonal, framing a text, the remainder that is never negative, splitting text
//!   by a pattern and reading numbers from tokens.
//! - [`scalar`]: the integer types that coordinates and cells may have.
//! - [`grid`], [`text`], [`arith`]: what the functions compute, stated on sequences,
//!   characters and whole numbers.
//! - [`pattern`]: regular expressions, compiled and matched by the `regex` crate.
//! - [`error`]: what is reported instead of a result.

pub mod arith;
pub mod error;
pub mod grid;
pub mod pattern;
pub mod point;
pub mod point_laws;
pub mod point_order;
pub mod scalar;
pub mod text;
pub mod utils;
