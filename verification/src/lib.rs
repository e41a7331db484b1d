//! Cellular automata on finite periodic (toroidal) 2D grids.
//!
//! The crate provides the verified core of a Lenia-style continuous
//! automaton: toroidal coordinate algebra, a dense row-major matrix,
//! kernel geometry, an exact convolution operator, and a discrete
//! Game-of-Life automaton built on the same periodic-neighbor pattern.

pub mod convolution;
pub mod coordinate;
pub mod life;
pub mod matrix;

pub use coordinate::Coordinate;
pub use coordinate::Vector;
pub use life::Cell;
pub use life::Universe;
pub use matrix::Matrix;
