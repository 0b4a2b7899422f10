//! An orthogonal maze: a grid of cells whose sides are walled or open,
//! passage carving that keeps neighbouring cells consistent, a per-cell
//! validity check and an ASCII rendering.

pub mod cell;
pub mod grid;
pub mod orthogonal;
pub mod render;

pub use cell::{Cell, Direction};
pub use grid::{Grid, GridError, GridView};
pub use orthogonal::{Formatter, MazeSaveError, OrthogonalMaze, Saveable};
