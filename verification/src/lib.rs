pub mod grid;
pub mod laws;
pub mod render;

pub use grid::Cell;
pub use grid::Universe;
