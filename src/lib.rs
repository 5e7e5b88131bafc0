pub mod error;
pub mod transpose2d;
pub mod lines;
pub mod normalize;
pub mod separable;
pub mod real1d;
pub mod grid;
