//! An array-shape abstraction: an ordered sequence of non-negative dimension
//! extents, outermost axis first, together with the row-major arithmetic that
//! relates multi-axis coordinates to flat offsets and the rank-changing
//! operations an array runtime needs.

pub mod eq;
pub mod index;
pub mod render;
pub mod shape;
pub mod storage;

pub use shape::Shape;
pub use shape::UnfixError;
