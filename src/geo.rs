//! One-dimensional and three-dimensional geometry.
pub mod interval;
pub mod vector;
pub mod line;
pub mod plane;
pub mod triangle;
