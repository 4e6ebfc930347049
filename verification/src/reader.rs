//! The interpreter of worksheet parts, and the readers of their elements.

pub mod color;
pub mod conditional;
pub mod elements;
pub mod worksheet;
