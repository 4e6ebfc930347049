//! What a worksheet is made of.

pub mod cell;
pub mod color;
pub mod conditional;
pub mod dimension;
pub mod font;
pub mod style;
pub mod worksheet;
