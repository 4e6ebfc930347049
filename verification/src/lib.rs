//! A decoder for the worksheet part of a spreadsheet document.
//!
//! A worksheet part is markup. `xml` reads its bytes into events, and
//! `reader` works through the events and gathers what they say into a
//! worksheet of `structs`: cells with values, formulas and links, styles,
//! rows and columns, merged ranges, conditional formatting and the color of
//! the tab. `coordinate` reads and writes cell references, `text` reads
//! numbers, and `digest` makes fingerprints.

pub mod coordinate;
pub mod digest;
pub mod error;
pub mod reader;
pub mod structs;
pub mod text;
pub mod xml;
