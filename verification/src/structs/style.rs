//! Cell styles.

use super::font::{Font, FontView};
use vstd::prelude::*;
use vstd::string::*;

verus! {

/// The place of a cell: its column and its row, both counted from 1.
#[derive(Clone, Copy, Debug, PartialEq, Eq, Structural)]
pub struct Coordinate {
    pub col_num: usize,
    pub row_num: usize,
}

impl Coordinate {
    pub fn get_col_num(&self) -> (col_num: usize)
        ensures
            col_num == self.col_num,
    {
        self.col_num
    }

    pub fn set_col_num(&mut self, value: usize)
        ensures
            *final(self) == (Coordinate { col_num: value, ..*old(self) }),
    {
        self.col_num = value;
    }

    pub fn get_row_num(&self) -> (row_num: usize)
        ensures
            row_num == self.row_num,
    {
        self.row_num
    }

    pub fn set_row_num(&mut self, value: usize)
        ensures
            *final(self) == (Coordinate { row_num: value, ..*old(self) }),
    {
        self.row_num = value;
    }
}

/// The formatting of a cell, and the cell that it is attached to.
pub struct Style {
    pub coordinate: Coordinate,
    pub font: Font,
    pub format_code: String,
}

/// A style as plain values.
pub struct StyleView {
    pub coordinate: Coordinate,
    pub font: FontView,
    pub format_code: Seq<char>,
}

impl DeepView for Style {
    type V = StyleView;

    open spec fn deep_view(&self) -> StyleView {
        StyleView {
            coordinate: self.coordinate,
            font: self.font.deep_view(),
            format_code: self.format_code@,
        }
    }
}

impl StyleView {
    /// The style that says nothing.
    pub open spec fn empty() -> StyleView {
        StyleView {
            coordinate: Coordinate { col_num: 0, row_num: 0 },
            font: FontView::empty(),
            format_code: Seq::empty(),
        }
    }

    /// This style, attached to the cell at `coordinate`.
    pub open spec fn at(self, coordinate: Coordinate) -> StyleView {
        StyleView { coordinate, ..self }
    }
}

impl Default for Style {
    fn default() -> (style: Style)
        ensures
            style.deep_view() == StyleView::empty(),
    {
        Style {
            coordinate: Coordinate { col_num: 0, row_num: 0 },
            font: Font::default(),
            format_code: String::new(),
        }
    }
}

impl Clone for Style {
    fn clone(&self) -> (style: Style)
        ensures
            style.deep_view() == self.deep_view(),
    {
        Style {
            coordinate: self.coordinate,
            font: self.font.clone(),
            format_code: self.format_code.clone(),
        }
    }
}

impl Style {
    pub fn get_coordinate(&self) -> (coordinate: &Coordinate)
        ensures
            *coordinate == self.deep_view().coordinate,
    {
        &self.coordinate
    }

    /// Lends the coordinate out for change.
    pub fn get_coordinate_mut(&mut self) -> (coordinate: &mut Coordinate)
        ensures
            *coordinate == old(self).deep_view().coordinate,
            final(self).deep_view() == old(self).deep_view().at(*final(coordinate)),
    {
        &mut self.coordinate
    }

    pub fn get_font(&self) -> (font: &Font)
        ensures
            font.deep_view() == self.deep_view().font,
    {
        &self.font
    }

    pub fn set_font(&mut self, value: Font)
        ensures
            final(self).deep_view() == (StyleView {
                font: value.deep_view(),
                ..old(self).deep_view()
            }),
    {
        self.font = value;
    }

    pub fn get_format_code(&self) -> (format_code: &str)
        ensures
            format_code@ == self.deep_view().format_code,
    {
        self.format_code.as_str()
    }

    pub fn set_format_code(&mut self, value: &str)
        ensures
            final(self).deep_view() == (StyleView { format_code: value@, ..old(self).deep_view() }),
    {
        self.format_code = value.to_owned();
    }
}

} // verus!
