//! What a worksheet records of its rows and columns, and of the page.

use vstd::prelude::*;
use vstd::string::*;

verus! {

/// One row: its number, from 1, and how it is laid out. Heights are kept
/// as the document writes them.
pub struct RowDimension {
    pub row_num: usize,
    pub height: Option<String>,
    pub thick_bot: bool,
    pub custom_height: bool,
    pub descent: Option<String>,
}

/// A row as plain values.
pub struct RowDimensionView {
    pub row_num: usize,
    pub height: Option<Seq<char>>,
    pub thick_bot: bool,
    pub custom_height: bool,
    pub descent: Option<Seq<char>>,
}

impl DeepView for RowDimension {
    type V = RowDimensionView;

    open spec fn deep_view(&self) -> RowDimensionView {
        RowDimensionView {
            row_num: self.row_num,
            height: self.height.deep_view(),
            thick_bot: self.thick_bot,
            custom_height: self.custom_height,
            descent: self.descent.deep_view(),
        }
    }
}

impl RowDimensionView {
    /// The row of which nothing is known.
    pub open spec fn empty() -> RowDimensionView {
        RowDimensionView {
            row_num: 0,
            height: None,
            thick_bot: false,
            custom_height: false,
            descent: None,
        }
    }
}

impl Default for RowDimension {
    fn default() -> (row: RowDimension)
        ensures
            row.deep_view() == RowDimensionView::empty(),
    {
        RowDimension {
            row_num: 0,
            height: None,
            thick_bot: false,
            custom_height: false,
            descent: None,
        }
    }
}

impl RowDimension {
    pub fn get_row_num(&self) -> (row_num: usize)
        ensures
            row_num == self.deep_view().row_num,
    {
        self.row_num
    }

    pub fn get_height(&self) -> (height: Option<&str>)
        ensures
            height.deep_view() == self.deep_view().height,
    {
        match &self.height {
            Some(h) => Some(h.as_str()),
            None => None,
        }
    }

    pub fn get_thick_bot(&self) -> (thick_bot: bool)
        ensures
            thick_bot == self.deep_view().thick_bot,
    {
        self.thick_bot
    }

    pub fn get_custom_height(&self) -> (custom_height: bool)
        ensures
            custom_height == self.deep_view().custom_height,
    {
        self.custom_height
    }

    pub fn get_descent(&self) -> (descent: Option<&str>)
        ensures
            descent.deep_view() == self.deep_view().descent,
    {
        match &self.descent {
            Some(d) => Some(d.as_str()),
            None => None,
        }
    }
}

/// A run of columns that share one width: the first and the last of
/// them, both counted from 1, and the width as the document writes it.
pub struct ColumnDimension {
    pub col_num_start: usize,
    pub col_num_end: usize,
    pub width: String,
    pub best_fit: bool,
}

/// A run of columns as plain values.
pub struct ColumnDimensionView {
    pub col_num_start: usize,
    pub col_num_end: usize,
    pub width: Seq<char>,
    pub best_fit: bool,
}

impl DeepView for ColumnDimension {
    type V = ColumnDimensionView;

    open spec fn deep_view(&self) -> ColumnDimensionView {
        ColumnDimensionView {
            col_num_start: self.col_num_start,
            col_num_end: self.col_num_end,
            width: self.width@,
            best_fit: self.best_fit,
        }
    }
}

impl ColumnDimension {
    pub fn get_col_num_start(&self) -> (col_num_start: usize)
        ensures
            col_num_start == self.deep_view().col_num_start,
    {
        self.col_num_start
    }

    pub fn get_col_num_end(&self) -> (col_num_end: usize)
        ensures
            col_num_end == self.deep_view().col_num_end,
    {
        self.col_num_end
    }

    pub fn get_width(&self) -> (width: &str)
        ensures
            width@ == self.deep_view().width,
    {
        self.width.as_str()
    }

    pub fn get_best_fit(&self) -> (best_fit: bool)
        ensures
            best_fit == self.deep_view().best_fit,
    {
        self.best_fit
    }
}

/// The margins of the printed page, as the document writes them.
pub struct PageMargins {
    pub left: String,
    pub right: String,
    pub top: String,
    pub bottom: String,
    pub header: String,
    pub footer: String,
}

/// Page margins as plain values.
pub struct PageMarginsView {
    pub left: Seq<char>,
    pub right: Seq<char>,
    pub top: Seq<char>,
    pub bottom: Seq<char>,
    pub header: Seq<char>,
    pub footer: Seq<char>,
}

impl DeepView for PageMargins {
    type V = PageMarginsView;

    open spec fn deep_view(&self) -> PageMarginsView {
        PageMarginsView {
            left: self.left@,
            right: self.right@,
            top: self.top@,
            bottom: self.bottom@,
            header: self.header@,
            footer: self.footer@,
        }
    }
}

impl PageMarginsView {
    /// Margins of which nothing is known.
    pub open spec fn empty() -> PageMarginsView {
        PageMarginsView {
            left: Seq::empty(),
            right: Seq::empty(),
            top: Seq::empty(),
            bottom: Seq::empty(),
            header: Seq::empty(),
            footer: Seq::empty(),
        }
    }
}

impl Default for PageMargins {
    fn default() -> (margins: PageMargins)
        ensures
            margins.deep_view() == PageMarginsView::empty(),
    {
        PageMargins {
            left: String::new(),
            right: String::new(),
            top: String::new(),
            bottom: String::new(),
            header: String::new(),
            footer: String::new(),
        }
    }
}

impl PageMargins {
    pub fn get_left(&self) -> (left: &str)
        ensures
            left@ == self.deep_view().left,
    {
        self.left.as_str()
    }

    pub fn get_right(&self) -> (right: &str)
        ensures
            right@ == self.deep_view().right,
    {
        self.right.as_str()
    }

    pub fn get_top(&self) -> (top: &str)
        ensures
            top@ == self.deep_view().top,
    {
        self.top.as_str()
    }

    pub fn get_bottom(&self) -> (bottom: &str)
        ensures
            bottom@ == self.deep_view().bottom,
    {
        self.bottom.as_str()
    }

    pub fn get_header(&self) -> (header: &str)
        ensures
            header@ == self.deep_view().header,
    {
        self.header.as_str()
    }

    pub fn get_footer(&self) -> (footer: &str)
        ensures
            footer@ == self.deep_view().footer,
    {
        self.footer.as_str()
    }
}

} // verus!
