//! Cells and what they hold.

use vstd::prelude::*;
use vstd::string::*;

verus! {

/// Text with formatting of its own inside a cell.
pub struct RichText {
    pub text: String,
}

/// Rich text as plain values.
pub struct RichTextView {
    pub text: Seq<char>,
}

impl DeepView for RichText {
    type V = RichTextView;

    open spec fn deep_view(&self) -> RichTextView {
        RichTextView { text: self.text@ }
    }
}

impl Clone for RichText {
    fn clone(&self) -> (rich_text: RichText)
        ensures
            rich_text.deep_view() == self.deep_view(),
    {
        RichText { text: self.text.clone() }
    }
}

impl RichText {
    /// Rich text that reads `text`.
    pub fn new(text: &str) -> (rich_text: RichText)
        ensures
            rich_text.deep_view() == (RichTextView { text: text@ }),
    {
        RichText { text: text.to_owned() }
    }

    pub fn get_text(&self) -> (text: &str)
        ensures
            text@ == self.deep_view().text,
    {
        self.text.as_str()
    }
}

/// A link on a cell. `location` tells that the link leads to a place
/// inside the workbook, which `url` then names.
pub struct Hyperlink {
    pub url: String,
    pub tooltip: String,
    pub location: bool,
}

/// A link as plain values.
pub struct HyperlinkView {
    pub url: Seq<char>,
    pub tooltip: Seq<char>,
    pub location: bool,
}

impl DeepView for Hyperlink {
    type V = HyperlinkView;

    open spec fn deep_view(&self) -> HyperlinkView {
        HyperlinkView { url: self.url@, tooltip: self.tooltip@, location: self.location }
    }
}

impl HyperlinkView {
    /// The link that leads nowhere yet.
    pub open spec fn empty() -> HyperlinkView {
        HyperlinkView { url: Seq::empty(), tooltip: Seq::empty(), location: false }
    }
}

impl Default for Hyperlink {
    fn default() -> (hyperlink: Hyperlink)
        ensures
            hyperlink.deep_view() == HyperlinkView::empty(),
    {
        Hyperlink { url: String::new(), tooltip: String::new(), location: false }
    }
}

impl Hyperlink {
    pub fn get_url(&self) -> (url: &str)
        ensures
            url@ == self.deep_view().url,
    {
        self.url.as_str()
    }

    pub fn set_url(&mut self, value: &str)
        ensures
            final(self).deep_view() == (HyperlinkView { url: value@, ..old(self).deep_view() }),
    {
        self.url = value.to_owned();
    }

    pub fn get_tooltip(&self) -> (tooltip: &str)
        ensures
            tooltip@ == self.deep_view().tooltip,
    {
        self.tooltip.as_str()
    }

    pub fn get_location(&self) -> (location: bool)
        ensures
            location == self.deep_view().location,
    {
        self.location
    }

    pub fn set_location(&mut self, value: bool)
        ensures
            final(self).deep_view() == (HyperlinkView { location: value, ..old(self).deep_view() }),
    {
        self.location = value;
    }
}

/// A cell: where it is, what it holds and of what type, and what hangs on it.
pub struct Cell {
    pub coordinate: String,
    pub value: String,
    pub data_type: String,
    pub format_code: String,
    pub formula: String,
    pub rich_text: Option<RichText>,
    pub hyperlink: Option<Hyperlink>,
}

/// A cell as plain values.
pub struct CellView {
    pub coordinate: Seq<char>,
    pub value: Seq<char>,
    pub data_type: Seq<char>,
    pub format_code: Seq<char>,
    pub formula: Seq<char>,
    pub rich_text: Option<RichTextView>,
    pub hyperlink: Option<HyperlinkView>,
}

impl DeepView for Cell {
    type V = CellView;

    open spec fn deep_view(&self) -> CellView {
        CellView {
            coordinate: self.coordinate@,
            value: self.value@,
            data_type: self.data_type@,
            format_code: self.format_code@,
            formula: self.formula@,
            rich_text: self.rich_text.deep_view(),
            hyperlink: self.hyperlink.deep_view(),
        }
    }
}

impl CellView {
    /// The cell at `coordinate` that holds nothing.
    pub open spec fn blank(coordinate: Seq<char>) -> CellView {
        CellView {
            coordinate,
            value: Seq::empty(),
            data_type: Seq::empty(),
            format_code: Seq::empty(),
            formula: Seq::empty(),
            rich_text: None,
            hyperlink: None,
        }
    }

    /// This cell with another formula.
    pub open spec fn with_formula(self, formula: Seq<char>) -> CellView {
        CellView { formula, ..self }
    }

    /// This cell with another link.
    pub open spec fn with_hyperlink(self, hyperlink: HyperlinkView) -> CellView {
        CellView { hyperlink: Some(hyperlink), ..self }
    }

    /// This cell with another value and type.
    pub open spec fn with_value_and_data_type(
        self,
        value: Seq<char>,
        data_type: Seq<char>,
    ) -> CellView {
        CellView { value, data_type, ..self }
    }

    /// This cell with a number for its value, as the document writes it.
    pub open spec fn with_number(self, value: Seq<char>) -> CellView {
        self.with_value_and_data_type(value, "n"@)
    }

    /// This cell with another value, rich text, type and format.
    pub open spec fn with_all_param(
        self,
        value: Seq<char>,
        rich_text: Option<RichTextView>,
        data_type: Seq<char>,
        format_code: Seq<char>,
    ) -> CellView {
        CellView { value, rich_text, data_type, format_code, ..self }
    }
}

impl Cell {
    /// The cell at `coordinate` that holds nothing.
    pub fn new(coordinate: &str) -> (cell: Cell)
        ensures
            cell.deep_view() == CellView::blank(coordinate@),
    {
        Cell {
            coordinate: coordinate.to_owned(),
            value: String::new(),
            data_type: String::new(),
            format_code: String::new(),
            formula: String::new(),
            rich_text: None,
            hyperlink: None,
        }
    }

    pub fn get_coordinate(&self) -> (coordinate: &str)
        ensures
            coordinate@ == self.deep_view().coordinate,
    {
        self.coordinate.as_str()
    }

    pub fn get_value(&self) -> (value: &str)
        ensures
            value@ == self.deep_view().value,
    {
        self.value.as_str()
    }

    pub fn get_data_type(&self) -> (data_type: &str)
        ensures
            data_type@ == self.deep_view().data_type,
    {
        self.data_type.as_str()
    }

    pub fn get_format_code(&self) -> (format_code: &str)
        ensures
            format_code@ == self.deep_view().format_code,
    {
        self.format_code.as_str()
    }

    pub fn get_formula(&self) -> (formula: &str)
        ensures
            formula@ == self.deep_view().formula,
    {
        self.formula.as_str()
    }

    pub fn get_rich_text(&self) -> (rich_text: Option<&RichText>)
        ensures
            rich_text.deep_view() == self.deep_view().rich_text,
    {
        self.rich_text.as_ref()
    }

    pub fn get_hyperlink(&self) -> (hyperlink: Option<&Hyperlink>)
        ensures
            hyperlink.deep_view() == self.deep_view().hyperlink,
    {
        self.hyperlink.as_ref()
    }

    pub fn set_formula(&mut self, value: &str)
        ensures
            final(self).deep_view() == old(self).deep_view().with_formula(value@),
    {
        self.formula = value.to_owned();
    }

    pub fn set_hyperlink(&mut self, value: Hyperlink)
        ensures
            final(self).deep_view() == old(self).deep_view().with_hyperlink(value.deep_view()),
    {
        self.hyperlink = Some(value);
    }

    pub fn set_value_and_data_type(&mut self, value: &str, data_type: &str)
        ensures
            final(self).deep_view() == old(self).deep_view().with_value_and_data_type(
                value@,
                data_type@,
            ),
    {
        self.value = value.to_owned();
        self.data_type = data_type.to_owned();
    }

    /// Gives the cell a number, written as in the document.
    pub fn set_value_crate(&mut self, value: &str)
        ensures
            final(self).deep_view() == old(self).deep_view().with_number(value@),
    {
        self.set_value_and_data_type(value, "n");
    }

    pub fn set_all_param(
        &mut self,
        value: &str,
        rich_text: Option<RichText>,
        data_type: &str,
        format_code: &str,
    )
        ensures
            final(self).deep_view() == old(self).deep_view().with_all_param(
                value@,
                rich_text.deep_view(),
                data_type@,
                format_code@,
            ),
    {
        self.value = value.to_owned();
        self.rich_text = rich_text;
        self.data_type = data_type.to_owned();
        self.format_code = format_code.to_owned();
    }
}

} // verus!
