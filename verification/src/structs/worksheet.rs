//! The worksheet: what a decoded document is gathered into.

use super::cell::{Cell, CellView, Hyperlink, RichText};
use super::color::{Color, ColorView};
use super::conditional::{ConditionalSet, ConditionalSetView};
use super::dimension::{
    ColumnDimension, ColumnDimensionView, PageMargins, PageMarginsView, RowDimension,
    RowDimensionView,
};
use super::style::{Style, StyleView};
use crate::text::text_eq;
use vstd::prelude::*;
use vstd::string::*;

verus! {

/// A worksheet. It is well formed where no two of its cells have the same
/// coordinate, and what is well formed stays so under every operation.
pub struct Worksheet {
    pub code_name: Option<String>,
    pub active_cell: String,
    pub tab_color: Color,
    pub auto_filter: Option<String>,
    pub merge_cells: Vec<String>,
    pub page_margins: PageMargins,
    pub row_dimensions: Vec<RowDimension>,
    pub column_dimensions: Vec<ColumnDimension>,
    pub styles: Vec<Style>,
    pub cells: Vec<Cell>,
    pub conditional_styles_collection: Vec<ConditionalSet>,
}

/// A worksheet as plain values.
pub struct WorksheetView {
    pub code_name: Option<Seq<char>>,
    pub active_cell: Seq<char>,
    pub tab_color: ColorView,
    pub auto_filter: Option<Seq<char>>,
    pub merge_cells: Seq<Seq<char>>,
    pub page_margins: PageMarginsView,
    pub row_dimensions: Seq<RowDimensionView>,
    pub column_dimensions: Seq<ColumnDimensionView>,
    pub styles: Seq<StyleView>,
    pub cells: Seq<CellView>,
    pub conditional_styles_collection: Seq<ConditionalSetView>,
}

impl DeepView for Worksheet {
    type V = WorksheetView;

    open spec fn deep_view(&self) -> WorksheetView {
        WorksheetView {
            code_name: self.code_name.deep_view(),
            active_cell: self.active_cell@,
            tab_color: self.tab_color.deep_view(),
            auto_filter: self.auto_filter.deep_view(),
            merge_cells: self.merge_cells.deep_view(),
            page_margins: self.page_margins.deep_view(),
            row_dimensions: self.row_dimensions.deep_view(),
            column_dimensions: self.column_dimensions.deep_view(),
            styles: self.styles.deep_view(),
            cells: self.cells.deep_view(),
            conditional_styles_collection: self.conditional_styles_collection.deep_view(),
        }
    }
}

/// The place among `cells` of the cell at `coordinate`, if there is one.
pub open spec fn cell_index(cells: Seq<CellView>, coordinate: Seq<char>) -> Option<int>
    decreases cells.len(),
{
    if cells.len() == 0 {
        None
    } else if cells.last().coordinate == coordinate {
        Some(cells.len() - 1)
    } else {
        cell_index(cells.drop_last(), coordinate)
    }
}

/// The place among `styles` of the style last attached to a cell, if one was.
pub open spec fn style_index(styles: Seq<StyleView>, col_num: usize, row_num: usize) -> Option<
    int,
>
    decreases styles.len(),
{
    if styles.len() == 0 {
        None
    } else if styles.last().coordinate.col_num == col_num && styles.last().coordinate.row_num
        == row_num {
        Some(styles.len() - 1)
    } else {
        style_index(styles.drop_last(), col_num, row_num)
    }
}

/// Where a cell is found, it is the cell at that coordinate; where none is
/// found, no cell is at that coordinate.
pub proof fn lemma_cell_index(cells: Seq<CellView>, coordinate: Seq<char>)
    ensures
        match cell_index(cells, coordinate) {
            Some(i) => 0 <= i < cells.len() && cells[i].coordinate == coordinate,
            None => forall|i: int| 0 <= i < cells.len() ==> (#[trigger] cells[i]).coordinate
                != coordinate,
        },
    decreases cells.len(),
{
    if cells.len() > 0 && cells.last().coordinate != coordinate {
        lemma_cell_index(cells.drop_last(), coordinate);
        assert forall|i: int| 0 <= i < cells.len() - 1 implies cells[i]
            == cells.drop_last()[i] by {}
    }
}

impl WorksheetView {
    /// The worksheet that holds nothing.
    pub open spec fn empty() -> WorksheetView {
        WorksheetView {
            code_name: None,
            active_cell: Seq::empty(),
            tab_color: ColorView::empty(),
            auto_filter: None,
            merge_cells: Seq::empty(),
            page_margins: PageMarginsView::empty(),
            row_dimensions: Seq::empty(),
            column_dimensions: Seq::empty(),
            styles: Seq::empty(),
            cells: Seq::empty(),
            conditional_styles_collection: Seq::empty(),
        }
    }

    /// No two cells have the same coordinate.
    pub open spec fn wf(self) -> bool {
        forall|i: int, j: int|
            0 <= i < j < self.cells.len() ==> (#[trigger] self.cells[i]).coordinate != (
            #[trigger] self.cells[j]).coordinate
    }

    /// What the worksheet holds at `coordinate`: the cell there, or a blank
    /// one where there is none.
    pub open spec fn cell(self, coordinate: Seq<char>) -> CellView {
        match cell_index(self.cells, coordinate) {
            Some(i) => self.cells[i],
            None => CellView::blank(coordinate),
        }
    }

    /// The worksheet with `cell` at its coordinate, in place of the cell
    /// that was there, or added as the last cell where none was.
    pub open spec fn with_cell(self, cell: CellView) -> WorksheetView {
        WorksheetView {
            cells: match cell_index(self.cells, cell.coordinate) {
                Some(i) => self.cells.update(i, cell),
                None => self.cells.push(cell),
            },
            ..self
        }
    }

    /// The style attached to a cell, if one is.
    pub open spec fn style(self, col_num: usize, row_num: usize) -> Option<StyleView> {
        match style_index(self.styles, col_num, row_num) {
            Some(i) => Some(self.styles[i]),
            None => None,
        }
    }

    pub open spec fn with_code_name(self, code_name: Seq<char>) -> WorksheetView {
        WorksheetView { code_name: Some(code_name), ..self }
    }

    pub open spec fn with_active_cell(self, active_cell: Seq<char>) -> WorksheetView {
        WorksheetView { active_cell, ..self }
    }

    pub open spec fn with_tab_color(self, tab_color: ColorView) -> WorksheetView {
        WorksheetView { tab_color, ..self }
    }

    pub open spec fn with_auto_filter(self, range: Seq<char>) -> WorksheetView {
        WorksheetView { auto_filter: Some(range), ..self }
    }

    pub open spec fn with_merge_cells(self, range: Seq<char>) -> WorksheetView {
        WorksheetView { merge_cells: self.merge_cells.push(range), ..self }
    }

    pub open spec fn with_page_margins(self, page_margins: PageMarginsView) -> WorksheetView {
        WorksheetView { page_margins, ..self }
    }

    pub open spec fn with_row_dimension(self, row: RowDimensionView) -> WorksheetView {
        WorksheetView { row_dimensions: self.row_dimensions.push(row), ..self }
    }

    pub open spec fn with_column_dimension(self, column: ColumnDimensionView) -> WorksheetView {
        WorksheetView { column_dimensions: self.column_dimensions.push(column), ..self }
    }

    pub open spec fn with_style(self, style: StyleView) -> WorksheetView {
        WorksheetView { styles: self.styles.push(style), ..self }
    }

    pub open spec fn with_conditional_set(self, set: ConditionalSetView) -> WorksheetView {
        WorksheetView {
            conditional_styles_collection: self.conditional_styles_collection.push(set),
            ..self
        }
    }
}

/// Putting a cell at its coordinate keeps the coordinates of a worksheet
/// apart.
pub proof fn lemma_with_cell_wf(sheet: WorksheetView, cell: CellView)
    ensures
        sheet.wf() ==> sheet.with_cell(cell).wf(),
{
    lemma_cell_index(sheet.cells, cell.coordinate);
}

/// What is put at a coordinate is what the worksheet then holds there.
pub proof fn lemma_cell_of_with_cell(sheet: WorksheetView, cell: CellView)
    ensures
        sheet.with_cell(cell).cell(cell.coordinate) == cell,
        cell_index(sheet.with_cell(cell).cells, cell.coordinate) is Some,
{
    lemma_cell_index(sheet.cells, cell.coordinate);
    let after = sheet.with_cell(cell).cells;
    match cell_index(sheet.cells, cell.coordinate) {
        Some(i) => {
            lemma_cell_index_kept(sheet.cells, cell.coordinate, i, cell);
        },
        None => {
            assert(after.last() == cell);
        },
    }
}

/// Replacing a cell by one at the same coordinate keeps every cell where
/// it is found.
proof fn lemma_cell_index_kept(cells: Seq<CellView>, coordinate: Seq<char>, i: int, cell: CellView)
    requires
        0 <= i < cells.len(),
        cells[i].coordinate == cell.coordinate,
    ensures
        cell_index(cells.update(i, cell), coordinate) == cell_index(cells, coordinate),
    decreases cells.len(),
{
    let after = cells.update(i, cell);
    if i == cells.len() - 1 {
        assert(after.drop_last() =~= cells.drop_last());
    } else {
        assert(after.drop_last() =~= cells.drop_last().update(i, cell));
        if cells.last().coordinate != coordinate {
            lemma_cell_index_kept(cells.drop_last(), coordinate, i, cell);
        }
    }
}

/// What is put at a coordinate leaves what the worksheet holds at every
/// other coordinate as it was.
pub proof fn lemma_cell_beside_with_cell(sheet: WorksheetView, cell: CellView, other: Seq<char>)
    requires
        other != cell.coordinate,
    ensures
        sheet.with_cell(cell).cell(other) == sheet.cell(other),
{
    lemma_cell_index(sheet.cells, cell.coordinate);
    lemma_cell_index(sheet.cells, other);
    let after = sheet.with_cell(cell).cells;
    match cell_index(sheet.cells, cell.coordinate) {
        Some(i) => {
            lemma_cell_index_kept(sheet.cells, other, i, cell);
        },
        None => {
            assert(after.drop_last() =~= sheet.cells);
        },
    }
}

impl Worksheet {
    /// A worksheet that holds nothing.
    pub fn new() -> (sheet: Worksheet)
        ensures
            sheet.deep_view() == WorksheetView::empty(),
            sheet.deep_view().wf(),
    {
        let sheet = Worksheet {
            code_name: None,
            active_cell: String::new(),
            tab_color: Color::default(),
            auto_filter: None,
            merge_cells: Vec::new(),
            page_margins: PageMargins::default(),
            row_dimensions: Vec::new(),
            column_dimensions: Vec::new(),
            styles: Vec::new(),
            cells: Vec::new(),
            conditional_styles_collection: Vec::new(),
        };
        assert(sheet.merge_cells.deep_view() =~= Seq::empty());
        assert(sheet.row_dimensions.deep_view() =~= Seq::empty());
        assert(sheet.column_dimensions.deep_view() =~= Seq::empty());
        assert(sheet.styles.deep_view() =~= Seq::empty());
        assert(sheet.cells.deep_view() =~= Seq::empty());
        assert(sheet.conditional_styles_collection.deep_view() =~= Seq::empty());
        sheet
    }

    /// Whether no two cells of the worksheet have the same coordinate.
    pub fn is_well_formed(&self) -> (well_formed: bool)
        ensures
            well_formed == self.deep_view().wf(),
    {
        let ghost all = self.cells.deep_view();
        let mut j: usize = 0;
        while j < self.cells.len()
            invariant
                j <= self.cells.len(),
                all == self.cells.deep_view(),
                forall|a: int, b: int|
                    0 <= a < b < j ==> (#[trigger] all[a]).coordinate != (
                    #[trigger] all[b]).coordinate,
            decreases self.cells.len() - j,
        {
            let mut i: usize = 0;
            while i < j
                invariant
                    i <= j < self.cells.len(),
                    all == self.cells.deep_view(),
                    forall|a: int|
                        0 <= a < i ==> (#[trigger] all[a]).coordinate != all[j as int].coordinate,
                decreases j - i,
            {
                assert(all[i as int] == self.cells[i as int].deep_view());
                assert(all[j as int] == self.cells[j as int].deep_view());
                if text_eq(self.cells[i].coordinate.as_str(), self.cells[j].coordinate.as_str()) {
                    return false;
                }
                i += 1;
            }
            j += 1;
        }
        true
    }

    pub fn get_code_name(&self) -> (code_name: Option<&str>)
        ensures
            code_name.deep_view() == self.deep_view().code_name,
    {
        match &self.code_name {
            Some(name) => Some(name.as_str()),
            None => None,
        }
    }

    pub fn set_code_name(&mut self, value: &str)
        ensures
            final(self).deep_view() == old(self).deep_view().with_code_name(value@),
    {
        self.code_name = Some(value.to_owned());
    }

    pub fn get_active_cell(&self) -> (active_cell: &str)
        ensures
            active_cell@ == self.deep_view().active_cell,
    {
        self.active_cell.as_str()
    }

    pub fn set_active_cell(&mut self, value: &str)
        ensures
            final(self).deep_view() == old(self).deep_view().with_active_cell(value@),
    {
        self.active_cell = value.to_owned();
    }

    pub fn get_tab_color(&self) -> (tab_color: &Color)
        ensures
            tab_color.deep_view() == self.deep_view().tab_color,
    {
        &self.tab_color
    }

    pub fn set_tab_color(&mut self, value: Color)
        ensures
            final(self).deep_view() == old(self).deep_view().with_tab_color(value.deep_view()),
    {
        self.tab_color = value;
    }

    pub fn get_auto_filter(&self) -> (auto_filter: Option<&str>)
        ensures
            auto_filter.deep_view() == self.deep_view().auto_filter,
    {
        match &self.auto_filter {
            Some(range) => Some(range.as_str()),
            None => None,
        }
    }

    pub fn set_auto_filter(&mut self, value: &str)
        ensures
            final(self).deep_view() == old(self).deep_view().with_auto_filter(value@),
    {
        self.auto_filter = Some(value.to_owned());
    }

    pub fn get_merge_cells(&self) -> (merge_cells: &Vec<String>)
        ensures
            merge_cells.deep_view() == self.deep_view().merge_cells,
    {
        &self.merge_cells
    }

    /// Records one more merged range.
    pub fn add_merge_cells(&mut self, value: &str)
        ensures
            final(self).deep_view() == old(self).deep_view().with_merge_cells(value@),
    {
        self.merge_cells.push(value.to_owned());
        assert(self.merge_cells.deep_view() =~= old(self).merge_cells.deep_view().push(value@));
    }

    pub fn get_page_margins(&self) -> (page_margins: &PageMargins)
        ensures
            page_margins.deep_view() == self.deep_view().page_margins,
    {
        &self.page_margins
    }

    pub fn set_page_margins(&mut self, value: PageMargins)
        ensures
            final(self).deep_view() == old(self).deep_view().with_page_margins(value.deep_view()),
    {
        self.page_margins = value;
    }

    pub fn get_row_dimensions(&self) -> (rows: &Vec<RowDimension>)
        ensures
            rows.deep_view() == self.deep_view().row_dimensions,
    {
        &self.row_dimensions
    }

    /// Records one more row.
    pub fn set_row_dimension(&mut self, value: RowDimension)
        ensures
            final(self).deep_view() == old(self).deep_view().with_row_dimension(value.deep_view()),
    {
        let ghost row = value.deep_view();
        self.row_dimensions.push(value);
        assert(self.row_dimensions.deep_view() =~= old(self).row_dimensions.deep_view().push(row));
    }

    pub fn get_column_dimensions(&self) -> (columns: &Vec<ColumnDimension>)
        ensures
            columns.deep_view() == self.deep_view().column_dimensions,
    {
        &self.column_dimensions
    }

    /// Records one more run of columns.
    pub fn set_column_dimensions(&mut self, value: ColumnDimension)
        ensures
            final(self).deep_view() == old(self).deep_view().with_column_dimension(
                value.deep_view(),
            ),
    {
        let ghost column = value.deep_view();
        self.column_dimensions.push(value);
        assert(self.column_dimensions.deep_view() =~= old(self).column_dimensions.deep_view().push(
            column,
        ));
    }

    pub fn get_styles(&self) -> (styles: &Vec<Style>)
        ensures
            styles.deep_view() == self.deep_view().styles,
    {
        &self.styles
    }

    /// Attaches a style to the cell that its coordinate names.
    pub fn add_style(&mut self, value: Style)
        ensures
            final(self).deep_view() == old(self).deep_view().with_style(value.deep_view()),
    {
        let ghost style = value.deep_view();
        self.styles.push(value);
        assert(self.styles.deep_view() =~= old(self).styles.deep_view().push(style));
    }

    /// The style attached to a cell: the last one, where several were.
    pub fn get_style(&self, col_num: usize, row_num: usize) -> (style: Option<&Style>)
        ensures
            style.deep_view() == self.deep_view().style(col_num, row_num),
    {
        let ghost all = self.styles.deep_view();
        let mut i: usize = self.styles.len();
        assert(all.take(i as int) =~= all);
        while i > 0
            invariant
                i <= self.styles.len(),
                all == self.styles.deep_view(),
                style_index(all, col_num, row_num) == style_index(
                    all.take(i as int),
                    col_num,
                    row_num,
                ),
            decreases i,
        {
            i -= 1;
            proof {
                assert(all.take(i + 1).drop_last() =~= all.take(i as int));
                assert(all.take(i + 1).last() == self.styles[i as int].deep_view());
            }
            if self.styles[i].coordinate.col_num == col_num && self.styles[i].coordinate.row_num
                == row_num {
                return Some(&self.styles[i]);
            }
        }
        None
    }

    pub fn get_conditional_styles_collection(&self) -> (sets: &Vec<ConditionalSet>)
        ensures
            sets.deep_view() == self.deep_view().conditional_styles_collection,
    {
        &self.conditional_styles_collection
    }

    /// Records one more set of formatting rules.
    pub fn add_conditional_styles_collection(&mut self, value: ConditionalSet)
        ensures
            final(self).deep_view() == old(self).deep_view().with_conditional_set(
                value.deep_view(),
            ),
    {
        let ghost set = value.deep_view();
        self.conditional_styles_collection.push(value);
        assert(self.conditional_styles_collection.deep_view() =~= old(
            self,
        ).conditional_styles_collection.deep_view().push(set));
    }

    pub fn get_cells(&self) -> (cells: &Vec<Cell>)
        ensures
            cells.deep_view() == self.deep_view().cells,
    {
        &self.cells
    }

    fn find_cell(&self, coordinate: &str) -> (found: Option<usize>)
        ensures
            match found {
                Some(i) => cell_index(self.deep_view().cells, coordinate@) == Some(i as int) && i
                    < self.cells.len(),
                None => cell_index(self.deep_view().cells, coordinate@) is None,
            },
    {
        let ghost all = self.cells.deep_view();
        let mut i: usize = self.cells.len();
        assert(all.take(i as int) =~= all);
        while i > 0
            invariant
                i <= self.cells.len(),
                all == self.cells.deep_view(),
                cell_index(all, coordinate@) == cell_index(all.take(i as int), coordinate@),
            decreases i,
        {
            i -= 1;
            proof {
                assert(all.take(i + 1).drop_last() =~= all.take(i as int));
                assert(all.take(i + 1).last() == self.cells[i as int].deep_view());
            }
            if text_eq(self.cells[i].coordinate.as_str(), coordinate) {
                return Some(i);
            }
        }
        None
    }

    /// The cell at a coordinate, if the worksheet has one there.
    pub fn get_cell(&self, coordinate: &str) -> (cell: Option<&Cell>)
        ensures
            match cell {
                Some(c) => cell_index(self.deep_view().cells, coordinate@) is Some
                    && c.deep_view() == self.deep_view().cell(coordinate@),
                None => cell_index(self.deep_view().cells, coordinate@) is None,
            },
    {
        match self.find_cell(coordinate) {
            Some(i) => Some(&self.cells[i]),
            None => None,
        }
    }

    /// Makes sure that the worksheet has a cell at a coordinate, and tells
    /// its place.
    fn cell_slot(&mut self, coordinate: &str) -> (i: usize)
        ensures
            i < final(self).cells.len(),
            final(self).cells[i as int].deep_view() == old(self).deep_view().cell(coordinate@),
            final(self).deep_view() == old(self).deep_view().with_cell(
                old(self).deep_view().cell(coordinate@),
            ),
            old(self).deep_view().wf() ==> final(self).deep_view().wf(),
            cell_index(final(self).deep_view().cells, coordinate@) == Some(i as int),
            cell_index(old(self).deep_view().cells, coordinate@) == (if i < old(self).cells.len() {
                Some(i as int)
            } else {
                None
            }),
    {
        proof {
            lemma_cell_index(self.deep_view().cells, coordinate@);
            lemma_with_cell_wf(self.deep_view(), self.deep_view().cell(coordinate@));
        }
        match self.find_cell(coordinate) {
            Some(i) => {
                assert(self.deep_view().cells =~= self.deep_view().cells.update(
                    i as int,
                    self.deep_view().cells[i as int],
                ));
                i
            },
            None => {
                self.cells.push(Cell::new(coordinate));
                assert(self.cells.deep_view() =~= old(self).cells.deep_view().push(
                    CellView::blank(coordinate@),
                ));
                assert(self.cells.deep_view().drop_last() =~= old(self).cells.deep_view());
                self.cells.len() - 1
            },
        }
    }

    /// Gives the cell at a coordinate another formula.
    pub fn set_cell_formula(&mut self, coordinate: &str, formula: &str)
        ensures
            final(self).deep_view() == old(self).deep_view().with_cell(
                old(self).deep_view().cell(coordinate@).with_formula(formula@),
            ),
            old(self).deep_view().wf() ==> final(self).deep_view().wf(),
    {
        let i = self.cell_slot(coordinate);
        let ghost mid = self.deep_view();
        let cell = &mut self.cells[i];
        cell.set_formula(formula);
        proof {
            lemma_cell_index(old(self).deep_view().cells, coordinate@);
            lemma_with_cell_wf(mid, mid.cells[i as int].with_formula(formula@));
            assert(self.cells.deep_view() =~= mid.cells.update(
                i as int,
                mid.cells[i as int].with_formula(formula@),
            ));
            assert(self.deep_view().cells =~= old(self).deep_view().with_cell(
                old(self).deep_view().cell(coordinate@).with_formula(formula@),
            ).cells);
        }
    }

    /// Hangs a link on the cell at a coordinate.
    pub fn set_cell_hyperlink(&mut self, coordinate: &str, hyperlink: Hyperlink)
        ensures
            final(self).deep_view() == old(self).deep_view().with_cell(
                old(self).deep_view().cell(coordinate@).with_hyperlink(hyperlink.deep_view()),
            ),
            old(self).deep_view().wf() ==> final(self).deep_view().wf(),
    {
        let i = self.cell_slot(coordinate);
        let ghost mid = self.deep_view();
        let ghost link = hyperlink.deep_view();
        let cell = &mut self.cells[i];
        cell.set_hyperlink(hyperlink);
        proof {
            lemma_cell_index(old(self).deep_view().cells, coordinate@);
            lemma_with_cell_wf(mid, mid.cells[i as int].with_hyperlink(link));
            assert(self.cells.deep_view() =~= mid.cells.update(
                i as int,
                mid.cells[i as int].with_hyperlink(link),
            ));
            assert(self.deep_view().cells =~= old(self).deep_view().with_cell(
                old(self).deep_view().cell(coordinate@).with_hyperlink(link),
            ).cells);
        }
    }

    /// Gives the cell at a coordinate another value and type.
    pub fn set_cell_value_and_data_type(&mut self, coordinate: &str, value: &str, data_type: &str)
        ensures
            final(self).deep_view() == old(self).deep_view().with_cell(
                old(self).deep_view().cell(coordinate@).with_value_and_data_type(
                    value@,
                    data_type@,
                ),
            ),
            old(self).deep_view().wf() ==> final(self).deep_view().wf(),
    {
        let i = self.cell_slot(coordinate);
        let ghost mid = self.deep_view();
        let cell = &mut self.cells[i];
        cell.set_value_and_data_type(value, data_type);
        proof {
            lemma_cell_index(old(self).deep_view().cells, coordinate@);
            lemma_with_cell_wf(
                mid,
                mid.cells[i as int].with_value_and_data_type(value@, data_type@),
            );
            assert(self.cells.deep_view() =~= mid.cells.update(
                i as int,
                mid.cells[i as int].with_value_and_data_type(value@, data_type@),
            ));
            assert(self.deep_view().cells =~= old(self).deep_view().with_cell(
                old(self).deep_view().cell(coordinate@).with_value_and_data_type(
                    value@,
                    data_type@,
                ),
            ).cells);
        }
    }

    /// Gives the cell at a coordinate a number, written as in the document.
    pub fn set_cell_value(&mut self, coordinate: &str, value: &str)
        ensures
            final(self).deep_view() == old(self).deep_view().with_cell(
                old(self).deep_view().cell(coordinate@).with_number(value@),
            ),
            old(self).deep_view().wf() ==> final(self).deep_view().wf(),
    {
        self.set_cell_value_and_data_type(coordinate, value, "n");
    }

    /// Gives the cell at a coordinate another value, rich text, type and
    /// format.
    pub fn set_cell_all_param(
        &mut self,
        coordinate: &str,
        value: &str,
        rich_text: Option<RichText>,
        data_type: &str,
        format_code: &str,
    )
        ensures
            final(self).deep_view() == old(self).deep_view().with_cell(
                old(self).deep_view().cell(coordinate@).with_all_param(
                    value@,
                    rich_text.deep_view(),
                    data_type@,
                    format_code@,
                ),
            ),
            old(self).deep_view().wf() ==> final(self).deep_view().wf(),
    {
        let i = self.cell_slot(coordinate);
        let ghost mid = self.deep_view();
        let ghost rich = rich_text.deep_view();
        let cell = &mut self.cells[i];
        cell.set_all_param(value, rich_text, data_type, format_code);
        proof {
            lemma_cell_index(old(self).deep_view().cells, coordinate@);
            lemma_with_cell_wf(
                mid,
                mid.cells[i as int].with_all_param(value@, rich, data_type@, format_code@),
            );
            assert(self.cells.deep_view() =~= mid.cells.update(
                i as int,
                mid.cells[i as int].with_all_param(value@, rich, data_type@, format_code@),
            ));
            assert(self.deep_view().cells =~= old(self).deep_view().with_cell(
                old(self).deep_view().cell(coordinate@).with_all_param(
                    value@,
                    rich,
                    data_type@,
                    format_code@,
                ),
            ).cells);
        }
    }
}

} // verus!
