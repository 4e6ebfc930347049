//! The interpreter of a worksheet part: it works through the events of the
//! document in order and gathers what they say into a worksheet.

use super::color::{get_attribute_color, resolved_color};
use super::conditional::{get_conditional_formatting, lemma_rules_advance, rules_from};
use super::elements::{
    cell_marker_of, column_of, get_attribute_row, get_cell_marker, get_column, get_hyperlink,
    get_marked_style, get_page_margins, hyperlink_of, lemma_marker_without_style, marked_style,
    page_margins_of, required_text, row_of,
};
use crate::error::{fault_at, Fault, Table, XlsxError};
use crate::structs::cell::{RichText, RichTextView};
use crate::structs::color::Theme;
use crate::structs::conditional::{ConditionalSet, ConditionalSetView, ConditionalView};
use crate::structs::style::{Style, StyleView};
use crate::structs::worksheet::{
    lemma_cell_index, lemma_cell_of_with_cell, Worksheet, WorksheetView,
};
use crate::text::{parse_usize, parse_usize_spec, text_eq};
use crate::xml::{
    attribute_value, document_events, tokenize, Element, ElementView, XmlEvent, XmlEventView,
};
use vstd::prelude::*;
use vstd::string::*;

verus! {

/// The tables that a worksheet part refers to by index.
pub struct Tables {
    /// The palette of the theme.
    pub color_map: Seq<Seq<char>>,
    /// The shared strings: what each displays, and its rich text if it has any.
    pub shared_strings: Seq<(Seq<char>, Option<RichTextView>)>,
    /// The styles of cells.
    pub cell_xfs: Seq<StyleView>,
    /// The styles of conditional formatting rules.
    pub dxf: Seq<StyleView>,
}

/// What is handed back beside the worksheet: whether the sheet is the
/// active one, the relationships of its drawing and of its legacy drawing,
/// and for each link that leads out of the workbook the cell that it hangs
/// on and the relationship that names its target.
pub type Summary = (bool, Option<String>, Option<String>, Vec<(String, String)>);

/// A summary as plain values.
pub type SummaryView = (bool, Option<Seq<char>>, Option<Seq<char>>, Seq<(Seq<char>, Seq<char>)>);

/// Where the interpreter stands between two events: the worksheet and the
/// summary as gathered so far, and what it remembers of the cell at hand,
/// its reference, its type code, and the character data last read.
pub struct ReaderState {
    pub worksheet: WorksheetView,
    pub is_active_sheet: bool,
    pub drawing: Option<Seq<char>>,
    pub legacy_drawing: Option<Seq<char>>,
    pub hyperlinks: Seq<(Seq<char>, Seq<char>)>,
    pub coordinate: Seq<char>,
    pub type_value: Seq<char>,
    pub string_value: Seq<char>,
}

impl ReaderState {
    /// The state before the first event.
    pub open spec fn initial(worksheet: WorksheetView) -> ReaderState {
        ReaderState {
            worksheet,
            is_active_sheet: false,
            drawing: None,
            legacy_drawing: None,
            hyperlinks: Seq::empty(),
            coordinate: Seq::empty(),
            type_value: Seq::empty(),
            string_value: Seq::empty(),
        }
    }

    /// This state around another worksheet.
    pub open spec fn with_worksheet(self, worksheet: WorksheetView) -> ReaderState {
        ReaderState { worksheet, ..self }
    }

    /// What the state hands back beside its worksheet.
    pub open spec fn summary(self) -> SummaryView {
        (self.is_active_sheet, self.drawing, self.legacy_drawing, self.hyperlinks)
    }
}

/// The state after an element opens, be it with children or closing itself.
///
/// `sheetPr` gives the code name, `sheetView` with `tabSelected` marks the
/// sheet active, `selection` gives the active cell, `row` is one more row,
/// and `c` is a cell marker: its reference and type code are remembered,
/// and the style that it names is attached at once; a marker that closes
/// itself ends there, so that its type code is forgotten again. The other
/// elements count only where they close themselves: `tabColor`, `col`,
/// `autoFilter`, `mergeCell`, `pageMargins`, `drawing`, `legacyDrawing` and
/// `hyperlink`. A link is hung on its cell, and where it leads out of the
/// workbook its relationship is put on the list.
pub open spec fn open_element(
    state: ReaderState,
    element: ElementView,
    has_children: bool,
    color_map: Seq<Seq<char>>,
    cell_xfs: Seq<StyleView>,
) -> Result<ReaderState, Fault> {
    let name = element.name;
    let attributes = element.attributes;
    let sheet = state.worksheet;
    if name == "sheetPr"@ {
        match attribute_value(attributes, "codeName"@) {
            Some(code_name) => Ok(state.with_worksheet(sheet.with_code_name(code_name))),
            None => Ok(state),
        }
    } else if name == "sheetView"@ {
        if attribute_value(attributes, "tabSelected"@) is Some {
            Ok(ReaderState { is_active_sheet: true, ..state })
        } else {
            Ok(state)
        }
    } else if name == "selection"@ {
        match attribute_value(attributes, "activeCell"@) {
            Some(active_cell) => Ok(state.with_worksheet(sheet.with_active_cell(active_cell))),
            None => Ok(state),
        }
    } else if name == "row"@ {
        match row_of(attributes) {
            Ok(row) => Ok(state.with_worksheet(sheet.with_row_dimension(row))),
            Err(fault) => Err(fault),
        }
    } else if name == "c"@ {
        match cell_marker_of(state.coordinate, state.type_value, attributes) {
            Ok(marker) => match marked_style(
                marker.coordinate,
                marker.style_index,
                cell_xfs,
            ) {
                Ok(style) => Ok(
                    ReaderState {
                        worksheet: match style {
                            Some(style) => sheet.with_style(style),
                            None => sheet,
                        },
                        coordinate: marker.coordinate,
                        type_value: if has_children {
                            marker.type_value
                        } else {
                            Seq::empty()
                        },
                        ..state
                    },
                ),
                Err(fault) => Err(fault),
            },
            Err(fault) => Err(fault),
        }
    } else if has_children {
        Ok(state)
    } else if name == "tabColor"@ {
        match resolved_color(sheet.tab_color, attributes, color_map) {
            Ok(color) => Ok(state.with_worksheet(sheet.with_tab_color(color))),
            Err(fault) => Err(fault),
        }
    } else if name == "col"@ {
        match column_of(attributes) {
            Ok(column) => Ok(state.with_worksheet(sheet.with_column_dimension(column))),
            Err(fault) => Err(fault),
        }
    } else if name == "autoFilter"@ {
        match required_text(attributes, "ref"@) {
            Ok(range) => Ok(state.with_worksheet(sheet.with_auto_filter(range))),
            Err(fault) => Err(fault),
        }
    } else if name == "mergeCell"@ {
        match required_text(attributes, "ref"@) {
            Ok(range) => Ok(state.with_worksheet(sheet.with_merge_cells(range))),
            Err(fault) => Err(fault),
        }
    } else if name == "pageMargins"@ {
        match page_margins_of(attributes) {
            Ok(margins) => Ok(state.with_worksheet(sheet.with_page_margins(margins))),
            Err(fault) => Err(fault),
        }
    } else if name == "drawing"@ {
        match required_text(attributes, "r:id"@) {
            Ok(id) => Ok(ReaderState { drawing: Some(id), ..state }),
            Err(fault) => Err(fault),
        }
    } else if name == "legacyDrawing"@ {
        match required_text(attributes, "r:id"@) {
            Ok(id) => Ok(ReaderState { legacy_drawing: Some(id), ..state }),
            Err(fault) => Err(fault),
        }
    } else if name == "hyperlink"@ {
        match hyperlink_of(attributes) {
            Ok((coordinate, id, hyperlink)) => Ok(
                ReaderState {
                    worksheet: sheet.with_cell(sheet.cell(coordinate).with_hyperlink(hyperlink)),
                    hyperlinks: if hyperlink.location {
                        state.hyperlinks
                    } else {
                        state.hyperlinks.push((coordinate, id))
                    },
                    ..state
                },
            ),
            Err(fault) => Err(fault),
        }
    } else {
        Ok(state)
    }
}

/// The worksheet after the value of the cell at hand is written, which is
/// the character data last read, taken by the type code of the cell: with
/// `s` it is the index of a shared string, whose display value and rich
/// text go into the cell; with `b` it is a truth value, true for `1` and
/// false for anything else; with `n` or no type code it is a number, kept
/// as written; with any other type code nothing is written.
pub open spec fn value_written(
    state: ReaderState,
    shared_strings: Seq<(Seq<char>, Option<RichTextView>)>,
) -> Result<WorksheetView, Fault> {
    let sheet = state.worksheet;
    let cell = sheet.cell(state.coordinate);
    if state.type_value == "s"@ {
        match parse_usize_spec(state.string_value) {
            Some(index) => if index < shared_strings.len() {
                Ok(
                    sheet.with_cell(
                        cell.with_all_param(
                            shared_strings[index as int].0,
                            shared_strings[index as int].1,
                            state.type_value,
                            Seq::empty(),
                        ),
                    ),
                )
            } else {
                Err(Fault::IndexOutOfRange { table: Table::SharedString, index })
            },
            None => Err(Fault::UnparsableValue),
        }
    } else if state.type_value == "b"@ {
        Ok(
            sheet.with_cell(
                cell.with_value_and_data_type(
                    if state.string_value == "1"@ {
                        "TRUE"@
                    } else {
                        "FALSE"@
                    },
                    state.type_value,
                ),
            ),
        )
    } else if state.type_value == ""@ || state.type_value == "n"@ {
        Ok(sheet.with_cell(cell.with_number(state.string_value)))
    } else {
        Ok(sheet)
    }
}

/// The state after an element ends: the end of `f` makes the character
/// data last read the formula of the cell at hand, the end of `v` writes
/// its value, and the end of `c` forgets the type code, though not the
/// reference.
pub open spec fn close_element(
    state: ReaderState,
    name: Seq<char>,
    shared_strings: Seq<(Seq<char>, Option<RichTextView>)>,
) -> Result<ReaderState, Fault> {
    let sheet = state.worksheet;
    if name == "f"@ {
        Ok(
            state.with_worksheet(
                sheet.with_cell(sheet.cell(state.coordinate).with_formula(state.string_value)),
            ),
        )
    } else if name == "v"@ {
        match value_written(state, shared_strings) {
            Ok(worksheet) => Ok(state.with_worksheet(worksheet)),
            Err(fault) => Err(fault),
        }
    } else if name == "c"@ {
        Ok(ReaderState { type_value: Seq::empty(), ..state })
    } else {
        Ok(state)
    }
}

/// The state after the event at `pos`, and the position of the event to
/// take next. A block of conditional formatting is taken whole, up to its
/// end, and becomes one more set of rules for the range that `sqref` names.
pub open spec fn step(state: ReaderState, events: Seq<XmlEventView>, pos: int, tables: Tables)
    -> Result<(ReaderState, int), XlsxError> {
    match events[pos] {
        XmlEventView::Start(element) => if element.name == "conditionalFormatting"@ {
            match required_text(element.attributes, "sqref"@) {
                Ok(sqref) => match rules_from(
                    events,
                    pos + 1,
                    ConditionalView::empty(),
                    Seq::empty(),
                    tables.dxf,
                    tables.color_map,
                ) {
                    Ok((rules, next)) => Ok(
                        (
                            state.with_worksheet(
                                state.worksheet.with_conditional_set(
                                    ConditionalSetView { sqref, conditional_collection: rules },
                                ),
                            ),
                            next,
                        ),
                    ),
                    Err(error) => Err(error),
                },
                Err(fault) => Err(fault_at(fault, pos)),
            }
        } else {
            match open_element(state, element, true, tables.color_map, tables.cell_xfs) {
                Ok(after) => Ok((after, pos + 1)),
                Err(fault) => Err(fault_at(fault, pos)),
            }
        },
        XmlEventView::Empty(element) => match open_element(
            state,
            element,
            false,
            tables.color_map,
            tables.cell_xfs,
        ) {
            Ok(after) => Ok((after, pos + 1)),
            Err(fault) => Err(fault_at(fault, pos)),
        },
        XmlEventView::Text(text) => Ok((ReaderState { string_value: text, ..state }, pos + 1)),
        XmlEventView::End(name) => match close_element(state, name, tables.shared_strings) {
            Ok(after) => Ok((after, pos + 1)),
            Err(fault) => Err(fault_at(fault, pos)),
        },
        XmlEventView::Other => Ok((state, pos + 1)),
        XmlEventView::Invalid => Err(fault_at(Fault::InvalidMarkup, pos)),
    }
}

/// A step that is taken leads on, and not past the end of the events.
pub proof fn lemma_step_advances(
    state: ReaderState,
    events: Seq<XmlEventView>,
    pos: int,
    tables: Tables,
)
    requires
        0 <= pos < events.len(),
    ensures
        step(state, events, pos, tables) matches Ok((_, next)) ==> pos < next <= events.len(),
{
    lemma_rules_advance(
        events,
        pos + 1,
        ConditionalView::empty(),
        Seq::empty(),
        tables.dxf,
        tables.color_map,
    );
}

/// What decoding comes to: the worksheet as it is left, and the summary or
/// the error.
pub struct Decoded {
    pub worksheet: WorksheetView,
    pub outcome: Result<SummaryView, XlsxError>,
}

/// What comes of working through the events from `pos` on, from `state`.
/// The first event that has a fault ends the decoding, and the worksheet is
/// left as it was before that event. The end of the events ends the
/// decoding too, whatever is still open.
pub open spec fn run(state: ReaderState, events: Seq<XmlEventView>, pos: int, tables: Tables)
    -> Decoded
    decreases events.len() - pos,
{
    if pos < 0 || pos >= events.len() {
        Decoded { worksheet: state.worksheet, outcome: Ok(state.summary()) }
    } else {
        match step(state, events, pos, tables) {
            Ok((after, next)) => {
                proof {
                    lemma_step_advances(state, events, pos, tables);
                }
                run(after, events, next, tables)
            },
            Err(error) => Decoded { worksheet: state.worksheet, outcome: Err(error) },
        }
    }
}

/// What decoding a whole stream of events into `worksheet` comes to.
pub open spec fn decoded(worksheet: WorksheetView, events: Seq<XmlEventView>, tables: Tables)
    -> Decoded {
    run(ReaderState::initial(worksheet), events, 0, tables)
}

/// The value of a cell of type `s` is the index of a shared string. Where
/// the table has that string, the cell gets exactly its display value and
/// its rich text; where the index points past the table, that is a fault.
pub proof fn lemma_shared_string_value(
    state: ReaderState,
    shared_strings: Seq<(Seq<char>, Option<RichTextView>)>,
    index: usize,
)
    requires
        state.type_value == "s"@,
        parse_usize_spec(state.string_value) == Some(index),
    ensures
        index < shared_strings.len() ==> (value_written(state, shared_strings) matches Ok(sheet)
            && sheet.cell(state.coordinate).value == shared_strings[index as int].0
            && sheet.cell(state.coordinate).rich_text == shared_strings[index as int].1),
        index >= shared_strings.len() ==> value_written(state, shared_strings) == Err::<
            WorksheetView,
            Fault,
        >(Fault::IndexOutOfRange { table: Table::SharedString, index }),
{
    if index < shared_strings.len() {
        lemma_cell_of_with_cell(
            state.worksheet,
            state.worksheet.cell(state.coordinate).with_all_param(
                shared_strings[index as int].0,
                shared_strings[index as int].1,
                state.type_value,
                Seq::empty(),
            ),
        );
        lemma_cell_coordinate(state.worksheet, state.coordinate);
    }
}

/// What a worksheet holds at a coordinate is a cell at that coordinate.
pub proof fn lemma_cell_coordinate(sheet: WorksheetView, coordinate: Seq<char>)
    ensures
        sheet.cell(coordinate).coordinate == coordinate,
{
    lemma_cell_index(sheet.cells, coordinate);
}

/// The value of a cell of type `b` is a truth value: the cell reads `TRUE`
/// where the text is `1`, and `FALSE` for any other text.
pub proof fn lemma_boolean_value(
    state: ReaderState,
    shared_strings: Seq<(Seq<char>, Option<RichTextView>)>,
)
    requires
        state.type_value == "b"@,
    ensures
        value_written(state, shared_strings) matches Ok(sheet) && sheet.cell(
            state.coordinate,
        ).data_type == "b"@ && sheet.cell(state.coordinate).value == (if state.string_value
            == "1"@ {
            "TRUE"@
        } else {
            "FALSE"@
        }),
        "TRUE"@ != "FALSE"@,
{
    reveal_strlit("b");
    reveal_strlit("s");
    reveal_strlit("TRUE");
    reveal_strlit("FALSE");
    assert("b"@[0] != "s"@[0]);
    lemma_cell_coordinate(state.worksheet, state.coordinate);
    lemma_cell_of_with_cell(
        state.worksheet,
        state.worksheet.cell(state.coordinate).with_value_and_data_type(
            if state.string_value == "1"@ {
                "TRUE"@
            } else {
                "FALSE"@
            },
            state.type_value,
        ),
    );
}

/// A cell marker that names no style attaches none: the styles of the
/// worksheet stay as they are, whatever style the cells before it had.
pub proof fn lemma_style_does_not_leak(
    state: ReaderState,
    element: ElementView,
    has_children: bool,
    color_map: Seq<Seq<char>>,
    cell_xfs: Seq<StyleView>,
)
    requires
        element.name == "c"@,
        attribute_value(element.attributes, "s"@) is None,
    ensures
        open_element(state, element, has_children, color_map, cell_xfs) matches Ok(after)
            && after.worksheet == state.worksheet,
{
    lemma_marker_without_style(state.coordinate, state.type_value, element.attributes);
    reveal_strlit("c");
    reveal_strlit("sheetPr");
    reveal_strlit("sheetView");
    reveal_strlit("selection");
    reveal_strlit("row");
    assert("c"@.len() == 1);
    assert("sheetPr"@.len() == 7);
    assert("sheetView"@.len() == 9);
    assert("selection"@.len() == 9);
    assert("row"@.len() == 3);
}

/// What the interpreter keeps between two events, beside the worksheet.
pub struct ParserState {
    pub is_active_sheet: bool,
    pub drawing: Option<String>,
    pub legacy_drawing: Option<String>,
    pub hyperlinks: Vec<(String, String)>,
    pub coordinate: String,
    pub type_value: String,
    pub string_value: String,
}

impl ParserState {
    /// The state of the interpreter, with the worksheet that it works on.
    pub open spec fn state(&self, worksheet: WorksheetView) -> ReaderState {
        ReaderState {
            worksheet,
            is_active_sheet: self.is_active_sheet,
            drawing: self.drawing.deep_view(),
            legacy_drawing: self.legacy_drawing.deep_view(),
            hyperlinks: self.hyperlinks.deep_view(),
            coordinate: self.coordinate@,
            type_value: self.type_value@,
            string_value: self.string_value@,
        }
    }

    /// What is kept before the first event.
    pub fn new() -> (parser: ParserState)
        ensures
            forall|worksheet: WorksheetView| #[trigger]
                parser.state(worksheet) == ReaderState::initial(worksheet),
    {
        let parser = ParserState {
            is_active_sheet: false,
            drawing: None,
            legacy_drawing: None,
            hyperlinks: Vec::new(),
            coordinate: String::new(),
            type_value: String::new(),
            string_value: String::new(),
        };
        assert(parser.hyperlinks.deep_view() =~= Seq::empty());
        parser
    }
}

/// The tables as plain values.
pub open spec fn tables_of(
    theme: &Theme,
    shared_strings: &Vec<(String, Option<RichText>)>,
    cell_xfs_vec: &Vec<Style>,
    dxf_vec: &Vec<Style>,
) -> Tables {
    Tables {
        color_map: theme.deep_view(),
        shared_strings: shared_strings.deep_view(),
        cell_xfs: cell_xfs_vec.deep_view(),
        dxf: dxf_vec.deep_view(),
    }
}

/// Takes in an element that opens. Where it has a fault the worksheet stays
/// as it was.
pub fn on_open(
    parser: &mut ParserState,
    worksheet: &mut Worksheet,
    element: &Element,
    has_children: bool,
    theme: &Theme,
    cell_xfs_vec: &Vec<Style>,
) -> (done: Result<(), Fault>)
    ensures
        old(worksheet).deep_view().wf() ==> final(worksheet).deep_view().wf(),
        match open_element(
            old(parser).state(old(worksheet).deep_view()),
            element.deep_view(),
            has_children,
            theme.deep_view(),
            cell_xfs_vec.deep_view(),
        ) {
            Ok(after) => done is Ok && final(parser).state(final(worksheet).deep_view()) == after,
            Err(fault) => done == Err::<(), Fault>(fault) && final(worksheet).deep_view() == old(
                worksheet,
            ).deep_view(),
        },
{
    let name = element.name.as_str();
    if text_eq(name, "sheetPr") {
        match element.get_attribute("codeName") {
            Some(code_name) => {
                worksheet.set_code_name(code_name);
            },
            None => {},
        }
    } else if text_eq(name, "sheetView") {
        match element.get_attribute("tabSelected") {
            Some(_) => {
                parser.is_active_sheet = true;
            },
            None => {},
        }
    } else if text_eq(name, "selection") {
        match element.get_attribute("activeCell") {
            Some(active_cell) => {
                worksheet.set_active_cell(active_cell);
            },
            None => {},
        }
    } else if text_eq(name, "row") {
        let row = get_attribute_row(element)?;
        worksheet.set_row_dimension(row);
    } else if text_eq(name, "c") {
        let (coordinate, style_index, type_value) = get_cell_marker(
            element,
            parser.coordinate.as_str(),
            parser.type_value.as_str(),
        )?;
        let style = get_marked_style(coordinate.as_str(), style_index, cell_xfs_vec)?;
        match style {
            Some(style) => {
                worksheet.add_style(style);
            },
            None => {},
        }
        parser.coordinate = coordinate;
        parser.type_value = if has_children {
            type_value
        } else {
            String::new()
        };
    } else if has_children {
    } else if text_eq(name, "tabColor") {
        get_attribute_color(element, worksheet, theme)?;
    } else if text_eq(name, "col") {
        let column = get_column(element)?;
        worksheet.set_column_dimensions(column);
    } else if text_eq(name, "autoFilter") {
        match element.get_attribute("ref") {
            Some(range) => {
                worksheet.set_auto_filter(range);
            },
            None => {
                return Err(Fault::MissingAttribute);
            },
        }
    } else if text_eq(name, "mergeCell") {
        match element.get_attribute("ref") {
            Some(range) => {
                worksheet.add_merge_cells(range);
            },
            None => {
                return Err(Fault::MissingAttribute);
            },
        }
    } else if text_eq(name, "pageMargins") {
        let margins = get_page_margins(element)?;
        worksheet.set_page_margins(margins);
    } else if text_eq(name, "drawing") {
        match element.get_attribute("r:id") {
            Some(id) => {
                parser.drawing = Some(id.to_owned());
            },
            None => {
                return Err(Fault::MissingAttribute);
            },
        }
    } else if text_eq(name, "legacyDrawing") {
        match element.get_attribute("r:id") {
            Some(id) => {
                parser.legacy_drawing = Some(id.to_owned());
            },
            None => {
                return Err(Fault::MissingAttribute);
            },
        }
    } else if text_eq(name, "hyperlink") {
        let (coordinate, id, hyperlink) = get_hyperlink(element)?;
        let leads_out = !hyperlink.get_location();
        worksheet.set_cell_hyperlink(coordinate.as_str(), hyperlink);
        if leads_out {
            let ghost before = parser.hyperlinks.deep_view();
            let ghost added = (coordinate@, id@);
            parser.hyperlinks.push((coordinate, id));
            assert(parser.hyperlinks.deep_view() =~= before.push(added));
        }
    }
    Ok(())
}

/// Takes in the end of an element. Where it has a fault the worksheet stays
/// as it was.
pub fn on_close(
    parser: &mut ParserState,
    worksheet: &mut Worksheet,
    name: &str,
    shared_strings: &Vec<(String, Option<RichText>)>,
) -> (done: Result<(), Fault>)
    ensures
        old(worksheet).deep_view().wf() ==> final(worksheet).deep_view().wf(),
        match close_element(
            old(parser).state(old(worksheet).deep_view()),
            name@,
            shared_strings.deep_view(),
        ) {
            Ok(after) => done is Ok && final(parser).state(final(worksheet).deep_view()) == after,
            Err(fault) => done == Err::<(), Fault>(fault) && final(worksheet).deep_view() == old(
                worksheet,
            ).deep_view(),
        },
{
    let coordinate = parser.coordinate.as_str();
    let text = parser.string_value.as_str();
    if text_eq(name, "f") {
        worksheet.set_cell_formula(coordinate, text);
    } else if text_eq(name, "v") {
        let type_value = parser.type_value.as_str();
        if text_eq(type_value, "s") {
            let index = match parse_usize(text) {
                Some(index) => index,
                None => {
                    return Err(Fault::UnparsableValue);
                },
            };
            if index >= shared_strings.len() {
                return Err(Fault::IndexOutOfRange { table: Table::SharedString, index });
            }
            let shared = &shared_strings[index];
            assert(shared_strings.deep_view()[index as int] == shared.deep_view());
            let rich_text = match &shared.1 {
                Some(rich_text) => Some(rich_text.clone()),
                None => None,
            };
            worksheet.set_cell_all_param(coordinate, shared.0.as_str(), rich_text, type_value, "");
            proof {
                reveal_strlit("");
                assert(""@ =~= Seq::<char>::empty());
            }
        } else if text_eq(type_value, "b") {
            let value = if text_eq(text, "1") {
                "TRUE"
            } else {
                "FALSE"
            };
            worksheet.set_cell_value_and_data_type(coordinate, value, type_value);
        } else if text_eq(type_value, "") || text_eq(type_value, "n") {
            worksheet.set_cell_value(coordinate, text);
        }
    } else if text_eq(name, "c") {
        parser.type_value = String::new();
    }
    Ok(())
}

/// Takes in the event at `pos`, and tells the position of the event to
/// take next. Where the event has a fault the worksheet stays as it was.
pub fn take_step(
    parser: &mut ParserState,
    worksheet: &mut Worksheet,
    events: &Vec<XmlEvent>,
    pos: usize,
    theme: &Theme,
    shared_strings: &Vec<(String, Option<RichText>)>,
    cell_xfs_vec: &Vec<Style>,
    dxf_vec: &Vec<Style>,
) -> (next: Result<usize, XlsxError>)
    requires
        pos < events.len(),
    ensures
        old(worksheet).deep_view().wf() ==> final(worksheet).deep_view().wf(),
        match step(
            old(parser).state(old(worksheet).deep_view()),
            events.deep_view(),
            pos as int,
            tables_of(theme, shared_strings, cell_xfs_vec, dxf_vec),
        ) {
            Ok((after, following)) => next == Ok::<usize, XlsxError>(following as usize)
                && following <= events.len() && final(parser).state(
                final(worksheet).deep_view(),
            ) == after,
            Err(error) => next == Err::<usize, XlsxError>(error) && final(worksheet).deep_view()
                == old(worksheet).deep_view(),
        },
{
    proof {
        lemma_step_advances(
            parser.state(worksheet.deep_view()),
            events.deep_view(),
            pos as int,
            tables_of(theme, shared_strings, cell_xfs_vec, dxf_vec),
        );
    }
    assert(events.deep_view()[pos as int] == events[pos as int].deep_view());
    match &events[pos] {
        XmlEvent::Start(element) => {
            if text_eq(element.name.as_str(), "conditionalFormatting") {
                let sqref = match element.get_attribute("sqref") {
                    Some(sqref) => sqref.to_owned(),
                    None => {
                        return Err(XlsxError { fault: Fault::MissingAttribute, position: pos });
                    },
                };
                let (rules, following) = get_conditional_formatting(
                    events,
                    pos + 1,
                    dxf_vec,
                    theme,
                )?;
                worksheet.add_conditional_styles_collection(
                    ConditionalSet { sqref, conditional_collection: rules },
                );
                Ok(following)
            } else {
                match on_open(parser, worksheet, element, true, theme, cell_xfs_vec) {
                    Ok(()) => Ok(pos + 1),
                    Err(fault) => Err(XlsxError { fault, position: pos }),
                }
            }
        },
        XmlEvent::Empty(element) => {
            match on_open(parser, worksheet, element, false, theme, cell_xfs_vec) {
                Ok(()) => Ok(pos + 1),
                Err(fault) => Err(XlsxError { fault, position: pos }),
            }
        },
        XmlEvent::Text(text) => {
            parser.string_value = text.clone();
            Ok(pos + 1)
        },
        XmlEvent::End(name) => {
            match on_close(parser, worksheet, name.as_str(), shared_strings) {
                Ok(()) => Ok(pos + 1),
                Err(fault) => Err(XlsxError { fault, position: pos }),
            }
        },
        XmlEvent::Other => Ok(pos + 1),
        XmlEvent::Invalid => Err(XlsxError { fault: Fault::InvalidMarkup, position: pos }),
    }
}

/// Decodes a worksheet part from its events into `worksheet`.
///
/// The events are taken in order. The first event that has a fault ends
/// the decoding with an error that names the fault and the position of the
/// event, and what that event says is not taken into the worksheet.
pub fn read_events(
    events: &Vec<XmlEvent>,
    worksheet: &mut Worksheet,
    theme: &Theme,
    shared_strings: &Vec<(String, Option<RichText>)>,
    cell_xfs_vec: &Vec<Style>,
    dxf_vec: &Vec<Style>,
) -> (summary: Result<Summary, XlsxError>)
    ensures
        old(worksheet).deep_view().wf() ==> final(worksheet).deep_view().wf(),
        final(worksheet).deep_view() == decoded(
            old(worksheet).deep_view(),
            events.deep_view(),
            tables_of(theme, shared_strings, cell_xfs_vec, dxf_vec),
        ).worksheet,
        match decoded(
            old(worksheet).deep_view(),
            events.deep_view(),
            tables_of(theme, shared_strings, cell_xfs_vec, dxf_vec),
        ).outcome {
            Ok(expected) => summary matches Ok(found) && found.deep_view() == expected,
            Err(error) => summary == Err::<Summary, XlsxError>(error),
        },
{
    let ghost all = events.deep_view();
    let ghost tables = tables_of(theme, shared_strings, cell_xfs_vec, dxf_vec);
    let ghost goal = decoded(worksheet.deep_view(), all, tables);
    let mut parser = ParserState::new();
    let mut pos: usize = 0;
    while pos < events.len()
        invariant
            pos <= events.len(),
            all == events.deep_view(),
            tables == tables_of(theme, shared_strings, cell_xfs_vec, dxf_vec),
            old(worksheet).deep_view().wf() ==> worksheet.deep_view().wf(),
            goal == decoded(old(worksheet).deep_view(), all, tables),
            goal == run(parser.state(worksheet.deep_view()), all, pos as int, tables),
        decreases events.len() - pos,
    {
        proof {
            lemma_step_advances(parser.state(worksheet.deep_view()), all, pos as int, tables);
        }
        match take_step(
            &mut parser,
            worksheet,
            events,
            pos,
            theme,
            shared_strings,
            cell_xfs_vec,
            dxf_vec,
        ) {
            Ok(next) => {
                pos = next;
            },
            Err(error) => {
                return Err(error);
            },
        }
    }
    Ok((parser.is_active_sheet, parser.drawing, parser.legacy_drawing, parser.hyperlinks))
}

/// Decodes a worksheet part from the bytes of its document into
/// `worksheet`: the document is read into events, and the events are
/// decoded.
pub fn read(
    xml: &[u8],
    worksheet: &mut Worksheet,
    theme: &Theme,
    shared_strings: &Vec<(String, Option<RichText>)>,
    cell_xfs_vec: &Vec<Style>,
    dxf_vec: &Vec<Style>,
) -> (summary: Result<Summary, XlsxError>)
    ensures
        old(worksheet).deep_view().wf() ==> final(worksheet).deep_view().wf(),
        final(worksheet).deep_view() == decoded(
            old(worksheet).deep_view(),
            document_events(xml@),
            tables_of(theme, shared_strings, cell_xfs_vec, dxf_vec),
        ).worksheet,
        match decoded(
            old(worksheet).deep_view(),
            document_events(xml@),
            tables_of(theme, shared_strings, cell_xfs_vec, dxf_vec),
        ).outcome {
            Ok(expected) => summary matches Ok(found) && found.deep_view() == expected,
            Err(error) => summary == Err::<Summary, XlsxError>(error),
        },
{
    let events = tokenize(xml);
    read_events(&events, worksheet, theme, shared_strings, cell_xfs_vec, dxf_vec)
}

} // verus!
