//! What the elements of a worksheet say, each read from its attributes.

use crate::coordinate::{decode_coordinate, index_from_coordinate};
use crate::error::{deep_result, Fault, Table};
use crate::structs::cell::{Hyperlink, HyperlinkView};
use crate::structs::dimension::{
    ColumnDimension, ColumnDimensionView, PageMargins, PageMarginsView, RowDimension,
    RowDimensionView,
};
use crate::structs::style::{Coordinate, Style, StyleView};
use crate::text::{
    is_real, is_real_text, parse_usize, parse_usize_spec, text_eq, to_upper_text, upper_text,
};
use crate::xml::{
    attribute_value, fold_attributes, lemma_fold_attributes_fails, lemma_fold_attributes_next,
    AttributeView, Element,
};
use vstd::prelude::*;
use vstd::string::*;

verus! {

/// The text of an attribute that an element must carry.
pub open spec fn required_text(attributes: Seq<AttributeView>, key: Seq<char>) -> Result<
    Seq<char>,
    Fault,
> {
    match attribute_value(attributes, key) {
        Some(value) => Ok(value),
        None => Err(Fault::MissingAttribute),
    }
}

/// The number in an attribute that an element must carry.
pub open spec fn required_usize(attributes: Seq<AttributeView>, key: Seq<char>) -> Result<
    usize,
    Fault,
> {
    match attribute_value(attributes, key) {
        Some(value) => match parse_usize_spec(value) {
            Some(number) => Ok(number),
            None => Err(Fault::UnparsableValue),
        },
        None => Err(Fault::MissingAttribute),
    }
}

/// The real number, as written, in an attribute that an element must carry.
pub open spec fn required_real(attributes: Seq<AttributeView>, key: Seq<char>) -> Result<
    Seq<char>,
    Fault,
> {
    match attribute_value(attributes, key) {
        Some(value) => if is_real_text(value) {
            Ok(value)
        } else {
            Err(Fault::UnparsableValue)
        },
        None => Err(Fault::MissingAttribute),
    }
}

/// Whether a switch is on: it is where the attribute is there and reads `1`.
pub open spec fn is_on(attributes: Seq<AttributeView>, key: Seq<char>) -> bool {
    attribute_value(attributes, key) == Some("1"@)
}

fn get_required_text<'a>(element: &'a Element, key: &str) -> (text: Result<&'a str, Fault>)
    ensures
        match required_text(element.deep_view().attributes, key@) {
            Ok(value) => text matches Ok(t) && t@ == value,
            Err(fault) => text == Err::<&str, Fault>(fault),
        },
{
    match element.get_attribute(key) {
        Some(value) => Ok(value),
        None => Err(Fault::MissingAttribute),
    }
}

fn get_required_usize(element: &Element, key: &str) -> (number: Result<usize, Fault>)
    ensures
        number == required_usize(element.deep_view().attributes, key@),
{
    match element.get_attribute(key) {
        Some(value) => match parse_usize(value) {
            Some(number) => Ok(number),
            None => Err(Fault::UnparsableValue),
        },
        None => Err(Fault::MissingAttribute),
    }
}

fn get_required_real<'a>(element: &'a Element, key: &str) -> (text: Result<&'a str, Fault>)
    ensures
        match required_real(element.deep_view().attributes, key@) {
            Ok(value) => text matches Ok(t) && t@ == value,
            Err(fault) => text == Err::<&str, Fault>(fault),
        },
{
    match element.get_attribute(key) {
        Some(value) => if is_real(value) {
            Ok(value)
        } else {
            Err(Fault::UnparsableValue)
        },
        None => Err(Fault::MissingAttribute),
    }
}

fn get_is_on(element: &Element, key: &str) -> (on: bool)
    ensures
        on == is_on(element.deep_view().attributes, key@),
{
    match element.get_attribute(key) {
        Some(value) => text_eq(value, "1"),
        None => false,
    }
}

/// What one attribute makes of a row, and whether the row has its number
/// by now: `r` is the number, `ht` the height, `thickBot` and `customHeight`
/// are switches that `1` turns on, `x14ac:dyDescent` is the descent.
pub open spec fn row_with_attribute(state: (RowDimensionView, bool), attribute: AttributeView)
    -> Result<(RowDimensionView, bool), Fault> {
    let (row, numbered) = state;
    if attribute.key == "r"@ {
        match parse_usize_spec(attribute.value) {
            Some(row_num) => Ok((RowDimensionView { row_num, ..row }, true)),
            None => Err(Fault::UnparsableValue),
        }
    } else if attribute.key == "ht"@ {
        if is_real_text(attribute.value) {
            Ok((RowDimensionView { height: Some(attribute.value), ..row }, numbered))
        } else {
            Err(Fault::UnparsableValue)
        }
    } else if attribute.key == "thickBot"@ {
        Ok((RowDimensionView { thick_bot: attribute.value == "1"@, ..row }, numbered))
    } else if attribute.key == "customHeight"@ {
        Ok((RowDimensionView { custom_height: attribute.value == "1"@, ..row }, numbered))
    } else if attribute.key == "x14ac:dyDescent"@ {
        if is_real_text(attribute.value) {
            Ok((RowDimensionView { descent: Some(attribute.value), ..row }, numbered))
        } else {
            Err(Fault::UnparsableValue)
        }
    } else {
        Ok(state)
    }
}

pub open spec fn row_step() -> spec_fn((RowDimensionView, bool), AttributeView) -> Result<
    (RowDimensionView, bool),
    Fault,
> {
    |state: (RowDimensionView, bool), attribute: AttributeView|
        row_with_attribute(state, attribute)
}

/// The row that attributes describe. A row must have its number.
pub open spec fn row_of(attributes: Seq<AttributeView>) -> Result<RowDimensionView, Fault> {
    match fold_attributes((RowDimensionView::empty(), false), attributes, row_step()) {
        Ok((row, numbered)) => if numbered {
            Ok(row)
        } else {
            Err(Fault::MissingAttribute)
        },
        Err(fault) => Err(fault),
    }
}

/// Reads a row from its element.
pub fn get_attribute_row(element: &Element) -> (row: Result<RowDimension, Fault>)
    ensures
        deep_result(row) == row_of(element.deep_view().attributes),
{
    let ghost all = element.deep_view().attributes;
    let ghost start = (RowDimensionView::empty(), false);
    let mut row = RowDimension::default();
    let mut numbered = false;
    let mut i: usize = 0;
    while i < element.attributes.len()
        invariant
            i <= element.attributes.len(),
            all == element.attributes.deep_view(),
            start == (RowDimensionView::empty(), false),
            fold_attributes(start, all.take(i as int), row_step()) == Ok::<
                (RowDimensionView, bool),
                Fault,
            >((row.deep_view(), numbered)),
        decreases element.attributes.len() - i,
    {
        let attribute = &element.attributes[i];
        let key = attribute.key.as_str();
        let value = attribute.value.as_str();
        proof {
            lemma_fold_attributes_next(start, all, row_step(), i as int);
            assert(all[i as int] == attribute.deep_view());
        }
        let mut failed = false;
        if text_eq(key, "r") {
            match parse_usize(value) {
                Some(row_num) => {
                    row.row_num = row_num;
                    numbered = true;
                },
                None => {
                    failed = true;
                },
            }
        } else if text_eq(key, "ht") {
            if is_real(value) {
                row.height = Some(value.to_owned());
            } else {
                failed = true;
            }
        } else if text_eq(key, "thickBot") {
            row.thick_bot = text_eq(value, "1");
        } else if text_eq(key, "customHeight") {
            row.custom_height = text_eq(value, "1");
        } else if text_eq(key, "x14ac:dyDescent") {
            if is_real(value) {
                row.descent = Some(value.to_owned());
            } else {
                failed = true;
            }
        }
        if failed {
            proof {
                lemma_fold_attributes_fails(start, all, row_step(), i as int + 1);
            }
            return Err(Fault::UnparsableValue);
        }
        i += 1;
    }
    assert(all.take(i as int) =~= all);
    if numbered {
        Ok(row)
    } else {
        Err(Fault::MissingAttribute)
    }
}

/// The run of columns that attributes describe: `min`, `max` and `width`
/// must be there, and `bestFit` is a switch.
pub open spec fn column_of(attributes: Seq<AttributeView>) -> Result<ColumnDimensionView, Fault> {
    match required_usize(attributes, "min"@) {
        Err(fault) => Err(fault),
        Ok(col_num_start) => match required_usize(attributes, "max"@) {
            Err(fault) => Err(fault),
            Ok(col_num_end) => match required_real(attributes, "width"@) {
                Err(fault) => Err(fault),
                Ok(width) => Ok(
                    ColumnDimensionView {
                        col_num_start,
                        col_num_end,
                        width,
                        best_fit: is_on(attributes, "bestFit"@),
                    },
                ),
            },
        },
    }
}

/// Reads a run of columns from its element.
pub fn get_column(element: &Element) -> (column: Result<ColumnDimension, Fault>)
    ensures
        deep_result(column) == column_of(element.deep_view().attributes),
{
    let col_num_start = get_required_usize(element, "min")?;
    let col_num_end = get_required_usize(element, "max")?;
    let width = get_required_real(element, "width")?;
    let best_fit = get_is_on(element, "bestFit");
    Ok(ColumnDimension { col_num_start, col_num_end, width: width.to_owned(), best_fit })
}

/// The page margins that attributes describe. All six must be there, and
/// each must be a real number.
pub open spec fn page_margins_of(attributes: Seq<AttributeView>) -> Result<
    PageMarginsView,
    Fault,
> {
    let left = attribute_value(attributes, "left"@);
    let right = attribute_value(attributes, "right"@);
    let top = attribute_value(attributes, "top"@);
    let bottom = attribute_value(attributes, "bottom"@);
    let header = attribute_value(attributes, "header"@);
    let footer = attribute_value(attributes, "footer"@);
    if left is None || right is None || top is None || bottom is None || header is None
        || footer is None {
        Err(Fault::MissingAttribute)
    } else if !is_real_text(left->0) || !is_real_text(right->0) || !is_real_text(top->0)
        || !is_real_text(bottom->0) || !is_real_text(header->0) || !is_real_text(footer->0) {
        Err(Fault::UnparsableValue)
    } else {
        Ok(
            PageMarginsView {
                left: left->0,
                right: right->0,
                top: top->0,
                bottom: bottom->0,
                header: header->0,
                footer: footer->0,
            },
        )
    }
}

/// Reads the page margins from their element.
pub fn get_page_margins(element: &Element) -> (margins: Result<PageMargins, Fault>)
    ensures
        deep_result(margins) == page_margins_of(element.deep_view().attributes),
{
    let left = get_required_text(element, "left")?;
    let right = get_required_text(element, "right")?;
    let top = get_required_text(element, "top")?;
    let bottom = get_required_text(element, "bottom")?;
    let header = get_required_text(element, "header")?;
    let footer = get_required_text(element, "footer")?;
    if !is_real(left) || !is_real(right) || !is_real(top) || !is_real(bottom) || !is_real(header)
        || !is_real(footer) {
        return Err(Fault::UnparsableValue);
    }
    Ok(
        PageMargins {
            left: left.to_owned(),
            right: right.to_owned(),
            top: top.to_owned(),
            bottom: bottom.to_owned(),
            header: header.to_owned(),
            footer: footer.to_owned(),
        },
    )
}

/// The link that attributes describe, with the cell that it hangs on and
/// the relationship that names its target. `ref` must be there. With
/// `location` the link leads into the workbook and names no relationship;
/// without it `r:id` must be there.
pub open spec fn hyperlink_of(attributes: Seq<AttributeView>) -> Result<
    (Seq<char>, Seq<char>, HyperlinkView),
    Fault,
> {
    match attribute_value(attributes, "ref"@) {
        None => Err(Fault::MissingAttribute),
        Some(coordinate) => match attribute_value(attributes, "location"@) {
            Some(place) => Ok(
                (
                    coordinate,
                    Seq::empty(),
                    HyperlinkView { url: place, location: true, ..HyperlinkView::empty() },
                ),
            ),
            None => match attribute_value(attributes, "r:id"@) {
                Some(id) => Ok((coordinate, id, HyperlinkView::empty())),
                None => Err(Fault::MissingAttribute),
            },
        },
    }
}

/// A link has exactly one of its two forms: it leads into the workbook and
/// names no relationship, or it names a relationship and has no target of
/// its own.
pub proof fn lemma_hyperlink_has_one_form(attributes: Seq<AttributeView>)
    ensures
        hyperlink_of(attributes) matches Ok((_, id, hyperlink)) ==> (hyperlink.location ==> id.len()
            == 0) && (!hyperlink.location ==> hyperlink.url.len() == 0 && attribute_value(
            attributes,
            "r:id"@,
        ) == Some(id)),
{
}

/// Reads a link from its element.
pub fn get_hyperlink(element: &Element) -> (link: Result<(String, String, Hyperlink), Fault>)
    ensures
        deep_result(link) == hyperlink_of(element.deep_view().attributes),
{
    let mut hyperlink = Hyperlink::default();
    let mut rid = String::new();
    let coordinate = get_required_text(element, "ref")?;
    match element.get_attribute("location") {
        Some(place) => {
            hyperlink.set_url(place);
            hyperlink.set_location(true);
        },
        None => {
            rid = get_required_text(element, "r:id")?.to_owned();
        },
    }
    Ok((coordinate.to_owned(), rid, hyperlink))
}

/// What a cell marker leaves behind: the reference of the cell, the index
/// of its style if it names one, and its type code.
pub struct CellMarker {
    pub coordinate: Seq<char>,
    pub style_index: Option<usize>,
    pub type_value: Seq<char>,
}

/// What one attribute makes of a cell marker: `r` is the reference, `s` the
/// index of the style, `t` the type code.
pub open spec fn marker_with_attribute(marker: CellMarker, attribute: AttributeView) -> Result<
    CellMarker,
    Fault,
> {
    if attribute.key == "r"@ {
        Ok(CellMarker { coordinate: attribute.value, ..marker })
    } else if attribute.key == "s"@ {
        match parse_usize_spec(attribute.value) {
            Some(index) => Ok(CellMarker { style_index: Some(index), ..marker }),
            None => Err(Fault::UnparsableValue),
        }
    } else if attribute.key == "t"@ {
        Ok(CellMarker { type_value: attribute.value, ..marker })
    } else {
        Ok(marker)
    }
}

pub open spec fn marker_step() -> spec_fn(CellMarker, AttributeView) -> Result<CellMarker, Fault> {
    |marker: CellMarker, attribute: AttributeView| marker_with_attribute(marker, attribute)
}

/// The marker that attributes leave behind, where the reference and the
/// type code were `coordinate` and `type_value` before: what an attribute
/// does not set stays, but for the style, which no earlier cell hands on.
pub open spec fn cell_marker_of(
    coordinate: Seq<char>,
    type_value: Seq<char>,
    attributes: Seq<AttributeView>,
) -> Result<CellMarker, Fault> {
    fold_attributes(
        CellMarker { coordinate, style_index: None, type_value },
        attributes,
        marker_step(),
    )
}

/// A cell marker with no `s` attribute names no style, whatever the cells
/// before it named.
pub proof fn lemma_marker_without_style(
    coordinate: Seq<char>,
    type_value: Seq<char>,
    attributes: Seq<AttributeView>,
)
    requires
        attribute_value(attributes, "s"@) is None,
    ensures
        cell_marker_of(coordinate, type_value, attributes) matches Ok(marker)
            && marker.style_index is None,
    decreases attributes.len(),
{
    if attributes.len() > 0 {
        lemma_marker_without_style(coordinate, type_value, attributes.drop_last());
    }
}

/// Reads a cell marker from its element.
pub fn get_cell_marker(element: &Element, coordinate: &str, type_value: &str) -> (marker: Result<
    (String, Option<usize>, String),
    Fault,
>)
    ensures
        match cell_marker_of(coordinate@, type_value@, element.deep_view().attributes) {
            Ok(m) => marker matches Ok(found) && found.0@ == m.coordinate && found.1
                == m.style_index && found.2@ == m.type_value,
            Err(fault) => marker == Err::<(String, Option<usize>, String), Fault>(fault),
        },
{
    let ghost all = element.deep_view().attributes;
    let ghost start = CellMarker {
        coordinate: coordinate@,
        style_index: None,
        type_value: type_value@,
    };
    let mut reference = coordinate.to_owned();
    let mut style_index: Option<usize> = None;
    let mut type_code = type_value.to_owned();
    let mut i: usize = 0;
    while i < element.attributes.len()
        invariant
            i <= element.attributes.len(),
            all == element.attributes.deep_view(),
            start == (CellMarker {
                coordinate: coordinate@,
                style_index: None,
                type_value: type_value@,
            }),
            fold_attributes(start, all.take(i as int), marker_step()) == Ok::<CellMarker, Fault>(
                CellMarker { coordinate: reference@, style_index, type_value: type_code@ },
            ),
        decreases element.attributes.len() - i,
    {
        let attribute = &element.attributes[i];
        let key = attribute.key.as_str();
        let value = attribute.value.as_str();
        proof {
            lemma_fold_attributes_next(start, all, marker_step(), i as int);
            assert(all[i as int] == attribute.deep_view());
        }
        if text_eq(key, "r") {
            reference = value.to_owned();
        } else if text_eq(key, "s") {
            match parse_usize(value) {
                Some(index) => {
                    style_index = Some(index);
                },
                None => {
                    proof {
                        lemma_fold_attributes_fails(start, all, marker_step(), i as int + 1);
                    }
                    return Err(Fault::UnparsableValue);
                },
            }
        } else if text_eq(key, "t") {
            type_code = value.to_owned();
        }
        i += 1;
    }
    assert(all.take(i as int) =~= all);
    Ok((reference, style_index, type_code))
}

/// The style that a cell marker attaches to its cell, if it names one: the
/// style at its index in the table, stamped with the place that the
/// reference names once its letters are made capital.
pub open spec fn marked_style(
    coordinate: Seq<char>,
    style_index: Option<usize>,
    cell_xfs: Seq<StyleView>,
) -> Result<Option<StyleView>, Fault> {
    match style_index {
        None => Ok(None),
        Some(index) => if index >= cell_xfs.len() {
            Err(Fault::IndexOutOfRange { table: Table::CellStyle, index })
        } else {
            match decode_coordinate(upper_text(coordinate)) {
                Some((col_num, row_num)) => Ok(
                    Some(cell_xfs[index as int].at(Coordinate { col_num, row_num })),
                ),
                None => Err(Fault::UnparsableValue),
            }
        },
    }
}

/// Makes the style that a cell marker attaches to its cell.
pub fn get_marked_style(
    coordinate: &str,
    style_index: Option<usize>,
    cell_xfs: &Vec<Style>,
) -> (style: Result<Option<Style>, Fault>)
    ensures
        deep_result(style) == marked_style(coordinate@, style_index, cell_xfs.deep_view()),
{
    match style_index {
        None => Ok(None),
        Some(index) => {
            if index >= cell_xfs.len() {
                return Err(Fault::IndexOutOfRange { table: Table::CellStyle, index });
            }
            let mut style = cell_xfs[index].clone();
            let upper = to_upper_text(coordinate);
            match index_from_coordinate(upper.as_str()) {
                Some((col_num, row_num)) => {
                    style.get_coordinate_mut().set_col_num(col_num);
                    style.get_coordinate_mut().set_row_num(row_num);
                    Ok(Some(style))
                },
                None => Err(Fault::UnparsableValue),
            }
        },
    }
}

} // verus!
