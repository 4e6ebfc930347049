use worksheet_reader::error::{Fault, Table, XlsxError};
use worksheet_reader::reader::color::{get_attribute_color, resolve_color};
use worksheet_reader::reader::conditional::{get_cfvo, get_conditional_formatting, get_rule};
use worksheet_reader::reader::elements::{
    get_attribute_row, get_cell_marker, get_column, get_hyperlink, get_marked_style,
    get_page_margins,
};
use worksheet_reader::reader::worksheet::{on_close, on_open, take_step, ParserState};
use worksheet_reader::structs::cell::{Cell, Hyperlink, RichText};
use worksheet_reader::structs::color::{Color, Theme};
use worksheet_reader::structs::font::Font;
use worksheet_reader::structs::style::Style;
use worksheet_reader::structs::worksheet::Worksheet;
use worksheet_reader::xml::{Attribute, Element, XmlEvent};

fn element(name: &str, attributes: &[(&str, &str)]) -> Element {
    Element::new(name, attributes.iter().map(|(k, v)| Attribute::new(k, v)).collect())
}

fn palette() -> Theme {
    Theme::new(vec!["FFFFFF".to_string(), "000000".to_string()])
}

fn style_named(name: &str) -> Style {
    let mut font = Font::default();
    font.set_name(name);
    let mut style = Style::default();
    style.set_font(font);
    style
}

#[test]
fn resolve_color_starts_from_the_base() {
    let mut base = Color::default();
    base.set_theme_index(0, palette().get_color_map());
    base.set_tint("0.5");
    let color = resolve_color(&element("color", &[("auto", "1")]), &base, &palette()).unwrap();
    assert_eq!(color.get_argb(), "FFFFFF");
    assert_eq!(color.get_theme_index(), Some(0));
    assert_eq!(color.get_tint(), "0.5");
    let color = resolve_color(&element("color", &[("rgb", "FF102030")]), &base, &palette()).unwrap();
    assert_eq!(color.get_argb(), "FF102030");
    assert_eq!(color.get_theme_index(), None);
    assert_eq!(color.get_tint(), "0.5");
    assert_eq!(
        resolve_color(&element("color", &[("rgb", "FF102030"), ("theme", "")]), &base, &palette()).err(),
        Some(Fault::UnparsableValue)
    );
}

#[test]
fn tab_color_stays_where_the_element_has_a_fault() {
    let mut sheet = Worksheet::new();
    assert!(get_attribute_color(&element("tabColor", &[("rgb", "FF0000FF")]), &mut sheet, &palette()).is_ok());
    assert_eq!(sheet.get_tab_color().get_argb(), "FF0000FF");
    let done = get_attribute_color(
        &element("tabColor", &[("theme", "1"), ("tint", "dark")]),
        &mut sheet,
        &palette(),
    );
    assert_eq!(done, Err(Fault::UnparsableValue));
    assert_eq!(sheet.get_tab_color().get_argb(), "FF0000FF");
    assert_eq!(sheet.get_tab_color().get_theme_index(), None);
}

#[test]
fn row_takes_the_later_of_two_numbers() {
    let row = get_attribute_row(&element("row", &[("r", "3"), ("customHeight", "1"), ("r", "4")])).unwrap();
    assert_eq!(row.get_row_num(), 4);
    assert_eq!(row.get_custom_height(), true);
    assert_eq!(row.get_thick_bot(), false);
    assert_eq!(get_attribute_row(&element("row", &[])).err(), Some(Fault::MissingAttribute));
    assert_eq!(
        get_attribute_row(&element("row", &[("r", "1"), ("x14ac:dyDescent", "")])).err(),
        Some(Fault::UnparsableValue)
    );
}

#[test]
fn column_reads_its_bounds() {
    let column = get_column(&element("col", &[("width", "1e1"), ("max", "9"), ("min", "+3")])).unwrap();
    assert_eq!(column.get_col_num_start(), 3);
    assert_eq!(column.get_col_num_end(), 9);
    assert_eq!(column.get_width(), "1e1");
    assert_eq!(column.get_best_fit(), false);
    assert_eq!(
        get_column(&element("col", &[("min", "1"), ("max", "x"), ("width", "y")])).err(),
        Some(Fault::UnparsableValue)
    );
}

#[test]
fn page_margins_miss_before_they_garble() {
    let all = [("left", "1"), ("right", "2"), ("top", "3"), ("bottom", "4"), ("header", "5"), ("footer", "6")];
    let margins = get_page_margins(&element("pageMargins", &all)).unwrap();
    assert_eq!(margins.get_left(), "1");
    assert_eq!(margins.get_footer(), "6");
    for skip in 0..6 {
        let mut some: Vec<(&str, &str)> = all.to_vec();
        some.remove(skip);
        some[0].1 = "x";
        assert_eq!(get_page_margins(&element("pageMargins", &some)).err(), Some(Fault::MissingAttribute));
    }
    for bad in 0..6 {
        let mut some: Vec<(&str, &str)> = all.to_vec();
        some[bad].1 = "1.2.3";
        assert_eq!(get_page_margins(&element("pageMargins", &some)).err(), Some(Fault::UnparsableValue));
    }
}

#[test]
fn hyperlink_is_inline_or_names_a_relationship() {
    let (cell, id, link) = get_hyperlink(&element("hyperlink", &[("ref", "B2"), ("location", "Sheet1!A1")])).unwrap();
    assert_eq!(cell, "B2");
    assert_eq!(id, "");
    assert_eq!(link.get_url(), "Sheet1!A1");
    assert_eq!(link.get_location(), true);
    let (cell, id, link) = get_hyperlink(&element("hyperlink", &[("r:id", "rId4"), ("ref", "B3")])).unwrap();
    assert_eq!(cell, "B3");
    assert_eq!(id, "rId4");
    assert_eq!(link.get_url(), "");
    assert_eq!(link.get_location(), false);
    assert_eq!(get_hyperlink(&element("hyperlink", &[("r:id", "rId4")])).err(), Some(Fault::MissingAttribute));
}

#[test]
fn cell_marker_keeps_what_it_does_not_set() {
    let (reference, style, kind) = get_cell_marker(&element("c", &[("s", "4")]), "A1", "s").unwrap();
    assert_eq!(reference, "A1");
    assert_eq!(style, Some(4));
    assert_eq!(kind, "s");
    let (reference, style, kind) = get_cell_marker(&element("c", &[("t", "b"), ("r", "B9")]), "A1", "s").unwrap();
    assert_eq!(reference, "B9");
    assert_eq!(style, None);
    assert_eq!(kind, "b");
    assert_eq!(get_cell_marker(&element("c", &[("s", "four")]), "A1", "").err(), Some(Fault::UnparsableValue));
}

#[test]
fn marked_style_is_stamped_with_the_place_of_the_cell() {
    let table = vec![style_named("One"), style_named("Two")];
    assert!(get_marked_style("A1", None, &table).unwrap().is_none());
    let style = get_marked_style("ab12", Some(1), &table).unwrap().unwrap();
    assert_eq!(style.get_font().get_name(), "Two");
    assert_eq!(style.get_coordinate().get_col_num(), 28);
    assert_eq!(style.get_coordinate().get_row_num(), 12);
    assert_eq!(table[1].get_coordinate().get_col_num(), 0);
    assert_eq!(
        get_marked_style("A1", Some(2), &table).err(),
        Some(Fault::IndexOutOfRange { table: Table::CellStyle, index: 2 })
    );
    assert_eq!(get_marked_style("", Some(0), &table).err(), Some(Fault::UnparsableValue));
}

#[test]
fn rule_reads_its_numbers_and_its_style() {
    let dxf = vec![style_named("One"), style_named("Two")];
    let rule = get_rule(
        &element("cfRule", &[("type", "top10"), ("dxfId", "1"), ("priority", "3"), ("rank", "10"), ("bottom", "1"), ("percent", "0")]),
        &dxf,
    )
    .unwrap();
    assert_eq!(rule.get_condition_type(), "top10");
    assert_eq!(rule.get_priority(), 3);
    assert_eq!(rule.get_rank(), Some(10));
    assert_eq!(rule.get_bottom(), Some(1));
    assert_eq!(rule.get_percent(), Some(0));
    assert_eq!(rule.get_style().unwrap().get_font().get_name(), "Two");
    assert_eq!(rule.get_data_type(), "");
    assert_eq!(rule.get_cfvo_collection().len(), 0);
    assert_eq!(
        get_rule(&element("cfRule", &[("dxfId", "2"), ("priority", "x")]), &dxf).err(),
        Some(Fault::IndexOutOfRange { table: Table::DifferentialStyle, index: 2 })
    );
    assert_eq!(
        get_rule(&element("cfRule", &[("priority", "x"), ("dxfId", "2")]), &dxf).err(),
        Some(Fault::UnparsableValue)
    );
}

#[test]
fn thresholds_end_with_the_picture_that_was_opened() {
    let events = vec![
        XmlEvent::Empty(element("cfvo", &[("type", "min")])),
        XmlEvent::Text("between".to_string()),
        XmlEvent::Empty(element("color", &[("theme", "1")])),
        XmlEvent::End("colorScale".to_string()),
        XmlEvent::Empty(element("cfvo", &[("type", "max"), ("value", "8")])),
        XmlEvent::End("dataBar".to_string()),
        XmlEvent::End("cfRule".to_string()),
    ];
    let (thresholds, next) = get_cfvo(&events, 0, "dataBar", &palette()).unwrap();
    assert_eq!(next, 6);
    assert_eq!(thresholds.len(), 1);
    assert_eq!(thresholds[0].0, "min");
    assert_eq!(thresholds[0].1, None);
    assert_eq!(thresholds[0].2.as_ref().unwrap().get_argb(), "000000");
    let (thresholds, next) = get_cfvo(&events, 0, "colorScale", &palette()).unwrap();
    assert_eq!(next, 4);
    assert_eq!(thresholds.len(), 1);
    let (thresholds, next) = get_cfvo(&events, 4, "dataBar", &palette()).unwrap();
    assert_eq!(next, 6);
    assert_eq!(thresholds.len(), 0);
    assert_eq!(
        get_cfvo(&events, 0, "iconSet", &palette()).err(),
        Some(XlsxError { fault: Fault::UnexpectedEnd, position: 7 })
    );
    assert_eq!(
        get_cfvo(&events, 2, "dataBar", &palette()).err(),
        Some(XlsxError { fault: Fault::UnpairedColor, position: 2 })
    );
    assert_eq!(
        get_cfvo(&events, 9, "dataBar", &palette()).err(),
        Some(XlsxError { fault: Fault::UnexpectedEnd, position: 7 })
    );
}

#[test]
fn rules_are_read_up_to_the_end_of_their_block() {
    let events = vec![
        XmlEvent::Start(element("conditionalFormatting", &[("sqref", "A1")])),
        XmlEvent::Start(element("cfRule", &[("type", "dataBar"), ("priority", "1")])),
        XmlEvent::Start(element("dataBar", &[])),
        XmlEvent::Empty(element("cfvo", &[("type", "min")])),
        XmlEvent::Empty(element("color", &[("rgb", "FF638EC6")])),
        XmlEvent::End("dataBar".to_string()),
        XmlEvent::End("cfRule".to_string()),
        XmlEvent::Empty(element("cfRule", &[("type", "expression"), ("priority", "2")])),
        XmlEvent::End("cfRule".to_string()),
        XmlEvent::End("conditionalFormatting".to_string()),
        XmlEvent::Other,
    ];
    let (rules, next) = get_conditional_formatting(&events, 1, &vec![], &palette()).unwrap();
    assert_eq!(next, 10);
    assert_eq!(rules.len(), 3);
    assert_eq!(rules[0].get_condition_type(), "dataBar");
    assert_eq!(rules[0].get_data_type(), "dataBar");
    assert_eq!(rules[0].get_cfvo_collection().len(), 1);
    assert_eq!(rules[1].get_condition_type(), "expression");
    assert_eq!(rules[1].get_priority(), 2);
    assert_eq!(rules[2].get_condition_type(), "");
    assert_eq!(rules[2].get_priority(), 0);
    assert_eq!(
        get_conditional_formatting(&events, 10, &vec![], &palette()).err(),
        Some(XlsxError { fault: Fault::UnexpectedEnd, position: 11 })
    );
}

#[test]
fn steps_lead_through_the_events() {
    let events = vec![
        XmlEvent::Start(element("conditionalFormatting", &[("sqref", "A1:B2")])),
        XmlEvent::Empty(element("cfRule", &[("priority", "1")])),
        XmlEvent::End("conditionalFormatting".to_string()),
        XmlEvent::Start(element("c", &[("r", "C3")])),
        XmlEvent::Text("7".to_string()),
        XmlEvent::End("v".to_string()),
    ];
    let mut parser = ParserState::new();
    let mut sheet = Worksheet::new();
    let theme = palette();
    let mut pos = 0;
    let mut visited = vec![];
    while pos < events.len() {
        visited.push(pos);
        pos = take_step(&mut parser, &mut sheet, &events, pos, &theme, &vec![], &vec![], &vec![]).unwrap();
    }
    assert_eq!(visited, vec![0, 3, 4, 5]);
    assert_eq!(pos, 6);
    assert_eq!(sheet.get_conditional_styles_collection().len(), 1);
    assert_eq!(sheet.get_conditional_styles_collection()[0].get_sqref(), "A1:B2");
    assert_eq!(sheet.get_cell("C3").unwrap().get_value(), "7");
    assert_eq!(parser.coordinate, "C3");
    assert_eq!(parser.string_value, "7");
}

#[test]
fn elements_with_children_are_not_taken_for_self_closing_ones() {
    let mut parser = ParserState::new();
    let mut sheet = Worksheet::new();
    let theme = palette();
    for has_children in [true, false] {
        assert!(on_open(&mut parser, &mut sheet, &element("mergeCell", &[("ref", "A1:B2")]), has_children, &theme, &vec![]).is_ok());
        assert!(on_open(&mut parser, &mut sheet, &element("drawing", &[("r:id", "rId1")]), has_children, &theme, &vec![]).is_ok());
        assert!(on_open(&mut parser, &mut sheet, &element("tabColor", &[("rgb", "FF00FF00")]), has_children, &theme, &vec![]).is_ok());
        assert!(on_open(&mut parser, &mut sheet, &element("unknown", &[("ref", "A1:B2")]), has_children, &theme, &vec![]).is_ok());
        if has_children {
            assert_eq!(sheet.get_merge_cells().len(), 0);
            assert_eq!(parser.drawing, None);
            assert_eq!(sheet.get_tab_color().get_argb(), "");
        } else {
            assert_eq!(sheet.get_merge_cells().len(), 1);
            assert_eq!(parser.drawing, Some("rId1".to_string()));
            assert_eq!(sheet.get_tab_color().get_argb(), "FF00FF00");
        }
    }
}

#[test]
fn closing_writes_to_the_cell_at_hand() {
    let mut parser = ParserState::new();
    let mut sheet = Worksheet::new();
    let shared = vec![("shared".to_string(), Some(RichText::new("rich")))];
    parser.coordinate = "D4".to_string();
    parser.string_value = "0".to_string();
    parser.type_value = "s".to_string();
    assert!(on_close(&mut parser, &mut sheet, "v", &shared).is_ok());
    assert_eq!(sheet.get_cell("D4").unwrap().get_value(), "shared");
    assert!(on_close(&mut parser, &mut sheet, "f", &shared).is_ok());
    assert_eq!(sheet.get_cell("D4").unwrap().get_formula(), "0");
    assert!(on_close(&mut parser, &mut sheet, "c", &shared).is_ok());
    assert_eq!(parser.type_value, "");
    assert_eq!(parser.coordinate, "D4");
    assert!(on_close(&mut parser, &mut sheet, "row", &shared).is_ok());
    assert!(on_close(&mut parser, &mut sheet, "v", &shared).is_ok());
    assert_eq!(sheet.get_cell("D4").unwrap().get_value(), "0");
    assert_eq!(sheet.get_cell("D4").unwrap().get_data_type(), "n");
    assert_eq!(sheet.get_cell("D4").unwrap().get_rich_text().unwrap().get_text(), "rich");
    assert_eq!(sheet.get_cells().len(), 1);
}

#[test]
fn worksheet_keeps_one_cell_for_each_coordinate() {
    let mut sheet = Worksheet::new();
    sheet.set_cell_value("A1", "1");
    sheet.set_cell_formula("A2", "A1");
    sheet.set_cell_value_and_data_type("A1", "TRUE", "b");
    sheet.set_cell_hyperlink("A2", Hyperlink::default());
    sheet.set_cell_all_param("A3", "text", None, "s", "General");
    sheet.set_cell_formula("a1", "lower");
    assert_eq!(sheet.get_cells().len(), 4);
    assert_eq!(sheet.get_cell("A1").unwrap().get_value(), "TRUE");
    assert_eq!(sheet.get_cell("A1").unwrap().get_data_type(), "b");
    assert_eq!(sheet.get_cell("A1").unwrap().get_formula(), "");
    assert_eq!(sheet.get_cell("A2").unwrap().get_formula(), "A1");
    assert!(sheet.get_cell("A2").unwrap().get_hyperlink().is_some());
    assert_eq!(sheet.get_cell("A3").unwrap().get_format_code(), "General");
    assert_eq!(sheet.get_cell("a1").unwrap().get_formula(), "lower");
    assert!(sheet.get_cell("B1").is_none());
    let cell = Cell::new("Z9");
    assert_eq!(cell.get_coordinate(), "Z9");
    assert_eq!(cell.get_value(), "");
}

#[test]
fn color_hash_code_is_md5_of_its_fields() {
    let mut color = Color::default();
    color.set_theme_index_and_argb(12, "ABCDEF");
    color.set_tint("0.5");
    assert_eq!(color.get_hash_code(), format!("{:x}", md5::compute("12ABCDEF0.5")));
    assert_eq!(Color::default().get_hash_code(), format!("{:x}", md5::compute("")));
}

#[test]
fn channels_are_read_from_six_or_eight_hex_digits() {
    let mut color = Color::default();
    assert_eq!(color.get_channels(), None);
    color.set_argb("FFAA00");
    assert_eq!(color.get_channels(), Some((None, 255, 170, 0)));
    color.set_argb("80ffAa09");
    assert_eq!(color.get_channels(), Some((Some(128), 255, 170, 9)));
    for bad in ["FFAA0", "FFAA000", "FFAA0G", "+FAA00", "FFAA00FF0", "ＦＦAA00", "FF AA00"] {
        color.set_argb(bad);
        assert_eq!(color.get_channels(), None, "reading {:?}", bad);
    }
}

#[test]
fn worksheet_with_two_cells_at_one_coordinate_is_not_well_formed() {
    let mut sheet = Worksheet::new();
    assert!(sheet.is_well_formed());
    sheet.set_cell_value("A1", "1");
    sheet.set_cell_value("B1", "2");
    sheet.set_cell_value("A1", "3");
    assert!(sheet.is_well_formed());
    sheet.cells.push(Cell::new("C1"));
    assert!(sheet.is_well_formed());
    sheet.cells.push(Cell::new("B1"));
    assert!(!sheet.is_well_formed());
}
