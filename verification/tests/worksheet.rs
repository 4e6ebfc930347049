use worksheet_reader::error::{Fault, Table, XlsxError};
use worksheet_reader::reader::worksheet::{read, read_events};
use worksheet_reader::structs::cell::RichText;
use worksheet_reader::structs::color::Theme;
use worksheet_reader::structs::font::Font;
use worksheet_reader::structs::style::Style;
use worksheet_reader::structs::worksheet::Worksheet;
use worksheet_reader::xml::{Attribute, Element, XmlEvent};

fn theme() -> Theme {
    Theme::new(vec![
        "FFFFFF".to_string(),
        "000000".to_string(),
        "EEECE1".to_string(),
        "1F497D".to_string(),
    ])
}

fn style_named(name: &str) -> Style {
    let mut font = Font::get_defalut_value();
    font.set_name(name);
    let mut style = Style::default();
    style.set_font(font);
    style
}

fn decode(
    xml: &str,
    shared: &Vec<(String, Option<RichText>)>,
    cell_xfs: &Vec<Style>,
    dxf: &Vec<Style>,
) -> (Worksheet, Result<(bool, Option<String>, Option<String>, Vec<(String, String)>), XlsxError>) {
    let mut sheet = Worksheet::new();
    let out = read(xml.as_bytes(), &mut sheet, &theme(), shared, cell_xfs, dxf);
    (sheet, out)
}

fn decode_plain(
    xml: &str,
) -> (Worksheet, Result<(bool, Option<String>, Option<String>, Vec<(String, String)>), XlsxError>) {
    decode(xml, &vec![], &vec![], &vec![])
}

fn fault_of(xml: &str) -> XlsxError {
    match decode_plain(xml).1 {
        Err(error) => error,
        Ok(_) => panic!("expected an error"),
    }
}

#[test]
fn end_to_end_active_sheet_number_and_merge() {
    let xml = "<?xml version=\"1.0\" encoding=\"UTF-8\"?>\n<worksheet>\n<sheetViews><sheetView tabSelected=\"1\" workbookViewId=\"0\"/></sheetViews>\n<sheetData><row r=\"1\"><c r=\"A1\" t=\"n\"><v>42</v></c></row></sheetData>\n<mergeCells count=\"1\"><mergeCell ref=\"A1:B1\"/></mergeCells>\n</worksheet>";
    let (sheet, out) = decode_plain(xml);
    let (active, drawing, legacy, links) = out.unwrap();
    assert_eq!(active, true);
    assert_eq!(drawing, None);
    assert_eq!(legacy, None);
    assert_eq!(links.len(), 0);
    let cell = sheet.get_cell("A1").unwrap();
    assert_eq!(cell.get_value(), "42");
    assert_eq!(cell.get_data_type(), "n");
    assert_eq!(sheet.get_merge_cells(), &vec!["A1:B1".to_string()]);
    assert_eq!(sheet.get_cells().len(), 1);
    assert_eq!(sheet.get_row_dimensions().len(), 1);
    assert_eq!(sheet.get_row_dimensions()[0].get_row_num(), 1);
}

#[test]
fn sheet_view_with_children_marks_the_sheet_active_too() {
    let (_, out) = decode_plain("<sheetView tabSelected=\"0\"><selection activeCell=\"C3\"/></sheetView>");
    assert_eq!(out.unwrap().0, true);
    let (_, out) = decode_plain("<sheetView workbookViewId=\"0\"/>");
    assert_eq!(out.unwrap().0, false);
}

#[test]
fn code_name_and_active_cell_are_taken_in_either_shape() {
    let (sheet, _) = decode_plain("<sheetPr codeName=\"Sheet1\"/><selection activeCell=\"C3\"/>");
    assert_eq!(sheet.get_code_name(), Some("Sheet1"));
    assert_eq!(sheet.get_active_cell(), "C3");
    let (sheet, _) = decode_plain(
        "<sheetPr codeName=\"Other\"><tabColor rgb=\"FF00FF00\"/></sheetPr><selection activeCell=\"D4\"></selection>",
    );
    assert_eq!(sheet.get_code_name(), Some("Other"));
    assert_eq!(sheet.get_active_cell(), "D4");
    assert_eq!(sheet.get_tab_color().get_argb(), "FF00FF00");
    let (sheet, _) = decode_plain("<sheetPr/>");
    assert_eq!(sheet.get_code_name(), None);
}

#[test]
fn color_from_theme_slot_resolves_to_the_palette() {
    let (sheet, out) = decode_plain("<tabColor theme=\"1\" tint=\"0.0\"/>");
    assert!(out.is_ok());
    let color = sheet.get_tab_color();
    assert_eq!(color.get_argb(), "000000");
    assert_eq!(color.get_theme_index(), Some(1));
    assert_eq!(color.get_tint(), "0.0");
}

#[test]
fn color_given_by_value_is_taken_as_it_is() {
    for palette in [vec![], vec!["123456".to_string(), "654321".to_string()]] {
        let mut sheet = Worksheet::new();
        let out = read(b"<tabColor rgb=\"FFAA00\"/>", &mut sheet, &Theme::new(palette), &vec![], &vec![], &vec![]);
        assert!(out.is_ok());
        assert_eq!(sheet.get_tab_color().get_argb(), "FFAA00");
        assert_eq!(sheet.get_tab_color().get_theme_index(), None);
    }
}

#[test]
fn later_color_attribute_has_the_last_word() {
    let (sheet, _) = decode_plain("<tabColor theme=\"3\" rgb=\"FFAA00\"/>");
    assert_eq!(sheet.get_tab_color().get_argb(), "FFAA00");
    assert_eq!(sheet.get_tab_color().get_theme_index(), None);
    let (sheet, _) = decode_plain("<tabColor rgb=\"FFAA00\" theme=\"3\"/>");
    assert_eq!(sheet.get_tab_color().get_argb(), "1F497D");
    assert_eq!(sheet.get_tab_color().get_theme_index(), Some(3));
}

#[test]
fn color_from_a_slot_that_the_palette_lacks_resolves_to_nothing() {
    let (sheet, out) = decode_plain("<tabColor theme=\"9\"/>");
    assert!(out.is_ok());
    assert_eq!(sheet.get_tab_color().get_argb(), "");
    assert_eq!(sheet.get_tab_color().get_theme_index(), Some(9));
}

#[test]
fn color_with_bad_numbers_is_refused() {
    assert_eq!(
        fault_of("<tabColor theme=\"one\"/>"),
        XlsxError { fault: Fault::UnparsableValue, position: 0 }
    );
    assert_eq!(
        fault_of("<sheetPr/><tabColor tint=\"much\"/>"),
        XlsxError { fault: Fault::UnparsableValue, position: 1 }
    );
}

#[test]
fn shared_string_goes_into_the_cell_with_its_rich_text() {
    let shared = vec![
        ("zero".to_string(), None),
        ("one".to_string(), None),
        ("two".to_string(), Some(RichText::new("t-w-o"))),
    ];
    let (sheet, out) = decode("<c r=\"A1\" t=\"s\"><v>2</v></c>", &shared, &vec![], &vec![]);
    assert!(out.is_ok());
    let cell = sheet.get_cell("A1").unwrap();
    assert_eq!(cell.get_value(), "two");
    assert_eq!(cell.get_rich_text().unwrap().get_text(), "t-w-o");
    assert_eq!(cell.get_data_type(), "s");
    assert_eq!(cell.get_format_code(), "");
    let (sheet, _) = decode("<c r=\"A1\" t=\"s\"><v>1</v></c>", &shared, &vec![], &vec![]);
    let cell = sheet.get_cell("A1").unwrap();
    assert_eq!(cell.get_value(), "one");
    assert!(cell.get_rich_text().is_none());
}

#[test]
fn shared_string_index_past_the_table_is_fatal() {
    let shared = vec![("zero".to_string(), None), ("one".to_string(), None), ("two".to_string(), None)];
    let (sheet, out) = decode("<c r=\"A1\" t=\"s\"><v>3</v></c>", &shared, &vec![], &vec![]);
    assert_eq!(
        out,
        Err(XlsxError {
            fault: Fault::IndexOutOfRange { table: Table::SharedString, index: 3 },
            position: 3
        })
    );
    assert!(sheet.get_cell("A1").is_none());
    let (_, out) = decode("<c r=\"A1\" t=\"s\"><v>x</v></c>", &shared, &vec![], &vec![]);
    assert_eq!(out, Err(XlsxError { fault: Fault::UnparsableValue, position: 3 }));
}

#[test]
fn style_index_does_not_leak_into_the_next_cell() {
    let cell_xfs = vec![style_named("Arial")];
    let (sheet, out) = decode(
        "<row r=\"2\"><c r=\"B2\" s=\"0\"><v>1</v></c></row><row r=\"3\"><c r=\"B3\"><v>2</v></c></row>",
        &vec![],
        &cell_xfs,
        &vec![],
    );
    assert!(out.is_ok());
    assert_eq!(sheet.get_styles().len(), 1);
    let style = sheet.get_style(2, 2).unwrap();
    assert_eq!(style.get_font().get_name(), "Arial");
    assert_eq!(style.get_coordinate().get_col_num(), 2);
    assert_eq!(style.get_coordinate().get_row_num(), 2);
    assert!(sheet.get_style(2, 3).is_none());
    assert_eq!(sheet.get_cell("B3").unwrap().get_value(), "2");
}

#[test]
fn style_is_attached_by_the_marker_itself_whatever_its_shape() {
    let cell_xfs = vec![style_named("Arial"), style_named("Times")];
    let (sheet, out) = decode("<c r=\"c7\" s=\"1\"/>", &vec![], &cell_xfs, &vec![]);
    assert!(out.is_ok());
    let style = sheet.get_style(3, 7).unwrap();
    assert_eq!(style.get_font().get_name(), "Times");
    assert_eq!(sheet.get_cells().len(), 0);
    let (sheet, _) = decode("<c r=\"A1\" s=\"0\"/><c r=\"A1\" s=\"1\"/>", &vec![], &cell_xfs, &vec![]);
    assert_eq!(sheet.get_styles().len(), 2);
    assert_eq!(sheet.get_style(1, 1).unwrap().get_font().get_name(), "Times");
}

#[test]
fn style_index_past_the_table_is_fatal() {
    let cell_xfs = vec![style_named("Arial")];
    let (_, out) = decode("<c r=\"A1\" s=\"1\"/>", &vec![], &cell_xfs, &vec![]);
    assert_eq!(
        out,
        Err(XlsxError {
            fault: Fault::IndexOutOfRange { table: Table::CellStyle, index: 1 },
            position: 0
        })
    );
    let (_, out) = decode("<c r=\"A1\" s=\"-1\"/>", &vec![], &cell_xfs, &vec![]);
    assert_eq!(out, Err(XlsxError { fault: Fault::UnparsableValue, position: 0 }));
    let (_, out) = decode("<c r=\"1A\" s=\"0\"/>", &vec![], &cell_xfs, &vec![]);
    assert_eq!(out, Err(XlsxError { fault: Fault::UnparsableValue, position: 0 }));
}

#[test]
fn boolean_cells_are_true_for_one_only() {
    let (sheet, out) = decode_plain(
        "<c r=\"A1\" t=\"b\"><v>1</v></c><c r=\"A2\" t=\"b\"><v>0</v></c><c r=\"A3\" t=\"b\"><v>true</v></c><c r=\"A4\" t=\"b\"><v>11</v></c>",
    );
    assert!(out.is_ok());
    assert_eq!(sheet.get_cell("A1").unwrap().get_value(), "TRUE");
    assert_eq!(sheet.get_cell("A1").unwrap().get_data_type(), "b");
    assert_eq!(sheet.get_cell("A2").unwrap().get_value(), "FALSE");
    assert_eq!(sheet.get_cell("A2").unwrap().get_data_type(), "b");
    assert_eq!(sheet.get_cell("A3").unwrap().get_value(), "FALSE");
    assert_eq!(sheet.get_cell("A4").unwrap().get_value(), "FALSE");
}

#[test]
fn value_with_unknown_type_code_is_skipped() {
    let (sheet, out) = decode_plain("<c r=\"A1\" t=\"str\"><v>text</v></c><c r=\"A2\"><v>7.5</v></c>");
    assert!(out.is_ok());
    assert!(sheet.get_cell("A1").is_none());
    assert_eq!(sheet.get_cell("A2").unwrap().get_value(), "7.5");
    assert_eq!(sheet.get_cell("A2").unwrap().get_data_type(), "n");
}

#[test]
fn type_code_is_forgotten_when_the_cell_ends_but_the_reference_stays() {
    let shared = vec![("zero".to_string(), None)];
    let (sheet, out) = decode(
        "<c r=\"A1\" t=\"s\"><v>0</v></c><c r=\"A2\"><v>0</v></c><f>SUM(A1)</f>",
        &shared,
        &vec![],
        &vec![],
    );
    assert!(out.is_ok());
    assert_eq!(sheet.get_cell("A1").unwrap().get_value(), "zero");
    assert_eq!(sheet.get_cell("A2").unwrap().get_value(), "0");
    assert_eq!(sheet.get_cell("A2").unwrap().get_data_type(), "n");
    assert_eq!(sheet.get_cell("A2").unwrap().get_formula(), "SUM(A1)");
    assert_eq!(sheet.get_cell("A1").unwrap().get_formula(), "");
}

#[test]
fn formula_and_value_go_to_the_same_cell() {
    let (sheet, out) = decode_plain("<c r=\"C1\"><f>A1+B1</f><v>3</v></c>");
    assert!(out.is_ok());
    assert_eq!(sheet.get_cells().len(), 1);
    let cell = sheet.get_cell("C1").unwrap();
    assert_eq!(cell.get_coordinate(), "C1");
    assert_eq!(cell.get_formula(), "A1+B1");
    assert_eq!(cell.get_value(), "3");
}

#[test]
fn rows_are_read_with_their_layout() {
    let (sheet, out) = decode_plain(
        "<row r=\"3\" ht=\"15.75\" thickBot=\"1\" customHeight=\"0\" x14ac:dyDescent=\"0.25\" spans=\"1:2\"/><row r=\"4\"></row>",
    );
    assert!(out.is_ok());
    let rows = sheet.get_row_dimensions();
    assert_eq!(rows.len(), 2);
    assert_eq!(rows[0].get_row_num(), 3);
    assert_eq!(rows[0].get_height(), Some("15.75"));
    assert_eq!(rows[0].get_thick_bot(), true);
    assert_eq!(rows[0].get_custom_height(), false);
    assert_eq!(rows[0].get_descent(), Some("0.25"));
    assert_eq!(rows[1].get_row_num(), 4);
    assert_eq!(rows[1].get_height(), None);
    assert_eq!(rows[1].get_thick_bot(), false);
    assert_eq!(rows[1].get_descent(), None);
}

#[test]
fn row_without_number_or_with_bad_numbers_is_fatal() {
    assert_eq!(fault_of("<row ht=\"15\"/>"), XlsxError { fault: Fault::MissingAttribute, position: 0 });
    assert_eq!(fault_of("<row r=\"x\"/>"), XlsxError { fault: Fault::UnparsableValue, position: 0 });
    assert_eq!(fault_of("<row r=\"1\" ht=\"tall\"/>"), XlsxError { fault: Fault::UnparsableValue, position: 0 });
    assert_eq!(fault_of("<row r=\"x\" r=\"1\"/>"), XlsxError { fault: Fault::UnparsableValue, position: 0 });
}

#[test]
fn columns_are_read_with_their_width() {
    let (sheet, out) = decode_plain(
        "<cols><col min=\"2\" max=\"4\" width=\"9.140625\" bestFit=\"1\"/><col min=\"5\" max=\"5\" width=\"12\" bestFit=\"true\"/><col min=\"6\" max=\"7\" width=\".5\"/></cols>",
    );
    assert!(out.is_ok());
    let columns = sheet.get_column_dimensions();
    assert_eq!(columns.len(), 3);
    assert_eq!(columns[0].get_col_num_start(), 2);
    assert_eq!(columns[0].get_col_num_end(), 4);
    assert_eq!(columns[0].get_width(), "9.140625");
    assert_eq!(columns[0].get_best_fit(), true);
    assert_eq!(columns[1].get_best_fit(), false);
    assert_eq!(columns[2].get_best_fit(), false);
    assert_eq!(columns[2].get_width(), ".5");
}

#[test]
fn column_that_lacks_or_garbles_an_attribute_is_fatal() {
    assert_eq!(fault_of("<col max=\"4\" width=\"9\"/>"), XlsxError { fault: Fault::MissingAttribute, position: 0 });
    assert_eq!(fault_of("<col min=\"2\" width=\"9\"/>"), XlsxError { fault: Fault::MissingAttribute, position: 0 });
    assert_eq!(fault_of("<col min=\"2\" max=\"4\"/>"), XlsxError { fault: Fault::MissingAttribute, position: 0 });
    assert_eq!(fault_of("<col min=\"b\" max=\"4\" width=\"9\"/>"), XlsxError { fault: Fault::UnparsableValue, position: 0 });
    assert_eq!(fault_of("<col min=\"2\" max=\"4\" width=\"wide\"/>"), XlsxError { fault: Fault::UnparsableValue, position: 0 });
}

#[test]
fn auto_filter_and_merged_ranges_are_kept_as_written() {
    let (sheet, out) = decode_plain(
        "<autoFilter ref=\"A1:C9\"/><mergeCell ref=\"A1:B1\"/><mergeCell ref=\"C3:D4\"/>",
    );
    assert!(out.is_ok());
    assert_eq!(sheet.get_auto_filter(), Some("A1:C9"));
    assert_eq!(sheet.get_merge_cells(), &vec!["A1:B1".to_string(), "C3:D4".to_string()]);
    assert_eq!(fault_of("<autoFilter/>"), XlsxError { fault: Fault::MissingAttribute, position: 0 });
    assert_eq!(fault_of("<mergeCell/>"), XlsxError { fault: Fault::MissingAttribute, position: 0 });
}

#[test]
fn page_margins_need_all_six_numbers() {
    let (sheet, out) = decode_plain(
        "<pageMargins left=\"0.7\" right=\"0.71\" top=\"0.75\" bottom=\"0.76\" header=\"0.3\" footer=\"0.31\"/>",
    );
    assert!(out.is_ok());
    let margins = sheet.get_page_margins();
    assert_eq!(margins.get_left(), "0.7");
    assert_eq!(margins.get_right(), "0.71");
    assert_eq!(margins.get_top(), "0.75");
    assert_eq!(margins.get_bottom(), "0.76");
    assert_eq!(margins.get_header(), "0.3");
    assert_eq!(margins.get_footer(), "0.31");
    assert_eq!(
        fault_of("<pageMargins left=\"0.7\" right=\"0.7\" top=\"0.75\" bottom=\"0.75\" header=\"0.3\"/>"),
        XlsxError { fault: Fault::MissingAttribute, position: 0 }
    );
    assert_eq!(
        fault_of("<pageMargins left=\"0.7\" right=\"0.7\" top=\"x\" bottom=\"0.75\" header=\"0.3\" footer=\"0.3\"/>"),
        XlsxError { fault: Fault::UnparsableValue, position: 0 }
    );
    assert_eq!(
        fault_of("<pageMargins left=\"x\" right=\"0.7\" top=\"0.7\" bottom=\"0.75\" header=\"0.3\"/>"),
        XlsxError { fault: Fault::MissingAttribute, position: 0 }
    );
}

#[test]
fn drawings_are_handed_back_by_their_relationship() {
    let (_, out) = decode_plain("<drawing r:id=\"rId1\"/><legacyDrawing r:id=\"rId2\"/>");
    let (_, drawing, legacy, _) = out.unwrap();
    assert_eq!(drawing, Some("rId1".to_string()));
    assert_eq!(legacy, Some("rId2".to_string()));
    assert_eq!(fault_of("<drawing/>"), XlsxError { fault: Fault::MissingAttribute, position: 0 });
    assert_eq!(fault_of("<legacyDrawing id=\"rId2\"/>"), XlsxError { fault: Fault::MissingAttribute, position: 0 });
}

#[test]
fn hyperlinks_are_inline_or_deferred_never_both() {
    let (sheet, out) = decode_plain(
        "<hyperlinks><hyperlink ref=\"A1\" location=\"Sheet2!B2\" r:id=\"rId9\"/><hyperlink ref=\"A2\" r:id=\"rId3\"/></hyperlinks>",
    );
    let (_, _, _, links) = out.unwrap();
    assert_eq!(links, vec![("A2".to_string(), "rId3".to_string())]);
    let inline = sheet.get_cell("A1").unwrap().get_hyperlink().unwrap();
    assert_eq!(inline.get_url(), "Sheet2!B2");
    assert_eq!(inline.get_location(), true);
    let deferred = sheet.get_cell("A2").unwrap().get_hyperlink().unwrap();
    assert_eq!(deferred.get_url(), "");
    assert_eq!(deferred.get_location(), false);
    assert_eq!(deferred.get_tooltip(), "");
    assert_eq!(fault_of("<hyperlink location=\"x\"/>"), XlsxError { fault: Fault::MissingAttribute, position: 0 });
    assert_eq!(fault_of("<hyperlink ref=\"A1\"/>"), XlsxError { fault: Fault::MissingAttribute, position: 0 });
}

#[test]
fn hyperlink_hangs_on_the_cell_that_is_there() {
    let (sheet, out) = decode_plain("<c r=\"A1\"><v>5</v></c><hyperlink ref=\"A1\" r:id=\"rId1\"/>");
    assert!(out.is_ok());
    assert_eq!(sheet.get_cells().len(), 1);
    let cell = sheet.get_cell("A1").unwrap();
    assert_eq!(cell.get_value(), "5");
    assert!(cell.get_hyperlink().is_some());
}

#[test]
fn color_scale_pairs_thresholds_with_colors_in_order() {
    let xml = "<conditionalFormatting sqref=\"A1:A10\"><cfRule type=\"colorScale\" priority=\"7\"><colorScale><cfvo type=\"min\"/><color rgb=\"FFF8696B\"/><cfvo type=\"max\" val=\"x\" value=\"9\"/><color theme=\"1\" tint=\"-0.25\"/></colorScale></cfRule></conditionalFormatting>";
    let (sheet, out) = decode_plain(xml);
    assert!(out.is_ok());
    let sets = sheet.get_conditional_styles_collection();
    assert_eq!(sets.len(), 1);
    assert_eq!(sets[0].get_sqref(), "A1:A10");
    let rules = sets[0].get_conditional_collection();
    assert_eq!(rules.len(), 1);
    assert_eq!(rules[0].get_condition_type(), "colorScale");
    assert_eq!(rules[0].get_data_type(), "colorScale");
    assert_eq!(rules[0].get_priority(), 7);
    assert!(rules[0].get_style().is_none());
    let thresholds = rules[0].get_cfvo_collection();
    assert_eq!(thresholds.len(), 2);
    assert_eq!(thresholds[0].0, "min");
    assert_eq!(thresholds[0].1, None);
    assert_eq!(thresholds[0].2.as_ref().unwrap().get_argb(), "FFF8696B");
    assert_eq!(thresholds[1].0, "max");
    assert_eq!(thresholds[1].1, Some("9".to_string()));
    assert_eq!(thresholds[1].2.as_ref().unwrap().get_argb(), "000000");
    assert_eq!(thresholds[1].2.as_ref().unwrap().get_theme_index(), Some(1));
    assert_eq!(thresholds[1].2.as_ref().unwrap().get_tint(), "-0.25");
}

#[test]
fn colors_after_all_thresholds_pair_by_place() {
    let xml = "<conditionalFormatting sqref=\"B1:B5\"><cfRule type=\"colorScale\" priority=\"1\"><colorScale><cfvo type=\"min\"/><cfvo type=\"percentile\" value=\"50\"/><cfvo type=\"max\"/><color rgb=\"FF111111\"/><color rgb=\"FF222222\"/></colorScale></cfRule></conditionalFormatting>";
    let (sheet, out) = decode_plain(xml);
    assert!(out.is_ok());
    let rules = sheet.get_conditional_styles_collection()[0].get_conditional_collection();
    let thresholds = rules[0].get_cfvo_collection();
    assert_eq!(thresholds.len(), 2);
    assert_eq!(thresholds[0].0, "min");
    assert_eq!(thresholds[0].2.as_ref().unwrap().get_argb(), "FF111111");
    assert_eq!(thresholds[1].0, "percentile");
    assert_eq!(thresholds[1].1, Some("50".to_string()));
    assert_eq!(thresholds[1].2.as_ref().unwrap().get_argb(), "FF222222");
}

#[test]
fn rules_keep_document_order_whatever_their_priority() {
    let dxf = vec![style_named("First"), style_named("Second")];
    let xml = "<conditionalFormatting sqref=\"A1:C3\"><cfRule type=\"top10\" dxfId=\"1\" priority=\"9\" rank=\"3\" percent=\"1\" bottom=\"1\"/><cfRule type=\"cellIs\" dxfId=\"0\" priority=\"2\"><formula>5</formula></cfRule><cfRule type=\"dataBar\" priority=\"1\"><dataBar><cfvo type=\"min\"/><cfvo type=\"max\"/><color rgb=\"FF638EC6\"/></dataBar></cfRule><cfRule type=\"iconSet\" priority=\"4\"><iconSet iconSet=\"3Arrows\"><cfvo type=\"percent\" value=\"0\"/></iconSet></cfRule></conditionalFormatting><conditionalFormatting sqref=\"A1:C3\"></conditionalFormatting>";
    let (sheet, out) = decode(xml, &vec![], &vec![], &dxf);
    assert!(out.is_ok());
    let sets = sheet.get_conditional_styles_collection();
    assert_eq!(sets.len(), 2);
    assert_eq!(sets[1].get_sqref(), "A1:C3");
    assert_eq!(sets[1].get_conditional_collection().len(), 0);
    let rules = sets[0].get_conditional_collection();
    assert_eq!(rules.len(), 4);
    assert_eq!(rules[0].get_condition_type(), "top10");
    assert_eq!(rules[0].get_priority(), 9);
    assert_eq!(rules[0].get_rank(), Some(3));
    assert_eq!(rules[0].get_percent(), Some(1));
    assert_eq!(rules[0].get_bottom(), Some(1));
    assert_eq!(rules[0].get_style().unwrap().get_font().get_name(), "Second");
    assert_eq!(rules[0].get_data_type(), "");
    assert_eq!(rules[1].get_condition_type(), "cellIs");
    assert_eq!(rules[1].get_priority(), 2);
    assert_eq!(rules[1].get_rank(), None);
    assert_eq!(rules[1].get_style().unwrap().get_font().get_name(), "First");
    assert_eq!(rules[2].get_data_type(), "dataBar");
    assert_eq!(rules[2].get_cfvo_collection().len(), 1);
    assert_eq!(rules[2].get_cfvo_collection()[0].0, "min");
    assert_eq!(rules[3].get_data_type(), "iconSet");
    assert_eq!(rules[3].get_cfvo_collection().len(), 0);
}

#[test]
fn conditional_formatting_faults_are_fatal() {
    let dxf = vec![style_named("First")];
    let (sheet, out) = decode(
        "<mergeCell ref=\"A1:B1\"/><conditionalFormatting sqref=\"A1\"><cfRule dxfId=\"1\"/></conditionalFormatting>",
        &vec![],
        &vec![],
        &dxf,
    );
    assert_eq!(
        out,
        Err(XlsxError {
            fault: Fault::IndexOutOfRange { table: Table::DifferentialStyle, index: 1 },
            position: 2
        })
    );
    assert_eq!(sheet.get_conditional_styles_collection().len(), 0);
    assert_eq!(sheet.get_merge_cells().len(), 1);
    assert_eq!(
        fault_of("<conditionalFormatting><cfRule/></conditionalFormatting>"),
        XlsxError { fault: Fault::MissingAttribute, position: 0 }
    );
    assert_eq!(
        fault_of("<conditionalFormatting sqref=\"A1\"><cfRule priority=\"high\"/></conditionalFormatting>"),
        XlsxError { fault: Fault::UnparsableValue, position: 1 }
    );
    assert_eq!(
        fault_of("<conditionalFormatting sqref=\"A1\"><cfRule><colorScale><color rgb=\"FF000000\"/></colorScale></cfRule></conditionalFormatting>"),
        XlsxError { fault: Fault::UnpairedColor, position: 3 }
    );
    assert_eq!(
        fault_of("<conditionalFormatting sqref=\"A1\"><cfRule><colorScale><cfvo/><color theme=\"x\"/></colorScale></cfRule></conditionalFormatting>"),
        XlsxError { fault: Fault::UnparsableValue, position: 4 }
    );
}

#[test]
fn block_that_the_document_ends_in_is_fatal() {
    assert_eq!(
        fault_of("<conditionalFormatting sqref=\"A1\"><cfRule priority=\"1\"/>"),
        XlsxError { fault: Fault::UnexpectedEnd, position: 2 }
    );
    assert_eq!(
        fault_of("<conditionalFormatting sqref=\"A1\"><cfRule priority=\"1\"><dataBar><cfvo type=\"min\"/>"),
        XlsxError { fault: Fault::UnexpectedEnd, position: 4 }
    );
}

#[test]
fn document_that_ends_early_elsewhere_is_taken_as_far_as_it_goes() {
    let (sheet, out) = decode_plain("<worksheet><sheetData><row r=\"1\"><c r=\"A1\"><v>1</v>");
    assert!(out.is_ok());
    assert_eq!(sheet.get_cell("A1").unwrap().get_value(), "1");
}

#[test]
fn markup_that_cannot_be_read_is_fatal_where_it_stands() {
    let (sheet, out) = decode_plain("<a><mergeCell ref=\"A1:B1\"/><b></a><mergeCell ref=\"C1:D1\"/>");
    assert_eq!(out, Err(XlsxError { fault: Fault::InvalidMarkup, position: 3 }));
    assert_eq!(sheet.get_merge_cells(), &vec!["A1:B1".to_string()]);
}

#[test]
fn text_is_trimmed_and_entities_are_resolved() {
    let (sheet, out) = decode_plain("<c r=\"A1\">\n  <f> A1&amp;B1 </f>\n  <v>\n 12 \n</v>\n</c>");
    assert!(out.is_ok());
    let cell = sheet.get_cell("A1").unwrap();
    assert_eq!(cell.get_formula(), "A1&B1");
    assert_eq!(cell.get_value(), "12");
}

#[test]
fn events_can_be_decoded_without_a_document() {
    let events = vec![
        XmlEvent::Start(Element::new("worksheet", vec![])),
        XmlEvent::Empty(Element::new("sheetView", vec![Attribute::new("tabSelected", "1")])),
        XmlEvent::Start(Element::new("c", vec![Attribute::new("r", "A1"), Attribute::new("t", "b")])),
        XmlEvent::Start(Element::new("v", vec![])),
        XmlEvent::Text("1".to_string()),
        XmlEvent::End("v".to_string()),
        XmlEvent::End("c".to_string()),
        XmlEvent::Other,
        XmlEvent::Empty(Element::new("hyperlink", vec![Attribute::new("ref", "A1"), Attribute::new("r:id", "rId7")])),
        XmlEvent::End("worksheet".to_string()),
    ];
    let mut sheet = Worksheet::new();
    let out = read_events(&events, &mut sheet, &theme(), &vec![], &vec![], &vec![]);
    let (active, _, _, links) = out.unwrap();
    assert!(active);
    assert_eq!(links, vec![("A1".to_string(), "rId7".to_string())]);
    assert_eq!(sheet.get_cell("A1").unwrap().get_value(), "TRUE");
    let events = vec![XmlEvent::Other, XmlEvent::Invalid, XmlEvent::Other];
    let mut sheet = Worksheet::new();
    let out = read_events(&events, &mut sheet, &theme(), &vec![], &vec![], &vec![]);
    assert_eq!(out, Err(XlsxError { fault: Fault::InvalidMarkup, position: 1 }));
}

#[test]
fn decoding_adds_to_what_the_worksheet_holds() {
    let mut sheet = Worksheet::new();
    sheet.set_cell_value("A1", "1");
    sheet.add_merge_cells("X1:Y1");
    let out = read(b"<c r=\"A1\"><f>B1</f></c><c r=\"A2\"><v>2</v></c><mergeCell ref=\"A1:B1\"/>", &mut sheet, &theme(), &vec![], &vec![], &vec![]);
    assert!(out.is_ok());
    assert_eq!(sheet.get_cells().len(), 2);
    assert_eq!(sheet.get_cell("A1").unwrap().get_value(), "1");
    assert_eq!(sheet.get_cell("A1").unwrap().get_formula(), "B1");
    assert_eq!(sheet.get_cell("A2").unwrap().get_value(), "2");
    assert_eq!(sheet.get_merge_cells(), &vec!["X1:Y1".to_string(), "A1:B1".to_string()]);
}

#[test]
fn type_code_of_a_marker_that_closes_itself_does_not_reach_the_next_cell() {
    let shared = vec![("zero".to_string(), None)];
    let (sheet, out) = decode(
        "<c r=\"A1\" t=\"s\"/><c r=\"A2\"><v>0</v></c><c r=\"A3\" t=\"s\"><v>0</v></c>",
        &shared,
        &vec![],
        &vec![],
    );
    assert!(out.is_ok());
    assert!(sheet.get_cell("A1").is_none());
    assert_eq!(sheet.get_cell("A2").unwrap().get_value(), "0");
    assert_eq!(sheet.get_cell("A2").unwrap().get_data_type(), "n");
    assert_eq!(sheet.get_cell("A3").unwrap().get_value(), "zero");
    assert_eq!(sheet.get_cell("A3").unwrap().get_data_type(), "s");
}
