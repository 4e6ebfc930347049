use worksheet_reader::coordinate::{coordinate_from_index, index_from_coordinate};
use worksheet_reader::digest::{hash_text, to_hex_lower};
use worksheet_reader::text::{
    chars_of, is_real, parse_digits, parse_usize, text_eq, to_upper_text, usize_to_text,
};

#[test]
fn text_eq_compares_characters() {
    assert!(text_eq("row", "row"));
    assert!(!text_eq("row", "col"));
    assert!(!text_eq("row", "rows"));
    assert!(text_eq("", ""));
    assert!(text_eq("é", "é"));
}

#[test]
fn parse_usize_reads_what_std_reads() {
    let samples = [
        "0", "7", "42", "007", "+5", "+", "", "-1", " 1", "1 ", "1_000", "12a", "a12", "١٢", "-0", "+-1", "0000000000000000000000000000001",
        "18446744073709551615", "18446744073709551616", "99999999999999999999999", "++1", "+0",
    ];
    for s in samples {
        assert_eq!(parse_usize(s), s.parse::<usize>().ok(), "reading {:?}", s);
    }
    assert_eq!(parse_usize("42"), Some(42));
    assert_eq!(parse_usize("+5"), Some(5));
    assert_eq!(parse_usize("1e3"), None);
}

#[test]
fn parse_digits_reads_the_tail() {
    let chars = chars_of("AB120");
    assert_eq!(parse_digits(&chars, 2), Some(120));
    assert_eq!(parse_digits(&chars, 5), None);
    assert_eq!(parse_digits(&chars, 1), None);
}

#[test]
fn is_real_accepts_what_std_parses() {
    let samples = [
        "0", "1", "-1", "+1", "1.5", "1.", ".5", ".", "", "+", "-", "1e5", "1E5", "1e+5", "1e-5",
        "1e", "1e+", "e5", "1.5e3", ".5e3", "5.e3", ".e3", "inf", "-inf", "+inf", "INF", "Infinity",
        "infinity", "-INFINITY", "infinit", "nan", "NaN", "-nan", "nane", "0.7", "0.75", "15.75",
        "-0.499984740745262", "1 ", " 1", "1,5", "0x10", "1.2.3", "1e5e5", "٣", "1_0", "--1", "1f",
        "9.140625", "0.39370078740157483",
    ];
    for s in samples {
        assert_eq!(is_real(s), s.parse::<f64>().is_ok(), "reading {:?}", s);
    }
    assert!(is_real("0.75"));
    assert!(!is_real("abc"));
}

#[test]
fn upper_case_changes_small_latin_letters_only() {
    assert_eq!(to_upper_text("b12"), "B12");
    assert_eq!(to_upper_text("aZ9é"), "AZ9é");
    assert_eq!(to_upper_text(""), "");
}

#[test]
fn usize_to_text_writes_decimal() {
    assert_eq!(usize_to_text(0), "0");
    assert_eq!(usize_to_text(7), "7");
    assert_eq!(usize_to_text(10), "10");
    assert_eq!(usize_to_text(1234567890), "1234567890");
    assert_eq!(usize_to_text(usize::MAX), usize::MAX.to_string());
}

#[test]
fn coordinates_are_decoded() {
    assert_eq!(index_from_coordinate("A1"), Some((1, 1)));
    assert_eq!(index_from_coordinate("B12"), Some((2, 12)));
    assert_eq!(index_from_coordinate("Z9"), Some((26, 9)));
    assert_eq!(index_from_coordinate("AA10"), Some((27, 10)));
    assert_eq!(index_from_coordinate("AZ1"), Some((52, 1)));
    assert_eq!(index_from_coordinate("BA1"), Some((53, 1)));
    assert_eq!(index_from_coordinate("ZZ1"), Some((702, 1)));
    assert_eq!(index_from_coordinate("AAA1"), Some((703, 1)));
    assert_eq!(index_from_coordinate("XFD1048576"), Some((16384, 1048576)));
}

#[test]
fn coordinates_that_are_none_are_refused() {
    assert_eq!(index_from_coordinate(""), None);
    assert_eq!(index_from_coordinate("A"), None);
    assert_eq!(index_from_coordinate("12"), None);
    assert_eq!(index_from_coordinate("a1"), None);
    assert_eq!(index_from_coordinate("A1B"), None);
    assert_eq!(index_from_coordinate("A-1"), None);
    assert_eq!(index_from_coordinate("$A$1"), None);
    assert_eq!(index_from_coordinate("A99999999999999999999999"), None);
    assert_eq!(index_from_coordinate("ZZZZZZZZZZZZZZZZZZZZZZZZZZ1"), None);
}

#[test]
fn coordinates_are_encoded() {
    assert_eq!(coordinate_from_index(1, 1), "A1");
    assert_eq!(coordinate_from_index(2, 12), "B12");
    assert_eq!(coordinate_from_index(26, 9), "Z9");
    assert_eq!(coordinate_from_index(27, 10), "AA10");
    assert_eq!(coordinate_from_index(702, 1), "ZZ1");
    assert_eq!(coordinate_from_index(703, 1), "AAA1");
    assert_eq!(coordinate_from_index(16384, 1048576), "XFD1048576");
}

#[test]
fn coordinates_come_back_from_their_writing() {
    for column in [1usize, 2, 25, 26, 27, 51, 52, 53, 701, 702, 703, 16384, 18278, 18279, 475254] {
        for row in [1usize, 9, 10, 99, 100, 1048576, 4000000000] {
            let written = coordinate_from_index(column, row);
            assert_eq!(index_from_coordinate(&written), Some((column, row)), "{}", written);
        }
    }
    let written = coordinate_from_index(usize::MAX, usize::MAX);
    assert_eq!(index_from_coordinate(&written), Some((usize::MAX, usize::MAX)));
}

#[test]
fn hex_is_lower_case_two_digits_a_byte() {
    assert_eq!(to_hex_lower(&[]), "");
    assert_eq!(to_hex_lower(&[0x00, 0x0f, 0xa0, 0xff, 0x5b]), "000fa0ff5b");
}

#[test]
fn hash_text_is_md5_in_hex() {
    assert_eq!(hash_text(""), "d41d8cd98f00b204e9800998ecf8427e");
    assert_eq!(hash_text("abc"), "900150983cd24fb0d6963f7d28e17f72");
    assert_eq!(hash_text("héllo"), format!("{:x}", md5::compute("héllo")));
}
