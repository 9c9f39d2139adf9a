use album_player::numeral::{read_isize, read_usize};
use album_player::range::{parse_track_ranges, ParseError, RangeSelector};
use album_player::text::{char_is_space, find_from, to_chars, trim_bounds};

fn sel(offset: Option<isize>, limit: Option<isize>) -> RangeSelector {
    RangeSelector { offset, limit }
}

#[test]
fn empty_text_has_no_bounds() {
    assert_eq!(parse_track_ranges(""), Ok(sel(None, None)));
    assert_eq!(parse_track_ranges(""), Ok(RangeSelector::unbounded()));
}

#[test]
fn both_bounds_are_read() {
    assert_eq!(parse_track_ranges("1:5"), Ok(sel(Some(1), Some(5))));
    assert_eq!(parse_track_ranges("3:-2"), Ok(sel(Some(3), Some(-2))));
    assert_eq!(parse_track_ranges("0:-1"), Ok(sel(Some(0), Some(-1))));
    assert_eq!(parse_track_ranges("+7:+9"), Ok(sel(Some(7), Some(9))));
    assert_eq!(parse_track_ranges("007:010"), Ok(sel(Some(7), Some(10))));
}

#[test]
fn empty_segments_are_absent_bounds() {
    assert_eq!(parse_track_ranges("2:"), Ok(sel(Some(2), None)));
    assert_eq!(parse_track_ranges(":4"), Ok(sel(None, Some(4))));
    assert_eq!(parse_track_ranges(":"), Ok(sel(None, None)));
    assert_eq!(parse_track_ranges("2"), Ok(sel(Some(2), None)));
}

#[test]
fn negative_offset_is_read_as_written() {
    assert_eq!(parse_track_ranges("-3:"), Ok(sel(Some(-3), None)));
    assert_eq!(parse_track_ranges("-0:-0"), Ok(sel(Some(0), Some(0))));
}

#[test]
fn bounds_are_trimmed() {
    assert_eq!(parse_track_ranges(" 4 :\t7\n"), Ok(sel(Some(4), Some(7))));
    assert_eq!(parse_track_ranges("\u{a0}1\u{3000}:"), Ok(sel(Some(1), None)));
}

#[test]
fn text_after_a_second_separator_is_not_read() {
    assert_eq!(parse_track_ranges("1:2:3"), Ok(sel(Some(1), Some(2))));
    assert_eq!(parse_track_ranges("1:2:x"), Ok(sel(Some(1), Some(2))));
    assert_eq!(parse_track_ranges("1::x"), Ok(sel(Some(1), None)));
}

#[test]
fn bad_lower_bound_is_reported() {
    assert_eq!(parse_track_ranges("a:1"), Err(ParseError::LowerBound("a".to_string())));
    assert_eq!(parse_track_ranges(" x1 :1"), Err(ParseError::LowerBound("x1".to_string())));
    assert_eq!(parse_track_ranges(" :1"), Err(ParseError::LowerBound(String::new())));
    assert_eq!(parse_track_ranges("1 2:"), Err(ParseError::LowerBound("1 2".to_string())));
    assert_eq!(parse_track_ranges("-:"), Err(ParseError::LowerBound("-".to_string())));
    assert_eq!(parse_track_ranges("1.5"), Err(ParseError::LowerBound("1.5".to_string())));
}

#[test]
fn bad_upper_bound_is_reported() {
    assert_eq!(parse_track_ranges("1:b"), Err(ParseError::UpperBound("b".to_string())));
    assert_eq!(parse_track_ranges(": +"), Err(ParseError::UpperBound("+".to_string())));
    assert_eq!(parse_track_ranges("1:--2"), Err(ParseError::UpperBound("--2".to_string())));
}

#[test]
fn lower_bound_is_judged_first() {
    assert_eq!(parse_track_ranges("a:b"), Err(ParseError::LowerBound("a".to_string())));
}

#[test]
fn bounds_must_fit_the_integer_type() {
    let max = isize::MAX.to_string();
    let min = isize::MIN.to_string();
    assert_eq!(
        parse_track_ranges(&format!("{}:{}", max, min)),
        Ok(sel(Some(isize::MAX), Some(isize::MIN)))
    );
    let over = "9223372036854775808";
    let under = "-9223372036854775809";
    assert_eq!(
        parse_track_ranges(&format!("{}:", over)),
        Err(ParseError::LowerBound(over.to_string()))
    );
    assert_eq!(
        parse_track_ranges(&format!(":{}", under)),
        Err(ParseError::UpperBound(under.to_string()))
    );
    assert_eq!(
        parse_track_ranges("99999999999999999999999999:"),
        Err(ParseError::LowerBound("99999999999999999999999999".to_string()))
    );
}

#[test]
fn error_message_quotes_the_bound() {
    assert_eq!(
        ParseError::LowerBound("x".to_string()).message(),
        "Lower range input \"x\" could not be parsed to an integer"
    );
    assert_eq!(
        ParseError::UpperBound("1b".to_string()).message(),
        "Upper range input \"1b\" could not be parsed to an integer"
    );
}

#[test]
fn written_selectors_read_back() {
    let values: [isize; 7] = [0, 1, -1, 42, -42, isize::MAX, isize::MIN];
    for a in values {
        for b in values {
            let text = format!("{}:{}", a, b);
            assert_eq!(parse_track_ranges(&text), Ok(sel(Some(a), Some(b))));
        }
        assert_eq!(parse_track_ranges(&format!("{}:", a)), Ok(sel(Some(a), None)));
        assert_eq!(parse_track_ranges(&format!(":{}", a)), Ok(sel(None, Some(a))));
    }
}

fn numeral_samples() -> Vec<&'static str> {
    vec![
        "", "0", "1", "-1", "+1", "-", "+", "--1", "+-1", "-+1", "00", "-00", "+00", "12a", "a12",
        "1 2", " 1", "1 ", "1_000", "0x10", "٣", "９", "9223372036854775807", "9223372036854775808",
        "-9223372036854775808", "-9223372036854775809", "18446744073709551615",
        "18446744073709551616", "+18446744073709551615", "-0", "000000000000000000000000000012",
        "2147483647", "2147483648", "-2147483648", "-2147483649", "4294967295", "4294967296",
    ]
}

#[test]
fn signed_numerals_are_read_as_the_standard_library_reads_them() {
    for text in numeral_samples() {
        let chars = to_chars(text);
        assert_eq!(read_isize(&chars, 0, chars.len()), text.parse::<isize>().ok(), "{:?}", text);
    }
}

#[test]
fn unsigned_numerals_are_read_as_the_standard_library_reads_them() {
    for text in numeral_samples() {
        let chars = to_chars(text);
        assert_eq!(read_usize(&chars, 0, chars.len()), text.parse::<usize>().ok(), "{:?}", text);
    }
}

#[test]
fn numerals_are_read_from_the_middle_of_a_text() {
    let chars = to_chars("ab-17cd");
    assert_eq!(read_isize(&chars, 2, 5), Some(-17));
    assert_eq!(read_isize(&chars, 2, 6), None);
    assert_eq!(read_usize(&chars, 3, 5), Some(17));
    assert_eq!(read_usize(&chars, 2, 5), None);
    assert_eq!(read_isize(&chars, 3, 3), None);
}

#[test]
fn whitespace_is_what_the_standard_library_calls_whitespace() {
    let mut code: u32 = 0;
    while code <= 0x3100 {
        if let Some(c) = char::from_u32(code) {
            assert_eq!(char_is_space(c), c.is_whitespace(), "U+{:04X}", code);
        }
        code += 1;
    }
    assert!(!char_is_space('\u{feff}'));
    assert!(!char_is_space('\u{200b}'));
}

#[test]
fn trimming_is_what_the_standard_library_trims() {
    for text in ["", " ", "  a  ", "a", "\t a b \r\n", "\u{2003}x\u{85}", "x y", " \u{200b} "] {
        let chars = to_chars(text);
        let (lo, hi) = trim_bounds(&chars, 0, chars.len());
        let got: String = chars[lo..hi].iter().collect();
        assert_eq!(got, text.trim(), "{:?}", text);
    }
}

#[test]
fn characters_are_listed_in_order() {
    assert_eq!(to_chars("aé:3"), vec!['a', 'é', ':', '3']);
    assert_eq!(to_chars(""), Vec::<char>::new());
}

#[test]
fn separator_is_found_from_a_position() {
    let chars = to_chars("a:b:c");
    assert_eq!(find_from(&chars, 0, ':'), 1);
    assert_eq!(find_from(&chars, 1, ':'), 1);
    assert_eq!(find_from(&chars, 2, ':'), 3);
    assert_eq!(find_from(&chars, 4, ':'), 5);
    assert_eq!(find_from(&chars, 5, ':'), 5);
}
