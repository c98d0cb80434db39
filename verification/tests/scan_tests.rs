use bestftp::scan::{ascii_lower_char, is_space_char, parse_unsigned_range, split_ranges, trim_range};
use bestftp::text::{
    chars_of, digit_to_char, push_decimal, push_octal, push_padded_decimal, string_of,
    string_of_range,
};

#[test]
fn white_space_is_what_std_calls_white_space() {
    for code in 0..=0x10FFFFu32 {
        if let Some(c) = char::from_u32(code) {
            assert_eq!(is_space_char(c), c.is_whitespace(), "for U+{:04X}", code);
        }
    }
}

#[test]
fn ascii_lower_is_what_std_calls_ascii_lowercase() {
    for code in 0..=0x10FFFFu32 {
        if let Some(c) = char::from_u32(code) {
            assert_eq!(ascii_lower_char(c), c.to_ascii_lowercase());
        }
    }
}

#[test]
fn only_ascii_letters_and_the_kelvin_sign_become_ascii_letters() {
    // The words that a listing line is read for hold no `k`, so comparing
    // them without regard to ASCII case is comparing their lower case.
    for code in 0x80..=0x10FFFFu32 {
        if let Some(c) = char::from_u32(code) {
            let lower: String = c.to_lowercase().collect();
            if lower.is_ascii() {
                assert_eq!(c, '\u{212A}');
                assert_eq!(lower, "k");
            }
        }
    }
}

#[test]
fn trim_range_drops_white_space_at_both_ends() {
    let v = chars_of("  \t hello world \u{3000}\n");
    let (a, b) = trim_range(&v, 0, v.len());
    assert_eq!(string_of_range(&v, a, b), "hello world");
    let blank = chars_of(" \t ");
    let (a, b) = trim_range(&blank, 0, blank.len());
    assert_eq!(a, b);
}

#[test]
fn split_ranges_keeps_empty_parts() {
    let v = chars_of("a;;bc;");
    let parts = split_ranges(&v, ';');
    let texts: Vec<String> = parts.iter().map(|p| string_of_range(&v, p.0, p.1)).collect();
    assert_eq!(texts, vec!["a", "", "bc", ""]);
    let none = chars_of("abc");
    assert_eq!(split_ranges(&none, ';'), vec![(0, 3)]);
    let empty = chars_of("");
    assert_eq!(split_ranges(&empty, ';'), vec![(0, 0)]);
}

#[test]
fn parse_unsigned_accepts_what_std_accepts() {
    let cases = [
        "0", "7", "42", "+42", "007", "18446744073709551615", "18446744073709551616",
        "99999999999999999999999", "", "+", "-1", "1a", " 1", "1 ", "++1", "+0",
        "000000000000000000000000000000012",
    ];
    for text in cases {
        let v = chars_of(text);
        let expected = text.parse::<u64>().ok();
        assert_eq!(parse_unsigned_range(&v, 0, v.len(), u64::MAX), expected, "for {:?}", text);
    }
    for text in ["4294967295", "4294967296", "+12", "9999"] {
        let v = chars_of(text);
        let expected = text.parse::<u32>().ok().map(|n| n as u64);
        assert_eq!(parse_unsigned_range(&v, 0, v.len(), u32::MAX as u64), expected);
    }
}

#[test]
fn text_round_trips() {
    for text in ["", "abc", "día ñandú", "日本語", "a\u{1F600}b"] {
        assert_eq!(string_of(&chars_of(text)), text);
    }
    assert_eq!(digit_to_char(0), '0');
    assert_eq!(digit_to_char(9), '9');
    assert_eq!(digit_to_char(10), '?');
}

#[test]
fn numbers_as_text() {
    let mut out = Vec::new();
    push_decimal(&mut out, 0);
    out.push(' ');
    push_decimal(&mut out, u64::MAX as u128);
    out.push(' ');
    push_octal(&mut out, 0o755);
    out.push(' ');
    push_octal(&mut out, 8);
    out.push(' ');
    push_padded_decimal(&mut out, 7, 3);
    out.push(' ');
    push_padded_decimal(&mut out, 12345, 2);
    out.push(' ');
    push_padded_decimal(&mut out, 0, 0);
    assert_eq!(string_of(&out), "0 18446744073709551615 755 10 007 12345 0");
}
