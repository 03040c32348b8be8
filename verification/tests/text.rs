use zsh_infinite::text::{
    chars_of, format_decimal, has_prefix, is_whitespace, join_path, parse_i32_in, parse_u8_in,
    same_text, split_ranges, to_digit, trim, trim_range, IntErrorKind,
};

fn chars(text: &str) -> Vec<char> {
    text.chars().collect()
}

fn parse_u8(text: &str, radix: u32) -> Result<u8, IntErrorKind> {
    let c = chars(text);
    parse_u8_in(&c, 0, c.len(), radix)
}

fn parse_i32(text: &str) -> Result<i32, IntErrorKind> {
    let c = chars(text);
    parse_i32_in(&c, 0, c.len())
}

#[test]
fn chars_are_the_characters() {
    assert_eq!(chars_of(""), Vec::<char>::new());
    assert_eq!(chars_of("a\u{2500}b"), vec!['a', '\u{2500}', 'b']);
}

#[test]
fn white_space_is_what_unicode_says() {
    for c in [' ', '\t', '\n', '\u{b}', '\u{c}', '\r', '\u{85}', '\u{a0}', '\u{1680}', '\u{2000}',
        '\u{200a}', '\u{2028}', '\u{2029}', '\u{202f}', '\u{205f}', '\u{3000}']
    {
        assert!(is_whitespace(c), "{:?}", c);
        assert!(c.is_whitespace());
    }
    for c in ['a', '0', '\u{8}', '\u{e}', '\u{200b}', '\u{feff}', '\u{2500}', '\u{1f}'] {
        assert!(!is_whitespace(c), "{:?}", c);
        assert!(!c.is_whitespace());
    }
}

#[test]
fn trim_agrees_with_the_standard_library() {
    for text in ["", " ", "a", "  a", "a  ", "  a b  ", "\n\ta\r\n", "\u{3000}x\u{a0}", " \u{200b} ",
        "no space", "  \u{2500}\u{2500}  "]
    {
        assert_eq!(trim(text), text.trim(), "{:?}", text);
    }
}

#[test]
fn trim_range_gives_bounds() {
    let c = chars("ab  cd  ef");
    assert_eq!(trim_range(&c, 0, c.len()), (0, 10));
    assert_eq!(trim_range(&c, 2, 8), (4, 6));
    assert_eq!(trim_range(&c, 2, 4), (4, 4));
    assert_eq!(trim_range(&c, 3, 3), (3, 3));
}

#[test]
fn digits_of_a_radix() {
    assert_eq!(to_digit('0', 10), Some(0));
    assert_eq!(to_digit('9', 10), Some(9));
    assert_eq!(to_digit('a', 10), None);
    assert_eq!(to_digit('a', 16), Some(10));
    assert_eq!(to_digit('F', 16), Some(15));
    assert_eq!(to_digit('g', 16), None);
    assert_eq!(to_digit('z', 36), Some(35));
    assert_eq!(to_digit('Z', 36), Some(35));
    assert_eq!(to_digit('2', 2), None);
    assert_eq!(to_digit('/', 10), None);
    assert_eq!(to_digit(':', 10), None);
    assert_eq!(to_digit('\u{662}', 10), None);
    for c in ['0', '7', 'a', 'f', 'G', 'z', '-', ' '] {
        for radix in [2u32, 8, 10, 16, 36] {
            assert_eq!(to_digit(c, radix), c.to_digit(radix));
        }
    }
}

#[test]
fn u8_parses_as_the_standard_library_does() {
    for text in ["0", "7", "255", "256", "999", "+5", "-5", "+", "-", "", "0255", "00000001", "1a",
        "a1", " 1", "1 ", "++1", "9999999999999999999999", "25x5", "2555x"]
    {
        let expected = text.parse::<u8>().map_err(|e| match e.kind() {
            std::num::IntErrorKind::Empty => IntErrorKind::Empty,
            std::num::IntErrorKind::InvalidDigit => IntErrorKind::InvalidDigit,
            std::num::IntErrorKind::PosOverflow => IntErrorKind::PosOverflow,
            _ => IntErrorKind::NegOverflow,
        });
        assert_eq!(parse_u8(text, 10), expected, "{:?}", text);
    }
}

#[test]
fn u8_error_kinds() {
    assert_eq!(parse_u8("", 10), Err(IntErrorKind::Empty));
    assert_eq!(parse_u8("x", 10), Err(IntErrorKind::InvalidDigit));
    assert_eq!(parse_u8("-1", 10), Err(IntErrorKind::InvalidDigit));
    assert_eq!(parse_u8("256", 10), Err(IntErrorKind::PosOverflow));
    assert_eq!(parse_u8("2560x", 10), Err(IntErrorKind::PosOverflow));
    assert_eq!(parse_u8("25x0", 10), Err(IntErrorKind::InvalidDigit));
    assert_eq!(IntErrorKind::Empty.message(), "cannot parse integer from empty string");
    assert_eq!(IntErrorKind::InvalidDigit.message(), "invalid digit found in string");
    assert_eq!(IntErrorKind::PosOverflow.message(), "number too large to fit in target type");
    assert_eq!(IntErrorKind::NegOverflow.message(), "number too small to fit in target type");
}

#[test]
fn hexadecimal_u8() {
    assert_eq!(parse_u8("ff", 16), Ok(255));
    assert_eq!(parse_u8("FF", 16), Ok(255));
    assert_eq!(parse_u8("0a", 16), Ok(10));
    assert_eq!(parse_u8("+F", 16), Ok(15));
    assert_eq!(parse_u8("100", 16), Err(IntErrorKind::PosOverflow));
    assert_eq!(parse_u8("g0", 16), Err(IntErrorKind::InvalidDigit));
    for text in ["00", "7f", "80", "Ab", "+a", "-a", "1g", ""] {
        let expected = u8::from_str_radix(text, 16).ok();
        assert_eq!(parse_u8(text, 16).ok(), expected, "{:?}", text);
    }
}

#[test]
fn i32_parses_as_the_standard_library_does() {
    for text in ["0", "-0", "+0", "12345", "-12345", "2147483647", "2147483648", "-2147483648",
        "-2147483649", "", "+", "-", "--1", "1-", "99999999999", "-99999999999", "12a", "-12a"]
    {
        let expected = text.parse::<i32>().map_err(|e| match e.kind() {
            std::num::IntErrorKind::Empty => IntErrorKind::Empty,
            std::num::IntErrorKind::InvalidDigit => IntErrorKind::InvalidDigit,
            std::num::IntErrorKind::PosOverflow => IntErrorKind::PosOverflow,
            _ => IntErrorKind::NegOverflow,
        });
        assert_eq!(parse_i32(text), expected, "{:?}", text);
    }
    assert_eq!(parse_i32("-2147483649"), Err(IntErrorKind::NegOverflow));
}

#[test]
fn numbers_inside_a_text() {
    let c = chars("ab123cd");
    assert_eq!(parse_u8_in(&c, 2, 5, 10), Ok(123));
    assert_eq!(parse_u8_in(&c, 2, 4, 10), Ok(12));
    assert_eq!(parse_u8_in(&c, 2, 2, 10), Err(IntErrorKind::Empty));
    assert_eq!(parse_u8_in(&c, 1, 5, 10), Err(IntErrorKind::InvalidDigit));
    assert_eq!(parse_u8_in(&c, 0, 2, 16), Ok(0xab));
    assert_eq!(parse_i32_in(&c, 2, 5), Ok(123));
}

#[test]
fn split_gives_one_part_more_than_separators() {
    let c = chars("a,bc,,d");
    assert_eq!(split_ranges(&c, 0, c.len(), ','), vec![(0, 1), (2, 4), (5, 5), (6, 7)]);
    assert_eq!(split_ranges(&c, 0, 0, ','), vec![(0, 0)]);
    assert_eq!(split_ranges(&c, 0, 1, ','), vec![(0, 1)]);
    assert_eq!(split_ranges(&c, 1, 2, ','), vec![(1, 1), (2, 2)]);
    assert_eq!(split_ranges(&c, 2, 6, ','), vec![(2, 4), (5, 5), (6, 6)]);
    for text in ["", ",", "a", "a,", ",a", "1,2,3", ",,,"] {
        let c = chars(text);
        let parts: Vec<String> = split_ranges(&c, 0, c.len(), ',')
            .iter()
            .map(|&(from, to)| c[from..to].iter().collect())
            .collect();
        let expected: Vec<String> = text.split(',').map(|p| p.to_string()).collect();
        assert_eq!(parts, expected, "{:?}", text);
    }
}

#[test]
fn prefixes_and_whole_texts() {
    let c = chars("Code256(7)");
    assert!(has_prefix(&c, "Code256("));
    assert!(has_prefix(&c, ""));
    assert!(has_prefix(&c, "Code256(7)"));
    assert!(!has_prefix(&c, "Code256(7))"));
    assert!(!has_prefix(&c, "code"));
    assert!(same_text(&c, "Code256(7)"));
    assert!(!same_text(&c, "Code256(7"));
    assert!(!same_text(&c, "Code256(8)"));
    assert!(same_text(&Vec::new(), ""));
}

#[test]
fn decimal_digits() {
    assert_eq!(format_decimal(0), "0");
    assert_eq!(format_decimal(7), "7");
    assert_eq!(format_decimal(10), "10");
    assert_eq!(format_decimal(255), "255");
    assert_eq!(format_decimal(1000), "1000");
    assert_eq!(format_decimal(u64::MAX), "18446744073709551615");
    for n in [1u64, 9, 11, 99, 100, 101, 12345, 4_294_967_295] {
        assert_eq!(format_decimal(n), n.to_string());
    }
}

#[test]
fn join_agrees_with_paths() {
    for (base, name) in [("/a", "b"), ("/a/", "b"), ("", "b"), ("/", "b"), ("a", "b.c"), ("/a", "/b"),
        ("/a//", "b"), ("", ""), ("/a", "")]
    {
        let expected = std::path::Path::new(base).join(name);
        assert_eq!(join_path(base, name), expected.to_str().unwrap(), "{:?} {:?}", base, name);
    }
}
