use pointrain::io::field::same_text;
use pointrain::io::text::{
    chars_of, decimal_string, decimal_string_wide, is_blank_line, is_digit_char, is_float_text,
    is_separator_char, is_space_char, next_line, parse_signed, parse_unsigned, read_line,
    signed_string, split_tokens, starts_comment,
};

const TOKENS: [&str; 40] = [
    "", "0", "7", "007", "+7", "-7", "+", "-", "+-7", "--7", "255", "256", "-128", "-129", "127",
    "128", "65535", "65536", "4294967295", "4294967296", "2147483647", "2147483648",
    "-2147483648", "-2147483649", "18446744073709551615", "18446744073709551616",
    "99999999999999999999999999", "-0", "+0", "1_000", "1 ", " 1", "1.0", "1e3", "0x10", "١٢",
    "１２", "12a", "a12", "-+1",
];

#[test]
fn unsigned_literals_are_those_of_the_standard_library() {
    for s in TOKENS {
        assert_eq!(parse_unsigned(s, 0xff), s.parse::<u8>().ok().map(u64::from), "{:?}", s);
        assert_eq!(parse_unsigned(s, 0xffff), s.parse::<u16>().ok().map(u64::from), "{:?}", s);
        assert_eq!(parse_unsigned(s, 0xffff_ffff), s.parse::<u32>().ok().map(u64::from), "{:?}", s);
        assert_eq!(parse_unsigned(s, u64::MAX), s.parse::<u64>().ok(), "{:?}", s);
    }
    assert_eq!(parse_unsigned("200", 0xff), Some(200));
    assert_eq!(parse_unsigned("+0042", 100), Some(42));
    assert_eq!(parse_unsigned("43", 42), None);
}

#[test]
fn signed_literals_are_those_of_the_standard_library() {
    for s in TOKENS {
        assert_eq!(parse_signed(s, -0x80, 0x7f), s.parse::<i8>().ok().map(i64::from), "{:?}", s);
        assert_eq!(
            parse_signed(s, -0x8000, 0x7fff),
            s.parse::<i16>().ok().map(i64::from),
            "{:?}",
            s
        );
        assert_eq!(
            parse_signed(s, -0x8000_0000, 0x7fff_ffff),
            s.parse::<i32>().ok().map(i64::from),
            "{:?}",
            s
        );
        assert_eq!(parse_signed(s, i64::MIN, i64::MAX), s.parse::<i64>().ok(), "{:?}", s);
    }
    assert_eq!(parse_signed("-9223372036854775808", i64::MIN, i64::MAX), Some(i64::MIN));
    assert_eq!(parse_signed("-9223372036854775809", i64::MIN, i64::MAX), None);
    assert_eq!(parse_signed("9223372036854775807", i64::MIN, i64::MAX), Some(i64::MAX));
    assert_eq!(parse_signed("9223372036854775808", i64::MIN, i64::MAX), None);
    assert_eq!(parse_signed("-17", -20, 5), Some(-17));
    assert_eq!(parse_signed("-21", -20, 5), None);
    assert_eq!(parse_signed("6", -20, 5), None);
}

#[test]
fn float_literals_are_those_of_the_standard_library() {
    let more = [
        "1.", ".1", ".", "1.5", "-1.5", "+1.5", "1e5", "1E5", "1e+5", "1e-5", "1e", "1e+", "e5",
        ".e5", "1.e5", ".5e5", "1.5e5.5", "1..5", "1.5.5", "inf", "Inf", "INF", "+inf", "-inf",
        "infinity", "INFINITY", "-Infinity", "infinit", "infinityy", "nan", "NaN", "NAN", "-nan",
        "+NaN", "na", "nane", "in", "1f", "1.0f32", "0x1p3", "1,5", "1 5", " 1.5", "1.5 ", "--1",
        "+-1", "1e1e1", "1e5e", "00.00", "-.0", "+.", "-e1", "1E+05", "123456789012345678901234567890",
        "0.000000000000000000000000000000000000000000000000000001", "1e400", "1e-400", "ınf",
        "ｉnf", "1٫5", "K", "iNf", "nAn", "INFinity", "1e٣", "1_0.0",
    ];
    for s in TOKENS.iter().chain(more.iter()) {
        assert_eq!(is_float_text(s), s.parse::<f32>().is_ok(), "{:?}", s);
        assert_eq!(is_float_text(s), s.parse::<f64>().is_ok(), "{:?}", s);
    }
    assert!(is_float_text("-12.5e-3"));
    assert!(!is_float_text("12.5e-"));
}

#[test]
fn decimal_strings_are_those_of_the_standard_library() {
    for n in [0usize, 1, 9, 10, 11, 99, 100, 101, 255, 1000, 65535, 123456789, usize::MAX] {
        assert_eq!(decimal_string(n), n.to_string());
        assert_eq!(decimal_string_wide(n as u128 * n as u128), (n as u128 * n as u128).to_string());
    }
    assert_eq!(decimal_string_wide(u128::MAX), u128::MAX.to_string());
    for v in [0i64, 1, -1, 9, -10, 127, -128, 32767, -32768, i64::MAX, i64::MIN] {
        assert_eq!(signed_string(v), v.to_string());
    }
}

#[test]
fn signed_literals_are_held_to_any_range() {
    assert_eq!(parse_signed("7", 5, 9), Some(7));
    assert_eq!(parse_signed("4", 5, 9), None);
    assert_eq!(parse_signed("-4", 5, 9), None);
    assert_eq!(parse_signed("0", 5, 9), None);
    assert_eq!(parse_signed("-7", -9, -5), Some(-7));
    assert_eq!(parse_signed("-4", -9, -5), None);
    assert_eq!(parse_signed("7", -9, -5), None);
    assert_eq!(parse_signed("-0", -9, -5), None);
    assert_eq!(parse_signed("3", 4, 2), None);
    assert_eq!(parse_signed("-0", 0, 0), Some(0));
}

#[test]
fn empty_lines_are_told() {
    for line in ["", "\n", "\r\n", " ", "\t \r\n", "\u{a0}\u{3000}\n", "\u{b}\u{c}"] {
        assert!(is_blank_line(line), "{:?}", line);
        assert_eq!(line.trim(), "");
    }
    for line in ["a", " a \n", "#", "\u{200b}", ".", "\n0"] {
        assert!(!is_blank_line(line), "{:?}", line);
    }
}

#[test]
fn lines_are_cut_into_tokens() {
    let cases: Vec<(&str, Vec<&str>)> = vec![
        ("", vec![""]),
        ("\n", vec![""]),
        ("   \t\r\n", vec![""]),
        ("a", vec!["a"]),
        ("a b", vec!["a", "b"]),
        ("  a b  \n", vec!["a", "b"]),
        ("a  b", vec!["a", "", "b"]),
        ("a\tb\rc d\r\n", vec!["a", "b", "c", "d"]),
        ("a \t b", vec!["a", "", "", "b"]),
        ("a\u{b}b\u{c}c", vec!["a\u{b}b\u{c}c"]),
        ("\u{a0}a\u{3000}b\u{2003}", vec!["a\u{3000}b"]),
        ("\u{85}x y\u{2028}", vec!["x", "y"]),
        ("FIELDS x y z\n", vec!["FIELDS", "x", "y", "z"]),
        ("é ü\n", vec!["é", "ü"]),
    ];
    for (line, expected) in cases {
        assert_eq!(split_tokens(line), expected, "{:?}", line);
        let std: Vec<&str> = line.trim().split(&[' ', '\t', '\r']).collect();
        assert_eq!(std, expected, "{:?}", line);
    }
}

#[test]
fn characters_are_classed() {
    for code in 0..0x3100u32 {
        if let Some(c) = char::from_u32(code) {
            assert_eq!(is_space_char(c), c.is_whitespace(), "{:?}", c);
            assert_eq!(is_digit_char(c), c.is_ascii_digit(), "{:?}", c);
            assert_eq!(is_separator_char(c), c == ' ' || c == '\t' || c == '\r', "{:?}", c);
        }
    }
    assert!(!is_space_char('\u{feff}'));
    assert!(!is_space_char('\u{200b}'));
}

#[test]
fn data_is_cut_into_lines() {
    let data = b"ab\n\ncd\r\nef";
    assert_eq!(next_line(data, 0), 3);
    assert_eq!(next_line(data, 1), 3);
    assert_eq!(next_line(data, 3), 4);
    assert_eq!(next_line(data, 4), 8);
    assert_eq!(next_line(data, 8), 10);
    assert_eq!(next_line(data, 10), 10);
    assert_eq!(read_line(data, 0, 3), Some("ab\n"));
    assert_eq!(read_line(data, 3, 4), Some("\n"));
    assert_eq!(read_line(data, 4, 8), Some("cd\r\n"));
    assert_eq!(read_line(data, 8, 10), Some("ef"));
    let data = b"a\xe9b\nc\n";
    assert_eq!(read_line(data, 0, 4), None);
    assert_eq!(read_line(data, 4, 6), Some("c\n"));
    let data = "ä\n".as_bytes();
    assert_eq!(next_line(data, 0), 3);
    assert_eq!(read_line(data, 0, 3), Some("ä\n"));
}

#[test]
fn texts_are_compared_and_spelled() {
    assert!(starts_comment("# x"));
    assert!(starts_comment("#"));
    assert!(!starts_comment(" #"));
    assert!(!starts_comment(""));
    assert_eq!(chars_of("aé\u{3000}"), vec!['a', 'é', '\u{3000}']);
    assert!(chars_of("").is_empty());
    assert!(same_text("", ""));
    assert!(same_text("float", "float"));
    assert!(!same_text("float", "floa"));
    assert!(!same_text("float", "floaT"));
    assert!(!same_text("a", "b"));
}

fn strings(alphabet: &[char], count: usize, seed: u64) -> Vec<String> {
    let mut state = seed;
    let mut next = move || {
        state = state.wrapping_mul(6364136223846793005).wrapping_add(1442695040888963407);
        (state >> 33) as usize
    };
    (0..count)
        .map(|_| {
            let len = next() % 9;
            (0..len).map(|_| alphabet[next() % alphabet.len()]).collect()
        })
        .collect()
}

#[test]
fn literals_agree_with_the_standard_library_on_many_strings() {
    let alphabet: Vec<char> = "0123456789+-.eEinfatyNIAFT_ x".chars().collect();
    for s in strings(&alphabet, 40_000, 1) {
        assert_eq!(is_float_text(&s), s.parse::<f32>().is_ok(), "{:?}", s);
        assert_eq!(is_float_text(&s), s.parse::<f64>().is_ok(), "{:?}", s);
    }
    let alphabet: Vec<char> = "0123456789+-".chars().collect();
    for s in strings(&alphabet, 40_000, 2) {
        assert_eq!(parse_unsigned(&s, 0xff), s.parse::<u8>().ok().map(u64::from), "{:?}", s);
        assert_eq!(parse_unsigned(&s, 0xffff), s.parse::<u16>().ok().map(u64::from), "{:?}", s);
        assert_eq!(
            parse_unsigned(&s, usize::MAX as u64),
            s.parse::<usize>().ok().map(|v| v as u64),
            "{:?}",
            s
        );
        assert_eq!(parse_signed(&s, -0x80, 0x7f), s.parse::<i8>().ok().map(i64::from), "{:?}", s);
        assert_eq!(
            parse_signed(&s, -0x8000_0000, 0x7fff_ffff),
            s.parse::<i32>().ok().map(i64::from),
            "{:?}",
            s
        );
    }
    let alphabet: Vec<char> = "ab \t\r\n\u{b}\u{a0}\u{2003}#".chars().collect();
    for s in strings(&alphabet, 40_000, 3) {
        let expected: Vec<&str> = s.trim().split(&[' ', '\t', '\r']).collect();
        assert_eq!(split_tokens(&s), expected, "{:?}", s);
        assert_eq!(starts_comment(&s), s.starts_with('#'), "{:?}", s);
    }
}
