use testnice::text::{
    check_float_literal, find_byte, occurs_at, parse_i32, parse_i64, parse_u64, push_decimal,
    push_decimal_str, push_signed_decimal, push_unsigned_str, trim_range,
};

const NUMBERS: [&str; 30] = [
    "0", "-0", "+0", "1", "-1", "+1", "", "+", "-", "++1", "+-1", "1+", "12a", "a12", " 1", "1 ",
    "0000000000000000000000000000001", "2147483647", "2147483648", "-2147483648", "-2147483649",
    "9223372036854775807", "9223372036854775808", "-9223372036854775808", "-9223372036854775809",
    "18446744073709551615", "18446744073709551616", "99999999999999999999999999999999999999999",
    "1.5", "１",
];

#[test]
fn integers_parse_as_in_the_standard_library() {
    for text in NUMBERS {
        assert_eq!(parse_i32(text.as_bytes()), text.parse::<i32>().ok(), "{text:?}");
        assert_eq!(parse_i64(text.as_bytes()), text.parse::<i64>().ok(), "{text:?}");
        assert_eq!(parse_u64(text.as_bytes()), text.parse::<u64>().ok(), "{text:?}");
    }
}

#[test]
fn integer_values() {
    assert_eq!(parse_i32(b"-20"), Some(-20));
    assert_eq!(parse_i32(b"+19"), Some(19));
    assert_eq!(parse_u64(b"18446744073709551615"), Some(u64::MAX));
    assert_eq!(parse_u64(b"-1"), None);
    assert_eq!(parse_i64(b"-1"), Some(-1));
}

#[test]
fn numbers_are_written_as_in_the_standard_library() {
    for n in [0u64, 1, 9, 10, 11, 99, 100, 101, 65535, 4294967295, u64::MAX] {
        let mut out = b"n=".to_vec();
        push_decimal(&mut out, n);
        assert_eq!(out, format!("n={n}").into_bytes());
        let mut out = String::from("n=");
        push_unsigned_str(&mut out, n);
        assert_eq!(out, format!("n={n}"));
    }
    for v in [0i64, 1, -1, 10, -10, 2147483647, -2147483648, i64::MAX, i64::MIN] {
        let mut out = Vec::new();
        push_signed_decimal(&mut out, v);
        assert_eq!(out, format!("{v}").into_bytes());
        let mut out = String::from("v: ");
        push_decimal_str(&mut out, v);
        assert_eq!(out, format!("v: {v}"));
    }
}

#[test]
fn trimming_is_that_of_the_standard_library() {
    let samples = [
        "", " ", "a", " a", "a ", "  a b  ", "\t\n\u{b}\u{c}\r x \r\n", "\u{85}x\u{a0}",
        "\u{1680}x\u{2000}", "\u{2001}\u{2002}\u{2003}x\u{2004}\u{2005}\u{2006}",
        "\u{2007}\u{2008}x\u{2009}\u{200a}", "\u{2028}x\u{2029}", "\u{202f}x\u{205f}",
        "\u{3000}x\u{3000}", "\u{200b}x\u{200b}", "\u{feff}x", "x\u{180e}", " \u{e9} ", "\u{2000}",
        " \u{2010} ", "\u{1c}x\u{1f}", "é\u{a0}", "\u{a0}é",
    ];
    for sample in samples {
        let bytes = sample.as_bytes();
        let (lo, hi) = trim_range(bytes, 0, bytes.len());
        assert_eq!(&bytes[lo..hi], sample.trim().as_bytes(), "{sample:?}");
    }
    assert_eq!(trim_range(b"ab  cd  ef", 2, 8), (4, 6));
    assert_eq!(trim_range(b"ab      ef", 2, 8), (8, 8));
}

#[test]
fn searching() {
    assert!(occurs_at(b"hello world", b"o w", 4));
    assert!(!occurs_at(b"hello world", b"o w", 3));
    assert!(occurs_at(b"hello world", b"world", 6));
    assert!(occurs_at(b"hello world", b"", 11));
    assert!(!occurs_at(b"aaab", b"aab", 0));
    assert!(occurs_at(b"aaab", b"aab", 1));
    assert_eq!(find_byte(b"a:b:c", b':', 0), 1);
    assert_eq!(find_byte(b"a:b:c", b':', 1), 1);
    assert_eq!(find_byte(b"a:b:c", b':', 2), 3);
    assert_eq!(find_byte(b"a:b:c", b':', 4), 5);
    assert_eq!(find_byte(b"a:b:c", b':', 5), 5);
}

#[test]
fn float_literals_are_those_of_the_standard_library() {
    let samples = [
        "0", "1", "-1", "+1", "1.", ".1", ".", "1.5", "-1.5", "+1.5", "123.45", "1e5", "1E5", "1e+5",
        "1e-5", "1e", "1e+", "e5", ".e5", "1.e5", ".5e5", "1.5e", "1.5e5.", "1.5.5", "1..5", "inf",
        "-inf", "+inf", "INF", "Inf", "infinity", "-Infinity", "INFINITY", "infinit", "infinityy",
        "nan", "NaN", "-nan", "+NAN", "na", "nann", "", "+", "-", "--1", "+-1", " 1", "1 ", "1_0",
        "0x10", "1f", "1e5e5", "1e1.5", "000.000", "999999999999999999999999999999999999999.9e999",
        "١", "1\u{0}", "i\u{6e}f", "\u{130}nf", "ınf", "\u{212a}", "in\u{66}", "iNf", "nAn", "\tnan",
        "1,5", "1e 5", "1 e5", "1234567890.123456", "-0.0", "-.0e-0",
    ];
    for sample in samples {
        assert_eq!(
            check_float_literal(sample.as_bytes()),
            sample.parse::<f64>().is_ok(),
            "{sample:?}"
        );
    }
    assert!(!check_float_literal(b"\xff"));
    assert!(!check_float_literal(b"1\xc0"));
}
