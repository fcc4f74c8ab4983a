use xt_gateway::text::{
    decimal_string, flag_string, join_strings, parse_isize, parse_usize, same_text,
    signed_decimal_string, split_spans, string_of, to_chars,
};

#[test]
fn decimal_of_unsigned_numbers() {
    assert_eq!(decimal_string(0), "0");
    assert_eq!(decimal_string(9), "9");
    assert_eq!(decimal_string(10), "10");
    assert_eq!(decimal_string(429), "429");
    assert_eq!(decimal_string(u64::MAX), "18446744073709551615");
}

#[test]
fn decimal_of_signed_numbers() {
    assert_eq!(signed_decimal_string(0), "0");
    assert_eq!(signed_decimal_string(-1), "-1");
    assert_eq!(signed_decimal_string(384), "384");
    assert_eq!(signed_decimal_string(i64::MIN), "-9223372036854775808");
    assert_eq!(signed_decimal_string(i64::MAX), "9223372036854775807");
}

#[test]
fn parse_signed_numbers() {
    assert_eq!(parse_isize("0"), Some(0));
    assert_eq!(parse_isize("-1"), Some(-1));
    assert_eq!(parse_isize("+17"), Some(17));
    assert_eq!(parse_isize("0042"), Some(42));
    assert_eq!(parse_isize(&isize::MAX.to_string()), Some(isize::MAX));
    assert_eq!(parse_isize(&isize::MIN.to_string()), Some(isize::MIN));
}

#[test]
fn parse_signed_rejects_what_is_no_number() {
    assert_eq!(parse_isize(""), None);
    assert_eq!(parse_isize("-"), None);
    assert_eq!(parse_isize("+"), None);
    assert_eq!(parse_isize("--1"), None);
    assert_eq!(parse_isize("1 "), None);
    assert_eq!(parse_isize("12a"), None);
    assert_eq!(parse_isize("１２"), None);
    assert_eq!(parse_isize("9223372036854775808"), None);
    assert_eq!(parse_isize("-9223372036854775809"), None);
    assert_eq!(parse_isize("99999999999999999999999999999"), None);
}

#[test]
fn parse_unsigned_numbers() {
    assert_eq!(parse_usize("395"), Some(395));
    assert_eq!(parse_usize("+395"), Some(395));
    assert_eq!(parse_usize(&usize::MAX.to_string()), Some(usize::MAX));
    assert_eq!(parse_usize("18446744073709551616"), None);
    assert_eq!(parse_usize("-1"), None);
    assert_eq!(parse_usize("-0"), None);
    assert_eq!(parse_usize("foobar"), None);
    assert_eq!(parse_usize(""), None);
}

#[test]
fn parse_reads_back_what_decimal_wrote() {
    for n in [0i64, 1, -1, 10, -10, 99, 100, 123456789, i64::MAX, i64::MIN] {
        assert_eq!(parse_isize(&signed_decimal_string(n)), Some(n as isize));
    }
    for n in [0u64, 7, 10, 1000, u64::MAX] {
        assert_eq!(parse_usize(&decimal_string(n)), Some(n as usize));
    }
}

#[test]
fn spans_of_fields() {
    let cs = to_chars("a%%bc%");
    assert_eq!(split_spans(&cs, 0, cs.len(), '%'), vec![(0, 1), (2, 2), (3, 5), (6, 6)]);
    assert_eq!(split_spans(&cs, 1, 1, '%'), vec![(1, 1)]);
    assert_eq!(string_of(&cs, 3, 5), "bc");
    assert_eq!(string_of(&cs, 2, 2), "");
}

#[test]
fn chars_of_a_text_with_wide_characters() {
    assert_eq!(to_chars("aß日"), vec!['a', 'ß', '日']);
    assert!(to_chars("").is_empty());
}

#[test]
fn joined_strings() {
    let fields = vec!["a".to_owned(), "".to_owned(), "bc".to_owned()];
    assert_eq!(join_strings(&fields, '|'), "a||bc");
    assert_eq!(join_strings(&vec!["only".to_owned()], '|'), "only");
    assert_eq!(join_strings(&Vec::new(), '|'), "");
}

#[test]
fn flags_and_text_comparison() {
    assert_eq!(flag_string(true), "1");
    assert_eq!(flag_string(false), "0");
    assert!(same_text("u#sp", "u#sp"));
    assert!(!same_text("u#sp", "u#sq"));
    assert!(!same_text("u#sp", "u#s"));
    assert!(same_text("", ""));
}
