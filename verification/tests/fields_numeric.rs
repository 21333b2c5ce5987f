use meter_ingest::fields::split_line;
use meter_ingest::numeric::parse_i32;

#[test]
fn split_on_commas() {
    let fields = split_line(b"a,b,,c");
    let expected: Vec<Vec<u8>> = vec![vec![97], vec![98], vec![], vec![99]];
    assert_eq!(fields, expected);
}

#[test]
fn split_empty_line_is_one_empty_field() {
    assert_eq!(split_line(b""), vec![Vec::<u8>::new()]);
}

#[test]
fn split_trailing_comma_ends_with_empty_field() {
    let fields = split_line(b"x,");
    let expected: Vec<Vec<u8>> = vec![vec![120], vec![]];
    assert_eq!(fields, expected);
}

#[test]
fn parse_decimal_values() {
    assert_eq!(parse_i32(b"42"), Some(42));
    assert_eq!(parse_i32(b"0"), Some(0));
    assert_eq!(parse_i32(b"007"), Some(7));
    assert_eq!(parse_i32(b"+17"), Some(17));
    assert_eq!(parse_i32(b"-8"), Some(-8));
}

#[test]
fn parse_decimal_bounds() {
    assert_eq!(parse_i32(b"2147483647"), Some(i32::MAX));
    assert_eq!(parse_i32(b"-2147483648"), Some(i32::MIN));
    assert_eq!(parse_i32(b"2147483648"), None);
    assert_eq!(parse_i32(b"-2147483649"), None);
    assert_eq!(parse_i32(b"99999999999999999999"), None);
}

#[test]
fn parse_decimal_rejects_non_numbers() {
    assert_eq!(parse_i32(b""), None);
    assert_eq!(parse_i32(b"-"), None);
    assert_eq!(parse_i32(b"+"), None);
    assert_eq!(parse_i32(b"1a"), None);
    assert_eq!(parse_i32(b" 1"), None);
    assert_eq!(parse_i32(b"1 "), None);
    assert_eq!(parse_i32(b"--1"), None);
    assert_eq!(parse_i32(b"12.5"), None);
}
