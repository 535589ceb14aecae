use wavebreaker_core::parse::{parse_i32, split_comma_separated, split_x_separated};

#[test]
fn parse_plain_and_signed_numbers() {
    assert_eq!(parse_i32(b"0"), Some(0));
    assert_eq!(parse_i32(b"143"), Some(143));
    assert_eq!(parse_i32(b"-7"), Some(-7));
    assert_eq!(parse_i32(b"+7"), Some(7));
    assert_eq!(parse_i32(b"+2147483647"), Some(i32::MAX));
    assert_eq!(parse_i32(b"0123"), Some(123));
    assert_eq!(parse_i32(b"2147483647"), Some(i32::MAX));
    assert_eq!(parse_i32(b"-2147483648"), Some(i32::MIN));
}

#[test]
fn parse_rejects_malformed_numbers() {
    assert_eq!(parse_i32(b""), None);
    assert_eq!(parse_i32(b"-"), None);
    assert_eq!(parse_i32(b"+"), None);
    assert_eq!(parse_i32(b"+-1"), None);
    assert_eq!(parse_i32(b"++1"), None);
    assert_eq!(parse_i32(b"12a"), None);
    assert_eq!(parse_i32(b" 12"), None);
    assert_eq!(parse_i32(b"2147483648"), None);
    assert_eq!(parse_i32(b"-2147483649"), None);
    assert_eq!(parse_i32(b"99999999999999999999"), None);
}

#[test]
fn split_x_separated_fields() {
    assert_eq!(split_x_separated(b"100x200x300"), Some(vec![100, 200, 300]));
    assert_eq!(split_x_separated(b"5"), Some(vec![5]));
    assert_eq!(split_x_separated(b"-1x2"), Some(vec![-1, 2]));
    assert_eq!(split_x_separated(b"12x"), None);
    assert_eq!(split_x_separated(b"x12"), None);
    assert_eq!(split_x_separated(b""), None);
}

#[test]
fn split_comma_separated_fields() {
    assert_eq!(split_comma_separated(b"1,2,3"), Some(vec![1, 2, 3]));
    assert_eq!(split_comma_separated(b"+1,-2,3"), Some(vec![1, -2, 3]));
    assert_eq!(split_comma_separated(b"1,,3"), None);
    assert_eq!(split_comma_separated(b"1,two"), None);
}
