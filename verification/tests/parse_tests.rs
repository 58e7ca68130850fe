use meshcode::parse::{parse_latitude, parse_longitude};

#[test]
fn plain_decimal() {
    assert_eq!(parse_latitude("35.6895"), Some(107_068_500_000));
    assert_eq!(parse_longitude("139.6917"), Some(419_075_100_000));
}

#[test]
fn surrounding_whitespace_is_trimmed() {
    assert_eq!(parse_latitude("  35.6895\t"), Some(107_068_500_000));
    assert_eq!(parse_latitude("\n35\r"), Some(105_000_000_000));
}

#[test]
fn signs() {
    assert_eq!(parse_latitude("+35.5"), Some(106_500_000_000));
    assert_eq!(parse_latitude("-35.5"), Some(-106_500_000_000));
    assert_eq!(parse_latitude("-0.000000001"), Some(-3));
}

#[test]
fn digitless_forms_are_rejected() {
    assert_eq!(parse_latitude(""), None);
    assert_eq!(parse_latitude("   "), None);
    assert_eq!(parse_latitude("+"), None);
    assert_eq!(parse_latitude("."), None);
    assert_eq!(parse_latitude("-."), None);
}

#[test]
fn bare_dot_forms() {
    assert_eq!(parse_latitude(".5"), Some(1_500_000_000));
    assert_eq!(parse_latitude("5."), Some(15_000_000_000));
    assert_eq!(parse_latitude("+.5"), Some(1_500_000_000));
}

#[test]
fn malformed_text_is_rejected() {
    assert_eq!(parse_latitude("abc"), None);
    assert_eq!(parse_latitude("12.3.4"), None);
    assert_eq!(parse_latitude("12a"), None);
    assert_eq!(parse_latitude("1 2"), None);
    assert_eq!(parse_latitude("1e5"), None);
    assert_eq!(parse_latitude("inf"), None);
    assert_eq!(parse_latitude("NaN"), None);
}

#[test]
fn latitude_range() {
    assert_eq!(parse_latitude("90"), Some(270_000_000_000));
    assert_eq!(parse_latitude("-90"), Some(-270_000_000_000));
    assert_eq!(parse_latitude("90.000000001"), None);
    assert_eq!(parse_latitude("91"), None);
    assert_eq!(parse_latitude("1234"), None);
}

#[test]
fn longitude_range() {
    assert_eq!(parse_longitude("91"), Some(273_000_000_000));
    assert_eq!(parse_longitude("180"), Some(540_000_000_000));
    assert_eq!(parse_longitude("-180"), Some(-540_000_000_000));
    assert_eq!(parse_longitude("180.1"), None);
    assert_eq!(parse_longitude("99999999999999999999"), None);
}

#[test]
fn fractional_digits_beyond_ninth_are_truncated() {
    assert_eq!(parse_latitude("0.0000000009"), Some(0));
    assert_eq!(parse_latitude("0.0000000019"), Some(3));
    assert_eq!(parse_latitude("1.1234567891"), Some(3_370_370_367));
}

#[test]
fn leading_zeros() {
    assert_eq!(parse_latitude("035.5"), Some(106_500_000_000));
    assert_eq!(parse_latitude("0000"), Some(0));
}
