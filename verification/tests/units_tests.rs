use pcb_forge::units::{
    coordinate_to_nanometers, nanometers_to_coordinate, parse_digits, parse_scaled,
    parse_unsigned_scaled, Length,
};

#[test]
fn parse_digits_reads_plain_runs() {
    assert_eq!(parse_digits(b"123"), Some(123));
    assert_eq!(parse_digits(b"0"), Some(0));
    assert_eq!(parse_digits(b""), None);
    assert_eq!(parse_digits(b"12a"), None);
    assert_eq!(parse_digits(b"1234567890123456789"), None);
}

#[test]
fn parse_scaled_reads_decimals_exactly() {
    assert_eq!(parse_unsigned_scaled(b"12.5", 6), Some(12_500_000));
    assert_eq!(parse_scaled(b"-3.25", 6), Some(-3_250_000));
    assert_eq!(parse_scaled(b"10", 6), Some(10_000_000));
    assert_eq!(parse_scaled(b"0.000001", 6), Some(1));
}

#[test]
fn parse_scaled_rejects_bad_decimals() {
    assert_eq!(parse_scaled(b"1.", 6), None);
    assert_eq!(parse_scaled(b".5", 6), None);
    assert_eq!(parse_scaled(b"1.2345678", 6), None);
    assert_eq!(parse_scaled(b"1.2.3", 6), None);
    assert_eq!(parse_scaled(b"-", 6), None);
    assert_eq!(parse_scaled(b"", 6), None);
}

#[test]
fn coordinate_unit_round_trip() {
    // A raw drawing coordinate converted into nanometers and re-emitted at
    // the same unit scale reproduces the original coordinate exactly.
    for raw in [0i64, 1, -1, 12345, -98765] {
        let scale = 254i64;
        let nm = coordinate_to_nanometers(raw, scale).unwrap();
        assert_eq!(nm.nm, raw * scale);
        assert_eq!(nanometers_to_coordinate(nm, scale), raw);
    }
}

#[test]
fn coordinate_conversion_rejects_out_of_range() {
    assert_eq!(coordinate_to_nanometers(2_000_000_000_000, 1_000), None);
}

#[test]
fn length_constructors() {
    assert_eq!(Length::from_millimeters(10).nm, 10_000_000);
    assert_eq!(Length::from_nanometers(42).nm, 42);
}
