use thermoprint::transport::chunk_bytes;
use thermoprint::Money;

#[test]
fn parse_exact_value_round_trips_to_display() {
    // if parsing handed back garbage, the displayed units would differ
    let m = Money::parse("149.99").unwrap();
    assert_eq!(m.display_units(), "150");
    let m = Money::parse("12.34").unwrap();
    assert_eq!(m.display_units(), "12");
    let m = Money::parse("-7.5").unwrap();
    assert_eq!(m.display_units(), "-8");
}

#[test]
fn rounding_is_half_to_even() {
    assert_eq!(Money::parse("2.5").unwrap().display_units(), "2");
    assert_eq!(Money::parse("3.5").unwrap().display_units(), "4");
    assert_eq!(Money::parse("-2.5").unwrap().display_units(), "-2");
}

#[test]
fn parse_rejects_malformed_decimals() {
    assert!(Money::parse("abc").is_err());
    assert!(Money::parse("").is_err());
}

#[test]
fn exact_line_total_arithmetic() {
    // 149.99 * 3 = 449.97, displayed as 450 whole units
    let unit = Money::parse("149.99").unwrap();
    let total = unit.times_int(3);
    assert_eq!(total.display_units(), "450");
    let after = total.minus(&Money::parse("0.97").unwrap());
    assert_eq!(after.display_units(), "449");
}

#[test]
fn chunks_reassemble_exactly() {
    let data: Vec<u8> = (0..=255u8).chain(0..=99u8).collect();
    let chunks = chunk_bytes(&data, 64);
    let mut glued: Vec<u8> = Vec::new();
    for c in &chunks {
        assert!(1 <= c.len() && c.len() <= 64);
        glued.extend_from_slice(c);
    }
    assert_eq!(glued, data);
}
