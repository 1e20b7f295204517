use rtosu_dataprovider::address::{
    checked_add, checked_add_signed, format_address, parse_i64, parse_u128_as_u64, parse_u64,
    AddressError,
};

#[test]
fn parses_decimal_and_hex_values() {
    assert_eq!(parse_u64("42").unwrap(), 42);
    assert_eq!(parse_u64("0x2a").unwrap(), 42);
    assert_eq!(parse_u128_as_u64("0x000000000000002a").unwrap(), 42);
}

#[test]
fn rejects_addresses_outside_u64() {
    assert!(parse_u128_as_u64("0x10000000000000000").is_err());
}

#[test]
fn formats_sixteen_digit_addresses() {
    assert_eq!(format_address(0x2a), "0x000000000000002A");
}

#[test]
fn parses_signed_offsets() {
    assert_eq!(parse_i64("-0x2a").unwrap(), -42);
    assert_eq!(parse_i64("+42").unwrap(), 42);
    assert_eq!(checked_add_signed(0x100, -0x10).unwrap(), 0xf0);
}

#[test]
fn formatted_addresses_parse_back() {
    for address in [0u64, 1, 0x2a, 0xdead_beef, u64::MAX] {
        let text = format_address(address);
        assert_eq!(parse_u64(&text), Ok(address));
        assert_eq!(parse_u128_as_u64(&text), Ok(address));
    }
}

#[test]
fn address_errors_name_their_cause() {
    assert_eq!(parse_u64(""), Err(AddressError::Empty));
    assert_eq!(parse_u64("   "), Err(AddressError::Empty));
    assert_eq!(parse_u64("0x"), Err(AddressError::Empty));
    assert_eq!(parse_u64("12z"), Err(AddressError::InvalidDigit));
    assert_eq!(parse_u64("-5"), Err(AddressError::InvalidDigit));
    assert_eq!(parse_u64("18446744073709551616"), Err(AddressError::Overflow));
    assert_eq!(
        parse_u128_as_u64("18446744073709551616"),
        Err(AddressError::OutOfRange)
    );
    assert_eq!(parse_i64("0x8000000000000000"), Err(AddressError::OutOfRange));
    assert_eq!(parse_i64("-0x8000000000000000"), Ok(i64::MIN));
    assert_eq!(checked_add(u64::MAX, 1), Err(AddressError::AddressOverflow));
    assert_eq!(checked_add_signed(5, -6), Err(AddressError::AddressUnderflow));
    assert_eq!(parse_u64("  +17 "), Ok(17));
}
