use rtosu_dataprovider::pattern::{BytePattern, PatternError};

#[test]
fn matches_wildcards_and_returns_addresses() {
    let pattern = BytePattern::parse("48 8B ?? 05").unwrap();
    let bytes = [0x48, 0x8B, 0x11, 0x05];
    assert_eq!(pattern.find_all(&bytes, 0x1000, 10), vec![0x1000]);
}

#[test]
fn accepts_comma_separated_patterns() {
    let pattern = BytePattern::parse("90,90,??").unwrap();
    assert_eq!(pattern.len(), 3);
    assert!(pattern.matches_at(&[0x90, 0x90, 0x00], 0));
}

#[test]
fn rejects_invalid_pattern_tokens() {
    assert!(BytePattern::parse("48 0").is_err());
    assert!(BytePattern::parse("").is_err());
}

#[test]
fn finds_every_match_up_to_the_limit() {
    let pattern = BytePattern::parse("AA ? AA").unwrap();
    let bytes = [0xAA, 0x00, 0xAA, 0x11, 0xAA, 0xAA];
    assert_eq!(pattern.find_all(&bytes, 0x10, 10), vec![0x10, 0x12]);
    assert_eq!(pattern.find_all(&bytes, 0x10, 1), vec![0x10]);
    assert!(pattern.find_all(&bytes[..2], 0x10, 10).is_empty());
    assert_eq!(pattern.source(), "AA ? AA");
    assert!(!pattern.is_empty());
    assert_eq!(BytePattern::parse("zz").unwrap_err(), PatternError::InvalidToken);
    assert_eq!(BytePattern::parse(" , ").unwrap_err(), PatternError::Empty);
}

#[test]
fn find_all_respects_a_zero_limit_and_saturates_addresses() {
    let pattern = BytePattern::parse("AA").unwrap();
    let bytes = [0xAA, 0xAA, 0x00, 0xAA];
    assert!(pattern.find_all(&bytes, 0, 0).is_empty());
    assert_eq!(pattern.find_all(&bytes, 0, 10), vec![0, 1, 3]);
    assert_eq!(pattern.find_all(&bytes, u64::MAX - 1, 10), vec![u64::MAX - 1, u64::MAX, u64::MAX]);
}
