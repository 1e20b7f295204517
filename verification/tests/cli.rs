use rtosu_dataprovider::address::AddressError;
use rtosu_dataprovider::cli::{
    apply_pattern_offset, average_latency_us, check_watch_interval, compare_status,
    compare_url_supported, display_host, hex_dump_lines, http_body, is_port_in_use,
    lists_all_profiles, parse_address, parse_pointer_width, poll_interval_ms, reader_mode_for,
    resolve_read_address, ruleset_container_slot, scan_budget_bytes, scan_limit_bytes, CliError,
};
use rtosu_dataprovider::reader::OsuReaderMode;

#[test]
fn argument_values() {
    assert_eq!(scan_limit_bytes(128), Ok(128 * 1024 * 1024));
    assert_eq!(scan_limit_bytes(usize::MAX), Err(CliError::ScanSizeTooLarge));
    assert_eq!(CliError::ScanSizeTooLarge.message(), "scan size is too large");
    assert_eq!(parse_pointer_width("4"), Ok(4));
    assert_eq!(parse_pointer_width("8"), Ok(8));
    assert_eq!(
        parse_pointer_width("16"),
        Err("pointer width must be 4 or 8".to_string())
    );
    assert_eq!(parse_address("0x10"), Ok(16));
    assert_eq!(apply_pattern_offset(0x10, -0x20), Err(AddressError::AddressUnderflow));
    assert_eq!(apply_pattern_offset(0x10, 0x20), Ok(0x30));
    assert_eq!(resolve_read_address(Some(0x400000), "0x10"), Ok(0x400010));
    assert_eq!(resolve_read_address(None, "0x10"), Ok(0x10));
    assert_eq!(resolve_read_address(Some(u64::MAX), "1"), Err(AddressError::AddressOverflow));
    assert_eq!(check_watch_interval(9), Err(CliError::IntervalTooShort));
    assert_eq!(check_watch_interval(10), Ok(()));
    assert_eq!(ruleset_container_slot(0x100), Ok(0xf5));
    assert_eq!(ruleset_container_slot(3), Err(CliError::RulesetAddressUnderflow));
}

#[test]
fn printed_text() {
    let bytes: Vec<u8> = (0u8..20).collect();
    assert_eq!(
        hex_dump_lines(&bytes),
        vec![
            "00 01 02 03 04 05 06 07 08 09 0A 0B 0C 0D 0E 0F".to_string(),
            "10 11 12 13".to_string()
        ]
    );
    assert!(hex_dump_lines(&[]).is_empty());
    assert_eq!(hex_dump_lines(&[0xff]), vec!["FF".to_string()]);
    assert_eq!(compare_status("1", "1"), "MATCH");
    assert_eq!(compare_status("1", "2"), "DIFF");
    assert_eq!(display_host("0.0.0.0"), "127.0.0.1");
    assert_eq!(display_host("10.0.0.5"), "10.0.0.5");
    assert_eq!(http_body("HTTP/1.1 200 OK\r\nA: b\r\n\r\n{\"x\":1}"), "{\"x\":1}");
    assert_eq!(http_body("no header split"), "no header split");
    assert!(is_port_in_use("bind failed: Address already in use (os error 98)"));
    assert!(is_port_in_use("os error 10048"));
    assert!(!is_port_in_use("permission denied"));
}

#[test]
fn serve_settings() {
    assert_eq!(poll_interval_ms(60), 16);
    assert_eq!(poll_interval_ms(0), 1000);
    assert_eq!(poll_interval_ms(1000), 1);
    assert_eq!(reader_mode_for(true, "stable"), OsuReaderMode::Auto);
    assert_eq!(reader_mode_for(false, "Tournament"), OsuReaderMode::Tournament);
    assert_eq!(reader_mode_for(false, "stable"), OsuReaderMode::Solo);
    assert_eq!(scan_budget_bytes(16), 16 * 1024 * 1024);
    assert!(lists_all_profiles("ALL"));
    assert!(!lists_all_profiles("stable"));
    assert!(compare_url_supported("http://127.0.0.1:24050/json/v2"));
    assert!(!compare_url_supported("http://127.0.0.1:8080/json/v2"));
    assert_eq!(average_latency_us(&vec![]), 0);
    assert_eq!(average_latency_us(&vec![100, 200, 301]), 200);
}
