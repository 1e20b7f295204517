use rtosu_dataprovider::client::{
    chrono_like_datetime, civil_from_days, decode_mods, format_mods, hit_error_items_address,
    hit_error_refresh, hit_error_window, is_tournament_manager_cmd, mod_acronyms,
    net_ticks_to_iso, parse_hit_errors, parse_spectate_client_arg, shown_geki, shown_katu,
    total_judged_hits, HitErrorRefresh, MAX_HIT_ERRORS,
};

/// `List<int>._items` as it looks in the game's address space: the 8-byte
/// object header followed by `values` as little-endian `i32`s.
fn list_items(values: &[i32]) -> Vec<u8> {
    let mut bytes = vec![0u8; 8];
    bytes.extend_from_slice(&item_bytes(values));
    bytes
}

/// Just the elements, as one read of the storage returns them.
fn item_bytes(values: &[i32]) -> Vec<u8> {
    values
        .iter()
        .flat_map(|value| value.to_le_bytes())
        .collect::<Vec<u8>>()
}

/// A per-element decoding loop, as an oracle over the same synthetic storage.
fn read_hit_errors_reference_loop(storage: &[u8], size: usize) -> Vec<i16> {
    if !(0..=20_000).contains(&(size as i64)) {
        return Vec::new();
    }
    let mut result = Vec::with_capacity(size);
    for index in 0..size {
        let offset = 8 + index * 4;
        let chunk = [
            storage[offset],
            storage[offset + 1],
            storage[offset + 2],
            storage[offset + 3],
        ];
        let value = i32::from_le_bytes(chunk);
        if !(-10_000..=10_000).contains(&value) {
            break;
        }
        result.push(value.clamp(i16::MIN as i32, i16::MAX as i32) as i16);
    }
    result
}

fn pseudo_random_hits(count: usize, seed: u64) -> Vec<i32> {
    let mut state = seed;
    (0..count)
        .map(|_| {
            state = state
                .wrapping_mul(6364136223846793005)
                .wrapping_add(1442695040888963407);
            ((state >> 33) % 4001) as i32 - 2000
        })
        .collect()
}

#[test]
fn test_format_mods() {
    assert_eq!(format_mods(0), "");
    assert_eq!(format_mods(8), "HD");
    assert_eq!(format_mods(16), "HR");
    assert_eq!(format_mods(24), "HDHR");
    assert_eq!(format_mods(64), "DT");
    assert_eq!(format_mods(512), "NC");
    assert_eq!(format_mods(536870912), "v2");
}

#[test]
fn test_parse_spectate_arg() {
    let cmd = "\"C:\\osu!.exe\" -spectateclient 2 6";
    assert_eq!(parse_spectate_client_arg(cmd), Some((2, 6)));

    let cmd_mgr = "\"C:\\osu!.exe\" -go";
    assert_eq!(parse_spectate_client_arg(cmd_mgr), None);
}

#[test]
fn autoplay_is_not_a_tournament_manager() {
    assert!(!is_tournament_manager_cmd("\"D:\\osu\\osu!.exe\" -go"));
    assert!(!is_tournament_manager_cmd("\"D:\\osu\\osu!.exe\" /go"));
    assert!(!is_tournament_manager_cmd("\"D:\\osu\\osu!.exe\""));
    assert!(!is_tournament_manager_cmd(
        "\"D:\\osu\\osu!.exe\" -replay \"C:\\maps\\x.osr\""
    ));
    assert!(is_tournament_manager_cmd(
        "\"D:\\osu\\osu!.exe\" -tourney 127.0.0.1:24050"
    ));
    assert!(is_tournament_manager_cmd("\"D:\\osu\\osu!.exe\" -Tournament"));
}

#[test]
fn hit_error_window_keeps_lists_within_the_cap_whole() {
    assert_eq!(hit_error_window(0), (0, 0));
    assert_eq!(hit_error_window(1), (0, 1));
    assert_eq!(hit_error_window(6_230), (0, 6_230));
    assert_eq!(hit_error_window(MAX_HIT_ERRORS), (0, MAX_HIT_ERRORS));
}

#[test]
fn hit_error_window_truncates_oversized_lists_to_the_newest_entries() {
    assert_eq!(hit_error_window(30_000), (10_000, MAX_HIT_ERRORS));
    assert_eq!(hit_error_window(MAX_HIT_ERRORS + 1), (1, MAX_HIT_ERRORS));
    assert_eq!(hit_error_window(47_000), (27_000, MAX_HIT_ERRORS));
    assert_eq!(
        hit_error_window(i32::MAX as usize),
        (i32::MAX as usize - MAX_HIT_ERRORS, MAX_HIT_ERRORS)
    );
    assert!(hit_error_window(usize::MAX).1 <= MAX_HIT_ERRORS);
}

#[test]
fn hit_error_items_address_skips_the_object_header() {
    let items = 0x0000_1234_0000;
    assert_eq!(hit_error_items_address(items, 0).unwrap(), items + 8);
    assert_eq!(hit_error_items_address(items, 1).unwrap(), items + 12);
    assert_eq!(hit_error_items_address(items, 3).unwrap(), items + 20);
    assert!(hit_error_items_address(u64::MAX, MAX_HIT_ERRORS).is_err());
}

#[test]
fn parse_hit_errors_reads_little_endian_elements() {
    assert_eq!(parse_hit_errors(&[]), Vec::<i16>::new());
    assert_eq!(
        parse_hit_errors(&item_bytes(&[0, 1, -1, 9_999])),
        vec![0i16, 1, -1, 9_999]
    );
    assert_eq!(
        parse_hit_errors(&item_bytes(&[10_000, -10_000])),
        vec![10_000i16, -10_000]
    );
    assert_eq!(parse_hit_errors(&item_bytes(&[10_001])), Vec::<i16>::new());
    assert_eq!(parse_hit_errors(&item_bytes(&[-10_001])), Vec::<i16>::new());
}

#[test]
fn parse_hit_errors_stops_at_the_first_out_of_range_value() {
    let parsed = parse_hit_errors(&item_bytes(&[5, -5, 10_001, 7]));
    assert_eq!(parsed, vec![5i16, -5]);
}

#[test]
fn parse_hit_errors_ignores_a_partial_trailing_element() {
    let mut bytes = item_bytes(&[1, 2, 3]);
    bytes.extend_from_slice(&[0x04, 0x00]);
    assert_eq!(parse_hit_errors(&bytes), vec![1i16, 2, 3]);

    let mut truncated = item_bytes(&[1, 2, 3]);
    truncated.truncate(3 * 4 - 1);
    assert_eq!(parse_hit_errors(&truncated), vec![1i16, 2]);
}

#[test]
fn bulk_parse_matches_the_per_element_loop() {
    for &size in &[0usize, 1, 2, 3, 4, 5, 999, 6_230, 19_999, 20_000] {
        let values = pseudo_random_hits(size, 0x5eed_0000 + size as u64);
        let storage = list_items(&values);
        let bulk = parse_hit_errors(&storage[8..]);
        let oracle = read_hit_errors_reference_loop(&storage, size);
        assert_eq!(bulk.len(), oracle.len(), "length mismatch at size {size}");
        assert!(bulk == oracle, "value mismatch at size {size}");
    }
}

#[test]
fn bulk_parse_matches_the_loop_with_a_sentinel_in_the_tail() {
    let mut values = pseudo_random_hits(4_096, 0xabcd);
    let sentinel = values.len();
    values.extend_from_slice(&[i32::MAX, 42, 7]);
    let storage = list_items(&values);
    assert_eq!(
        parse_hit_errors(&storage[8..]),
        read_hit_errors_reference_loop(&storage, sentinel + 3)
    );
}

#[test]
fn oversized_list_keeps_the_newest_errors() {
    let values = pseudo_random_hits(30_000, 0x1234_5678);
    let storage = list_items(&values);
    let (start, count) = hit_error_window(values.len());
    let items = 0x0000_7fff_0000;
    let address = hit_error_items_address(items, start).unwrap();
    let offset = (address - items) as usize;
    let bulk = parse_hit_errors(&storage[offset..offset + count * 4]);
    let expected_tail: Vec<i16> = values[10_000..].iter().map(|&v| v as i16).collect();
    assert_eq!(bulk.len(), MAX_HIT_ERRORS);
    assert!(bulk == expected_tail);
}

#[test]
fn empty_and_negative_counts_read_as_no_hit_errors() {
    assert_eq!(parse_hit_errors(&item_bytes(&[])), Vec::<i16>::new());
    let (start, count) = hit_error_window(0);
    assert_eq!((start, count), (0, 0));
}

#[test]
fn mod_order_and_acronyms() {
    // NoFail sorts with the mods that have no rank of their own.
    assert_eq!(format_mods(1 + 8 + 256 + 2048 + (1 << 29)), "HDHTNFATv2");
    assert_eq!(format_mods(1 + 16), "HRNF");
    assert_eq!(format_mods(64 + 512), "NC");
    assert_eq!(format_mods(32 + 16384), "PF");
    let acronyms: Vec<String> = mod_acronyms(24 + 64)
        .into_iter()
        .map(|m| m.acronym)
        .collect();
    assert_eq!(acronyms, vec!["HD", "DT", "HR"]);
    assert!(mod_acronyms(0).is_empty());
    // Each chunk is upper-cased; the display text keeps `v2`.
    let acronyms: Vec<String> = mod_acronyms(536870928).into_iter().map(|m| m.acronym).collect();
    assert_eq!(acronyms, vec!["HR", "V2"]);
    assert_eq!(format_mods(536870928), "HRv2");
}

#[test]
fn decodes_xor_encrypted_mods() {
    assert_eq!(decode_mods(0x1234, 0x1234 ^ 24, false), 24);
    assert_eq!(decode_mods(5, 5, true), 1 << 29);
    assert_eq!(decode_mods(0, 64, true), 64 | (1 << 29));
}

#[test]
fn converts_days_and_ticks_to_dates() {
    assert_eq!(civil_from_days(0), (1970, 1, 1));
    assert_eq!(civil_from_days(-1), (1969, 12, 31));
    assert_eq!(civil_from_days(19_723), (2024, 1, 1));
    assert_eq!(civil_from_days(11_016), (2000, 2, 29));
    assert_eq!(chrono_like_datetime(0, 0), "1970-01-01T00:00:00.000Z");
    assert_eq!(chrono_like_datetime(86_399, 999), "1970-01-01T23:59:59.999Z");
    assert_eq!(net_ticks_to_iso(0, 0), "1970-01-01T00:00:00.000Z");
}

#[test]
fn gameplay_counters_by_mode() {
    assert_eq!(hit_error_refresh(0, Some(0)), HitErrorRefresh::Clear);
    assert_eq!(hit_error_refresh(5, Some(5)), HitErrorRefresh::Reuse);
    assert_eq!(hit_error_refresh(6, Some(5)), HitErrorRefresh::Read);
    assert_eq!(hit_error_refresh(6, None), HitErrorRefresh::Read);
    assert_eq!(total_judged_hits(10, 5, 2, 1), 18);
    assert_eq!(shown_geki(0, 7), 0);
    assert_eq!(shown_geki(1, 7), 7);
    assert_eq!(shown_geki(3, 7), 7);
    assert_eq!(shown_katu(2, 4), 4);
    assert_eq!(shown_katu(0, 4), 0);
}

fn month_length(year: i64, month: u32) -> u32 {
    let leap = year.rem_euclid(4) == 0 && (year.rem_euclid(100) != 0 || year.rem_euclid(400) == 0);
    match month {
        2 if leap => 29,
        2 => 28,
        4 | 6 | 9 | 11 => 30,
        _ => 31,
    }
}

#[test]
fn every_day_count_names_a_calendar_date() {
    let mut day = -800_000i64;
    while day <= 800_000 {
        let (year, month, dom) = civil_from_days(day);
        assert!((1..=12).contains(&month), "month {month} for {day}");
        assert!(dom >= 1 && dom <= month_length(year, month), "day {dom} for {day}");
        day += 13;
    }
    // 1900 was no leap year, 2000 was.
    assert_eq!(civil_from_days(-25_508), (1900, 3, 1));
    assert_eq!(civil_from_days(-25_509), (1900, 2, 28));
    assert_eq!(civil_from_days(11_017), (2000, 3, 1));
    for extreme in [i64::MAX - 719_468, i64::MIN + 719_468] {
        let (year, month, dom) = civil_from_days(extreme);
        assert!((1..=12).contains(&month) && dom >= 1 && dom <= month_length(year, month));
    }
}
