use rosu_mods::GameModsLegacy;
use std::hash::{Hash, Hasher};
use rtosu_dataprovider::pp::{
    beatmap_cache_key, clamp_chunk_count, clock_rate, coarse_chunk, gradual_step, keeps_chunk,
    keeps_last_chunk, live_chunk_index, live_stars_chunk, mods_candidate, parse_legacy_mods,
    parse_mods_bits, ClockRate,
};

#[test]
fn test_mod_parsing() {
    let hdhr = GameModsLegacy::from_bits(parse_legacy_mods("HDHR"));
    assert!(hdhr.contains(GameModsLegacy::Hidden));
    assert!(hdhr.contains(GameModsLegacy::HardRock));
    assert!(!hdhr.contains(GameModsLegacy::DoubleTime));

    let nf = GameModsLegacy::from_bits(parse_legacy_mods("HDNF"));
    assert!(nf.contains(GameModsLegacy::Hidden));
    assert!(nf.contains(GameModsLegacy::NoFail));

    let nm = parse_legacy_mods("NM");
    assert_eq!(nm, 0);

    let v2 = parse_legacy_mods("ScoreV2");
    assert_eq!(v2, 0);
}

#[test]
fn mod_strings_in_any_case_and_with_noise() {
    assert_eq!(parse_legacy_mods("  hddt "), 8 | 64);
    assert_eq!(parse_legacy_mods("none"), 0);
    assert_eq!(parse_legacy_mods("HDV2"), 8);
    assert_eq!(parse_legacy_mods("HDXX"), 0);
    assert_eq!(parse_legacy_mods(""), 0);
    assert_eq!(mods_candidate("NM"), None);
    assert_eq!(mods_candidate("HDSCOREV2"), Some("HD".to_string()));
    assert_eq!(mods_candidate("SV2 HR"), Some("HR".to_string()));
}

#[test]
fn mod_bits_keep_the_known_mods() {
    assert_eq!(parse_mods_bits(24), 24);
    assert_eq!(parse_mods_bits(u32::MAX), u32::MAX >> 2);
    assert_eq!(parse_mods_bits(1 << 31), 0);
}

#[test]
fn chunk_selection() {
    assert_eq!(clamp_chunk_count(0), 1);
    assert_eq!(clamp_chunk_count(100), 100);
    assert_eq!(clamp_chunk_count(1000), 250);
    assert_eq!(gradual_step(25, 5), 5);
    assert_eq!(gradual_step(3, 100), 1);
    assert_eq!(gradual_step(1000, 0), 1000);
    assert!(keeps_chunk(10, 5));
    assert!(!keeps_chunk(11, 5));
    assert!(keeps_last_chunk(11, 5, true));
    assert!(!keeps_last_chunk(10, 5, true));
    assert!(keeps_last_chunk(10, 5, false));
    assert_eq!(live_chunk_index(0, 6, 25), 0);
    assert_eq!(live_chunk_index(25, 6, 25), 5);
    assert_eq!(live_chunk_index(40, 6, 25), 5);
    assert_eq!(live_chunk_index(12, 6, 25), 2);
    assert_eq!(live_chunk_index(12, 1, 25), 0);
    assert_eq!(live_stars_chunk(6, 25, 0), None);
    assert_eq!(live_stars_chunk(6, 25, 12), Some(2));
    assert_eq!(live_stars_chunk(0, 25, 12), None);
    assert_eq!(coarse_chunk(5, 0), None);
    assert_eq!(coarse_chunk(5, 1), Some(0));
    assert_eq!(coarse_chunk(5, 11), Some(1));
    assert_eq!(coarse_chunk(5, 1000), Some(4));
    assert_eq!(beatmap_cache_key(12345, 99), 12345);
    assert_eq!(beatmap_cache_key(0, 99), 99 | 0x8000_0000_0000_0000);
    assert_eq!(clock_rate(64), ClockRate::Faster);
    assert_eq!(clock_rate(512), ClockRate::Faster);
    assert_eq!(clock_rate(256), ClockRate::Slower);
    assert_eq!(clock_rate(0), ClockRate::Normal);
}

/// The content hash the provider keys unsubmitted maps by: object count, mode, and
/// the first and last object's start times.
fn shape_hash(object_count: usize, mode: u8, first: i64, last: i64) -> u64 {
    let mut hasher = std::collections::hash_map::DefaultHasher::new();
    object_count.hash(&mut hasher);
    mode.hash(&mut hasher);
    first.hash(&mut hasher);
    last.hash(&mut hasher);
    hasher.finish()
}

#[test]
fn test_unsubmitted_map_cache_key_differentiation() {
    // One circle at 1000 ms, and two circles at 1000 and 2000 ms.
    let key1 = beatmap_cache_key(0, shape_hash(1, 0, 1000, 1000));
    let key2 = beatmap_cache_key(0, shape_hash(2, 0, 1000, 2000));
    assert_ne!(key1 & 0x8000_0000_0000_0000, 0);
    assert_ne!(key2 & 0x8000_0000_0000_0000, 0);
    assert_ne!(key1, key2);
    assert_eq!(beatmap_cache_key(12345, shape_hash(1, 0, 1000, 1000)), 12345);
}

#[test]
fn acronyms_read_two_characters_at_a_time_with_aliases() {
    assert_eq!(parse_legacy_mods("ncpf"), 576 | 16416);
    assert_eq!(parse_legacy_mods("RLK4"), 128 | 0x8000);
    assert_eq!(parse_legacy_mods("HDH"), 0);
    assert_eq!(parse_legacy_mods("MR1K"), 0x4000_0000 | 0x400_0000);
}

#[test]
fn live_stars_chunk_bounds_only_the_product_it_computes() {
    assert_eq!(live_stars_chunk(1, 10, u32::MAX), Some(0));
    assert_eq!(live_stars_chunk(5, 10, 0), None);
}
