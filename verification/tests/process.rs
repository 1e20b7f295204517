use rtosu_dataprovider::process::{
    clip_region, module_by_name, module_or_main, process_name_matches, scan_order,
    u16_ascii_lower, utf16_to_string, MemoryRegion, ModuleInfo, ProcessError,
};

fn module(name: &str, base: u64) -> ModuleInfo {
    ModuleInfo { name: name.to_string(), base, size: 0x1000, path: None }
}

fn units(s: &str) -> Vec<u16> {
    s.encode_utf16().collect()
}

#[test]
fn module_lookup_ignores_ascii_case() {
    let modules = vec![module("osu!.exe", 0x400000), module("KERNEL32.DLL", 0x7000)];
    assert_eq!(module_by_name(&modules, "kernel32.dll").unwrap().base, 0x7000);
    assert_eq!(module_or_main(&modules, "MAIN").unwrap().base, 0x400000);
    assert_eq!(module_by_name(&modules, "x.dll").unwrap_err(), ProcessError::ModuleNotFound);
    assert_eq!(module_or_main(&[], "main").unwrap_err(), ProcessError::NoModules);
}

#[test]
fn process_names_and_utf16_text() {
    let mut exe = units("osu!.exe");
    exe.push(0);
    exe.extend(units("junk"));
    assert!(process_name_matches(&exe, &units("OSU!")));
    assert!(process_name_matches(&exe, &[]));
    assert!(!process_name_matches(&exe, &units("junk")));
    assert_eq!(u16_ascii_lower('Q' as u16), 'q' as u16);
    assert_eq!(utf16_to_string(&exe), "osu!.exe");
    assert_eq!(utf16_to_string(&[0x61, 0xD800, 0x62]), "a\u{FFFD}b");
    assert_eq!(utf16_to_string(&[0xD83D, 0xDE00]), "\u{1F600}");
}

#[test]
fn regions_are_clipped_and_ordered_for_scans() {
    let data = MemoryRegion { base: 0x1000, size: 0x1000, state: 0x1000, protection: 0x04, kind: 0 };
    let code = MemoryRegion { base: 0x3000, size: 0x1000, state: 0x1000, protection: 0x20, kind: 0 };
    assert!(data.is_readable());
    assert!(!data.is_executable());
    assert!(code.is_executable());
    let clipped = clip_region(&data, 0x1800, 0x10000).unwrap();
    assert_eq!((clipped.base, clipped.size), (0x1800, 0x800));
    assert!(clip_region(&data, 0x2000, 0x3000).is_none());
    assert_eq!(scan_order(&[data, code]), vec![code, data]);
}

#[test]
fn scan_order_keeps_every_region_and_moves_code_first() {
    let region = |base: u64, protection: u32| MemoryRegion { base, size: 0x1000, state: 0x1000, protection, kind: 0 };
    let input = [region(0x1000, 0x04), region(0x2000, 0x20), region(0x3000, 0x02), region(0x4000, 0x40), region(0x2000, 0x20)];
    let ordered = scan_order(&input);
    assert_eq!(ordered.len(), input.len());
    let bases: Vec<u64> = ordered.iter().map(|r| r.base).collect();
    assert_eq!(bases, vec![0x2000, 0x4000, 0x2000, 0x1000, 0x3000]);
}
