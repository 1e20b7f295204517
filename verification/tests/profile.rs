use rtosu_dataprovider::profile::{available_profiles, embedded_profile, ClientProfile, EmbeddedProfile};

#[test]
fn classifies_client_process_names() {
    assert_eq!(ClientProfile::profile_for_process("osu!.exe"), Some("stable"));
    assert_eq!(
        ClientProfile::profile_for_process("osu!.Tourney.exe"),
        Some("tournament")
    );
    assert_eq!(ClientProfile::profile_for_process("notepad.exe"), None);
}

#[test]
fn knows_the_embedded_profiles() {
    assert_eq!(available_profiles(), vec!["stable", "tournament"]);
    assert_eq!(embedded_profile("stable"), Some(EmbeddedProfile::Stable));
    assert_eq!(embedded_profile("tournament"), Some(EmbeddedProfile::Tournament));
    assert_eq!(embedded_profile("lazer"), None);
}

#[test]
fn pattern_lookup_finds_the_entry_under_its_key() {
    let profile = ClientProfile {
        id: "stable".to_string(),
        display_name: "osu! stable".to_string(),
        process_names: vec!["osu!.exe".to_string()],
        module_names: Vec::new(),
        source_revision: None,
        pointer_width: 4,
        pointer_chains: Vec::new(),
        patterns: vec![("base_addr".to_string(), "F8 01 74".to_string()), ("status_ptr".to_string(), "48 83".to_string())],
        pattern_offsets: vec![("status_ptr".to_string(), -4)],
    };
    assert_eq!(profile.pattern("status_ptr"), Ok(("48 83", -4)));
    assert_eq!(profile.pattern("base_addr"), Ok(("F8 01 74", 0)));
    assert!(profile.pattern("menu_mods_ptr").is_err());
}

#[test]
fn profile_tables_with_a_repeated_key_are_not_well_formed() {
    let mut profile = ClientProfile {
        id: "stable".to_string(),
        display_name: "osu! stable".to_string(),
        process_names: Vec::new(),
        module_names: Vec::new(),
        source_revision: None,
        pointer_width: 4,
        pointer_chains: Vec::new(),
        patterns: vec![("a".to_string(), "90".to_string()), ("b".to_string(), "91".to_string())],
        pattern_offsets: vec![("a".to_string(), 1)],
    };
    assert!(profile.is_well_formed());
    profile.patterns.push(("a".to_string(), "92".to_string()));
    assert!(!profile.is_well_formed());
}
