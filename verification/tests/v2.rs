use rtosu_dataprovider::v2::{create_mods_state, osu_state_name, ModsRate};

#[test]
fn mods_state_of_a_play() {
    let state = create_mods_state(24 + 64, "HDDTHR");
    assert_eq!(state.checksum, "e79a7f1ae47111ff54180ca6cff2fa3e");
    assert_eq!(state.number, 88);
    assert_eq!(state.name, "HDDTHR");
    let acronyms: Vec<&str> = state.array.iter().map(|m| m.acronym.as_str()).collect();
    assert_eq!(acronyms, vec!["HD", "DT", "HR"]);
    assert_eq!(state.rate, ModsRate::Faster);
    assert_eq!(create_mods_state(256, "HT").rate, ModsRate::Slower);
    assert_eq!(create_mods_state(0, "").rate, ModsRate::Normal);
    assert_eq!(create_mods_state(0, "").checksum, "d751713988987e9331980363e24189ce");
}

#[test]
fn mods_checksum_matches_tosu_for_several_mods() {
    let state = create_mods_state(536873225, "HDHTNFATv2");
    assert_eq!(state.number, 536873225);
    assert_eq!(state.name, "HDHTNFATv2");
    assert_eq!(state.rate, ModsRate::Slower);
    let acronyms: Vec<&str> = state.array.iter().map(|m| m.acronym.as_str()).collect();
    assert_eq!(acronyms, vec!["HD", "HT", "NF", "AT", "V2"]);
    assert_eq!(state.checksum, "eec18211a1a9d581bafc90342c0bb4c6");
    assert_eq!(create_mods_state(16, "HR").checksum, "4949c7b3a26dc9119f2f7abd79f5b3f6");
}

#[test]
fn game_state_names() {
    assert_eq!(osu_state_name(0), "menu");
    assert_eq!(osu_state_name(2), "play");
    assert_eq!(osu_state_name(7), "resultScreen");
    assert_eq!(osu_state_name(10), "unknown");
    assert_eq!(osu_state_name(-1), "unknown");
}
