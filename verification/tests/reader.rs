use rtosu_dataprovider::reader::{
    bancho_status_name, country_name, guest_profile, join_path, login_status_name,
    profile_state_from_local, ruleset_name, LocalProfileFields, OsuReaderBuilder, OsuReaderMode,
};
use std::time::Duration;

#[test]
fn test_builder_defaults() {
    let builder = OsuReaderBuilder::new();
    assert_eq!(builder.tournament_profile, "tournament");
    assert_eq!(builder.solo_profile, "stable");
    assert_eq!(builder.pointer_width, 4);
    assert_eq!(builder.mode, OsuReaderMode::Auto);
}

#[test]
fn test_builder_custom() {
    let builder = OsuReaderBuilder::new()
        .tournament_profile("custom_tourney")
        .solo_profile("lazer")
        .pointer_width(8)
        .mode(OsuReaderMode::Solo)
        .poll_interval(Duration::from_millis(5));

    assert_eq!(builder.tournament_profile, "custom_tourney");
    assert_eq!(builder.solo_profile, "lazer");
    assert_eq!(builder.pointer_width, 8);
    assert_eq!(builder.mode, OsuReaderMode::Solo);
    assert_eq!(builder.poll_interval, Duration::from_millis(5));
}

#[test]
fn test_helper_lookups() {
    assert_eq!(ruleset_name(0), "osu");
    assert_eq!(ruleset_name(1), "taiko");
    assert_eq!(ruleset_name(2), "fruits");
    assert_eq!(ruleset_name(3), "mania");
    assert_eq!(ruleset_name(99), "");

    assert_eq!(bancho_status_name(2), "playing");
    assert_eq!(bancho_status_name(0), "idle");

    assert_eq!(login_status_name(65793), "connected");

    assert_eq!(country_name(1), "oc");
    assert_eq!(country_name(2), "eu");
    assert_eq!(country_name(0), "");
}

#[test]
fn builder_settings_and_clamps() {
    let builder = OsuReaderBuilder::new()
        .gradual_pp_chunks(0)
        .enable_chat(false)
        .opt_pointer_width(None);
    assert_eq!(builder.gradual_pp_chunks, 1);
    assert!(!builder.enable_chat);
    assert_eq!(builder.pointer_width, 4);
    assert_eq!(OsuReaderBuilder::new().gradual_pp_chunks(1000).gradual_pp_chunks, 250);
    assert_eq!(OsuReaderBuilder::new().poll_interval, Duration::from_millis(16));
    assert_eq!(OsuReaderBuilder::new().proc_check_interval, Duration::from_millis(1500));
    assert_eq!(join_path("Songs\\x", "a.osu"), "Songs\\x\\a.osu");
    assert_eq!(join_path("", "a.osu"), "a.osu");
    assert_eq!(join_path("dir", ""), "dir");
}

#[test]
fn guest_and_local_profiles() {
    let guest = guest_profile();
    assert_eq!(guest.user_status.number, 256);
    assert_eq!(guest.user_status.name, "guest");
    assert_eq!(guest.bancho_status.name, "idle");
    assert_eq!(guest.id, -1);
    assert_eq!(guest.name, "Guest");
    assert_eq!(guest.mode.name, "osu");
    assert_eq!(guest.background_colour, "ff010101");

    let local = LocalProfileFields {
        id: 2,
        name: "peppy".to_string(),
        play_mode: 1,
        country_code: 2,
        raw_bancho_status: 2,
        raw_login_status: 65793,
        background_colour: 0xff0a0b0c,
        ..LocalProfileFields::default()
    };
    let state = profile_state_from_local(&local);
    assert_eq!(state.user_status.name, "connected");
    assert_eq!(state.bancho_status.name, "playing");
    assert_eq!(state.mode.name, "taiko");
    assert_eq!(state.country_code.name, "EU");
    assert_eq!(state.background_colour, "ff0a0b0c");
    assert_eq!(state.name, "peppy");
}
