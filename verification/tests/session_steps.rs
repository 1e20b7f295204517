use rtosu_dataprovider::session::{
    client_cache_stale, solo_loaded, solo_play_step, solo_step, stats_source, tournament_plan,
    BeatmapAction, ClientFacts, PlayKey, PlayRead, PlayReads, SoloReads, SoloState, StatsSource,
};

fn fresh() -> SoloState {
    SoloState { game_state: 0, beatmap_ptr: 0, mods: 0, difficulty_mods: None, play_key: None, results_key: None }
}

fn reads(state: Option<i32>, ptr: Option<u64>, menu_mods: Option<u32>) -> SoloReads {
    SoloReads {
        game_state: state,
        beatmap_ptr: ptr,
        menu_mods,
        since_skin_ms: 0,
        since_profile_ms: 0,
        map_loaded: true,
        ruleset_found: true,
    }
}

#[test]
fn a_new_beatmap_pointer_loads_and_a_null_one_clears() {
    let (next, act) = solo_step(&fresh(), &reads(Some(5), Some(0x1000), Some(8)));
    assert_eq!(act.beatmap, BeatmapAction::Load);
    assert!(act.state_changed);
    assert!(act.in_menus);
    assert!(act.refresh_skin && act.refresh_profile);
    assert_eq!(next.mods, 8);
    assert_eq!(next.beatmap_ptr, 0x1000);
    assert_eq!(next.difficulty_mods, None);
    let loaded = solo_loaded(&next, true);
    assert_eq!(loaded.difficulty_mods, Some(8));
    assert_eq!(solo_loaded(&next, false).difficulty_mods, None);

    let (same, act) = solo_step(&loaded, &reads(Some(5), Some(0x1000), Some(8)));
    assert_eq!(act.beatmap, BeatmapAction::Keep);
    assert_eq!(act.recompute_difficulty, None);
    assert!(!act.state_changed);
    assert!(!act.refresh_skin);
    assert_eq!(same, loaded);

    let (cleared, act) = solo_step(&loaded, &reads(Some(5), Some(0), None));
    assert_eq!(act.beatmap, BeatmapAction::Clear);
    assert_eq!(cleared.beatmap_ptr, 0);
}

#[test]
fn changed_menu_mods_recompute_the_kept_beatmap() {
    let mut s = fresh();
    s.game_state = 5;
    s.beatmap_ptr = 0x2000;
    s.difficulty_mods = Some(0);
    let (next, act) = solo_step(&s, &reads(Some(5), Some(0x2000), Some(64)));
    assert_eq!(act.recompute_difficulty, Some(64));
    assert_eq!(next.difficulty_mods, Some(64));
    // While playing, the menu mods are not taken.
    let (next, act) = solo_step(&s, &reads(Some(2), Some(0x2000), Some(64)));
    assert_eq!(next.mods, 0);
    assert_eq!(act.recompute_difficulty, None);
    assert_eq!(act.play_read, PlayRead::Gameplay);
}

#[test]
fn the_game_state_picks_the_play_screen() {
    let (_, act) = solo_step(&fresh(), &reads(Some(7), None, None));
    assert_eq!(act.play_read, PlayRead::Results);
    assert_eq!(act.paused, Some(true));
    assert!(act.stars_live_to_total);
    let mut r = reads(Some(7), None, None);
    r.ruleset_found = false;
    let (_, act) = solo_step(&fresh(), &r);
    assert_eq!(act.play_read, PlayRead::Nothing);
    assert!(act.stars_live_to_total);
    let (next, act) = solo_step(&fresh(), &reads(None, None, None));
    assert!(!act.state_changed);
    assert_eq!(act.paused, None);
    assert_eq!(next.game_state, 0);
}

fn key(n300: u32, mods: u32) -> PlayKey {
    PlayKey { combo: 10, n300, n100: 1, n50: 0, misses: 0, mods }
}

#[test]
fn live_pp_is_computed_again_only_when_the_play_changes() {
    let play = PlayReads { results: false, key: key(5, 8), health_empty: true, pp_enabled: true, map_loaded: true };
    let (next, act) = solo_play_step(&fresh(), &play);
    assert!(act.recompute_pp);
    assert!(!act.full_health);
    assert_eq!(next.play_key, Some(key(5, 8)));
    assert_eq!(next.mods, 8);
    let (again, act) = solo_play_step(&next, &play);
    assert!(!act.recompute_pp);
    assert_eq!(again, next);
    let disabled = PlayReads { pp_enabled: false, ..play };
    let (_, act) = solo_play_step(&fresh(), &disabled);
    assert!(!act.recompute_pp);
}

#[test]
fn an_empty_health_bar_on_the_result_screen_shows_full() {
    let play = PlayReads { results: true, key: key(7, 16), health_empty: true, pp_enabled: true, map_loaded: true };
    let (next, act) = solo_play_step(&fresh(), &play);
    assert!(act.full_health);
    assert!(act.recompute_pp);
    assert_eq!(act.recompute_difficulty, Some(16));
    assert_eq!(next.results_key, Some(key(7, 16)));
    assert_eq!(next.play_key, None);
    assert_eq!(next.difficulty_mods, Some(16));
}

fn client(pid: u32, ipc_id: Option<usize>, is_manager: bool) -> ClientFacts {
    ClientFacts {
        pid,
        ipc_id,
        is_manager,
        manager_read: false,
        has_beatmap: false,
        live_time: 0,
        has_game_folder: false,
        has_skin: false,
        has_profile: false,
        game_time: None,
    }
}

#[test]
fn tournament_plan_orders_views_by_spectator_id_and_picks_the_manager() {
    let mut manager = client(10, None, true);
    manager.manager_read = true;
    manager.has_beatmap = true;
    manager.has_skin = true;
    manager.game_time = Some(0);
    let mut a = client(11, Some(3), false);
    a.has_beatmap = true;
    a.live_time = 1500;
    a.has_game_folder = true;
    a.game_time = Some(42);
    let b = client(12, Some(0), false);
    let mut c = client(13, Some(1), false);
    c.has_beatmap = true;
    c.live_time = 900;
    let plan = tournament_plan(&vec![manager, a, b, c]);
    assert_eq!(plan.manager, Some(0));
    assert_eq!(plan.root_beatmap, Some(0));
    assert_eq!(plan.skin, Some(0));
    assert_eq!(plan.profile, None);
    assert_eq!(plan.game_folder, Some(1));
    // The manager reports zero; the first client reporting a time is taken.
    assert_eq!(plan.game_time, 0);
    // Views in client order: a (3), b (0), c (1); by spectator id: b, c, a.
    assert_eq!(plan.view_order, vec![1, 2, 0]);
    assert_eq!(plan.live_from, Some(2));
}

#[test]
fn tournament_game_time_falls_back_to_any_client() {
    let mut a = client(1, Some(0), false);
    a.game_time = Some(42);
    let plan = tournament_plan(&vec![client(0, None, false), a]);
    assert_eq!(plan.manager, None);
    assert_eq!(plan.game_time, 42);
    assert_eq!(plan.root_beatmap, None);
    assert_eq!(plan.view_order, vec![0]);
    assert_eq!(plan.live_from, None);
}

#[test]
fn the_last_manager_read_is_shown() {
    let mut m1 = client(1, None, true);
    m1.manager_read = true;
    let mut m2 = client(2, None, true);
    m2.manager_read = true;
    m2.game_time = Some(7);
    let plan = tournament_plan(&vec![m1, m2]);
    assert_eq!(plan.manager, Some(1));
    assert_eq!(plan.game_time, 7);
}

#[test]
fn stats_come_from_base_cache_or_computation() {
    assert_eq!(stats_source(0, false), StatsSource::Base);
    assert_eq!(stats_source(64, true), StatsSource::Cached);
    assert_eq!(stats_source(64, false), StatsSource::Compute);
}

#[test]
fn a_client_cache_goes_stale_when_the_checksum_changes() {
    assert!(client_cache_stale("abc", ""));
    assert!(client_cache_stale("abc", "abd"));
    assert!(!client_cache_stale("abc", "abc"));
}

#[test]
fn a_failed_time_read_of_the_first_client_with_an_address_shows_zero() {
    let mut a = client(1, Some(0), false);
    a.game_time = Some(0);
    let mut b = client(2, Some(1), false);
    b.game_time = Some(42);
    let plan = tournament_plan(&vec![client(0, Some(2), false), a, b]);
    assert_eq!(plan.game_time, 0);
}
