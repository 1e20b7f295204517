use rtosu_dataprovider::session::{
    assign_teams, checksum_changed, client_role, difficulty_mods, displayed_status,
    game_state_update, has_identity, init_worker_count, is_playing, pattern_retry_due,
    pending_pids, process_rescan_due, reads_menu_mods, refresh_due, resolve_ranked_status,
    results_hit_errors, solo_scan_allowed,
};

#[test]
fn spectators_split_into_balanced_teams_by_spectator_id() {
    let seats = assign_teams(&vec![(300, 2), (100, 0), (500, 4), (200, 1), (400, 3)]);
    let order: Vec<(u32, bool)> = seats.iter().map(|s| (s.pid, s.left)).collect();
    assert_eq!(
        order,
        vec![(100, true), (200, true), (300, true), (400, false), (500, false)]
    );
    assert_eq!(seats.iter().filter(|s| s.left).count(), 3);

    let four = assign_teams(&vec![(1, 7), (2, 7), (3, 0), (4, 1)]);
    let pids: Vec<u32> = four.iter().map(|s| s.pid).collect();
    assert_eq!(pids, vec![3, 4, 1, 2]);
    assert_eq!(four.iter().filter(|s| s.left).count(), 2);
    assert_eq!(four[2].index, 0);
    assert!(assign_teams(&vec![]).is_empty());
}

#[test]
fn client_roles_from_command_lines() {
    let spectator = client_role("\"C:\\osu!.exe\" -spectateclient 3 8");
    assert_eq!(spectator.ipc_id, Some(3));
    assert!(spectator.is_spectator);
    assert!(!spectator.is_manager);
    assert!(spectator.scans_spectated_user);
    assert!(!spectator.scans_chat);

    let manager = client_role("\"C:\\osu!.exe\" -tourney");
    assert!(manager.is_manager);
    assert!(manager.scans_chat);
    assert!(!manager.scans_spectated_user);

    let autoplay = client_role("\"C:\\osu!.exe\" -go");
    assert!(autoplay.is_manager);
    assert_eq!(autoplay.ipc_id, None);

    let plain = client_role("\"C:\\osu!.exe\"");
    assert!(!plain.is_manager && !plain.is_spectator);
    assert!(plain.scans_chat && plain.scans_spectated_user);
}

#[test]
fn ranked_status_resolution() {
    assert_eq!(resolve_ranked_status(Some(4), Some(7), &vec![1]), Some(4));
    assert_eq!(resolve_ranked_status(Some(0), Some(7), &vec![1]), Some(7));
    assert_eq!(resolve_ranked_status(None, Some(9), &vec![0, 8, 2, 5]), Some(2));
    assert_eq!(resolve_ranked_status(None, None, &vec![0, -1]), None);
    assert_eq!(displayed_status(0, Some(4)), 4);
    assert_eq!(displayed_status(2, Some(4)), 2);
    assert_eq!(displayed_status(0, None), 0);
}

#[test]
fn session_timers_and_gates() {
    assert!(process_rescan_due(true, 0));
    assert!(!process_rescan_due(false, 1499));
    assert!(process_rescan_due(false, 1500));
    assert_eq!(init_worker_count(0), 1);
    assert_eq!(init_worker_count(3), 3);
    assert_eq!(init_worker_count(20), 8);
    assert!(pattern_retry_due(true, false, 2000));
    assert!(!pattern_retry_due(false, false, 9000));
    assert!(!pattern_retry_due(false, true, 1999));
    assert!(solo_scan_allowed(1000));
    assert!(!solo_scan_allowed(999));
    assert!(refresh_due(true, 0, 3000));
    assert!(refresh_due(false, 3000, 3000));
    assert!(!refresh_due(false, 2999, 3000));
    assert_eq!(game_state_update(2, 7), (true, true));
    assert_eq!(game_state_update(2, 2), (false, false));
    assert!(reads_menu_mods(5));
    assert!(!reads_menu_mods(2));
    assert!(!reads_menu_mods(7));
    assert_eq!(difficulty_mods(8 | (1 << 29)), 8);
    assert_eq!(pending_pids(&vec![5, 6, 7, 8], &vec![6, 8, 9]), vec![5, 7]);
}

#[test]
fn play_and_beatmap_checks() {
    assert!(is_playing(1, 0, 0, 0, 0));
    assert!(is_playing(0, 0, 0, 0, 1));
    assert!(!is_playing(0, 0, 0, 0, 0));
    assert!(has_identity(5, ""));
    assert!(has_identity(0, "Title"));
    assert!(!has_identity(0, ""));
    assert!(checksum_changed("abc", "def"));
    assert!(!checksum_changed("abc", "abc"));
    assert!(!checksum_changed("", "abc"));
}

#[test]
fn result_screen_hit_errors() {
    assert!(results_hit_errors(false, vec![1, 2], 10, 0, 0, 0, 0).is_empty());
    assert_eq!(results_hit_errors(true, vec![1, 2], 10, 0, 0, 0, 0), vec![1, 2]);
    assert_eq!(results_hit_errors(true, vec![], 3, 1, 1, 1, 2), vec![0i16; 4]);
    assert!(results_hit_errors(true, vec![], 1, 0, 0, 0, 5).is_empty());
    assert!(results_hit_errors(true, vec![], -5, 0, 0, 0, -3).is_empty());
}
