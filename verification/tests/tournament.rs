use rtosu_dataprovider::tournament::{
    channel_messages, multiplayer_channels, chat_channel_count, chat_message, chat_message_count, chat_team, is_multiplayer_channel,
    parse_chat_header, tournament_state_from_reads, TeamReads, TournamentError, IPC_STATE_OFFSET,
    TEAM_LEFT_POINTER_OFFSET, TEAM_RIGHT_POINTER_OFFSET,
};

#[test]
fn keeps_known_tournament_layout_offsets() {
    assert_eq!(TEAM_LEFT_POINTER_OFFSET, 0x1c);
    assert_eq!(TEAM_RIGHT_POINTER_OFFSET, 0x20);
    assert_eq!(IPC_STATE_OFFSET, 0x54);
}

fn team(score: i32, stars: i32, name: &str, best_of: i32, finalized: bool) -> TeamReads {
    TeamReads {
        score,
        stars,
        name: name.to_string(),
        stars_visible: true,
        score_visible: false,
        finalized,
        best_of,
    }
}

#[test]
fn tournament_state_from_manager_reads() {
    let state = tournament_state_from_reads(
        0x100,
        3,
        0x200,
        0x300,
        team(1000, 2, "Red", 0, false),
        team(900, 1, "Blue", 7, true),
    )
    .expect("manager");
    assert_eq!(state.left_score, 1000);
    assert_eq!(state.right_score, 900);
    assert_eq!(state.first_team_name, "Red");
    assert_eq!(state.second_team_name, "Blue");
    assert_eq!(state.best_of, 7);
    assert!(state.is_tourney);
    assert!(state.finalized);
    assert!(state.chat.is_empty());
    assert_eq!(
        tournament_state_from_reads(0, 3, 1, 1, team(0, 0, "", 0, false), team(0, 0, "", 0, false))
            .unwrap_err(),
        TournamentError::NullRuleset
    );
    assert_eq!(
        tournament_state_from_reads(5, 0, 0, 0, team(0, 0, "", 0, false), team(0, 0, "", 0, false))
            .unwrap_err(),
        TournamentError::NotTournamentManager
    );
}

#[test]
fn chat_headers_and_teams() {
    assert_eq!(
        parse_chat_header("12:34 Player One:"),
        ("12:34".to_string(), "Player One".to_string())
    );
    assert_eq!(parse_chat_header("solo"), ("solo".to_string(), String::new()));
    let teams = vec![
        ("Alice".to_string(), "left".to_string()),
        ("Bob".to_string(), "right".to_string()),
        ("Alice".to_string(), "right".to_string()),
    ];
    assert_eq!(chat_team("BanchoBot", &teams), "bot");
    assert_eq!(chat_team("Alice", &teams), "right");
    assert_eq!(chat_team("Bob", &teams), "right");
    assert_eq!(chat_team("Carol", &teams), "unknown");
    let message = chat_message("01:02 Bob::", "gl hf", &teams);
    assert_eq!(message.time, "01:02");
    assert_eq!(message.name, "Bob");
    assert_eq!(message.message, "gl hf");
    assert_eq!(message.team, "right");
    assert!(is_multiplayer_channel("#multiplayer"));
    assert!(!is_multiplayer_channel("#osu"));
    assert_eq!(chat_channel_count(0), None);
    assert_eq!(chat_channel_count(3), Some(3));
    assert_eq!(chat_channel_count(1025), None);
    assert_eq!(chat_message_count(-1), None);
    assert_eq!(chat_message_count(600), Some(500));
}

#[test]
fn channel_messages_skip_unread_and_empty_slots() {
    let teams = vec![("Bob".to_string(), "left".to_string())];
    let slots = vec![
        Some(("01:02 Bob:".to_string(), "gl hf".to_string())),
        None,
        Some(("01:03 Amy:".to_string(), String::new())),
        Some(("01:04 BanchoBot:".to_string(), "Match starts".to_string())),
    ];
    let messages = channel_messages(&slots, &teams);
    assert_eq!(messages.len(), 2);
    assert_eq!(messages[0], chat_message("01:02 Bob:", "gl hf", &teams));
    assert_eq!(messages[0].team, "left");
    assert_eq!(messages[1].message, "Match starts");
    assert_eq!(messages[1], chat_message("01:04 BanchoBot:", "Match starts", &teams));
    assert!(channel_messages(&Vec::new(), &teams).is_empty());
}

#[test]
fn multiplayer_channels_are_tried_from_the_highest_number() {
    let tags = vec![
        Some("#multiplayer".to_string()),
        Some("#osu".to_string()),
        None,
        Some("#multiplayer".to_string()),
        Some("#lobby".to_string()),
    ];
    assert_eq!(multiplayer_channels(&tags), vec![3, 0]);
    assert!(multiplayer_channels(&vec![None, Some("#osu".to_string())]).is_empty());
}
