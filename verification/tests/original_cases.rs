use yuumi::agent::{
    is_ready_check_already_responded, play_again_delay_ms, should_reset_lobby_on_none,
    should_spawn_auto_accept_on_phase,
};
use yuumi::augments::dedupe_augment_ids;
use yuumi::icon_path::strip_tft_set_marker_from_path;
use yuumi::queue::{is_arena_queue, is_tft_queue, queue_id_to_opgg_mode, secs_to_str, QueueEntry, QueueTable};
use yuumi::upload_url::{
    build_batch_upload_url, build_upload_url, ensure_scheme, should_trigger_upload_on_phase,
};

#[test]
fn ready_check_already_responded() {
    assert!(is_ready_check_already_responded(Some("Accepted")));
    assert!(is_ready_check_already_responded(Some("Declined")));
    assert!(!is_ready_check_already_responded(Some("None")));
    assert!(!is_ready_check_already_responded(Some("")));
    assert!(!is_ready_check_already_responded(None));
}

#[test]
fn play_again_delays_by_phase() {
    assert_eq!(play_again_delay_ms("WaitingForStats"), Some(10_000));
    assert_eq!(play_again_delay_ms("PreEndOfGame"), Some(3_250));
    assert_eq!(play_again_delay_ms("EndOfGame"), Some(1_575));
    assert_eq!(play_again_delay_ms("InProgress"), None);
    assert_eq!(play_again_delay_ms("None"), None);
    assert_eq!(play_again_delay_ms("Lobby"), None);
}

#[test]
fn lobby_none_resets_only_outside_flicker_window() {
    assert!(should_reset_lobby_on_none(false));
    assert!(!should_reset_lobby_on_none(true));
}

#[test]
fn auto_accept_only_on_ready_check_when_enabled_and_not_accepted() {
    assert!(should_spawn_auto_accept_on_phase("ReadyCheck", true, false));
    assert!(!should_spawn_auto_accept_on_phase("ReadyCheck", true, true));
    assert!(!should_spawn_auto_accept_on_phase("ReadyCheck", false, false));
    assert!(!should_spawn_auto_accept_on_phase("Lobby", true, false));
    assert!(!should_spawn_auto_accept_on_phase("None", true, false));
}

#[test]
fn dedupe_augment_ids_filters_zero_and_dedupes_in_order() {
    assert_eq!(dedupe_augment_ids(&[3, 0, 1, 3, 2, 1]), vec![3, 1, 2]);
    assert!(dedupe_augment_ids(&[]).is_empty());
}

#[test]
fn dedupe_augment_ids_truncates_to_five() {
    assert_eq!(dedupe_augment_ids(&[1, 2, 3, 4, 5, 6, 7]), vec![1, 2, 3, 4, 5]);
}

#[test]
fn queue_id_to_opgg_mode_maps_known_queues() {
    assert_eq!(queue_id_to_opgg_mode(450), Some("aram"));
    assert_eq!(queue_id_to_opgg_mode(2400), Some("aram"));
    assert_eq!(queue_id_to_opgg_mode(1700), Some("arena"));
    assert_eq!(queue_id_to_opgg_mode(1300), Some("nexus_blitz"));
    assert_eq!(queue_id_to_opgg_mode(900), Some("urf"));
    assert_eq!(queue_id_to_opgg_mode(420), Some("ranked"));
    assert_eq!(queue_id_to_opgg_mode(-1), None);
    assert_eq!(queue_id_to_opgg_mode(123456), None);
}

#[test]
fn is_arena_queue_covers_normal_and_ranked() {
    assert!(is_arena_queue(1700));
    assert!(is_arena_queue(1710));
    assert!(!is_arena_queue(420));
    assert!(!is_arena_queue(0));
}

/// The queue table entries that these cases rely on.
fn queue_table() -> QueueTable {
    let entry = |key: &str, name: &str, map: &str| QueueEntry { key: key.to_string(), name: name.to_string(), map: map.to_string() };
    QueueTable {
        tft_queue_ids: vec![1090, 1100, 1130, 1160],
        queues: vec![entry("420", "排位单双排", "召唤师峡谷"), entry("450", "极地大乱斗", "嚎哭深渊")],
    }
}

#[test]
fn is_tft_queue_covers_known_modes() {
    assert!(is_tft_queue(&queue_table(), 1090));
    assert!(is_tft_queue(&queue_table(), 1100));
    assert!(is_tft_queue(&queue_table(), 1130));
    assert!(is_tft_queue(&queue_table(), 1160));
    assert!(!is_tft_queue(&queue_table(), 420));
    assert!(!is_tft_queue(&queue_table(), 0));
}

#[test]
fn secs_to_str_formats_minutes_and_seconds() {
    assert_eq!(secs_to_str(1530), "25:30");
    assert_eq!(secs_to_str(3725), "62:05");
    assert_eq!(secs_to_str(59), "00:59");
}

#[test]
fn strip_tft_set_marker_from_path_strips_known_markers() {
    let cases = [
        (
            "/lol-game-data/assets/characters/tft17_riven/skins/base/images/tft17_riven_splash_tile_18.tft_set17.png",
            "/lol-game-data/assets/characters/tft17_riven/skins/base/images/tft17_riven_splash_tile_18.png",
        ),
        (
            "/lol-game-data/assets/characters/tft17_xxx/skins/base/images/xxx.tft_17_2.png",
            "/lol-game-data/assets/characters/tft17_xxx/skins/base/images/xxx.png",
        ),
        (
            "/lol-game-data/assets/characters/tft17_yyy/skins/base/images/yyy.tft_event_5yr_set17.png",
            "/lol-game-data/assets/characters/tft17_yyy/skins/base/images/yyy.png",
        ),
        (
            "/lol-game-data/assets/items/tft17_item_something.tft_set17_postlaunchaugments.png",
            "/lol-game-data/assets/items/tft17_item_something.png",
        ),
    ];
    for (input, expected) in cases {
        let mut path = input.to_string();
        strip_tft_set_marker_from_path(&mut path);
        assert_eq!(path, expected);
    }
}

#[test]
fn strip_tft_set_marker_from_path_keeps_normal_paths() {
    let cases = [
        "/lol-game-data/assets/characters/tft16_aatrox/skins/base/images/tft16_aatrox_splash_tile_0.png",
        "/lol-game-data/assets/items/tft_item_bfs.png",
        "/lol-game-data/assets/characters/tft17_riven/skins/base/images/tft17_riven_splash_tile_18.png",
    ];
    for input in cases {
        let mut path = input.to_string();
        strip_tft_set_marker_from_path(&mut path);
        assert_eq!(path, input);
    }
}

#[test]
fn ensure_scheme_defaults_to_http() {
    assert_eq!(ensure_scheme("example.com"), "http://example.com");
    assert_eq!(ensure_scheme("http://example.com"), "http://example.com");
    assert_eq!(ensure_scheme("https://example.com"), "https://example.com");
}

#[test]
fn build_upload_url_appends_path_once() {
    assert_eq!(build_upload_url("example.com"), "http://example.com/api/lol/upload");
    assert_eq!(build_upload_url("http://example.com/"), "http://example.com/api/lol/upload");
    assert_eq!(
        build_upload_url("http://example.com/api/lol/upload"),
        "http://example.com/api/lol/upload"
    );
}

#[test]
fn build_batch_upload_url_replaces_single_path() {
    assert_eq!(build_batch_upload_url("example.com"), "http://example.com/api/lol/upload-batch");
    assert_eq!(
        build_batch_upload_url("http://example.com/api/lol/upload"),
        "http://example.com/api/lol/upload-batch"
    );
    assert_eq!(
        build_batch_upload_url("https://example.com/"),
        "https://example.com/api/lol/upload-batch"
    );
}

#[test]
fn upload_triggers_only_from_in_game_to_end_phases() {
    assert!(should_trigger_upload_on_phase("EndOfGame", "InProgress"));
    assert!(should_trigger_upload_on_phase("Lobby", "GameStart"));
    assert!(should_trigger_upload_on_phase("None", "PreEndOfGame"));
    assert!(should_trigger_upload_on_phase("EndOfGame", "Reconnect"));
    assert!(!should_trigger_upload_on_phase("InProgress", "GameStart"));
    assert!(!should_trigger_upload_on_phase("ChampSelect", "Lobby"));
    assert!(!should_trigger_upload_on_phase("Lobby", "ChampSelect"));
    assert!(!should_trigger_upload_on_phase("Lobby", "ReadyCheck"));
    assert!(!should_trigger_upload_on_phase("None", "None"));
}
