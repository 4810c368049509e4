use yuumi::auto_tag::{parse_participants_from_match_json, PlayerPerf};
use yuumi::detail_cache::MatchDetailCache;
use yuumi::game_assets::{CherryAugmentDetail, GameDataAssets};
use yuumi::json::{Json, JsonNumber};
use yuumi::match_detail::{extract_puuid, resolve_team_id};
use yuumi::sgp_match::sgp_game_to_lcu_match;
use yuumi::match_display::{
    extract_augment_ids, merge_match_displays, timestamp_to_short_str, timestamp_to_str, LcuMatchGame,
    LcuMatchParticipant, LcuMatchStats, MatchDisplay,
};
use yuumi::queue::{QueueEntry, QueueTable};
use yuumi::upload_flow::extract_gameflow_game_id;

fn conv(v: &serde_json::Value) -> Json {
    match v {
        serde_json::Value::Null => Json::Null,
        serde_json::Value::Bool(b) => Json::Bool(*b),
        serde_json::Value::Number(n) => {
            if let Some(u) = n.as_u64() {
                Json::Number(JsonNumber::PosInt(u))
            } else if let Some(i) = n.as_i64() {
                Json::Number(JsonNumber::NegInt(i))
            } else {
                Json::Number(JsonNumber::Float(n.as_f64().unwrap_or(0.0) as u64, n.to_string()))
            }
        }
        serde_json::Value::String(s) => Json::Str(s.clone()),
        serde_json::Value::Array(a) => Json::Array(a.iter().map(conv).collect()),
        serde_json::Value::Object(m) => {
            Json::Object(m.iter().map(|(k, v)| (k.clone(), conv(v))).collect())
        }
    }
}

fn j(text: &str) -> Json {
    conv(&serde_json::from_str::<serde_json::Value>(text).unwrap())
}

fn damage_ratio(p: &PlayerPerf) -> f64 {
    if p.damage_taken <= 0 {
        0.0
    } else {
        p.damage as f64 / p.damage_taken as f64 * 100.0
    }
}

#[test]
fn parse_participants_reads_puuid_and_stats() {
    let json = j(r#"{
        "participants": [
            {
                "puuid": "aaa",
                "championId": 99,
                "teamId": 100,
                "stats": {
                    "win": true, "kills": 3, "deaths": 1, "assists": 4,
                    "totalDamageDealtToChampions": 20000,
                    "totalDamageTaken": 10000,
                    "visionScore": 15,
                    "totalMinionsKilled": 100,
                    "neutralMinionsKilled": 20,
                    "goldEarned": 11000
                }
            }
        ]
    }"#);
    let list = parse_participants_from_match_json(&json);
    assert_eq!(list.len(), 1);
    assert_eq!(list[0].puuid, "aaa");
    assert!(list[0].win);
    assert_eq!(list[0].cs, 120);
    assert!((damage_ratio(&list[0]) - 200.0).abs() < 0.1);
}

#[test]
fn parse_arena_uses_subteam_placement() {
    let json = j(r#"{
        "queueId": 1700,
        "participants": [
            {
                "puuid": "a",
                "championId": 1,
                "teamId": 100,
                "stats": {
                    "subteamPlacement": 1,
                    "win": true, "kills": 5, "deaths": 1, "assists": 5,
                    "totalDamageDealtToChampions": 20000,
                    "totalDamageTaken": 10000
                }
            },
            {
                "puuid": "b",
                "championId": 2,
                "teamId": 100,
                "stats": {
                    "subteamPlacement": 2,
                    "win": false, "kills": 1, "deaths": 8, "assists": 2,
                    "totalDamageDealtToChampions": 8000,
                    "totalDamageTaken": 20000
                }
            },
            {
                "puuid": "missing-placement",
                "championId": 3,
                "teamId": 100,
                "stats": {
                    "win": true, "kills": 3, "deaths": 2, "assists": 3,
                    "totalDamageDealtToChampions": 12000,
                    "totalDamageTaken": 12000
                }
            }
        ]
    }"#);
    let list = parse_participants_from_match_json(&json);
    assert_eq!(list.len(), 2, "Arena 缺 subteamPlacement 应跳过");
    let a = list.iter().find(|p| p.puuid == "a").unwrap();
    let b = list.iter().find(|p| p.puuid == "b").unwrap();
    assert_eq!(a.team_id, 1);
    assert_eq!(b.team_id, 2);
}

#[test]
fn cache_put_get_roundtrip() {
    let mut cache = MatchDetailCache::new();
    cache.put(999001, j(r#"{"gameId": 999001}"#), 1_000);
    let hit = cache.get(999001, 1_000).expect("应命中");
    assert_eq!(hit.get("gameId").and_then(|v| v.as_u64()), Some(999001));
}

#[test]
fn cache_miss_returns_none() {
    let cache = MatchDetailCache::new();
    assert!(cache.get(888777, 0).is_none());
}

#[test]
fn resolve_team_id_normal_and_arena() {
    let p = j(r#"{"teamId": 100}"#);
    let s = j(r#"{"subteamPlacement": 2}"#);
    assert_eq!(resolve_team_id(&p, &s, false), Some(100));
    assert_eq!(resolve_team_id(&p, &s, true), Some(2));
    assert_eq!(resolve_team_id(&p, &j("{}"), true), None);
}

#[test]
fn extract_puuid_requires_nonempty() {
    assert_eq!(extract_puuid(&j(r#"{"puuid": "abc"}"#)), Some("abc".to_string()));
    assert_eq!(extract_puuid(&j(r#"{"puuid": ""}"#)), None);
    assert_eq!(extract_puuid(&j("{}")), None);
}

fn empty_stats() -> LcuMatchStats {
    LcuMatchStats {
        win: false,
        kills: 0,
        deaths: 0,
        assists: 0,
        champ_level: 0,
        item0: 0,
        item1: 0,
        item2: 0,
        item3: 0,
        item4: 0,
        item5: 0,
        item6: 0,
        perk0: 0,
        total_minions_killed: None,
        neutral_minions_killed: None,
        gold_earned: None,
        total_damage_dealt_to_champions: None,
        total_damage_taken: None,
        total_heal: None,
        vision_score: None,
        game_ended_in_early_surrender: false,
        subteam_placement: None,
        augments: vec![],
        player_augment1: 0,
        player_augment2: 0,
        player_augment3: 0,
        player_augment4: 0,
        player_augment5: 0,
    }
}

#[test]
fn extract_augment_ids_merges_augments_and_player_slots() {
    let mut stats = empty_stats();
    stats.win = true;
    stats.champ_level = 18;
    stats.augments = vec![7010, 0];
    stats.player_augment1 = 7018;
    stats.player_augment2 = 7027;
    stats.player_augment3 = 7010;
    stats.player_augment4 = 0;
    stats.player_augment5 = 7022;
    assert_eq!(extract_augment_ids(&stats), vec![7010, 7018, 7027, 7022]);
}

fn sample_game(queue_id: i32) -> LcuMatchGame {
    let mut stats = empty_stats();
    stats.win = true;
    stats.kills = 10;
    stats.deaths = 2;
    stats.assists = 8;
    stats.champ_level = 18;
    stats.item0 = 3157;
    stats.item1 = 3020;
    stats.perk0 = 8112;
    stats.total_minions_killed = Some(20);
    stats.neutral_minions_killed = Some(12);
    stats.gold_earned = Some(13500);
    stats.total_damage_dealt_to_champions = Some(28000);
    stats.total_heal = Some(1200);
    LcuMatchGame {
        game_id: 483_920_751,
        game_creation: 1_705_329_000_000,
        game_duration: 1530,
        queue_id,
        map_id: None,
        participants: vec![LcuMatchParticipant {
            champion_id: 432,
            spell1_id: 4,
            spell2_id: 12,
            stats,
        }],
    }
}

/// The queue table entries that these cases rely on.
fn queue_table() -> QueueTable {
    let entry = |key: &str, name: &str, map: &str| QueueEntry { key: key.to_string(), name: name.to_string(), map: map.to_string() };
    QueueTable {
        tft_queue_ids: vec![1090, 1100, 1130, 1160],
        queues: vec![entry("420", "排位单双排", "召唤师峡谷"), entry("450", "极地大乱斗", "嚎哭深渊")],
    }
}

#[test]
fn to_display_cleans_core_stats() {
    let mut assets = GameDataAssets::default();
    assets
        .spells
        .insert(4, "/lol-game-data/assets/spell/Summoner_Flash.png".into());
    assets
        .items
        .insert(3157, "/lol-game-data/assets/items/item_3157.png".into());
    assets.augments.insert(
        7018,
        CherryAugmentDetail {
            id: 7018,
            name: "".into(),
            icon_path: "/fe/lol-loot/aug_7018.png".into(),
        },
    );

    let mut game = sample_game(450);
    game.participants[0].stats.player_augment1 = 7018;

    let d = game.to_display(&assets, &queue_table()).unwrap();
    assert_eq!(d.name, "极地大乱斗");
    assert_eq!(d.map, "嚎哭深渊");
    let expected_time = chrono::DateTime::from_timestamp(1_705_329_000, 0)
        .unwrap()
        .with_timezone(&chrono::Local)
        .format("%Y-%m-%d %H:%M")
        .to_string();
    assert_eq!(d.time, expected_time);
    assert_eq!(d.duration, "25:30");
    assert!(d.win);
    assert!(!d.remake);
    assert_eq!(d.kda, "9.00");
    assert_eq!(d.cs, 32);
    assert_eq!(d.gold, 13500);
    assert_eq!(
        d.champion_icon_url,
        "/lol-game-data/assets/v1/champion-icons/432.png"
    );
    assert_eq!(d.item_icon_urls.len(), 1);
    assert_eq!(
        d.spell1_icon_url,
        "/lol-game-data/assets/spell/Summoner_Flash.png"
    );
    assert_eq!(d.augment_names, vec!["海克斯强化"]);
    assert_eq!(d.augment_icon_urls, vec!["/fe/lol-loot/aug_7018.png"]);
}

#[test]
fn to_display_perfect_kda_when_zero_deaths() {
    let mut game = sample_game(420);
    game.participants[0].stats.deaths = 0;
    let d = game.to_display(&GameDataAssets::default(), &queue_table()).unwrap();
    assert_eq!(d.kda, "Perfect");
    assert_eq!(d.name, "排位单双排");
    assert_eq!(d.map, "召唤师峡谷");
}

#[test]
fn to_display_returns_none_without_participants() {
    let mut game = sample_game(420);
    game.participants.clear();
    assert!(game.to_display(&GameDataAssets::default(), &queue_table()).is_none());
}

#[test]
fn timestamp_helpers_format_local() {
    let expected = chrono::DateTime::from_timestamp(1_705_329_000, 0)
        .unwrap()
        .with_timezone(&chrono::Local)
        .format("%Y-%m-%d %H:%M")
        .to_string();
    assert_eq!(timestamp_to_str(1_705_329_000_000), expected);

    let expected_short = chrono::DateTime::from_timestamp(1_705_329_000, 0)
        .unwrap()
        .with_timezone(&chrono::Local)
        .format("%m-%d %H:%M")
        .to_string();
    assert_eq!(timestamp_to_short_str(1_705_329_000_000), expected_short);

    assert_eq!(timestamp_to_str(u64::MAX), "1970-01-01 00:00");
}

fn md(game_id: u64, time_stamp: u64, source: &str) -> MatchDisplay {
    MatchDisplay {
        queue_id: 420,
        game_id,
        time: source.into(),
        short_time: String::new(),
        name: String::new(),
        map: String::new(),
        duration: String::new(),
        remake: false,
        win: true,
        placement: None,
        champion_id: 0,
        spell1_id: 0,
        spell2_id: 0,
        champ_level: 0,
        kills: 0,
        deaths: 0,
        assists: 0,
        kda: "0.00".into(),
        item_ids: vec![],
        rune_id: 0,
        cs: 0,
        gold: 0,
        time_stamp,
        total_damage: 0,
        total_damage_taken: 0,
        total_heal: 0,
        vision_score: 0,
        champion_icon_url: String::new(),
        spell1_icon_url: String::new(),
        spell2_icon_url: String::new(),
        rune_icon_url: String::new(),
        item_icon_urls: vec![],
        augment_ids: vec![],
        augment_icon_urls: vec![],
        augment_names: vec![],
    }
}

#[test]
fn merge_sgp_overwrites_lcu_and_sorts_desc() {
    let lcu = vec![md(1, 100, "lcu"), md(2, 300, "lcu")];
    let sgp = vec![md(2, 300, "sgp"), md(3, 200, "sgp")];
    let merged = merge_match_displays(lcu, sgp, 10);
    assert_eq!(merged.len(), 3);
    assert_eq!(merged[0].game_id, 2);
    assert_eq!(merged[0].time, "sgp");
    assert_eq!(merged[1].game_id, 3);
    assert_eq!(merged[2].game_id, 1);
}

#[test]
fn merge_truncates_to_limit() {
    let lcu = vec![md(1, 100, "a"), md(2, 200, "a"), md(3, 300, "a")];
    let merged = merge_match_displays(lcu, vec![], 2);
    assert_eq!(merged.len(), 2);
    assert_eq!(merged[0].game_id, 3);
    assert_eq!(merged[1].game_id, 2);
}

#[test]
fn sgp_game_matches_target_puuid_and_defaults_missing_fields() {
    let g = j(r#"{
        "gameId": 123,
        "gameCreation": 1700000000000,
        "gameDuration": 1200,
        "queueId": 420,
        "participants": [
            {
                "puuid": "OTHER",
                "championId": 1,
                "spell1Id": 4,
                "spell2Id": 12,
                "stats": { "win": true, "kills": 1, "deaths": 1, "assists": 1, "champLevel": 10 }
            },
            {
                "puuid": "TARGET",
                "championId": 432,
                "spell1Id": 4,
                "spell2Id": 12,
                "stats": { "win": true, "kills": 10, "deaths": 2, "assists": 8, "champLevel": 18 },
                "perks": { "styles": [{ "selections": [{ "perk": 8112 }] }] }
            }
        ]
    }"#);
    let game = sgp_game_to_lcu_match(&g, "target").expect("should match case-insensitive");
    assert_eq!(game.game_id, 123);
    assert_eq!(game.queue_id, 420);
    assert_eq!(game.participants.len(), 1);
    let p = &game.participants[0];
    assert_eq!(p.champion_id, 432);
    assert_eq!(p.stats.kills, 10);
    assert_eq!(p.stats.perk0, 8112);
    assert!(p.stats.win);
    assert_eq!(p.stats.item0, 0);
}

#[test]
fn sgp_game_returns_none_when_puuid_missing() {
    let g = j(r#"{
        "gameId": 1,
        "gameCreation": 0,
        "gameDuration": 0,
        "queueId": 420,
        "participants": [{ "puuid": "OTHER", "stats": {} }]
    }"#);
    assert!(sgp_game_to_lcu_match(&g, "TARGET").is_none());
}

#[test]
fn extracts_game_id_from_gameflow_session() {
    let data = j(r#"{ "gameData": { "gameId": 300900190786 } }"#);
    assert_eq!(extract_gameflow_game_id(&data), Some(300900190786));
}

#[test]
fn ignores_missing_or_zero_gameflow_game_id() {
    assert_eq!(extract_gameflow_game_id(&j("{}")), None);
    assert_eq!(
        extract_gameflow_game_id(&j(r#"{ "gameData": { "gameId": 0 } }"#)),
        None
    );
}
