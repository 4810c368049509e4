use std::collections::HashMap;

use yuumi::agent::{HonorBallot, HonorEligiblePlayer, HonorVotePool, ReceivedInvitation};
use yuumi::agent_flows::{
    accept_after_delay, honor_recipients, invitations_to_accept, lobby_phase_allows_create,
    lobby_reply, room_hint, select_conversation, team_side, team_side_message, LobbyCreation,
    LobbyReply, ReadyCheckStatus, LOBBY_CREATE_ATTEMPTS, reconnect_delay_ms, RECONNECT_ATTEMPTS,
};
use yuumi::auto_tag::PlayerPerf;
use yuumi::client_commands::{
    catalogue_proxy_url, configured_wegame_path, deletable_page_id, real_client_path, skin_entry,
    swap_back_champion, swap_back_message,
};
use yuumi::client_launch::{
    elevated_start_command, is_league_client_exe, is_league_client_process, needs_elevation,
    riot_launch_args,
};
use yuumi::opgg::{mcp_content_text, opgg_url};
use yuumi::registry::{
    clean_display_icon, is_wegame_process, mentions_wegame, normalize_install_path,
    reg_string_from_output,
};
use yuumi::fate::player_fate_from_detail;
use yuumi::icon_path::{convert_lcu_icon_path, convert_lcu_icon_path_to_cdragon};
use yuumi::json::{Json, JsonNumber};
use yuumi::lcu_auth::{auth_header_from_encoded, build_auth_header};
use yuumi::live_game::{live_game_teams, parse_live_players, pin_drop_side, session_side};
use yuumi::post_game::{
    auto_tag_name, find_match_json, radar_alert, radar_candidates, reminder_message,
};
use yuumi::releases::{
    changelog_cache_usable, is_github_host, normalize_version, proxy_url, releases_from_value,
    ReleaseEntry,
};
use yuumi::saved_players::{
    bump_tag_stat, identity_from_summoner, page_window, saved_players_filter_clause,
    validate_list_kind, SavedPlayerMarker, ENCOUNTERS_PAGE_MAX, ENCOUNTERS_PAGE_SIZE,
    SAVED_PLAYERS_PAGE_MAX, SAVED_PLAYERS_PAGE_SIZE,
};
use yuumi::tft::TftDataMapping;
use yuumi::tft_augments::{clean_tft_desc, desc_pieces, extract_augment_tier, extract_augments_from_value};
use yuumi::tft_data::{
    build_trait_name_map_from_mapping, parse_tft_data_from_value, tft_meta_maps, trait_key_exec,
};

fn conv(v: &serde_json::Value) -> Json {
    match v {
        serde_json::Value::Null => Json::Null,
        serde_json::Value::Bool(b) => Json::Bool(*b),
        serde_json::Value::Number(n) => {
            if let Some(u) = n.as_u64() {
                Json::Number(JsonNumber::PosInt(u))
            } else if let Some(i) = n.as_i64() {
                Json::Number(JsonNumber::NegInt(i))
            } else {
                Json::Number(JsonNumber::Float(n.as_f64().unwrap_or(0.0) as u64, n.to_string()))
            }
        }
        serde_json::Value::String(s) => Json::Str(s.clone()),
        serde_json::Value::Array(a) => Json::Array(a.iter().map(conv).collect()),
        serde_json::Value::Object(m) => {
            Json::Object(m.iter().map(|(k, v)| (k.clone(), conv(v))).collect())
        }
    }
}

fn j(text: &str) -> Json {
    conv(&serde_json::from_str::<serde_json::Value>(text).unwrap())
}

fn look<'a>(d: &'a [(String, String)], k: &str) -> Option<&'a str> {
    d.iter().find(|(a, _)| a == k).map(|(_, b)| b.as_str())
}

fn detail() -> Json {
    j(r#"{
        "queueId": 420,
        "participants": [
            { "participantId": 1, "championId": 103, "teamId": 100 },
            { "participantId": 2, "championId": 64, "teamId": 200 },
            { "participantId": 3, "championId": 1, "stats": { "teamId": 100 } }
        ],
        "participantIdentities": [
            { "participantId": 1, "player": { "puuid": "me", "summonerId": 11 } },
            { "participantId": 2, "player": { "puuid": "target", "summonerId": 22 } },
            { "participantId": 3, "player": { "puuid": "friend", "summonerId": 33 } }
        ]
    }"#)
}

fn champions() -> HashMap<i32, String> {
    let mut m = HashMap::new();
    m.insert(64, "盲僧".to_string());
    m.insert(1, "安妮".to_string());
    m
}

#[test]
fn fate_tells_ally_enemy_and_champion() {
    let d = detail();
    let f = player_fate_from_detail(&d, "target", 11, &champions()).unwrap();
    assert_eq!(f.fate_flag.as_deref(), Some("enemy"));
    assert_eq!(f.recently_champion_name.as_deref(), Some("盲僧"));
    let f = player_fate_from_detail(&d, "friend", 11, &champions()).unwrap();
    assert_eq!(f.fate_flag.as_deref(), Some("ally"));
    assert_eq!(f.recently_champion_name.as_deref(), Some("安妮"));
    let f = player_fate_from_detail(&d, "me", 11, &champions()).unwrap();
    assert_eq!(f.fate_flag, None);
    assert_eq!(f.recently_champion_name, None);
    let f = player_fate_from_detail(&d, "target", 99, &champions()).unwrap();
    assert_eq!(f.fate_flag, None);
}

#[test]
fn fate_errors_name_the_missing_part() {
    let e = player_fate_from_detail(&detail(), "ghost", 11, &champions()).err().unwrap();
    assert_eq!(e, "找不到目标玩家");
    let e = player_fate_from_detail(&j(r#"{"participantIdentities": []}"#), "x", 1, &champions())
        .err()
        .unwrap();
    assert_eq!(e, "无法解析 participants");
    let e = player_fate_from_detail(&j(r#"{"participants": []}"#), "x", 1, &champions())
        .err()
        .unwrap();
    assert_eq!(e, "无法解析 participantIdentities");
}

#[test]
fn fate_in_arena_compares_subteams() {
    let d = j(r#"{
        "queueId": 1700,
        "participants": [
            { "participantId": 1, "championId": 1, "stats": { "subteamPlacement": 3 } },
            { "participantId": 2, "championId": 64, "stats": { "subteamPlacement": 3 } },
            { "participantId": 3, "championId": 2 }
        ],
        "participantIdentities": [
            { "participantId": 1, "player": { "puuid": "me", "summonerId": 11 } },
            { "participantId": 2, "player": { "puuid": "mate", "summonerId": 22 } },
            { "participantId": 3, "player": { "puuid": "lone", "summonerId": 33 } }
        ]
    }"#);
    let f = player_fate_from_detail(&d, "mate", 11, &champions()).unwrap();
    assert_eq!(f.fate_flag.as_deref(), Some("ally"));
    let f = player_fate_from_detail(&d, "lone", 11, &champions()).unwrap();
    assert_eq!(f.fate_flag, None);
}

#[test]
fn live_teams_put_the_summoner_side_first() {
    let session = j(r#"{ "gameData": {
        "gameId": 77,
        "teamOne": [
            { "summonerId": 1, "puuid": "a", "gameName": "A", "tagLine": "1", "summonerName": "SA", "championId": 10, "profileIconId": 5 },
            { "summonerId": 0 }
        ],
        "teamTwo": [ { "summonerId": 2, "puuid": "me", "displayName": "Me", "championId": 20 } ]
    } }"#);
    let me = j(r#"{ "summonerId": 2, "puuid": "me" }"#);
    let t = live_game_teams(&session, Some(&me));
    assert_eq!(t.game_id, Some(77));
    assert_eq!(t.my_team.len(), 1);
    assert_eq!(t.my_team[0].puuid, "me");
    assert_eq!(t.my_team[0].game_name, "Me");
    assert_eq!(t.my_team[0].summoner_name, "Me");
    assert_eq!(t.my_team[0].champion_id, 20);
    assert_eq!(t.my_team[0].team, "my");
    assert_eq!(t.their_team.len(), 1);
    assert_eq!(t.their_team[0].summoner_name, "SA");
    assert_eq!(t.their_team[0].tag_line, "1");
    assert_eq!(t.their_team[0].profile_icon_id, 5);
    assert_eq!(t.their_team[0].team, "their");
    let t = live_game_teams(&session, None);
    assert_eq!(t.my_team[0].puuid, "a");
    assert_eq!(t.their_team[0].puuid, "me");
    let empty = live_game_teams(&j("{}"), None);
    assert_eq!(empty.game_id, None);
    assert!(empty.my_team.is_empty() && empty.their_team.is_empty());
}

#[test]
fn live_players_drop_anonymous_entries() {
    let arr = match j(r#"[{"summonerId": 0}, {"puuid": "p"}, {"displayName": "D"}]"#) {
        Json::Array(a) => a,
        _ => unreachable!(),
    };
    let ps = parse_live_players(&arr, "x");
    assert_eq!(ps.len(), 2);
    assert_eq!(ps[1].game_name, "D");
    assert_eq!(ps[1].summoner_name, "D");
}

#[test]
fn map_side_from_pin_drop_or_cells() {
    assert_eq!(pin_drop_side(&j(r#"{"mapSide": "blue"}"#)).as_deref(), Some("blue"));
    assert_eq!(pin_drop_side(&j(r#"{"mapSide": ""}"#)), None);
    let side = |t: &str| session_side(&j(t));
    assert_eq!(side(r#"{"myTeam": [{"cellId": 0}, {"cellId": 3}]}"#).as_deref(), Some("blue"));
    assert_eq!(side(r#"{"myTeam": [{"cellId": 5}, {"cellId": 7}]}"#).as_deref(), Some("red"));
    assert_eq!(side(r#"{"myTeam": [{"cellId": 3}, {"cellId": 6}]}"#), None);
    assert_eq!(side(r#"{"myTeam": [{}]}"#).as_deref(), Some("blue"));
    assert_eq!(side(r#"{}"#), None);
}

fn ally(bot: bool, puuid: Option<&str>) -> HonorEligiblePlayer {
    HonorEligiblePlayer { bot_player: bot, puuid: puuid.map(|s| s.to_string()) }
}

#[test]
fn honor_takes_humans_up_to_the_votes() {
    let ballot = |votes: Option<i32>| HonorBallot {
        eligible_allies: vec![
            ally(true, Some("bot")),
            ally(false, Some("p1")),
            ally(false, None),
            ally(false, Some("p2")),
            ally(false, Some("p3")),
        ],
        eligible_opponents: vec![],
        vote_pool: votes.map(|v| HonorVotePool { votes: v }),
    };
    assert_eq!(honor_recipients(&ballot(Some(2))), vec!["p1", "p2"]);
    assert_eq!(honor_recipients(&ballot(Some(0))), vec!["p1"]);
    assert_eq!(honor_recipients(&ballot(None)), vec!["p1"]);
    assert_eq!(honor_recipients(&ballot(Some(9))), vec!["p1", "p2", "p3"]);
}

#[test]
fn only_pending_acceptable_invitations() {
    let inv = |id: Option<&str>, st: &str, can: Option<bool>| ReceivedInvitation {
        invitation_id: id.map(|s| s.to_string()),
        state: Some(st.to_string()),
        can_accept_invitation: can,
    };
    let invs = vec![
        inv(Some("a"), "Pending", Some(true)),
        inv(Some("b"), "Pending", Some(false)),
        inv(None, "Pending", Some(true)),
        inv(Some("c"), "Accepted", Some(true)),
        inv(Some("d"), "Pending", None),
    ];
    assert_eq!(invitations_to_accept(&invs), vec!["a"]);
}

#[test]
fn delayed_accept_rechecks_phase_and_state() {
    let st = |resp: Option<&str>, err: Option<&str>| ReadyCheckStatus {
        player_response: resp.map(|s| s.to_string()),
        error_code: err.map(|s| s.to_string()),
    };
    assert!(accept_after_delay(Some("ReadyCheck"), Some(&st(None, None))));
    assert!(accept_after_delay(Some("ReadyCheck"), Some(&st(Some("None"), None))));
    assert!(!accept_after_delay(Some("ReadyCheck"), Some(&st(Some("Accepted"), None))));
    assert!(!accept_after_delay(Some("ReadyCheck"), Some(&st(None, Some("E")))));
    assert!(!accept_after_delay(Some("ReadyCheck"), None));
    assert!(!accept_after_delay(Some("InProgress"), Some(&st(None, None))));
    assert!(!accept_after_delay(None, Some(&st(None, None))));
}

#[test]
fn lobby_creation_retries_at_most_thirty_times() {
    for p in ["None", "", "WaitingForStats", "PreEndOfGame"] {
        assert!(lobby_phase_allows_create(Some(p)));
    }
    assert!(!lobby_phase_allows_create(Some("Lobby")));
    assert!(lobby_phase_allows_create(None));
    assert!(lobby_reply(None) == LobbyReply::Created);
    assert!(lobby_reply(Some("HTTP 409 Conflict")) == LobbyReply::Conflict);
    assert!(lobby_reply(Some("timeout")) == LobbyReply::Failed);

    let mut run = LobbyCreation::new();
    let mut posts = 0;
    while run.before_attempt(true, None) {
        posts += 1;
        assert!(run.after_reply(Some("busy")) == LobbyReply::Failed);
    }
    assert_eq!(posts, LOBBY_CREATE_ATTEMPTS);
    assert!(run.finished);

    let mut run = LobbyCreation::new();
    assert!(run.before_attempt(true, Some("None")));
    assert!(run.after_reply(Some("409")) == LobbyReply::Conflict);
    assert!(!run.before_attempt(true, Some("None")));

    let mut run = LobbyCreation::new();
    assert!(!run.before_attempt(false, None));
    let mut run = LobbyCreation::new();
    assert!(!run.before_attempt(true, Some("ChampSelect")));
}

#[test]
fn team_side_announcement() {
    let pin = j(r#"{"mapSide": "BLUE"}"#);
    assert_eq!(team_side(Some(&pin), &j("{}")), "blue");
    assert_eq!(team_side(None, &j(r#"{"localPlayerCellId": 7}"#)), "red");
    assert_eq!(team_side(Some(&j(r#"{"mapSide": ""}"#)), &j(r#"{"localPlayerCellId": 2}"#)), "blue");
    assert_eq!(
        team_side_message("blue", true),
        ("[rustyuumi] 本局我方在蓝色方".to_string(), "chat".to_string())
    );
    assert_eq!(
        team_side_message("red", false),
        ("[rustyuumi] 本局我方在红色方".to_string(), "celebration".to_string())
    );
}

#[test]
fn champ_select_conversation_lookup() {
    let s1 = j(r#"{"chatDetails": {"chatRoomName": "room1", "multiUserChatId": "m"}}"#);
    assert_eq!(room_hint(&s1), Some("room1"));
    let s2 = j(r#"{"chatDetails": {"multiUserChatId": "m"}}"#);
    assert_eq!(room_hint(&s2), Some("m"));
    assert_eq!(room_hint(&j("{}")), None);
    let convs = j(r#"[
        {"id": "x", "type": "chat"},
        {"id": "abc-room1-def", "name": "n"},
        {"id": "cs", "type": "championSelect"}
    ]"#);
    assert_eq!(select_conversation(&convs, Some("room1")).as_deref(), Some("abc-room1-def"));
    assert_eq!(select_conversation(&convs, None).as_deref(), Some("cs"));
    assert_eq!(select_conversation(&convs, Some("")).as_deref(), Some("cs"));
    assert_eq!(select_conversation(&convs, Some("zzz")).as_deref(), Some("cs"));
    let by_id = j(r#"[{"id": "abc-champ-select-1"}]"#);
    assert_eq!(select_conversation(&by_id, None).as_deref(), Some("abc-champ-select-1"));
    assert_eq!(select_conversation(&j("{}"), None), None);
}

#[test]
fn saved_player_pages_and_filters() {
    assert_eq!(page_window(None, None, SAVED_PLAYERS_PAGE_SIZE, SAVED_PLAYERS_PAGE_MAX), (50, 0));
    assert_eq!(page_window(Some(3), Some(500), SAVED_PLAYERS_PAGE_SIZE, SAVED_PLAYERS_PAGE_MAX), (200, 400));
    assert_eq!(page_window(Some(-2), Some(0), ENCOUNTERS_PAGE_SIZE, ENCOUNTERS_PAGE_MAX), (1, 0));
    assert_eq!(page_window(Some(2), None, ENCOUNTERS_PAGE_SIZE, ENCOUNTERS_PAGE_MAX), (20, 20));
    assert_eq!(saved_players_filter_clause(Some("black")), " AND list_kind = 'black'");
    assert_eq!(saved_players_filter_clause(Some("white")), " AND list_kind = 'white'");
    assert!(saved_players_filter_clause(Some("multiple")).ends_with(">= 2"));
    assert!(saved_players_filter_clause(Some("tagged")).contains("auto_tag"));
    assert_eq!(saved_players_filter_clause(Some("all")), "");
    assert_eq!(saved_players_filter_clause(None), "");
    assert!(validate_list_kind("black").is_ok());
    assert!(validate_list_kind("").is_ok());
    assert_eq!(validate_list_kind("grey"), Err("无效名单类型: grey".to_string()));
}

#[test]
fn identity_backfill_reads_summoner_record() {
    let r = identity_from_summoner(&j(r#"{"tagLine": "CN1", "displayName": "", "gameName": "G", "profileIconId": 7}"#));
    assert_eq!(r, Some(("CN1".to_string(), "G".to_string(), 7)));
    assert_eq!(identity_from_summoner(&j("{}")), None);
    assert_eq!(identity_from_summoner(&j(r#"{"profileIconId": -1}"#)), None);
    let r = identity_from_summoner(&j(r#"{"displayName": "D", "gameName": "G"}"#));
    assert_eq!(r, Some((String::new(), "D".to_string(), 0)));
}

#[test]
fn tag_stats_count_each_key() {
    let mut stats = vec![("carry".to_string(), 2)];
    bump_tag_stat(&mut stats, "carry");
    assert_eq!(stats, vec![("carry".to_string(), 3)]);
    bump_tag_stat(&mut stats, "feeder");
    assert_eq!(stats, vec![("carry".to_string(), 3), ("feeder".to_string(), 1)]);
}

#[test]
fn finished_game_is_found_by_id() {
    let body = j(r#"{"games": {"games": [{"json": {"gameId": 5}}, {"gameId": 6}]}}"#);
    let g = find_match_json(&body, 6).unwrap();
    assert_eq!(g.i64_at("gameId"), Some(6));
    let g = find_match_json(&body, 5).unwrap();
    assert_eq!(g.i64_at("gameId"), Some(5));
    assert_eq!(find_match_json(&body, 0).unwrap().i64_at("gameId"), Some(5));
    assert!(find_match_json(&body, 9).is_none());
    assert!(find_match_json(&j(r#"{"games": []}"#), 0).is_none());
}

fn perf(puuid: &str, team: i32, champ: i32) -> PlayerPerf {
    PlayerPerf {
        puuid: puuid.to_string(),
        champion_id: champ,
        team_id: team,
        win: false,
        kills: 0,
        deaths: 0,
        assists: 0,
        damage: 0,
        damage_taken: 0,
        vision: 0,
        cs: 0,
        gold: 0,
        remake: false,
    }
}

#[test]
fn auto_tag_names_carry_relation() {
    let players = vec![perf("me", 100, 9), perf("a", 100, 1), perf("b", 200, 2)];
    assert_eq!(auto_tag_name(&players, "me", "a"), (String::new(), 1, "ally".to_string()));
    assert_eq!(auto_tag_name(&players, "me", "b"), (String::new(), 2, "enemy".to_string()));
    assert_eq!(auto_tag_name(&players, "me", "me"), (String::new(), 0, String::new()));
    assert_eq!(auto_tag_name(&players, "nobody", "a"), (String::new(), 1, String::new()));
}

#[test]
fn radar_names_and_labels() {
    let team = match j(r#"[
        {"puuid": "me"},
        {"puuid": "p1234567890", "gameName": "Al"},
        {"puuid": "p2", "summonerName": 5},
        {"puuid": ""}
    ]"#) {
        Json::Array(a) => a,
        _ => unreachable!(),
    };
    let c = radar_candidates(&team, "me");
    assert_eq!(c.len(), 2);
    assert_eq!((c[0].puuid.as_str(), c[0].name.as_str()), ("p1234567890", "Al"));
    assert_eq!((c[1].puuid.as_str(), c[1].name.as_str()), ("p2", "p2"));
    let unnamed = match j(r#"[{"puuid": "abcdefghijk"}]"#) {
        Json::Array(a) => a,
        _ => unreachable!(),
    };
    assert_eq!(radar_candidates(&unnamed, "me")[0].name, "abcdefgh");
    let marker = |auto: Option<&str>, tag: Option<&str>| SavedPlayerMarker {
        tag: tag.map(|s| s.to_string()),
        encounter_count: 2,
        auto_tag: auto.map(|s| s.to_string()),
        last_relation: Some("ally".to_string()),
        last_met_at: None,
        list_kind: "black".to_string(),
        list_reason: None,
    };
    assert_eq!(radar_alert(&c[0], &marker(Some("carry"), Some("x"))).tag, "carry");
    assert_eq!(radar_alert(&c[0], &marker(None, Some("x"))).tag, "x");
    let a = radar_alert(&c[0], &marker(None, None));
    assert_eq!(a.tag, "已标记");
    assert_eq!(a.encounter_count, 2);
    assert_eq!(a.list_kind, "black");
    assert_eq!(a.relation.as_deref(), Some("ally"));
}

#[test]
fn tag_reminder_messages() {
    let tagged = vec![("p1".to_string(), "坑".to_string())];
    let info = j(r#"{"displayName": "", "gameName": "Bob"}"#);
    assert_eq!(
        reminder_message(&j(r#"{"puuid": "p1"}"#), Some(&info), &tagged).as_deref(),
        Some("[rustyuumi] 玩家 Bob 已被标记：坑")
    );
    assert_eq!(
        reminder_message(&j(r#"{"puuid": "p1"}"#), None, &tagged).as_deref(),
        Some("[rustyuumi] 玩家 p1 已被标记：坑")
    );
    let via_info = j(r#"{"puuid": "p1", "displayName": "Dee"}"#);
    assert_eq!(
        reminder_message(&j(r#"{"summonerId": 3}"#), Some(&via_info), &tagged).as_deref(),
        Some("[rustyuumi] 玩家 Dee 已被标记：坑")
    );
    assert_eq!(reminder_message(&j(r#"{"puuid": "p9"}"#), None, &tagged), None);
    assert_eq!(reminder_message(&j("{}"), None, &tagged), None);
}

#[test]
fn augment_descriptions_and_tiers() {
    assert_eq!(clean_tft_desc("<p>Gain <b>10</b> gold.<br>Now</p>  "), "Gain 10 gold.Now");
    assert_eq!(clean_tft_desc(""), "");
    let view = |d: &str| {
        desc_pieces(d).into_iter().map(|p| (p.is_token, p.text)).collect::<Vec<_>>()
    };
    assert_eq!(
        view("Deal @Damage*100@% more"),
        vec![(false, "Deal ".to_string()), (true, "Damage*100".to_string()), (false, "% more".to_string())]
    );
    assert_eq!(
        view("a@b"),
        vec![(false, "a".to_string()), (false, "a@b".to_string()), (false, "a@b".to_string())]
    );
    assert_eq!(view("plain"), vec![(false, "plain".to_string())]);
    assert_eq!(extract_augment_tier("TFT_Augment_GoldenEgg", "", "X"), 2);
    assert_eq!(extract_augment_tier("TFT9_Augment_Prismatic", "", "X"), 3);
    assert_eq!(extract_augment_tier("TFT_Augment_Thing", "x", "Thing III"), 3);
    assert_eq!(extract_augment_tier("TFT_Augment_Thing", "x", "Thing I"), 1);
    assert_eq!(extract_augment_tier("TFT_Augment_Thing", "icons/Silver.png", "Thing"), 1);
    assert_eq!(extract_augment_tier("TFT_Augment_Thing", "x", "Thing"), 2);
}

#[test]
fn augments_are_read_once_each() {
    let root = j(r#"{
        "augments": [ { "apiName": "A1", "name": "Aug1", "desc": "<b>x</b>", "icon": "ASSETS/Maps/x.tex", "effects": { "Damage": 3 } } ],
        "items": [
            { "apiName": "TFT_Item_Sword", "name": "Sword" },
            { "apiName": "TFT_Augment_B", "name": "AugB" },
            { "apiName": "A1", "name": "dup" }
        ],
        "setData": [ { "augments": [ { "name": "", "apiName": "z" }, { "hexId": "h1", "title": "T1" } ] } ]
    }"#);
    let augs = extract_augments_from_value(&root);
    let names: Vec<&str> = augs.iter().map(|a| a.info.api_name.as_str()).collect();
    assert_eq!(names, vec!["A1", "TFT_Augment_B", "h1"]);
    assert_eq!(augs[0].info.desc, "x");
    assert_eq!(augs[0].info.icon_path, convert_lcu_icon_path("ASSETS/Maps/x.tex"));
    assert!(augs[0].effects.is_some());
    assert!(augs[1].effects.is_none());
    assert_eq!(augs[2].info.name, "T1");
    let bare = j(r#"[ { "apiName": "TFT_Augment_C", "name": "C" } ]"#);
    assert_eq!(extract_augments_from_value(&bare).len(), 1);
}

#[test]
fn catalogue_dictionaries_take_the_last_record() {
    let root = j(r#"{
        "setData": [ {
            "champions": [ { "apiName": "TFT13_Jinx", "name": "金克丝", "squareIcon": "ASSETS/a.tex" } ],
            "traits": [ { "apiName": "TFT13_Sniper", "name": "狙神", "icon": "" } ]
        } ],
        "sets": { "13": { "champions": [ { "apiName": "TFT13_Jinx", "name": "新金克丝" } ] } },
        "items": [ { "apiName": "TFT_Item_BFSword", "name": "暴风大剑", "icon": "ASSETS/Items/BF.tex" } ],
        "augments": [ { "apiName": "TFT_Augment_X", "icon": "x.png" } ]
    }"#);
    let m = parse_tft_data_from_value(&root);
    assert_eq!(look(&m.champions, "TFT13_Jinx"), Some("新金克丝"));
    assert_eq!(look(&m.champions, "tft13_jinx"), Some("新金克丝"));
    let icon = convert_lcu_icon_path("ASSETS/a.tex");
    assert_eq!(look(&m.champion_icons, "tft13_jinx"), Some(icon.as_str()));
    assert_eq!(look(&m.traits, "tft13_sniper"), Some("狙神"));
    assert!(m.trait_icons.is_empty());
    assert_eq!(look(&m.item_names, "tft_item_bfsword"), Some("暴风大剑"));
    let x = convert_lcu_icon_path("x.png");
    assert_eq!(look(&m.item_icons, "TFT_Augment_X"), Some(x.as_str()));
    assert_eq!(look(&m.item_names, "TFT_Augment_X"), None);
}

#[test]
fn trait_keys_and_meta_maps() {
    assert_eq!(trait_key_exec("TFT13_Sniper"), "sniper");
    assert_eq!(trait_key_exec("Set9_BruiserTrait"), "bruiser");
    assert_eq!(trait_key_exec("TFT10_Trait"), "tft10");
    assert_eq!(trait_key_exec("Trait"), "trait");
    let m = TftDataMapping {
        champions: vec![],
        traits: vec![
            ("TFT13_Sniper".to_string(), "狙神".to_string()),
            ("Set9_BruiserTrait".to_string(), "斗士".to_string()),
            ("TFT14_Sniper".to_string(), "新狙神".to_string()),
        ],
        champion_icons: vec![("TFT13_Jinx".to_string(), "ASSETS/Characters/Jinx.tex".to_string())],
        trait_icons: vec![],
        item_icons: vec![("Item".to_string(), "ASSETS/Items/BF.tex".to_string())],
        item_names: vec![("Item".to_string(), "剑".to_string())],
    };
    let t = build_trait_name_map_from_mapping(&m);
    assert_eq!(look(&t, "sniper"), Some("狙神"));
    assert_eq!(look(&t, "snipertrait"), Some("狙神"));
    assert_eq!(look(&t, "bruiser"), Some("斗士"));
    assert_eq!(look(&t, "bruisertrait"), Some("斗士"));
    let maps = tft_meta_maps(&m);
    assert_eq!(look(&maps.champion_name_map, "TFT13_Jinx"), Some("Jinx"));
    assert_eq!(look(&maps.champion_name_map, "tft13_jinx"), Some("Jinx"));
    let cd = convert_lcu_icon_path_to_cdragon("ASSETS/Characters/Jinx.tex");
    assert_eq!(look(&maps.champion_icon_map, "TFT13_Jinx"), Some(cd.as_str()));
    assert_eq!(look(&maps.item_name_map, "Item"), Some("剑"));
    let empty = tft_meta_maps(&TftDataMapping {
        champions: vec![],
        traits: vec![],
        champion_icons: vec![("a".to_string(), "b".to_string())],
        trait_icons: vec![],
        item_icons: vec![],
        item_names: vec![],
    });
    assert!(empty.champion_icon_map.is_empty() && empty.trait_name_map.is_empty());
}

#[test]
fn release_notes_and_github_rules() {
    assert_eq!(normalize_version("  v1.2.3 "), "1.2.3");
    assert_eq!(normalize_version("vv2"), "2");
    assert_eq!(normalize_version(" v "), "");
    let data = j(r#"[{"tag_name": "v1.0.0", "published_at": "2024", "body": "notes"}, {}]"#);
    let rel = releases_from_value(&data).unwrap();
    assert_eq!(rel.len(), 2);
    assert_eq!(rel[0].tag, "v1.0.0");
    assert_eq!(rel[1].body, "");
    assert_eq!(releases_from_value(&j("{}")).err().unwrap(), "版本数据格式错误");
    let cache = vec![ReleaseEntry { tag: "v1.0.0".into(), published_at: String::new(), body: String::new() }];
    assert!(changelog_cache_usable(false, &cache, Some("1.0.0")));
    assert!(!changelog_cache_usable(false, &cache, Some("v1.1.0")));
    assert!(changelog_cache_usable(false, &cache, Some(" v ")));
    assert!(!changelog_cache_usable(true, &cache, None));
    assert!(!changelog_cache_usable(false, &vec![], None));
    assert!(is_github_host("api.github.com"));
    assert!(is_github_host("objects.githubusercontent.com"));
    assert!(!is_github_host("example.com"));
    assert_eq!(proxy_url("127.0.0.1:7890"), "http://127.0.0.1:7890");
    assert_eq!(proxy_url("socks5://h:1"), "socks5://h:1");
}

#[test]
fn client_auth_header_is_basic_riot() {
    assert_eq!(build_auth_header("abc"), "Basic cmlvdDphYmM=");
    assert_eq!(auth_header_from_encoded("xyz"), "Basic xyz");
}

#[test]
fn client_command_helpers() {
    assert_eq!(deletable_page_id(Some(&j(r#"{"isDeletable": true, "id": 5}"#))), Some(5));
    assert_eq!(deletable_page_id(Some(&j(r#"{"isDeletable": false, "id": 5}"#))), None);
    assert_eq!(deletable_page_id(Some(&j(r#"{"isDeletable": true, "id": 0}"#))), None);
    assert_eq!(deletable_page_id(None), None);
    let s = skin_entry(103, 103001, "Skin".to_string(), None);
    assert_eq!(s.load_screen_path, "/lol-game-data/assets/v1/champion-loadscreens/103/103001.jpg");
    let s = skin_entry(103, 1, "Skin".to_string(), Some("/p.jpg".to_string()));
    assert_eq!(s.load_screen_path, "/p.jpg");
    assert_eq!(swap_back_champion(&j(r#"{"championId": 22}"#)), Ok(22));
    assert_eq!(swap_back_champion(&j("{}")), Err("未选择英雄，无法摇号换回".to_string()));
    assert_eq!(swap_back_message(22), "摇号换回成功 (原英雄: 22)");
    let paths = vec!["WEGAME".to_string(), "D:/LoL".to_string()];
    assert_eq!(real_client_path(&paths, "WEGAME").map(|s| s.as_str()), Some("D:/LoL"));
    assert_eq!(real_client_path(&vec!["WEGAME".to_string()], "WEGAME"), None);
    assert_eq!(configured_wegame_path(Some("  C:/WeGame ")).as_deref(), Some("C:/WeGame"));
    assert_eq!(configured_wegame_path(Some("   ")), None);
    assert_eq!(configured_wegame_path(None), None);
    assert_eq!(catalogue_proxy_url("127.0.0.1:1080"), "http://127.0.0.1:1080");
    assert_eq!(catalogue_proxy_url("https://p"), "https://p");
}

#[test]
fn client_launch_rules() {
    assert!(is_league_client_process("LeagueClientUx.EXE"));
    assert!(!is_league_client_process("LeagueClient.exe"));
    assert!(is_league_client_exe("LeagueClient.exe"));
    assert!(!is_league_client_exe("Client.exe"));
    assert_eq!(
        riot_launch_args("C:/Riot Games/League of Legends (PBE)/LeagueClient.exe"),
        vec!["--launch-product=league_of_legends", "--launch-patchline=pbe"]
    );
    assert_eq!(
        riot_launch_args("C:/Riot Games/League of Legends/LeagueClient.exe"),
        vec!["--launch-product=league_of_legends", "--launch-patchline=live"]
    );
    assert!(needs_elevation(Some(740)));
    assert!(needs_elevation(Some(5)));
    assert!(!needs_elevation(Some(2)));
    assert!(!needs_elevation(None));
    assert_eq!(
        elevated_start_command("C:/a'b/x.exe", "C:/a'b", &vec![]),
        "Start-Process -FilePath 'C:/a''b/x.exe' -WorkingDirectory 'C:/a''b' -Verb RunAs"
    );
    assert_eq!(
        elevated_start_command("e", "w", &vec!["--x".to_string(), "y'z".to_string()]),
        "Start-Process -FilePath 'e' -ArgumentList '--x', 'y''z' -WorkingDirectory 'w' -Verb RunAs"
    );
}

#[test]
fn opgg_addresses_and_replies() {
    assert_eq!(
        opgg_url("kr", "ranked", Some(103), Some("mid")),
        "https://lol-api-champion.op.gg/api/kr/champions/ranked/103/mid"
    );
    assert_eq!(
        opgg_url("kr", "ranked", Some(103), None),
        "https://lol-api-champion.op.gg/api/kr/champions/ranked/103/none"
    );
    assert_eq!(opgg_url("kr", "arena", Some(103), Some("x")), "https://lol-api-champion.op.gg/api/kr/champions/103");
    assert_eq!(opgg_url("kr", "ranked", None, None), "https://lol-api-champion.op.gg/api/kr/champions/ranked");
    let bad = j(r#"{"error": {"message": "bad"}}"#);
    assert_eq!(mcp_content_text(&bad), Err("OP.GG MCP 返回错误: bad".to_string()));
    let unknown = j(r#"{"error": {}}"#);
    assert_eq!(mcp_content_text(&unknown), Err("OP.GG MCP 返回错误: 未知 MCP 错误".to_string()));
    let ok = j(r#"{"result": {"content": [{"text": "[1]"}]}}"#);
    assert_eq!(mcp_content_text(&ok), Ok("[1]"));
    assert_eq!(
        mcp_content_text(&j("{}")),
        Err("OP.GG MCP 响应格式异常: 缺少 result.content[].text".to_string())
    );
}

#[test]
fn registry_values_and_paths() {
    let out = "\r\nHKEY_CURRENT_USER\\SOFTWARE\\Tencent\\LOL\r\n    InstallPath    REG_SZ    D:\\Games\\LOL\r\n\r\n";
    assert_eq!(reg_string_from_output(out, "InstallPath").as_deref(), Some("D:/Games/LOL"));
    assert_eq!(reg_string_from_output(out, "Missing"), None);
    let two = "InstallPath REG_DWORD 1\nInstallPath REG_SZ   \nInstallPath REG_SZ E:\\x";
    assert_eq!(reg_string_from_output(two, "InstallPath").as_deref(), Some("E:/x"));
    assert_eq!(reg_string_from_output("", "InstallPath"), None);
    assert_eq!(normalize_install_path("d:\\Games\\LOL"), "D:/Games/LOL");
    assert_eq!(normalize_install_path("\\\\server\\x"), "//server/x");
    assert_eq!(clean_display_icon("\"C:\\WeGame\\wegame.exe\",0"), "C:\\WeGame\\wegame.exe");
    assert_eq!(clean_display_icon("  x  "), "x");
    assert!(mentions_wegame("WeGame 腾讯"));
    assert!(!mentions_wegame("QQ"));
    assert!(is_wegame_process("WeGame.exe"));
    assert!(is_wegame_process("wegame"));
    assert!(!is_wegame_process("foo"));
}

#[test]
fn reconnect_backs_off_exponentially() {
    assert_eq!(reconnect_delay_ms(1), Some(500));
    assert_eq!(reconnect_delay_ms(2), Some(1000));
    assert_eq!(reconnect_delay_ms(3), Some(2000));
    assert_eq!(reconnect_delay_ms(4), Some(4000));
    assert_eq!(reconnect_delay_ms(RECONNECT_ATTEMPTS), None);
    assert_eq!(reconnect_delay_ms(0), None);
}
