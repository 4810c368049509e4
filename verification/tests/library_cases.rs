use yuumi::sgp_match::{read_stats, sgp_game_to_lcu_match};
use yuumi::match_display::{timestamp_to_short_str, timestamp_to_str};
use yuumi::detail_cache::{MatchDetailCache, DETAIL_MAX_ENTRIES, DETAIL_TTL_MS};
use yuumi::json::{Json, JsonNumber};
use yuumi::kda::kda_text;
use yuumi::upload_payload::{build_upload_payload, GameDetail};
use yuumi::current_game::current_game_header;
use yuumi::queue::{get_queue_info, is_tft_queue, QueueEntry, QueueTable};
use yuumi::loot_actions::{
    collect_extra_ingredients, craft_repeat, is_permanent_loot, recipe_for_keyword,
    reroll_group_count, reroll_keyword, reroll_reward_name, select_upgrade_recipe,
    upgrade_craft_body, upgrade_event, upgrade_failure_message, RepeatRun,
};
use yuumi::loot_inventory::{
    build_loot_inventory, clean_loot_item, essence_balances, owned_ids_from_reply, IdRule,
    OwnedCollections,
};
use yuumi::tft::TftDataMapping;
use yuumi::tft_history::{build_tft_history, build_tft_match, sort_participants_by_placement};
use yuumi::tft_participant::parse_single_tft_participant;

fn conv(v: &serde_json::Value) -> Json {
    match v {
        serde_json::Value::Null => Json::Null,
        serde_json::Value::Bool(b) => Json::Bool(*b),
        serde_json::Value::Number(n) => {
            if let Some(u) = n.as_u64() {
                Json::Number(JsonNumber::PosInt(u))
            } else if let Some(i) = n.as_i64() {
                Json::Number(JsonNumber::NegInt(i))
            } else {
                Json::Number(JsonNumber::Float(n.as_f64().unwrap_or(0.0) as u64, n.to_string()))
            }
        }
        serde_json::Value::String(s) => Json::Str(s.clone()),
        serde_json::Value::Array(a) => Json::Array(a.iter().map(conv).collect()),
        serde_json::Value::Object(m) => {
            Json::Object(m.iter().map(|(k, v)| (k.clone(), conv(v))).collect())
        }
    }
}

fn j(text: &str) -> Json {
    conv(&serde_json::from_str::<serde_json::Value>(text).unwrap())
}

fn pairs(v: &[(&str, &str)]) -> Vec<(String, String)> {
    v.iter().map(|(a, b)| (a.to_string(), b.to_string())).collect()
}

fn mapping() -> TftDataMapping {
    TftDataMapping {
        champions: pairs(&[("TFT13_Jinx", "金克丝")]),
        traits: pairs(&[("TFT13_Sniper", "狙神")]),
        champion_icons: pairs(&[("tft13_jinx", "ASSETS/Characters/Jinx.tex")]),
        trait_icons: pairs(&[]),
        item_icons: pairs(&[("TFT_Item_BFSword", "ASSETS/Items/BF.tex")]),
        item_names: pairs(&[("TFT_Item_BFSword", "暴风大剑")]),
    }
}

#[test]
fn kda_matches_double_precision_formatting() {
    let mut cases: Vec<(i32, i32, i32)> = vec![
        (1, 40, 0),
        (3, 200, 0),
        (1, 8, 0),
        (3, 8, 0),
        (7, 40, 0),
        (0, -5, 0),
        (-1, 40, 0),
        (1, -40, 0),
        (i32::MAX, 1, i32::MAX),
        (i32::MIN, 7, i32::MIN),
        (10, 2, 8),
    ];
    for k in -30..60 {
        for d in -45..45 {
            if d != 0 {
                cases.push((k, d, k % 7));
            }
        }
    }
    for (k, d, a) in cases {
        let expected = if d == 0 {
            "Perfect".to_string()
        } else {
            format!("{:.2}", (k as f64 + a as f64) / d as f64)
        };
        assert_eq!(kda_text(k, d, a), expected, "k={} d={} a={}", k, d, a);
    }
    assert_eq!(kda_text(3, 0, 4), "Perfect");
    assert_eq!(kda_text(1, 40, 0), "0.03");
    assert_eq!(kda_text(1, 8, 0), "0.12");
}

#[test]
fn tft_participant_reads_identity_board_and_augments() {
    let p = j(r#"{
        "puuid": "p-1",
        "riotIdGameName": "Alice",
        "riotIdTagline": "CN1",
        "placement": 2,
        "level": 8,
        "gold_left": 5,
        "total_damage_to_players": 77,
        "companion": { "item_ID": 42 },
        "units": [
            { "character_id": "TFT13_Jinx", "rarity": 4, "tier": 2, "itemNames": ["TFT_Item_BFSword", "TFT_Item_Unknown", 7] },
            { "character_id": "TFT13_Other", "name": "Other" }
        ],
        "traits": [
            { "name": "TFT13_Sniper", "num_units": 2, "tier_current": 1 },
            { "name": "TFT13_Idle", "num_units": 0, "tier_current": 0 }
        ],
        "augments": ["TFT_Augment_A", 12, null]
    }"#);
    let d = parse_single_tft_participant(&p, None, &mapping(), "p-1");
    assert_eq!(d.puuid, "p-1");
    assert_eq!(d.summoner_name, "Alice#CN1");
    assert!(d.is_self);
    assert_eq!(d.placement, 2);
    assert_eq!(d.level, 8);
    assert_eq!(d.gold_left, 5);
    assert_eq!(d.total_damage_to_players, 77);
    assert_eq!(d.companion_icon_url, "/lol-game-data/assets/v1/profile-icons/42.jpg");
    assert_eq!(d.units.len(), 2);
    assert_eq!(d.units[0].name, "金克丝");
    assert_eq!(d.units[0].icon_url, "/lol-game-data/assets/assets/characters/jinx.png");
    assert_eq!(d.units[0].item_names, vec!["暴风大剑", "TFT_Item_Unknown", "7"]);
    assert_eq!(d.units[0].item_icon_urls, vec!["/lol-game-data/assets/assets/items/bf.png"]);
    assert_eq!(d.units[1].name, "Other");
    assert_eq!(d.units[1].tier, 1);
    assert_eq!(d.traits.len(), 1);
    assert_eq!(d.traits[0].name, "狙神");
    assert_eq!(d.augments, vec!["TFT_Augment_A", "12"]);
}

#[test]
fn tft_participant_name_falls_back_to_placeholder() {
    let p = j(r#"{ "participantId": 3, "stats": { "rank": 5 } }"#);
    let d = parse_single_tft_participant(&p, None, &mapping(), "me");
    assert_eq!(d.summoner_name, "玩家 3");
    assert_eq!(d.placement, 5);
    assert!(!d.is_self);
    let q = j(r#"{}"#);
    let e = parse_single_tft_participant(&q, None, &mapping(), "me");
    assert_eq!(e.summoner_name, "召唤师");
    assert_eq!(e.placement, 8);
    let ident = ("me".to_string(), "Known".to_string());
    let f = parse_single_tft_participant(&q, Some(&ident), &mapping(), "me");
    assert_eq!(f.summoner_name, "Known");
    assert!(f.is_self);
}

#[test]
fn tft_match_sorts_by_placement_and_shows_the_owner() {
    let g = j(r#"{
        "gameId": 9,
        "gameCreation": 1700000000000,
        "game_length": 1999.7,
        "queueId": 1100,
        "participantIdentities": [
            { "participantId": 1, "player": { "puuid": "a", "gameName": "A", "tagLine": "1" } },
            { "participantId": 2, "player": { "puuid": "b", "summonerName": "B" } }
        ],
        "participants": [
            { "participantId": 1, "placement": 4 },
            { "participantId": 2, "placement": 1 },
            { "puuid": "c", "placement": 4 }
        ]
    }"#);
    let m = build_tft_match(&g, &mapping(), "a");
    assert_eq!(m.game_id, 9);
    assert_eq!(m.queue_name, "云顶之弈(排位)");
    assert_eq!(m.game_duration, 1999);
    assert_eq!(m.duration_str, "33:19");
    assert_eq!(m.time_str, "11-15 06:13");
    let order: Vec<&str> = m.participants.iter().map(|p| p.puuid.as_str()).collect();
    assert_eq!(order, vec!["b", "a", "c"]);
    assert_eq!(m.participants[1].summoner_name, "A#1");
    assert_eq!(m.placement, 4);
    let other = build_tft_match(&g, &mapping(), "nobody");
    assert_eq!(other.placement, 1);
    let empty = build_tft_match(&j("{}"), &mapping(), "x");
    assert_eq!(empty.placement, 8);
    assert_eq!(empty.level, 1);
    assert_eq!(empty.queue_name, "云顶模式");
}

#[test]
fn tft_history_tallies_placements() {
    let raw = j(r#"{ "games": { "games": [
        { "json": { "gameId": 1, "participants": [ { "puuid": "me", "placement": 1 } ] } },
        { "json": "{\"gameId\": 2}" },
        { "gameId": 3, "participants": [ { "puuid": "me", "placement": 6 } ] }
    ] } }"#);
    let parsed = vec![None, Some(j(r#"{"gameId": 2, "participants": [ { "puuid": "me", "placement": 3 } ]}"#)), None];
    let h = build_tft_history(&raw, &parsed, &mapping(), "me");
    assert_eq!(h.matches.len(), 3);
    assert_eq!(h.matches[1].game_id, 2);
    assert_eq!(h.win_count, 1);
    assert_eq!(h.top4_count, 2);
    assert_eq!(h.placement_sum, 10);
}

#[test]
fn sort_by_placement_is_stable() {
    let mk = |puuid: &str, placement: i32| {
        let p = j(&format!(r#"{{"puuid": "{}", "placement": {}}}"#, puuid, placement));
        parse_single_tft_participant(&p, None, &mapping(), "")
    };
    let sorted = sort_participants_by_placement(vec![mk("x", 3), mk("y", 1), mk("z", 3), mk("w", 2)]);
    let order: Vec<&str> = sorted.iter().map(|p| p.puuid.as_str()).collect();
    assert_eq!(order, vec!["y", "w", "x", "z"]);
}

fn owned_none() -> OwnedCollections {
    OwnedCollections { skins: vec![], icons: vec![], emotes: vec![], ward_skins: vec![] }
}

#[test]
fn loot_inventory_cleans_and_marks_owned() {
    let raw = match j(r#"[
        { "lootId": "CHAMPION_SKIN_RENTAL_1", "count": 2, "displayCategories": "SKIN", "storeItemId": 11, "itemDesc": "Skin" },
        { "lootId": " ", "count": 1 },
        { "lootId": "TFT_thing", "count": 1 },
        { "lootId": "CHEST_128", "count": 1, "localizedName": "" },
        { "lootId": "MATERIAL_key", "count": 0 },
        { "lootId": "MATERIAL_key_fragment", "count": 3, "tilePath": "/t.png", "rarity": "EPIC" }
    ]"#) {
        Json::Array(v) => v,
        _ => unreachable!(),
    };
    let mut owned = owned_none();
    owned.skins = vec![11];
    let inv = build_loot_inventory(&raw, &owned);
    assert_eq!(inv.len(), 3);
    assert_eq!(inv[0].item_status, "OWNED");
    assert_eq!(inv[0].item_desc, "Skin");
    assert_eq!(inv[1].item_desc, "英雄魔法引擎");
    assert_eq!(inv[1].item_status, "NONE");
    assert_eq!(inv[2].item_desc, "钥匙碎片");
    assert_eq!(inv[2].tile_path.as_deref(), Some("/t.png"));
    assert_eq!(inv[2].rarity, "EPIC");
    assert!(clean_loot_item(&raw[1], &owned).is_none());
}

#[test]
fn essence_balances_read_currencies() {
    let raw = match j(r#"[
        { "lootId": "CURRENCY_champion", "count": 1200 },
        { "lootId": "CURRENCY_cosmetic", "count": 55 },
        { "lootId": "CURRENCY_champion", "count": 1300 }
    ]"#) {
        Json::Array(v) => v,
        _ => unreachable!(),
    };
    let b = essence_balances(&raw);
    assert_eq!(b.blue_essence, 1300);
    assert_eq!(b.orange_essence, 55);
}

#[test]
fn owned_ids_follow_each_collection_rule() {
    let skins = j(r#"[ { "id": 1, "ownership": { "owned": true } }, { "id": 2, "ownership": { "owned": false } }, { "id": 3 } ]"#);
    assert_eq!(owned_ids_from_reply(IdRule::Ownership, &skins), vec![1]);
    let icons = j(r#"{ "icons": [ { "id": 5 }, { "iconId": 6 } ] }"#);
    assert_eq!(owned_ids_from_reply(IdRule::IconId, &icons), vec![5, 6]);
    let emotes = j(r#"[ { "itemId": 7, "id": 8 }, { "id": 9 } ]"#);
    assert_eq!(owned_ids_from_reply(IdRule::ItemId, &emotes), vec![7, 9]);
    assert!(owned_ids_from_reply(IdRule::ItemId, &j(r#"{ "icons": [ { "id": 1 } ] }"#)).is_empty());
}

#[test]
fn upgrade_recipe_choice_and_fallbacks() {
    let recipes = match j(r#"[
        { "recipeName": "SKIN_reroll" },
        { "recipeName": "SKIN_upgrade", "slots": [ { "lootIds": ["CURRENCY_cosmetic"] } ] },
        { "recipeName": "SKIN_permanent_x", "cost": { "a": "CURRENCY_champion", "b": ["CURRENCY_cosmetic"] } }
    ]"#) {
        Json::Array(v) => v,
        _ => unreachable!(),
    };
    let (name, extra) = select_upgrade_recipe(&recipes, "CHAMPION_SKIN_RENTAL_1", None).unwrap();
    assert_eq!(name, "SKIN_permanent_x");
    assert_eq!(extra, vec!["CURRENCY_champion", "CURRENCY_cosmetic"]);
    let (name2, extra2) = select_upgrade_recipe(&recipes, "X", Some("SKIN_upgrade")).unwrap();
    assert_eq!(name2, "SKIN_upgrade");
    assert_eq!(extra2, vec!["CURRENCY_cosmetic"]);
    let none: Vec<Json> = vec![j(r#"{ "recipeName": "A_reroll" }"#)];
    assert_eq!(
        select_upgrade_recipe(&none, "summoner_icon_5", None).unwrap().0,
        "SUMMONERICON_open"
    );
    assert_eq!(select_upgrade_recipe(&none, "WARDSKIN_3", Some("")).unwrap().0, "WARDSKIN_open");
    let err = select_upgrade_recipe(&none, "CHAMPION_1", None).unwrap_err();
    assert_eq!(
        err,
        "未找到解锁/升级配方（已尝试 permanent/upgrade/open/claim/activate/unlock），可用配方: [\"A_reroll\"]"
    );
    assert_eq!(collect_extra_ingredients(&j(r#"{"x": 1}"#)), Vec::<String>::new());
    assert_eq!(recipe_for_keyword(&none, "REROLL").unwrap(), "A_reroll");
    assert_eq!(
        recipe_for_keyword(&none, "disenchant").unwrap_err(),
        "未找到包含关键字 'disenchant' 的配方"
    );
}

#[test]
fn upgrade_plan_and_run() {
    assert!(is_permanent_loot("CHAMPION_SKIN_1"));
    assert!(!is_permanent_loot("champion_skin_rental_1"));
    assert!(!is_permanent_loot("CHAMPION_shard_1"));
    assert_eq!(craft_repeat("STATSTONE_SHARD_1", 3), (3, 1));
    assert_eq!(craft_repeat("CHAMPION_SKIN_RENTAL_1", 3), (1, 3));
    assert_eq!(
        upgrade_craft_body("A", vec!["CURRENCY_champion".into()]),
        vec!["A", "CURRENCY_champion"]
    );
    let mut run = RepeatRun::new(3);
    assert!(run.wants_call());
    run.record_success();
    run.record_success();
    run.record_failure("boom".into());
    assert!(!run.wants_call());
    let e = upgrade_event(1, 2, "A", &run, true);
    assert!(!e.success);
    assert_eq!(e.error_msg.as_deref(), Some("boom"));
    let mut ok = RepeatRun::new(2);
    while ok.wants_call() {
        ok.record_success();
    }
    let e2 = upgrade_event(2, 2, "B", &ok, false);
    assert!(e2.success);
    assert_eq!(e2.reward_desc, "成功升级 2 个");
    let none = RepeatRun::new(-1);
    assert!(!none.wants_call());
    assert_eq!(upgrade_event(1, 1, "C", &none, true).reward_desc, "成功解锁 0 个");
    assert_eq!(
        upgrade_failure_message("400 Bad Request", "CLIENT_ERROR x", true),
        "HTTP 400 Bad Request: CLIENT_ERROR x (通常由于未拥有皮肤对应的英雄，或该永久道具已在当前账号拥有。)"
    );
    assert_eq!(upgrade_failure_message("500", "oops", false), "HTTP 500: oops");
}

#[test]
fn reroll_rules() {
    assert!(reroll_group_count(0).is_err());
    assert_eq!(reroll_group_count(4).unwrap_err(), "重随必须提供3的倍数个物品");
    assert_eq!(reroll_group_count(9).unwrap(), 3);
    assert_eq!(reroll_keyword("EMOTE_1"), "forge");
    assert_eq!(reroll_keyword("CHAMPION_1"), "reroll");
    let detail = j(r#"{ "added": [ { "playerLoot": { "itemDesc": "A" } }, { "playerLoot": {} }, { "playerLoot": { "itemDesc": "B" } } ] }"#);
    assert_eq!(reroll_reward_name(Some(&detail)), "A, B");
    assert_eq!(reroll_reward_name(Some(&j("{}"))), "未知永久物品");
    assert_eq!(reroll_reward_name(None), "未知永久物品");
}

#[test]
fn detail_cache_expires_and_evicts() {
    let mut cache = MatchDetailCache::new();
    cache.put(1, j("{\"v\": 1}"), 0);
    assert!(cache.get(1, DETAIL_TTL_MS - 1).is_some());
    assert!(cache.get(1, DETAIL_TTL_MS).is_none());
    cache.put(1, j("{\"v\": 2}"), 10);
    assert_eq!(cache.get(1, 10).and_then(|v| v.i64_at("v")), Some(2));
    for id in 100..(100 + DETAIL_MAX_ENTRIES as u64) {
        cache.put(id, j("{}"), 20 + id);
    }
    assert_eq!(cache.entries.len(), DETAIL_MAX_ENTRIES);
    assert!(cache.get(1, 200).is_none());
    assert!(cache.get(100, 200).is_some());
    cache.put(500, j("{}"), 300);
    assert_eq!(cache.entries.len(), DETAIL_MAX_ENTRIES);
    assert!(cache.get(100, 300).is_none());
    assert!(cache.get(101, 300).is_some());
}

#[test]
fn timestamps_past_chrono_range_fall_back() {
    assert_eq!(timestamp_to_str(u64::MAX), "1970-01-01 00:00");
    assert_eq!(timestamp_to_short_str(u64::MAX), "01-01 00:00");
    assert_eq!(timestamp_to_str(8_210_266_876_800_000), "1970-01-01 00:00");
    assert_eq!(timestamp_to_short_str(8_210_266_876_800_000), "01-01 00:00");
}

#[test]
fn sgp_game_keeps_a_nonzero_rune_and_reads_defaults() {
    let g = j(r#"{
        "gameId": 7, "gameDuration": 95.5, "queueId": 450, "mapId": 12,
        "participants": [{
            "puuid": "Me", "spell1Id": 4,
            "stats": { "perk0": 8005, "item0": 3031, "goldEarned": null, "subteamPlacement": 2,
                       "augments": [1, 2], "playerAugment3": 9, "unknownMember": "x" },
            "perks": { "styles": [{ "selections": [{ "perk": 8112 }] }] }
        }]
    }"#);
    let game = sgp_game_to_lcu_match(&g, "ME").unwrap();
    assert_eq!(game.game_id, 7);
    assert_eq!(game.game_creation, 0);
    assert_eq!(game.game_duration, 95);
    assert_eq!(game.queue_id, 450);
    assert_eq!(game.map_id, Some(12));
    let p = &game.participants[0];
    assert_eq!(p.champion_id, 0);
    assert_eq!(p.spell1_id, 4);
    assert_eq!(p.stats.perk0, 8005);
    assert_eq!(p.stats.item0, 3031);
    assert_eq!(p.stats.gold_earned, None);
    assert_eq!(p.stats.total_minions_killed, None);
    assert_eq!(p.stats.subteam_placement, Some(2));
    assert_eq!(p.stats.augments, vec![1, 2]);
    assert_eq!(p.stats.player_augment3, 9);
    assert!(!p.stats.win);
}

#[test]
fn sgp_game_refuses_participants_that_do_not_read() {
    let no_stats = j(r#"{ "participants": [{ "puuid": "A" }] }"#);
    assert!(sgp_game_to_lcu_match(&no_stats, "a").is_none());
    let text_item = j(r#"{ "participants": [{ "puuid": "A", "stats": { "item0": "3031" } }] }"#);
    assert!(sgp_game_to_lcu_match(&text_item, "A").is_none());
    let fraction = j(r#"{ "participants": [{ "puuid": "A", "stats": { "kills": 1.5 } }] }"#);
    assert!(sgp_game_to_lcu_match(&fraction, "A").is_none());
    let too_big = j(r#"{ "participants": [{ "puuid": "A", "stats": {}, "championId": 3000000000 }] }"#);
    assert!(sgp_game_to_lcu_match(&too_big, "A").is_none());
    assert!(sgp_game_to_lcu_match(&j(r#"{ "participants": {} }"#), "A").is_none());
}

#[test]
fn sgp_stats_read_from_a_list_in_field_order() {
    let twenty = j("[true, 5, 1, 2, 18, 0, 0, 0, 0, 0, 0, 0, 8112, 100, 20, 9000, 15000, 12000, 3000, 25]");
    let s = read_stats(&twenty, Some(1)).unwrap();
    assert!(s.win);
    assert_eq!(s.kills, 5);
    assert_eq!(s.perk0, 8112);
    assert_eq!(s.vision_score, Some(25));
    assert!(s.augments.is_empty());
    let nineteen = j("[true, 5, 1, 2, 18, 0, 0, 0, 0, 0, 0, 0, 8112, 100, 20, 9000, 15000, 12000, 3000]");
    assert!(read_stats(&nineteen, None).is_none());
    assert!(read_stats(&j("5"), None).is_none());
}

fn sample_queue_table() -> QueueTable {
    let entry = |key: &str, name: &str, map: &str| QueueEntry {
        key: key.to_string(),
        name: name.to_string(),
        map: map.to_string(),
    };
    QueueTable {
        tft_queue_ids: vec![1090, 1100],
        queues: vec![entry("440", "灵活排位", "召唤师峡谷"), entry("1700", "斗魂竞技场", "斗魂竞技场")],
    }
}

#[test]
fn queue_info_reads_the_table_by_decimal_key() {
    let t = sample_queue_table();
    let flex = get_queue_info(&t, 440);
    assert_eq!(flex.name, "灵活排位");
    assert_eq!(flex.map, "召唤师峡谷");
    let arena = get_queue_info(&t, 1700);
    assert_eq!(arena.name, "斗魂竞技场");
    assert_eq!(arena.map, "斗魂竞技场");
}

#[test]
fn queue_info_unknown_queue_is_custom() {
    let t = sample_queue_table();
    let unknown = get_queue_info(&t, 0);
    assert_eq!(unknown.name, "自定义模式");
    assert_eq!(unknown.map, "自定义");
    let negative = get_queue_info(&t, -440);
    assert_eq!(negative.name, "自定义模式");
    let empty = QueueTable { tft_queue_ids: vec![], queues: vec![] };
    assert_eq!(get_queue_info(&empty, 440).map, "自定义");
    assert!(!is_tft_queue(&empty, 1090));
}

#[test]
fn current_game_header_skips_tft_queues_of_the_table() {
    let t = sample_queue_table();
    let tft = j(r#"{"gameData": {"gameId": 77, "queue": {"id": 1100}}}"#);
    assert_eq!(current_game_header(&tft, &t), None);
    let flex = j(r#"{"gameData": {"gameId": 78, "queue": {"id": 440}}}"#);
    assert_eq!(current_game_header(&flex, &t), Some((78, 440)));
    let empty = QueueTable { tft_queue_ids: vec![], queues: vec![] };
    assert_eq!(current_game_header(&tft, &empty), Some((77, 1100)));
}

/// What chrono gives for `secs` at the offset the machine's zone gives that instant.
fn local_at_fixed_offset(secs: i64, pattern: &str) -> String {
    let dt = chrono::DateTime::from_timestamp(secs, 0).unwrap();
    let off = dt.with_timezone(&chrono::Local).offset().local_minus_utc();
    assert!(-86400 < off && off < 86400);
    let tz = chrono::FixedOffset::east_opt(off).unwrap();
    dt.with_timezone(&tz).format(pattern).to_string()
}

#[test]
fn timestamp_texts_are_the_local_offset_texts() {
    let ms: u64 = 1_705_321_800_000;
    let long = timestamp_to_str(ms);
    assert_eq!(long, local_at_fixed_offset(1_705_321_800, "%Y-%m-%d %H:%M"));
    assert_eq!(long.len(), 16);
    assert_eq!(&long[4..5], "-");
    assert_eq!(&long[10..11], " ");
    assert_eq!(&long[13..14], ":");
    let short = timestamp_to_short_str(ms);
    assert_eq!(short, local_at_fixed_offset(1_705_321_800, "%m-%d %H:%M"));
    assert_eq!(short.len(), 11);
    assert!(long.ends_with(&short));
}

#[test]
fn upload_creation_time_is_the_local_offset_text() {
    let detail = GameDetail {
        game_id: Some(42),
        game_mode: None,
        game_type: None,
        queue_id: None,
        game_creation: Some(1_705_321_800_999),
        game_duration: None,
        game_version: None,
        participants: vec![],
        participant_identities: vec![],
    };
    let payload = build_upload_payload(&detail, None, &std::collections::HashMap::new());
    assert_eq!(payload.match_info.game_creation, local_at_fixed_offset(1_705_321_800, "%Y-%m-%dT%H:%M:%S"));
    assert_eq!(payload.match_info.match_id, 42);
}

#[test]
fn json_integers_read_by_value() {
    let held_negative = Json::Number(JsonNumber::NegInt(5));
    assert_eq!(held_negative.as_u64(), Some(5));
    assert_eq!(held_negative.as_i64(), Some(5));
    assert_eq!(held_negative.as_u64_lenient(), Some(5));
    let negative = Json::Number(JsonNumber::NegInt(-5));
    assert_eq!(negative.as_u64(), None);
    assert_eq!(negative.as_i64(), Some(-5));
    assert_eq!(negative.as_u64_lenient(), Some(0));
}
