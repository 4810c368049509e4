//! An SGP game read as an LCU history record: the player's participant, its
//! rune filled in from the perk styles, read with the field defaults of the
//! record types, under the game's header.
use vstd::prelude::*;

use crate::json::{array_field, field, opt_u64_lenient, i64_field, u64_field, unwrap_or, wrap_i32, Json, JsonNumber};
use crate::match_display::{
    sgp_game_header, sgp_perk0, sgp_target, sgp_target_participant, spec_sgp_perk0, LcuMatchGame,
    LcuMatchParticipant, LcuMatchStats,
};
use crate::tft::deref_json;

verus! {

/// A number read as `i32`: an integer in range (a number with a fraction does not read).
pub open spec fn json_i32(j: Json) -> Option<i32> {
    match j {
        Json::Number(JsonNumber::PosInt(n)) => if n <= 2147483647 {
            Some(n as i32)
        } else {
            None
        },
        Json::Number(JsonNumber::NegInt(n)) => if -2147483648 <= n && n <= 2147483647 {
            Some(n as i32)
        } else {
            None
        },
        _ => None,
    }
}

/// A number read as `u32`: an integer in range.
pub open spec fn json_u32(j: Json) -> Option<u32> {
    match j {
        Json::Number(JsonNumber::PosInt(n)) => if n <= 4294967295 {
            Some(n as u32)
        } else {
            None
        },
        Json::Number(JsonNumber::NegInt(n)) => if 0 <= n && n <= 4294967295 {
            Some(n as u32)
        } else {
            None
        },
        _ => None,
    }
}

/// A boolean read as `bool`.
pub open spec fn json_bool(j: Json) -> Option<bool> {
    match j {
        Json::Bool(b) => Some(b),
        _ => None,
    }
}

/// Every item read as `i32`, in order; `None` when one does not read.
pub open spec fn i32_list(items: Seq<Json>) -> Option<Seq<i32>>
    decreases items.len(),
{
    if items.len() == 0 {
        Some(Seq::empty())
    } else {
        match (i32_list(items.drop_last()), json_i32(items.last())) {
            (Some(s), Some(x)) => Some(s.push(x)),
            _ => None,
        }
    }
}

/// What a record gives for a field: the member named `key` of an object, or
/// the element at `index` of a list (a record is read from either form).
pub open spec fn member(rec: Json, key: Seq<char>, index: int) -> Option<Json> {
    match rec {
        Json::Object(_) => field(rec, key),
        Json::Array(a) => if 0 <= index < a@.len() {
            Some(a@[index])
        } else {
            None
        },
        _ => None,
    }
}

/// An `i32` field with a default: missing gives 0, a present value must read.
pub open spec fn read_i32_or_zero(m: Option<Json>) -> Option<i32> {
    match m {
        None => Some(0),
        Some(j) => json_i32(j),
    }
}

/// A `bool` field with a default: missing gives `false`.
pub open spec fn read_bool_or_false(m: Option<Json>) -> Option<bool> {
    match m {
        None => Some(false),
        Some(j) => json_bool(j),
    }
}

/// A list field with a default: missing gives the empty list.
pub open spec fn read_list_or_empty(m: Option<Json>) -> Option<Seq<i32>> {
    match m {
        None => Some(Seq::empty()),
        Some(Json::Array(a)) => i32_list(a@),
        Some(_) => None,
    }
}

/// An optional `i32` field without a default: `null` gives `None`; missing
/// gives `None` in an object and fails in a list.
pub open spec fn read_opt_i32(m: Option<Json>, listed: bool) -> Option<Option<i32>> {
    match m {
        None => if listed {
            None
        } else {
            Some(None)
        },
        Some(Json::Null) => Some(None),
        Some(j) => match json_i32(j) {
            Some(x) => Some(Some(x)),
            None => None,
        },
    }
}

/// An optional `u32` field with a default: missing or `null` gives `None`.
pub open spec fn read_opt_u32_or_none(m: Option<Json>) -> Option<Option<u32>> {
    match m {
        None => Some(None),
        Some(Json::Null) => Some(None),
        Some(j) => match json_u32(j) {
            Some(x) => Some(Some(x)),
            None => None,
        },
    }
}

/// `st` reads as the statistics `s`, the rune `perk` written over `perk0` when
/// `st` is an object. An object gives its fields by name (unknown members are
/// ignored); a list gives them in declaration order and must hold at least
/// the twenty fields up to `visionScore` and at most all twenty-eight.
pub open spec fn stats_reads(st: Json, perk: Option<i32>, s: LcuMatchStats) -> bool {
    let listed = st is Array;
    let patched = perk is Some && st is Object;
    &&& (st is Object || (st matches Json::Array(a) && 20 <= a@.len() <= 28))
    &&& read_bool_or_false(member(st, "win"@, 0)) == Some(s.win)
    &&& read_i32_or_zero(member(st, "kills"@, 1)) == Some(s.kills)
    &&& read_i32_or_zero(member(st, "deaths"@, 2)) == Some(s.deaths)
    &&& read_i32_or_zero(member(st, "assists"@, 3)) == Some(s.assists)
    &&& read_i32_or_zero(member(st, "champLevel"@, 4)) == Some(s.champ_level)
    &&& read_i32_or_zero(member(st, "item0"@, 5)) == Some(s.item0)
    &&& read_i32_or_zero(member(st, "item1"@, 6)) == Some(s.item1)
    &&& read_i32_or_zero(member(st, "item2"@, 7)) == Some(s.item2)
    &&& read_i32_or_zero(member(st, "item3"@, 8)) == Some(s.item3)
    &&& read_i32_or_zero(member(st, "item4"@, 9)) == Some(s.item4)
    &&& read_i32_or_zero(member(st, "item5"@, 10)) == Some(s.item5)
    &&& read_i32_or_zero(member(st, "item6"@, 11)) == Some(s.item6)
    &&& (if patched {
        perk == Some(s.perk0)
    } else {
        read_i32_or_zero(member(st, "perk0"@, 12)) == Some(s.perk0)
    })
    &&& read_opt_i32(member(st, "totalMinionsKilled"@, 13), listed) == Some(s.total_minions_killed)
    &&& read_opt_i32(member(st, "neutralMinionsKilled"@, 14), listed) == Some(s.neutral_minions_killed)
    &&& read_opt_i32(member(st, "goldEarned"@, 15), listed) == Some(s.gold_earned)
    &&& read_opt_i32(member(st, "totalDamageDealtToChampions"@, 16), listed) == Some(
        s.total_damage_dealt_to_champions,
    )
    &&& read_opt_i32(member(st, "totalDamageTaken"@, 17), listed) == Some(s.total_damage_taken)
    &&& read_opt_i32(member(st, "totalHeal"@, 18), listed) == Some(s.total_heal)
    &&& read_opt_i32(member(st, "visionScore"@, 19), listed) == Some(s.vision_score)
    &&& read_bool_or_false(member(st, "gameEndedInEarlySurrender"@, 20)) == Some(
        s.game_ended_in_early_surrender,
    )
    &&& read_opt_u32_or_none(member(st, "subteamPlacement"@, 21)) == Some(s.subteam_placement)
    &&& read_list_or_empty(member(st, "augments"@, 22)) == Some(s.augments@)
    &&& read_i32_or_zero(member(st, "playerAugment1"@, 23)) == Some(s.player_augment1)
    &&& read_i32_or_zero(member(st, "playerAugment2"@, 24)) == Some(s.player_augment2)
    &&& read_i32_or_zero(member(st, "playerAugment3"@, 25)) == Some(s.player_augment3)
    &&& read_i32_or_zero(member(st, "playerAugment4"@, 26)) == Some(s.player_augment4)
    &&& read_i32_or_zero(member(st, "playerAugment5"@, 27)) == Some(s.player_augment5)
}

/// The participant object `p` reads as `q`: champion and spells default to 0,
/// the statistics are required, with the rune of `spec_sgp_perk0` filled in.
pub open spec fn participant_reads(p: Json, q: LcuMatchParticipant) -> bool {
    &&& p is Object
    &&& read_i32_or_zero(field(p, "championId"@)) == Some(q.champion_id)
    &&& read_i32_or_zero(field(p, "spell1Id"@)) == Some(q.spell1_id)
    &&& read_i32_or_zero(field(p, "spell2Id"@)) == Some(q.spell2_id)
    &&& field(p, "stats"@) matches Some(st) && stats_reads(st, spec_sgp_perk0(p), q.stats)
}

/// The header of the record built from the SGP game `g`.
pub open spec fn header_of(game: LcuMatchGame, g: Json) -> bool {
    &&& game.game_id == unwrap_or(u64_field(g, "gameId"@), 0)
    &&& game.game_creation == unwrap_or(u64_field(g, "gameCreation"@), 0)
    &&& game.game_duration == unwrap_or(opt_u64_lenient(field(g, "gameDuration"@)), 0)
    &&& game.queue_id == wrap_i32(unwrap_or(i64_field(g, "queueId"@), 0))
    &&& game.map_id == match u64_field(g, "mapId"@) {
        Some(m) => Some(m as u32),
        None => None,
    }
}

fn json_i32_exec(j: &Json) -> (r: Option<i32>)
    ensures
        r == json_i32(*j),
{
    match j {
        Json::Number(JsonNumber::PosInt(n)) => if *n <= 2147483647 {
            Some(*n as i32)
        } else {
            None
        },
        Json::Number(JsonNumber::NegInt(n)) => if -2147483648 <= *n && *n <= 2147483647 {
            Some(*n as i32)
        } else {
            None
        },
        _ => None,
    }
}

fn json_u32_exec(j: &Json) -> (r: Option<u32>)
    ensures
        r == json_u32(*j),
{
    match j {
        Json::Number(JsonNumber::PosInt(n)) => if *n <= 4294967295 {
            Some(*n as u32)
        } else {
            None
        },
        Json::Number(JsonNumber::NegInt(n)) => if 0 <= *n && *n <= 4294967295 {
            Some(*n as u32)
        } else {
            None
        },
        _ => None,
    }
}

fn i32_list_exec(items: &Vec<Json>) -> (r: Option<Vec<i32>>)
    ensures
        match r {
            Some(v) => i32_list(items@) == Some(v@),
            None => i32_list(items@) is None,
        },
{
    let mut out: Vec<i32> = Vec::new();
    let mut k: usize = 0;
    assert(items@.take(0) =~= Seq::<Json>::empty());
    while k < items.len()
        invariant
            k <= items.len(),
            i32_list(items@.take(k as int)) == Some(out@),
        decreases items.len() - k,
    {
        assert(items@.take(k + 1).drop_last() =~= items@.take(k as int));
        assert(items@.take(k + 1).last() == items@[k as int]);
        match json_i32_exec(&items[k]) {
            Some(x) => {
                out.push(x);
            },
            None => {
                proof {
                    lemma_i32_list_prefix_fails(items@, k + 1);
                }
                return None;
            },
        }
        k = k + 1;
    }
    assert(items@.take(items.len() as int) =~= items@);
    Some(out)
}

/// A list with a prefix that does not read does not read.
proof fn lemma_i32_list_prefix_fails(items: Seq<Json>, n: int)
    requires
        0 < n <= items.len(),
        i32_list(items.take(n)) is None,
    ensures
        i32_list(items) is None,
    decreases items.len() - n,
{
    if n < items.len() {
        assert(items.take(n + 1).drop_last() =~= items.take(n));
        lemma_i32_list_prefix_fails(items, n + 1);
    } else {
        assert(items.take(n) =~= items);
    }
}

fn member_exec<'a>(rec: &'a Json, key: &str, index: usize) -> (r: Option<&'a Json>)
    ensures
        deref_json(r) == member(*rec, key@, index as int),
{
    match rec {
        Json::Object(_) => rec.get(key),
        Json::Array(a) => if index < a.len() {
            Some(&a[index])
        } else {
            None
        },
        _ => None,
    }
}

fn read_i32_or_zero_exec(m: Option<&Json>) -> (r: Option<i32>)
    ensures
        r == read_i32_or_zero(deref_json(m)),
{
    match m {
        None => Some(0),
        Some(j) => json_i32_exec(j),
    }
}

fn read_bool_or_false_exec(m: Option<&Json>) -> (r: Option<bool>)
    ensures
        r == read_bool_or_false(deref_json(m)),
{
    match m {
        None => Some(false),
        Some(Json::Bool(b)) => Some(*b),
        Some(_) => None,
    }
}

fn read_list_or_empty_exec(m: Option<&Json>) -> (r: Option<Vec<i32>>)
    ensures
        match r {
            Some(v) => read_list_or_empty(deref_json(m)) == Some(v@),
            None => read_list_or_empty(deref_json(m)) is None,
        },
{
    match m {
        None => Some(Vec::new()),
        Some(Json::Array(a)) => i32_list_exec(a),
        Some(_) => None,
    }
}

fn read_opt_i32_exec(m: Option<&Json>, listed: bool) -> (r: Option<Option<i32>>)
    ensures
        r == read_opt_i32(deref_json(m), listed),
{
    match m {
        None => if listed {
            None
        } else {
            Some(None)
        },
        Some(Json::Null) => Some(None),
        Some(j) => match json_i32_exec(j) {
            Some(x) => Some(Some(x)),
            None => None,
        },
    }
}

fn read_opt_u32_or_none_exec(m: Option<&Json>) -> (r: Option<Option<u32>>)
    ensures
        r == read_opt_u32_or_none(deref_json(m)),
{
    match m {
        None => Some(None),
        Some(Json::Null) => Some(None),
        Some(j) => match json_u32_exec(j) {
            Some(x) => Some(Some(x)),
            None => None,
        },
    }
}

/// Reads the statistics of an SGP participant, with the rune `perk` written
/// over `perk0` when they are an object; `None` when they do not read.
pub fn read_stats(st: &Json, perk: Option<i32>) -> (r: Option<LcuMatchStats>)
    ensures
        match r {
            Some(s) => stats_reads(*st, perk, s),
            None => forall|s: LcuMatchStats| !#[trigger] stats_reads(*st, perk, s),
        },
{
    let (listed, is_object) = match st {
        Json::Object(_) => (false, true),
        Json::Array(a) => {
            if a.len() < 20 || a.len() > 28 {
                return None;
            }
            (true, false)
        },
        _ => return None,
    };
    let win = match read_bool_or_false_exec(member_exec(st, "win", 0)) { Some(v) => v, None => return None };
    let kills = match read_i32_or_zero_exec(member_exec(st, "kills", 1)) { Some(v) => v, None => return None };
    let deaths = match read_i32_or_zero_exec(member_exec(st, "deaths", 2)) { Some(v) => v, None => return None };
    let assists = match read_i32_or_zero_exec(member_exec(st, "assists", 3)) { Some(v) => v, None => return None };
    let champ_level = match read_i32_or_zero_exec(member_exec(st, "champLevel", 4)) { Some(v) => v, None => return None };
    let item0 = match read_i32_or_zero_exec(member_exec(st, "item0", 5)) { Some(v) => v, None => return None };
    let item1 = match read_i32_or_zero_exec(member_exec(st, "item1", 6)) { Some(v) => v, None => return None };
    let item2 = match read_i32_or_zero_exec(member_exec(st, "item2", 7)) { Some(v) => v, None => return None };
    let item3 = match read_i32_or_zero_exec(member_exec(st, "item3", 8)) { Some(v) => v, None => return None };
    let item4 = match read_i32_or_zero_exec(member_exec(st, "item4", 9)) { Some(v) => v, None => return None };
    let item5 = match read_i32_or_zero_exec(member_exec(st, "item5", 10)) { Some(v) => v, None => return None };
    let item6 = match read_i32_or_zero_exec(member_exec(st, "item6", 11)) { Some(v) => v, None => return None };
    let perk0 = match perk {
        Some(v) if is_object => v,
        _ => match read_i32_or_zero_exec(member_exec(st, "perk0", 12)) { Some(v) => v, None => return None },
    };
    let total_minions_killed = match read_opt_i32_exec(member_exec(st, "totalMinionsKilled", 13), listed) { Some(v) => v, None => return None };
    let neutral_minions_killed = match read_opt_i32_exec(member_exec(st, "neutralMinionsKilled", 14), listed) { Some(v) => v, None => return None };
    let gold_earned = match read_opt_i32_exec(member_exec(st, "goldEarned", 15), listed) { Some(v) => v, None => return None };
    let total_damage_dealt_to_champions = match read_opt_i32_exec(member_exec(st, "totalDamageDealtToChampions", 16), listed) { Some(v) => v, None => return None };
    let total_damage_taken = match read_opt_i32_exec(member_exec(st, "totalDamageTaken", 17), listed) { Some(v) => v, None => return None };
    let total_heal = match read_opt_i32_exec(member_exec(st, "totalHeal", 18), listed) { Some(v) => v, None => return None };
    let vision_score = match read_opt_i32_exec(member_exec(st, "visionScore", 19), listed) { Some(v) => v, None => return None };
    let game_ended_in_early_surrender = match read_bool_or_false_exec(member_exec(st, "gameEndedInEarlySurrender", 20)) { Some(v) => v, None => return None };
    let subteam_placement = match read_opt_u32_or_none_exec(member_exec(st, "subteamPlacement", 21)) { Some(v) => v, None => return None };
    let augments = match read_list_or_empty_exec(member_exec(st, "augments", 22)) { Some(v) => v, None => return None };
    let player_augment1 = match read_i32_or_zero_exec(member_exec(st, "playerAugment1", 23)) { Some(v) => v, None => return None };
    let player_augment2 = match read_i32_or_zero_exec(member_exec(st, "playerAugment2", 24)) { Some(v) => v, None => return None };
    let player_augment3 = match read_i32_or_zero_exec(member_exec(st, "playerAugment3", 25)) { Some(v) => v, None => return None };
    let player_augment4 = match read_i32_or_zero_exec(member_exec(st, "playerAugment4", 26)) { Some(v) => v, None => return None };
    let player_augment5 = match read_i32_or_zero_exec(member_exec(st, "playerAugment5", 27)) { Some(v) => v, None => return None };
    Some(LcuMatchStats {
        win,
        kills,
        deaths,
        assists,
        champ_level,
        item0,
        item1,
        item2,
        item3,
        item4,
        item5,
        item6,
        perk0,
        total_minions_killed,
        neutral_minions_killed,
        gold_earned,
        total_damage_dealt_to_champions,
        total_damage_taken,
        total_heal,
        vision_score,
        game_ended_in_early_surrender,
        subteam_placement,
        augments,
        player_augment1,
        player_augment2,
        player_augment3,
        player_augment4,
        player_augment5,
    })
}

/// Reads an SGP participant object as an LCU participant; `None` when it does not read.
pub fn read_participant(p: &Json) -> (r: Option<LcuMatchParticipant>)
    ensures
        match r {
            Some(q) => participant_reads(*p, q),
            None => forall|q: LcuMatchParticipant| !#[trigger] participant_reads(*p, q),
        },
{
    match p {
        Json::Object(_) => {},
        _ => return None,
    }
    let champion_id = match read_i32_or_zero_exec(p.get("championId")) { Some(v) => v, None => return None };
    let spell1_id = match read_i32_or_zero_exec(p.get("spell1Id")) { Some(v) => v, None => return None };
    let spell2_id = match read_i32_or_zero_exec(p.get("spell2Id")) { Some(v) => v, None => return None };
    let st = match p.get("stats") {
        Some(s) => s,
        None => return None,
    };
    let stats = match read_stats(st, sgp_perk0(p)) {
        Some(s) => s,
        None => return None,
    };
    Some(LcuMatchParticipant { champion_id, spell1_id, spell2_id, stats })
}

/// The record of an SGP game as the player `puuid` saw it: the game's header
/// (absent members read as zero) and the player's participant alone; `None`
/// without a participants array, without the player (matched up to ASCII
/// case), or when the player's participant does not read.
pub fn sgp_game_to_lcu_match(g: &Json, puuid: &str) -> (r: Option<LcuMatchGame>)
    ensures
        match array_field(*g, "participants"@) {
            None => r is None,
            Some(ps) => match sgp_target(ps, puuid@) {
                None => r is None,
                Some(i) => match r {
                    Some(game) => header_of(game, *g) && game.participants.len() == 1 && participant_reads(
                        ps[i],
                        game.participants@[0],
                    ),
                    None => forall|q: LcuMatchParticipant| !#[trigger] participant_reads(ps[i], q),
                },
            },
        },
{
    let ps = match g.array_at("participants") {
        Some(v) => v,
        None => return None,
    };
    let i = match sgp_target_participant(ps, puuid) {
        Some(i) => i,
        None => return None,
    };
    let part = match read_participant(&ps[i]) {
        Some(q) => q,
        None => return None,
    };
    let h = sgp_game_header(g);
    let mut participants: Vec<LcuMatchParticipant> = Vec::new();
    participants.push(part);
    Some(LcuMatchGame {
        game_id: h.game_id,
        game_creation: h.game_creation,
        game_duration: h.game_duration,
        queue_id: h.queue_id,
        map_id: h.map_id,
        participants,
    })
}

} // verus!
