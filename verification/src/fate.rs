//! The "fate" of a player met in a game: whether he played with or against the
//! current summoner, and the champion he played.
use vstd::prelude::*;

use std::collections::HashMap;

use crate::json::{str_or_empty, array_field, field, i64_field, str_field, u64_field, unwrap_or, wrap_i32, Json};
use crate::match_detail::{resolve_team_id, spec_resolve_team_id};
use crate::queue::{is_arena_queue, spec_is_arena_queue};
use crate::text::str_eq;

verus! {

/// The relation of a player to the current summoner in one game.
pub struct PlayerFateInfo {
    /// `ally` or `enemy`; `None` for the summoner himself or when a team is unknown.
    pub fate_flag: Option<String>,
    /// The name of the champion the player played, when known.
    pub recently_champion_name: Option<String>,
}

/// The participant id of an identity record that has a player and an id.
pub open spec fn ident_pid(ident: Json) -> Option<i64> {
    match field(ident, "player"@) {
        Some(_) => i64_field(ident, "participantId"@),
        None => None,
    }
}

/// The puuid of the identity's player, empty when missing.
pub open spec fn ident_puuid(ident: Json) -> Seq<char> {
    match field(ident, "player"@) {
        Some(p) => unwrap_or(str_field(p, "puuid"@), Seq::empty()),
        None => Seq::empty(),
    }
}

/// The summoner id of the identity's player, 0 when missing.
pub open spec fn ident_summoner(ident: Json) -> u64 {
    match field(ident, "player"@) {
        Some(p) => unwrap_or(u64_field(p, "summonerId"@), 0u64),
        None => 0,
    }
}

/// The participant id of the last identity whose puuid is `puuid`.
pub open spec fn pid_by_puuid(idents: Seq<Json>, puuid: Seq<char>) -> Option<i64>
    decreases idents.len(),
{
    if idents.len() == 0 {
        None
    } else if ident_pid(idents.last()) is Some && ident_puuid(idents.last()) == puuid {
        ident_pid(idents.last())
    } else {
        pid_by_puuid(idents.drop_last(), puuid)
    }
}

/// The participant id of the last identity whose summoner id is `sid`.
pub open spec fn pid_by_summoner(idents: Seq<Json>, sid: u64) -> Option<i64>
    decreases idents.len(),
{
    if idents.len() == 0 {
        None
    } else if ident_pid(idents.last()) is Some && ident_summoner(idents.last()) == sid {
        ident_pid(idents.last())
    } else {
        pid_by_summoner(idents.drop_last(), sid)
    }
}

/// The champion of the first participant whose id is `pid`.
pub open spec fn champion_of(parts: Seq<Json>, pid: i64) -> Option<i32>
    decreases parts.len(),
{
    if parts.len() == 0 {
        None
    } else if i64_field(parts[0], "participantId"@) == Some(pid) {
        match i64_field(parts[0], "championId"@) {
            Some(c) => Some(wrap_i32(c)),
            None => None,
        }
    } else {
        champion_of(parts.drop_first(), pid)
    }
}

/// The stats object of a participant (`null` when missing).
pub open spec fn stats_of(p: Json) -> Json {
    unwrap_or(field(p, "stats"@), Json::Null)
}

/// The team of the last participant whose id is `pid`.
pub open spec fn team_of(parts: Seq<Json>, pid: i64, arena: bool) -> Option<i32>
    decreases parts.len(),
{
    if parts.len() == 0 {
        None
    } else if i64_field(parts.last(), "participantId"@) == Some(pid) {
        spec_resolve_team_id(parts.last(), stats_of(parts.last()), arena)
    } else {
        team_of(parts.drop_last(), pid, arena)
    }
}

/// The relation of the target to the current summoner, from their participant ids.
pub open spec fn fate_flag_of(parts: Seq<Json>, current: Option<i64>, target: i64, arena: bool) -> Option<Seq<char>> {
    match current {
        Some(c) => if c == target {
            None
        } else {
            match (team_of(parts, c, arena), team_of(parts, target, arena)) {
                (Some(ct), Some(tt)) => Some(if ct == tt { "ally"@ } else { "enemy"@ }),
                _ => None,
            }
        },
        None => None,
    }
}

/// The view of an optional string.
pub open spec fn opt_view(o: Option<String>) -> Option<Seq<char>> {
    match o {
        Some(s) => Some(s@),
        None => None,
    }
}

/// The participant ids of the target (by puuid) and of the current summoner.
fn find_pids(idents: &Vec<Json>, target_puuid: &str, current_summoner_id: u64) -> (r: (
    Option<i64>,
    Option<i64>,
))
    ensures
        r.0 == pid_by_puuid(idents@, target_puuid@),
        r.1 == pid_by_summoner(idents@, current_summoner_id),
{
    let mut target: Option<i64> = None;
    let mut current: Option<i64> = None;
    let mut k: usize = 0;
    while k < idents.len()
        invariant
            k <= idents.len(),
            target == pid_by_puuid(idents@.take(k as int), target_puuid@),
            current == pid_by_summoner(idents@.take(k as int), current_summoner_id),
        decreases idents.len() - k,
    {
        let ident = &idents[k];
        assert(idents@.take(k + 1).drop_last() =~= idents@.take(k as int));
        assert(idents@.take(k + 1).last() == idents@[k as int]);
        match ident.get("player") {
            Some(player) => {
                let puuid = str_or_empty(player.str_at("puuid"));
                let summoner_id = match player.u64_at("summonerId") {
                    Some(n) => n,
                    None => 0,
                };
                match ident.i64_at("participantId") {
                    Some(pid) => {
                        if str_eq(puuid, target_puuid) {
                            target = Some(pid);
                        }
                        if summoner_id == current_summoner_id {
                            current = Some(pid);
                        }
                    },
                    None => {},
                }
            },
            None => {},
        }
        k = k + 1;
    }
    assert(idents@.take(idents.len() as int) =~= idents@);
    (target, current)
}

/// The champion of the first participant whose id is `pid`.
fn find_champion(parts: &Vec<Json>, pid: i64) -> (r: Option<i32>)
    ensures
        r == champion_of(parts@, pid),
{
    let mut k: usize = 0;
    assert(parts@.subrange(0, parts.len() as int) =~= parts@);
    while k < parts.len()
        invariant
            k <= parts.len(),
            champion_of(parts@.subrange(k as int, parts.len() as int), pid) == champion_of(parts@, pid),
        decreases parts.len() - k,
    {
        let ghost rest = parts@.subrange(k as int, parts.len() as int);
        assert(rest[0] == parts@[k as int]);
        assert(rest.drop_first() =~= parts@.subrange(k + 1, parts.len() as int));
        if parts[k].i64_at("participantId") == Some(pid) {
            return match parts[k].i64_at("championId") {
                Some(c) => Some(c as i32),
                None => None,
            };
        }
        k = k + 1;
    }
    None
}

/// The teams of the last participants whose ids are `a` and `b`.
fn find_teams(parts: &Vec<Json>, a: i64, b: i64, arena: bool) -> (r: (Option<i32>, Option<i32>))
    ensures
        r.0 == team_of(parts@, a, arena),
        r.1 == team_of(parts@, b, arena),
{
    let null = Json::Null;
    let mut ta: Option<i32> = None;
    let mut tb: Option<i32> = None;
    let mut k: usize = 0;
    while k < parts.len()
        invariant
            k <= parts.len(),
            null == Json::Null,
            ta == team_of(parts@.take(k as int), a, arena),
            tb == team_of(parts@.take(k as int), b, arena),
        decreases parts.len() - k,
    {
        let p = &parts[k];
        assert(parts@.take(k + 1).drop_last() =~= parts@.take(k as int));
        assert(parts@.take(k + 1).last() == parts@[k as int]);
        match p.i64_at("participantId") {
            Some(pid) => {
                let stats = match p.get("stats") {
                    Some(s) => s,
                    None => &null,
                };
                let team = resolve_team_id(p, stats, arena);
                if pid == a {
                    ta = team;
                }
                if pid == b {
                    tb = team;
                }
            },
            None => {},
        }
        k = k + 1;
    }
    assert(parts@.take(parts.len() as int) =~= parts@);
    (ta, tb)
}

/// The fate of `target_puuid` in a match detail document, seen by the summoner
/// `current_summoner_id`; `champions` names champions by id.
///
/// Fails when the document has no participant list, no identity list, or no
/// identity for the target.
pub fn player_fate_from_detail(
    detail: &Json,
    target_puuid: &str,
    current_summoner_id: u64,
    champions: &HashMap<i32, String>,
) -> (r: Result<PlayerFateInfo, String>)
    ensures
        array_field(*detail, "participants"@) is None ==> (r matches Err(e) && e@
            == "无法解析 participants"@),
        array_field(*detail, "participants"@) is Some && array_field(*detail, "participantIdentities"@)
            is None ==> (r matches Err(e) && e@ == "无法解析 participantIdentities"@),
        ({
            match (array_field(*detail, "participants"@), array_field(*detail, "participantIdentities"@)) {
                (Some(parts), Some(idents)) => {
                    let arena = spec_is_arena_queue(unwrap_or(i64_field(*detail, "queueId"@), 0i64));
                    match pid_by_puuid(idents, target_puuid@) {
                        None => (r matches Err(e) && e@ == "找不到目标玩家"@),
                        Some(target) => (r matches Ok(info) && opt_view(info.fate_flag) == fate_flag_of(
                            parts,
                            pid_by_summoner(idents, current_summoner_id),
                            target,
                            arena,
                        ) && opt_view(info.recently_champion_name) == match champion_of(parts, target) {
                            Some(cid) => if champions@.contains_key(cid) {
                                Some(champions@[cid]@)
                            } else {
                                None
                            },
                            None => None,
                        }),
                    }
                },
                _ => true,
            }
        }),
{
    broadcast use vstd::std_specs::hash::group_hash_axioms;

    let queue_id = match detail.i64_at("queueId") {
        Some(q) => q,
        None => 0,
    };
    let parts = match detail.array_at("participants") {
        Some(a) => a,
        None => return Err("无法解析 participants".to_string()),
    };
    let idents = match detail.array_at("participantIdentities") {
        Some(a) => a,
        None => return Err("无法解析 participantIdentities".to_string()),
    };
    let (target, current) = find_pids(idents, target_puuid, current_summoner_id);
    let target_pid = match target {
        Some(t) => t,
        None => return Err("找不到目标玩家".to_string()),
    };
    let recently_champion_name = match find_champion(parts, target_pid) {
        Some(cid) => match champions.get(&cid) {
            Some(n) => Some(n.clone()),
            None => None,
        },
        None => None,
    };
    let fate_flag = match current {
        Some(c) => if c == target_pid {
            None
        } else {
            let arena = is_arena_queue(queue_id);
            let (ct, tt) = find_teams(parts, c, target_pid, arena);
            match (ct, tt) {
                (Some(x), Some(y)) => if x == y {
                    Some("ally".to_string())
                } else {
                    Some("enemy".to_string())
                },
                _ => None,
            }
        },
        None => None,
    };
    Ok(PlayerFateInfo { fate_flag, recently_champion_name })
}

} // verus!
