//! Automatic player tags after a game: tag names, sensitivity, and the per-player
//! performance read from a match document.
use vstd::prelude::*;

use crate::json::{array_field, bool_field, field, i64_field, unwrap_or, Json};
use crate::match_detail::{
    extract_puuid, resolve_team_id, spec_extract_puuid, spec_resolve_team_id,
};
use crate::queue::is_arena_queue;

verus! {

/// The automatic tags, one per kind of extreme performance.
#[derive(Clone, Copy, PartialEq, Eq, Structural)]
pub enum AutoTag {
    /// Won with a high KDA and a large damage share.
    Carry,
    /// Won as the team's top damage dealer with a fair KDA.
    CarryDamage,
    /// Lost with many deaths, a low KDA and the lowest damage.
    Feeder,
    /// Extreme deaths with very low damage per damage taken.
    Inter,
    /// Won while last in KDA, damage and vision.
    Carried,
}

impl AutoTag {
    pub open spec fn spec_label(self) -> Seq<char> {
        match self {
            AutoTag::Carry => "大腿"@,
            AutoTag::CarryDamage => "C位"@,
            AutoTag::Feeder => "坑"@,
            AutoTag::Inter => "演员"@,
            AutoTag::Carried => "躺赢"@,
        }
    }

    pub open spec fn spec_key(self) -> Seq<char> {
        match self {
            AutoTag::Carry => "carry"@,
            AutoTag::CarryDamage => "carryDamage"@,
            AutoTag::Feeder => "feeder"@,
            AutoTag::Inter => "inter"@,
            AutoTag::Carried => "carried"@,
        }
    }

    /// Rank when one player earns several tags (0 is kept first):
    /// carry, inter, feeder, carry-damage, carried.
    pub open spec fn spec_priority(self) -> u8 {
        match self {
            AutoTag::Carry => 0,
            AutoTag::Inter => 1,
            AutoTag::Feeder => 2,
            AutoTag::CarryDamage => 3,
            AutoTag::Carried => 4,
        }
    }

    /// The label shown to the user.
    pub fn as_str(&self) -> (r: &'static str)
        ensures
            r@ == self.spec_label(),
    {
        match self {
            AutoTag::Carry => "大腿",
            AutoTag::CarryDamage => "C位",
            AutoTag::Feeder => "坑",
            AutoTag::Inter => "演员",
            AutoTag::Carried => "躺赢",
        }
    }

    /// The stable key stored in the database and in events.
    pub fn as_key(&self) -> (r: &'static str)
        ensures
            r@ == self.spec_key(),
    {
        match self {
            AutoTag::Carry => "carry",
            AutoTag::CarryDamage => "carryDamage",
            AutoTag::Feeder => "feeder",
            AutoTag::Inter => "inter",
            AutoTag::Carried => "carried",
        }
    }

    /// Rank when one player earns several tags.
    pub fn priority(&self) -> (r: u8)
        ensures
            r == self.spec_priority(),
    {
        match self {
            AutoTag::Carry => 0,
            AutoTag::Inter => 1,
            AutoTag::Feeder => 2,
            AutoTag::CarryDamage => 3,
            AutoTag::Carried => 4,
        }
    }
}

/// The position of the tag kept for a player: the first one of the best rank.
pub fn pick_primary_tag(tags: &[AutoTag]) -> (r: Option<usize>)
    ensures
        tags@.len() == 0 <==> r is None,
        r matches Some(k) ==> {
            &&& k < tags@.len()
            &&& forall|j: int| 0 <= j < tags@.len() ==> tags@[k as int].spec_priority() <= (
            #[trigger] tags@[j]).spec_priority()
            &&& forall|j: int| 0 <= j < k ==> tags@[k as int].spec_priority() < (
            #[trigger] tags@[j]).spec_priority()
        },
{
    if tags.len() == 0 {
        return None;
    }
    let mut best: usize = 0;
    let mut i: usize = 1;
    while i < tags.len()
        invariant
            1 <= i <= tags.len(),
            best < i,
            forall|j: int| 0 <= j < i ==> tags@[best as int].spec_priority() <= (
            #[trigger] tags@[j]).spec_priority(),
            forall|j: int| 0 <= j < best ==> tags@[best as int].spec_priority() < (
            #[trigger] tags@[j]).spec_priority(),
        decreases tags.len() - i,
    {
        if tags[i].priority() < tags[best].priority() {
            best = i;
        }
        i += 1;
    }
    Some(best)
}

/// Tag sensitivity: 0 strict, 1 normal, 2 loose.
#[derive(Clone, Copy, PartialEq, Eq, Structural)]
pub enum Sensitivity {
    Strict,
    Normal,
    Loose,
}

impl Sensitivity {
    /// 0 is strict, 2 is loose, anything else is normal.
    pub fn from_u32(v: u32) -> (r: Self)
        ensures
            r == (if v == 0 {
                Sensitivity::Strict
            } else if v == 2 {
                Sensitivity::Loose
            } else {
                Sensitivity::Normal
            }),
    {
        match v {
            0 => Sensitivity::Strict,
            2 => Sensitivity::Loose,
            _ => Sensitivity::Normal,
        }
    }
}

/// One player's performance in a game.
pub struct PlayerPerf {
    pub puuid: String,
    pub champion_id: i32,
    pub team_id: i32,
    pub win: bool,
    pub kills: i32,
    pub deaths: i32,
    pub assists: i32,
    pub damage: i32,
    pub damage_taken: i32,
    pub vision: i32,
    pub cs: i32,
    pub gold: i32,
    pub remake: bool,
}

/// An integer member read as `as_i64().unwrap_or(0) as i32`.
pub open spec fn stat_i32(j: Json, key: Seq<char>) -> i32 {
    unwrap_or(i64_field(j, key), 0i64) as i32
}

/// The participant ends in the parsed list: it has stats, a puuid and a team.
pub open spec fn participant_kept(p: Json, is_arena: bool) -> bool {
    &&& field(p, "stats"@) is Some
    &&& spec_extract_puuid(p) is Some
    &&& spec_resolve_team_id(p, field(p, "stats"@)->0, is_arena) is Some
}

/// The participants kept, in order.
pub open spec fn kept_participants(list: Seq<Json>, is_arena: bool) -> Seq<Json>
    decreases list.len(),
{
    if list.len() == 0 {
        seq![]
    } else {
        let rest = kept_participants(list.drop_last(), is_arena);
        if participant_kept(list.last(), is_arena) {
            rest.push(list.last())
        } else {
            rest
        }
    }
}

/// Some participant ended the game in an early surrender.
pub open spec fn any_remake(list: Seq<Json>) -> bool {
    exists|i: int|
        0 <= i < list.len() && field(list[i], "stats"@) is Some && bool_field(
            field(#[trigger] list[i], "stats"@)->0,
            "gameEndedInEarlySurrender"@,
        ) == Some(true)
}

/// `perf` is what the participant `p` reads as.
pub open spec fn perf_of(perf: PlayerPerf, p: Json, is_arena: bool, remake: bool) -> bool {
    let stats = field(p, "stats"@)->0;
    &&& Some(perf.puuid@) == spec_extract_puuid(p)
    &&& Some(perf.team_id) == spec_resolve_team_id(p, stats, is_arena)
    &&& perf.champion_id == stat_i32(p, "championId"@)
    &&& perf.win == unwrap_or(bool_field(stats, "win"@), false)
    &&& perf.kills == stat_i32(stats, "kills"@)
    &&& perf.deaths == stat_i32(stats, "deaths"@)
    &&& perf.assists == stat_i32(stats, "assists"@)
    &&& perf.damage == stat_i32(stats, "totalDamageDealtToChampions"@)
    &&& perf.damage_taken == stat_i32(stats, "totalDamageTaken"@)
    &&& perf.vision == stat_i32(stats, "visionScore"@)
    &&& perf.cs == vstd::wrapping::i32_specs::wrapping_add(
        stat_i32(stats, "totalMinionsKilled"@),
        stat_i32(stats, "neutralMinionsKilled"@),
    )
    &&& perf.gold == stat_i32(stats, "goldEarned"@)
    &&& perf.remake == remake
}

fn stat(j: &Json, key: &str) -> (r: i32)
    ensures
        r == stat_i32(*j, key@),
{
    match j.i64_at(key) {
        Some(v) => v as i32,
        None => 0,
    }
}

fn read_perf(p: &Json, is_arena: bool, remake: bool) -> (r: Option<PlayerPerf>)
    ensures
        r is Some <==> participant_kept(*p, is_arena),
        r matches Some(perf) ==> perf_of(perf, *p, is_arena, remake),
{
    let stats = match p.get("stats") {
        Some(s) => s,
        None => return None,
    };
    let puuid = match extract_puuid(p) {
        Some(s) => s,
        None => return None,
    };
    let team_id = match resolve_team_id(p, stats, is_arena) {
        Some(t) => t,
        None => return None,
    };
    let win = match stats.bool_at("win") {
        Some(b) => b,
        None => false,
    };
    Some(
        PlayerPerf {
            puuid,
            champion_id: stat(p, "championId"),
            team_id,
            win,
            kills: stat(stats, "kills"),
            deaths: stat(stats, "deaths"),
            assists: stat(stats, "assists"),
            damage: stat(stats, "totalDamageDealtToChampions"),
            damage_taken: stat(stats, "totalDamageTaken"),
            vision: stat(stats, "visionScore"),
            cs: stat(stats, "totalMinionsKilled").wrapping_add(stat(stats, "neutralMinionsKilled")),
            gold: stat(stats, "goldEarned"),
            remake,
        },
    )
}

/// Reads every participant's performance from a match document. In arena queues
/// (1700/1710) the team is the subteam placement and players without one are
/// skipped; otherwise the team is `teamId`. Players without stats or puuid are
/// skipped; `remake` is set on all when anyone ended in an early surrender.
pub fn parse_participants_from_match_json(game: &Json) -> (r: Vec<PlayerPerf>)
    ensures
        array_field(*game, "participants"@) is Some ==> {
            let list = array_field(*game, "participants"@)->0;
            let is_arena = {
                let q = unwrap_or(i64_field(*game, "queueId"@), 0i64);
                q == 1700 || q == 1710
            };
            let kept = kept_participants(list, is_arena);
            &&& r@.len() == kept.len()
            &&& forall|i: int|
                0 <= i < kept.len() ==> perf_of(#[trigger] r@[i], kept[i], is_arena, any_remake(list))
        },
        array_field(*game, "participants"@) is None ==> r@.len() == 0,
{
    let list = match game.array_at("participants") {
        Some(l) => l,
        None => return Vec::new(),
    };
    let queue_id = match game.i64_at("queueId") {
        Some(q) => q,
        None => 0,
    };
    let is_arena = is_arena_queue(queue_id);
    let mut remake = false;
    let mut i: usize = 0;
    while i < list.len()
        invariant
            i <= list.len(),
            remake == exists|j: int|
                0 <= j < i && field(list@[j], "stats"@) is Some && bool_field(
                    field(#[trigger] list@[j], "stats"@)->0,
                    "gameEndedInEarlySurrender"@,
                ) == Some(true),
        decreases list.len() - i,
    {
        let ended = match list[i].get("stats") {
            Some(s) => match s.bool_at("gameEndedInEarlySurrender") {
                Some(b) => b,
                None => false,
            },
            None => false,
        };
        if ended {
            remake = true;
        }
        i += 1;
    }
    let mut out: Vec<PlayerPerf> = Vec::new();
    let mut k: usize = 0;
    while k < list.len()
        invariant
            k <= list.len(),
            remake == any_remake(list@),
            out@.len() == kept_participants(list@.take(k as int), is_arena).len(),
            forall|i: int|
                0 <= i < out@.len() ==> perf_of(
                    #[trigger] out@[i],
                    kept_participants(list@.take(k as int), is_arena)[i],
                    is_arena,
                    remake,
                ),
        decreases list.len() - k,
    {
        assert(list@.take(k + 1).drop_last() =~= list@.take(k as int));
        match read_perf(&list[k], is_arena, remake) {
            Some(perf) => out.push(perf),
            None => {},
        }
        k += 1;
    }
    assert(list@.take(list.len() as int) =~= list@);
    out
}

} // verus!
