//! The players of the game in progress, kept to record encounters when it ends.
use vstd::prelude::*;

use crate::json::{array_field, field, i64_field, str_field, unwrap_or, wrap_i32, Json};
use crate::queue::{is_tft_queue, spec_is_tft_queue, QueueTable};
use crate::text::owned;

verus! {

/// One player of the game in progress.
pub struct GamePlayerEntry {
    pub puuid: String,
    pub summoner_name: String,
    pub profile_icon_id: i32,
    pub tag_line: Option<String>,
    pub champion_id: i32,
    /// `ally`, `enemy`, or empty for the player himself.
    pub relation: String,
}

/// The game in progress and its players.
pub struct CurrentGameCache {
    pub game_id: i64,
    pub queue_id: i32,
    pub players: Vec<GamePlayerEntry>,
}

/// A player listed in the gameflow session, before their summoner record is read.
pub struct GameTarget {
    pub summoner_id: i64,
    pub champion_id: i32,
    pub fallback_name: String,
    pub relation: String,
}

/// The game id and queue of the gameflow session; `None` without `gameData` or
/// a game id, and for TFT games (as the queue table `queues` lists them), whose
/// players are not recorded.
pub open spec fn spec_current_game_header(session: Json, queues: QueueTable) -> Option<(i64, i32)> {
    match field(session, "gameData"@) {
        Some(gd) => match i64_field(gd, "gameId"@) {
            Some(game_id) => {
                let q = match i64_field(gd, "queueId"@) {
                    Some(q) => Some(q),
                    None => match field(gd, "queue"@) {
                        Some(qo) => i64_field(qo, "id"@),
                        None => None,
                    },
                };
                let queue_id = match q {
                    Some(q) => wrap_i32(q),
                    None => 0,
                };
                if spec_is_tft_queue(queues, queue_id) {
                    None
                } else {
                    Some((game_id, queue_id))
                }
            },
            None => None,
        },
        None => None,
    }
}

/// Reads the game id and queue of the gameflow session.
pub fn current_game_header(session: &Json, queues: &QueueTable) -> (r: Option<(i64, i32)>)
    ensures
        r == spec_current_game_header(*session, *queues),
{
    let gd = session.get("gameData")?;
    let game_id = gd.i64_at("gameId")?;
    let q = match gd.i64_at("queueId") {
        Some(q) => Some(q),
        None => match gd.get("queue") {
            Some(qo) => qo.i64_at("id"),
            None => None,
        },
    };
    let queue_id = match q {
        Some(q) => q as i32,
        None => 0,
    };
    if is_tft_queue(queues, queue_id) {
        None
    } else {
        Some((game_id, queue_id))
    }
}

/// A non-empty string member.
pub open spec fn non_empty(j: Json, key: Seq<char>) -> Option<Seq<char>> {
    match str_field(j, key) {
        Some(s) => if s.len() > 0 {
            Some(s)
        } else {
            None
        },
        None => None,
    }
}

/// The team holds the player `self_id`.
pub open spec fn team_holds(arr: Seq<Json>, self_id: i64) -> bool {
    exists|i: int| 0 <= i < arr.len() && i64_field(#[trigger] arr[i], "summonerId"@) == Some(self_id)
}

/// The relation of a player to the owner: none for the owner, `ally` on the
/// owner's team, else `enemy`.
pub open spec fn relation_of(summoner_id: i64, self_id: i64, my_team: bool) -> Seq<char> {
    if summoner_id == self_id {
        Seq::empty()
    } else if my_team {
        "ally"@
    } else {
        "enemy"@
    }
}

/// The listed players of one team, with their summoner ids, in order.
pub open spec fn team_players(arr: Seq<Json>) -> Seq<Json>
    decreases arr.len(),
{
    if arr.len() == 0 {
        Seq::empty()
    } else {
        let rest = team_players(arr.drop_last());
        if i64_field(arr.last(), "summonerId"@) is Some {
            rest.push(arr.last())
        } else {
            rest
        }
    }
}

/// `t` is the target read from `player` of a team that is the owner's or not.
pub open spec fn target_is(t: GameTarget, player: Json, self_id: i64, my_team: bool) -> bool {
    let sid = unwrap_or(i64_field(player, "summonerId"@), 0);
    &&& t.summoner_id == sid
    &&& t.champion_id == wrap_i32(unwrap_or(i64_field(player, "championId"@), 0))
    &&& t.fallback_name@ == unwrap_or(non_empty(player, "summonerName"@), Seq::empty())
    &&& t.relation@ == relation_of(sid, self_id, my_team)
}

/// The team of index `idx` (0 for `teamOne`) is the owner's: the one holding the
/// owner when the owner's id is known, else `teamOne`.
pub open spec fn is_my_team(arr: Seq<Json>, idx: int, self_id: i64) -> bool {
    if self_id > 0 {
        team_holds(arr, self_id)
    } else {
        idx == 0
    }
}

pub open spec fn team_array(gd: Json, idx: int) -> Seq<Json> {
    unwrap_or(array_field(gd, if idx == 0 {
        "teamOne"@
    } else {
        "teamTwo"@
    }), Seq::empty())
}

/// The targets of the game: the players of `teamOne`, then of `teamTwo`.
pub open spec fn targets_are(r: Seq<GameTarget>, gd: Json, self_id: i64) -> bool {
    let one = team_players(team_array(gd, 0));
    let two = team_players(team_array(gd, 1));
    &&& r.len() == one.len() + two.len()
    &&& forall|i: int|
        0 <= i < one.len() ==> target_is(#[trigger] r[i], one[i], self_id, is_my_team(team_array(gd, 0), 0, self_id))
    &&& forall|i: int|
        0 <= i < two.len() ==> target_is(
            #[trigger] r[one.len() + i],
            two[i],
            self_id,
            is_my_team(team_array(gd, 1), 1, self_id),
        )
}

fn team_holds_exec(arr: &Vec<Json>, self_id: i64) -> (r: bool)
    ensures
        r == team_holds(arr@, self_id),
{
    let mut k: usize = 0;
    while k < arr.len()
        invariant
            k <= arr.len(),
            forall|i: int| 0 <= i < k ==> i64_field(#[trigger] arr@[i], "summonerId"@) != Some(self_id),
        decreases arr.len() - k,
    {
        if arr[k].i64_at("summonerId") == Some(self_id) {
            return true;
        }
        k = k + 1;
    }
    false
}

fn push_team(
    out: &mut Vec<GameTarget>,
    arr: &Vec<Json>,
    self_id: i64,
    my_team: bool,
)
    ensures
        final(out).len() == old(out).len() + team_players(arr@).len(),
        forall|i: int| 0 <= i < old(out).len() ==> #[trigger] final(out)@[i] == old(out)@[i],
        forall|i: int|
            0 <= i < team_players(arr@).len() ==> target_is(
                #[trigger] final(out)@[old(out).len() + i],
                team_players(arr@)[i],
                self_id,
                my_team,
            ),
{
    let ghost start = out@;
    let mut k: usize = 0;
    while k < arr.len()
        invariant
            k <= arr.len(),
            out.len() == start.len() + team_players(arr@.take(k as int)).len(),
            forall|i: int| 0 <= i < start.len() ==> #[trigger] out@[i] == start[i],
            forall|i: int|
                0 <= i < team_players(arr@.take(k as int)).len() ==> target_is(
                    #[trigger] out@[start.len() + i],
                    team_players(arr@.take(k as int))[i],
                    self_id,
                    my_team,
                ),
        decreases arr.len() - k,
    {
        assert(arr@.take(k + 1).drop_last() =~= arr@.take(k as int));
        assert(arr@.take(k + 1).last() == arr@[k as int]);
        let player = &arr[k];
        match player.i64_at("summonerId") {
            Some(sid) => {
                let fallback_name = match player.str_at("summonerName") {
                    Some(s) => if !s.is_empty() {
                        owned(s)
                    } else {
                        String::new()
                    },
                    None => String::new(),
                };
                let champion_id = match player.i64_at("championId") {
                    Some(n) => n as i32,
                    None => 0,
                };
                let relation = if sid == self_id {
                    String::new()
                } else if my_team {
                    owned("ally")
                } else {
                    owned("enemy")
                };
                let ghost before = out@;
                out.push(GameTarget { summoner_id: sid, champion_id, fallback_name, relation });
                assert forall|i: int| 0 <= i < start.len() implies #[trigger] out@[i] == start[i] by {
                    assert(out@[i] == before[i]);
                }
                assert forall|i: int|
                    0 <= i < team_players(arr@.take(k + 1)).len() implies target_is(
                    #[trigger] out@[start.len() + i],
                    team_players(arr@.take(k + 1))[i],
                    self_id,
                    my_team,
                ) by {
                    if i < team_players(arr@.take(k as int)).len() {
                        assert(out@[start.len() + i] == before[start.len() + i]);
                    }
                }
            },
            None => {},
        }
        k = k + 1;
    }
    assert(arr@.take(arr.len() as int) =~= arr@);
}

/// The players listed in the session's `gameData`, with their relation to the
/// owner `self_summoner_id` (0 when unknown).
pub fn game_targets(game_data: &Json, self_summoner_id: i64) -> (r: Vec<GameTarget>)
    ensures
        targets_are(r@, *game_data, self_summoner_id),
{
    let mut out: Vec<GameTarget> = Vec::new();
    let empty: Vec<Json> = Vec::new();
    let one = match game_data.array_at("teamOne") {
        Some(a) => a,
        None => &empty,
    };
    let two = match game_data.array_at("teamTwo") {
        Some(a) => a,
        None => &empty,
    };
    assert(one@ == team_array(*game_data, 0));
    assert(two@ == team_array(*game_data, 1));
    let mine_one = if self_summoner_id > 0 {
        team_holds_exec(one, self_summoner_id)
    } else {
        true
    };
    let mine_two = if self_summoner_id > 0 {
        team_holds_exec(two, self_summoner_id)
    } else {
        false
    };
    assert(mine_one == is_my_team(team_array(*game_data, 0), 0, self_summoner_id));
    push_team(&mut out, one, self_summoner_id, mine_one);
    let ghost mid = out@;
    push_team(&mut out, two, self_summoner_id, mine_two);
    assert forall|i: int| 0 <= i < team_players(one@).len() implies target_is(
        #[trigger] out@[i],
        team_players(one@)[i],
        self_summoner_id,
        is_my_team(team_array(*game_data, 0), 0, self_summoner_id),
    ) by {
        assert(out@[i] == mid[i]);
        assert(target_is(mid[0 + i], team_players(one@)[i], self_summoner_id, mine_one));
    }
    assert(mine_two == is_my_team(team_array(*game_data, 1), 1, self_summoner_id));
    out
}

/// `e` is the player entry of target `t` given its summoner record `info`.
pub open spec fn entry_is(e: GamePlayerEntry, info: Option<Json>, t: GameTarget) -> bool {
    let name = match info {
        Some(i) => match non_empty(i, "displayName"@) {
            Some(n) => n,
            None => match non_empty(i, "gameName"@) {
                Some(n) => n,
                None => t.fallback_name@,
            },
        },
        None => t.fallback_name@,
    };
    &&& e.summoner_name@ == name
    &&& e.puuid@ == match info {
        Some(i) => unwrap_or(str_field(i, "puuid"@), Seq::empty()),
        None => Seq::empty(),
    }
    &&& e.profile_icon_id == match info {
        Some(i) => match i64_field(i, "profileIconId"@) {
            Some(n) => if n > 0 {
                wrap_i32(n)
            } else {
                0
            },
            None => 0,
        },
        None => 0,
    }
    &&& match e.tag_line {
        Some(tl) => (info matches Some(i) && str_field(i, "tagLine"@) == Some(tl@)),
        None => match info {
            Some(i) => str_field(i, "tagLine"@) is None,
            None => true,
        },
    }
    &&& e.champion_id == t.champion_id
    &&& e.relation@ == t.relation@
}

/// The entry of a target from its summoner record (`None` when it could not be read).
pub fn game_player_entry(info: Option<&Json>, target: &GameTarget) -> (r: GamePlayerEntry)
    ensures
        entry_is(r, crate::tft::deref_json(info), *target),
{
    let summoner_name = match info {
        Some(i) => match i.str_at("displayName") {
            Some(n) if !n.is_empty() => owned(n),
            _ => match i.str_at("gameName") {
                Some(n) if !n.is_empty() => owned(n),
                _ => target.fallback_name.clone(),
            },
        },
        None => target.fallback_name.clone(),
    };
    let puuid = match info {
        Some(i) => match i.str_at("puuid") {
            Some(p) => owned(p),
            None => String::new(),
        },
        None => String::new(),
    };
    let profile_icon_id = match info {
        Some(i) => match i.i64_at("profileIconId") {
            Some(n) => if n > 0 {
                n as i32
            } else {
                0
            },
            None => 0,
        },
        None => 0,
    };
    let tag_line = match info {
        Some(i) => match i.str_at("tagLine") {
            Some(t) => Some(owned(t)),
            None => None,
        },
        None => None,
    };
    GamePlayerEntry {
        puuid,
        summoner_name,
        profile_icon_id,
        tag_line,
        champion_id: target.champion_id,
        relation: target.relation.clone(),
    }
}

/// The cache of the game in progress; `None` when it has no player.
pub fn build_current_game_cache(game_id: i64, queue_id: i32, players: Vec<GamePlayerEntry>) -> (r:
    Option<CurrentGameCache>)
    ensures
        players.len() == 0 ==> r is None,
        players.len() > 0 ==> r == Some(CurrentGameCache { game_id, queue_id, players }),
{
    if players.len() == 0 {
        None
    } else {
        Some(CurrentGameCache { game_id, queue_id, players })
    }
}

} // verus!
