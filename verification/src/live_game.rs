//! The game in progress as the client reports it: the players of both teams and
//! the side of the map the summoner's team plays on.
use vstd::prelude::*;

use crate::json::{array_field, field, i64_field, or_else, str_field, unwrap_or, wrap_i32, Json};
use crate::text::{owned, str_eq};

verus! {

/// The connection to the running client.
pub struct LcuConnectionDetails {
    pub pid: u32,
    pub port: u16,
    pub server: Option<String>,
}

/// One player of the game in progress.
pub struct LiveGamePlayer {
    pub summoner_id: i64,
    pub puuid: String,
    pub summoner_name: String,
    pub game_name: String,
    pub tag_line: String,
    pub champion_id: i32,
    pub profile_icon_id: i32,
    /// `my` or `their`.
    pub team: String,
}

/// Both teams of the game in progress.
pub struct LiveGameTeams {
    pub game_id: Option<i64>,
    pub my_team: Vec<LiveGamePlayer>,
    pub their_team: Vec<LiveGamePlayer>,
}

/// The side named by the pin-drop notification: its non-empty `mapSide`.
pub open spec fn spec_pin_drop_side(data: Json) -> Option<Seq<char>> {
    match str_field(data, "mapSide"@) {
        Some(s) => if s.len() > 0 {
            Some(s)
        } else {
            None
        },
        None => None,
    }
}

/// The side named by the pin-drop notification.
pub fn pin_drop_side(data: &Json) -> (r: Option<String>)
    ensures
        match r {
            Some(s) => spec_pin_drop_side(*data) == Some(s@),
            None => spec_pin_drop_side(*data) is None,
        },
{
    match data.str_at("mapSide") {
        Some(s) => if !s.is_empty() {
            Some(owned(s))
        } else {
            None
        },
        None => None,
    }
}

/// The cell ids present among the players, in order.
pub open spec fn cell_ids(team: Seq<Json>) -> Seq<i64>
    decreases team.len(),
{
    if team.len() == 0 {
        Seq::empty()
    } else {
        let rest = cell_ids(team.drop_last());
        match i64_field(team.last(), "cellId"@) {
            Some(c) => rest.push(c),
            None => rest,
        }
    }
}

/// `c` is the least of `s` (0 for an empty `s`).
pub open spec fn is_min_or_zero(c: i64, s: Seq<i64>) -> bool {
    if s.len() == 0 {
        c == 0
    } else {
        s.contains(c) && forall|i: int| 0 <= i < s.len() ==> c <= #[trigger] s[i]
    }
}

/// `c` is the greatest of `s` (0 for an empty `s`).
pub open spec fn is_max_or_zero(c: i64, s: Seq<i64>) -> bool {
    if s.len() == 0 {
        c == 0
    } else {
        s.contains(c) && forall|i: int| 0 <= i < s.len() ==> #[trigger] s[i] <= c
    }
}

/// The side inferred from the cell ids of the summoner's team: cells 0 to 4 are
/// blue, 5 to 9 red; a team spanning both gives no answer.
pub open spec fn side_from_cells(min_cell: i64, max_cell: i64) -> Option<Seq<char>> {
    if min_cell < 5 && max_cell < 5 {
        Some("blue"@)
    } else if min_cell >= 5 {
        Some("red"@)
    } else {
        None
    }
}

/// The least and greatest cell id of the players, 0 when none has one.
fn cell_range(team: &Vec<Json>) -> (r: (i64, i64))
    ensures
        is_min_or_zero(r.0, cell_ids(team@)),
        is_max_or_zero(r.1, cell_ids(team@)),
{
    let mut lo: i64 = 0;
    let mut hi: i64 = 0;
    let mut seen = false;
    let mut k: usize = 0;
    while k < team.len()
        invariant
            k <= team.len(),
            seen == (cell_ids(team@.take(k as int)).len() > 0),
            is_min_or_zero(lo, cell_ids(team@.take(k as int))),
            is_max_or_zero(hi, cell_ids(team@.take(k as int))),
        decreases team.len() - k,
    {
        assert(team@.take(k + 1).drop_last() =~= team@.take(k as int));
        assert(team@.take(k + 1).last() == team@[k as int]);
        let ghost before = cell_ids(team@.take(k as int));
        match team[k].i64_at("cellId") {
            Some(c) => {
                let ghost after = before.push(c);
                assert(cell_ids(team@.take(k + 1)) == after);
                if !seen || c < lo {
                    lo = c;
                }
                if !seen || c > hi {
                    hi = c;
                }
                seen = true;
                assert(after[after.len() - 1] == c);
                assert forall|i: int| 0 <= i < after.len() implies lo <= #[trigger] after[i] by {
                    if i < before.len() {
                        assert(after[i] == before[i]);
                    }
                }
                assert forall|i: int| 0 <= i < after.len() implies #[trigger] after[i] <= hi by {
                    if i < before.len() {
                        assert(after[i] == before[i]);
                    }
                }
                assert(after.contains(lo)) by {
                    if lo == c {
                        assert(after[after.len() - 1] == lo);
                    } else {
                        let j = choose|j: int| 0 <= j < before.len() && before[j] == lo;
                        assert(after[j] == lo);
                    }
                }
                assert(after.contains(hi)) by {
                    if hi == c {
                        assert(after[after.len() - 1] == hi);
                    } else {
                        let j = choose|j: int| 0 <= j < before.len() && before[j] == hi;
                        assert(after[j] == hi);
                    }
                }
            },
            None => {
                assert(cell_ids(team@.take(k + 1)) == before);
            },
        }
        k = k + 1;
    }
    assert(team@.take(team.len() as int) =~= team@);
    (lo, hi)
}

/// The side inferred from the champion-select session: `None` without a `myTeam`
/// list or when its cells span both sides.
pub fn session_side(session: &Json) -> (r: Option<String>)
    ensures
        match array_field(*session, "myTeam"@) {
            None => r is None,
            Some(team) => forall|lo: i64, hi: i64|
                is_min_or_zero(lo, cell_ids(team)) && is_max_or_zero(hi, cell_ids(team)) ==> match r {
                    Some(s) => side_from_cells(lo, hi) == Some(s@),
                    None => side_from_cells(lo, hi) is None,
                },
        },
{
    let team = match session.array_at("myTeam") {
        Some(t) => t,
        None => return None,
    };
    let (lo, hi) = cell_range(team);
    proof {
        let ids = cell_ids(team@);
        assert forall|a: i64, b: i64| is_min_or_zero(a, ids) && is_max_or_zero(b, ids) implies a == lo
            && b == hi by {
            if ids.len() > 0 {
                let i = choose|i: int| 0 <= i < ids.len() && ids[i] == a;
                let j = choose|j: int| 0 <= j < ids.len() && ids[j] == lo;
                let m = choose|m: int| 0 <= m < ids.len() && ids[m] == b;
                let n = choose|n: int| 0 <= n < ids.len() && ids[n] == hi;
                assert(a <= ids[j]);
                assert(lo <= ids[i]);
                assert(ids[m] <= hi);
                assert(ids[n] <= b);
            }
        }
    }
    if lo < 5 && hi < 5 {
        Some("blue".to_string())
    } else if lo >= 5 {
        Some("red".to_string())
    } else {
        None
    }
}

/// The fields read from one listed player: summoner id, puuid, game name, tag
/// line, summoner name, champion id and profile icon id.
pub open spec fn live_fields(p: Json) -> (i64, Seq<char>, Seq<char>, Seq<char>, Seq<char>, i32, i32) {
    (
        unwrap_or(i64_field(p, "summonerId"@), 0i64),
        unwrap_or(str_field(p, "puuid"@), Seq::empty()),
        unwrap_or(
            match or_else(field(p, "gameName"@), field(p, "displayName"@)) {
                Some(v) => crate::json::as_str(v),
                None => None,
            },
            Seq::empty(),
        ),
        unwrap_or(str_field(p, "tagLine"@), Seq::empty()),
        unwrap_or(
            match or_else(field(p, "summonerName"@), field(p, "displayName"@)) {
                Some(v) => crate::json::as_str(v),
                None => None,
            },
            Seq::empty(),
        ),
        wrap_i32(unwrap_or(i64_field(p, "championId"@), 0i64)),
        wrap_i32(unwrap_or(i64_field(p, "profileIconId"@), 0i64)),
    )
}

/// A listed player is kept unless it has no summoner id, puuid, game name or
/// summoner name at all.
pub open spec fn live_kept(p: Json) -> bool {
    let f = live_fields(p);
    !(f.0 == 0 && f.1.len() == 0 && f.2.len() == 0 && f.4.len() == 0)
}

/// The kept players of a team, in order.
pub open spec fn live_players(arr: Seq<Json>) -> Seq<Json>
    decreases arr.len(),
{
    if arr.len() == 0 {
        Seq::empty()
    } else if live_kept(arr.last()) {
        live_players(arr.drop_last()).push(arr.last())
    } else {
        live_players(arr.drop_last())
    }
}

/// `lp` shows the listed player `p` on team `team`.
pub open spec fn live_player_is(lp: LiveGamePlayer, p: Json, team: Seq<char>) -> bool {
    let f = live_fields(p);
    &&& lp.summoner_id == f.0
    &&& lp.puuid@ == f.1
    &&& lp.game_name@ == f.2
    &&& lp.tag_line@ == f.3
    &&& lp.summoner_name@ == f.4
    &&& lp.champion_id == f.5
    &&& lp.profile_icon_id == f.6
    &&& lp.team@ == team
}

/// `out` shows the kept players of `arr` on team `team`.
pub open spec fn shows_team(out: Seq<LiveGamePlayer>, arr: Seq<Json>, team: Seq<char>) -> bool {
    &&& out.len() == live_players(arr).len()
    &&& forall|i: int| 0 <= i < out.len() ==> live_player_is(#[trigger] out[i], live_players(arr)[i], team)
}

/// The string under key `a`, or under `b` when `a` is absent; empty otherwise.
fn str_of_either(p: &Json, a: &str, b: &str) -> (r: String)
    ensures
        r@ == unwrap_or(
            match or_else(field(*p, a@), field(*p, b@)) {
                Some(v) => crate::json::as_str(v),
                None => None,
            },
            Seq::empty(),
        ),
{
    let v = match p.get(a) {
        Some(v) => Some(v),
        None => p.get(b),
    };
    match v {
        Some(v) => match v.as_str() {
            Some(s) => owned(s),
            None => String::new(),
        },
        None => String::new(),
    }
}

/// The players listed in `arr`, shown on team `team`; entries with no identity
/// at all are dropped.
pub fn parse_live_players(arr: &Vec<Json>, team: &str) -> (r: Vec<LiveGamePlayer>)
    ensures
        shows_team(r@, arr@, team@),
{
    let mut out: Vec<LiveGamePlayer> = Vec::new();
    let mut k: usize = 0;
    while k < arr.len()
        invariant
            k <= arr.len(),
            shows_team(out@, arr@.take(k as int), team@),
        decreases arr.len() - k,
    {
        let p = &arr[k];
        assert(arr@.take(k + 1).drop_last() =~= arr@.take(k as int));
        assert(arr@.take(k + 1).last() == arr@[k as int]);
        let summoner_id = match p.i64_at("summonerId") {
            Some(n) => n,
            None => 0,
        };
        let puuid = match p.str_at("puuid") {
            Some(s) => owned(s),
            None => String::new(),
        };
        let game_name = str_of_either(p, "gameName", "displayName");
        let tag_line = match p.str_at("tagLine") {
            Some(s) => owned(s),
            None => String::new(),
        };
        let summoner_name = str_of_either(p, "summonerName", "displayName");
        let champion_id = match p.i64_at("championId") {
            Some(n) => n as i32,
            None => 0,
        };
        let profile_icon_id = match p.i64_at("profileIconId") {
            Some(n) => n as i32,
            None => 0,
        };
        if !(summoner_id == 0 && puuid.as_str().is_empty() && game_name.as_str().is_empty()
            && summoner_name.as_str().is_empty()) {
            out.push(
                LiveGamePlayer {
                    summoner_id,
                    puuid,
                    summoner_name,
                    game_name,
                    tag_line,
                    champion_id,
                    profile_icon_id,
                    team: owned(team),
                },
            );
        }
        k = k + 1;
    }
    assert(arr@.take(arr.len() as int) =~= arr@);
    out
}

/// A team holds the summoner, known by summoner id (when positive) or puuid
/// (when non-empty).
pub open spec fn holds_self(arr: Seq<Json>, self_sid: i64, self_puuid: Seq<char>) -> bool {
    exists|i: int|
        0 <= i < live_players(arr).len() && ({
            let f = live_fields(#[trigger] live_players(arr)[i]);
            (f.0 > 0 && f.0 == self_sid) || (self_puuid.len() > 0 && f.1 == self_puuid)
        })
}

/// Whether the parsed players include the summoner.
fn contains_self(ps: &Vec<LiveGamePlayer>, self_sid: i64, self_puuid: &str) -> (r: bool)
    ensures
        r == exists|i: int|
            0 <= i < ps.len() && (((#[trigger] ps@[i]).summoner_id > 0 && ps@[i].summoner_id == self_sid)
                || (self_puuid@.len() > 0 && ps@[i].puuid@ == self_puuid@)),
{
    let mut k: usize = 0;
    while k < ps.len()
        invariant
            k <= ps.len(),
            forall|i: int|
                0 <= i < k ==> !(((#[trigger] ps@[i]).summoner_id > 0 && ps@[i].summoner_id == self_sid)
                    || (self_puuid@.len() > 0 && ps@[i].puuid@ == self_puuid@)),
        decreases ps.len() - k,
    {
        let p = &ps[k];
        if (p.summoner_id > 0 && p.summoner_id == self_sid) || (!self_puuid.is_empty() && str_eq(
            p.puuid.as_str(),
            self_puuid,
        )) {
            return true;
        }
        k = k + 1;
    }
    false
}

/// The teams listed under `key` of the game data (empty when absent).
pub open spec fn team_list(gd: Json, key: Seq<char>) -> Seq<Json> {
    unwrap_or(array_field(gd, key), Seq::empty())
}

/// The players of `key`, shown on team `team`.
fn parse_team(gd: &Json, key: &str, team: &str) -> (r: Vec<LiveGamePlayer>)
    ensures
        shows_team(r@, team_list(*gd, key@), team@),
{
    match gd.array_at(key) {
        Some(a) => parse_live_players(a, team),
        None => {
            let e: Vec<Json> = Vec::new();
            assert(live_players(e@) =~= Seq::<Json>::empty());
            Vec::new()
        },
    }
}

/// Both teams of the gameflow `session`, the summoner's own first. The summoner
/// is known from `self_info` (his current summoner record); the team that holds
/// him is `my`, and `teamOne` is `my` when neither holds him.
pub fn live_game_teams(session: &Json, self_info: Option<&Json>) -> (r: LiveGameTeams)
    ensures
        ({
            let gd = unwrap_or(field(*session, "gameData"@), Json::Null);
            let one = team_list(gd, "teamOne"@);
            let two = team_list(gd, "teamTwo"@);
            let sid = match self_info {
                Some(i) => unwrap_or(i64_field(*i, "summonerId"@), 0i64),
                None => 0,
            };
            let puuid = match self_info {
                Some(i) => unwrap_or(str_field(*i, "puuid"@), Seq::empty()),
                None => Seq::empty(),
            };
            let two_is_mine = !holds_self(one, sid, puuid) && holds_self(two, sid, puuid);
            &&& r.game_id == i64_field(gd, "gameId"@)
            &&& shows_team(r.my_team@, if two_is_mine { two } else { one }, "my"@)
            &&& shows_team(r.their_team@, if two_is_mine { one } else { two }, "their"@)
        }),
{
    let null = Json::Null;
    let gd = match session.get("gameData") {
        Some(g) => g,
        None => &null,
    };
    let game_id = gd.i64_at("gameId");
    let self_sid = match self_info {
        Some(i) => match i.i64_at("summonerId") {
            Some(n) => n,
            None => 0,
        },
        None => 0,
    };
    let self_puuid = match self_info {
        Some(i) => match i.str_at("puuid") {
            Some(s) => owned(s),
            None => String::new(),
        },
        None => String::new(),
    };
    let one_probe = parse_team(gd, "teamOne", "my");
    let two_probe = parse_team(gd, "teamTwo", "my");
    let ghost one = team_list(*gd, "teamOne"@);
    let ghost two = team_list(*gd, "teamTwo"@);
    let in_one = contains_self(&one_probe, self_sid, self_puuid.as_str());
    let in_two = contains_self(&two_probe, self_sid, self_puuid.as_str());
    proof {
        assert(in_one == holds_self(one, self_sid, self_puuid@)) by {
            if in_one {
                let i = choose|i: int|
                    0 <= i < one_probe.len() && (((#[trigger] one_probe@[i]).summoner_id > 0
                        && one_probe@[i].summoner_id == self_sid) || (self_puuid@.len() > 0
                        && one_probe@[i].puuid@ == self_puuid@));
                assert(live_player_is(one_probe@[i], live_players(one)[i], "my"@));
            }
            if holds_self(one, self_sid, self_puuid@) {
                let i = choose|i: int|
                    0 <= i < live_players(one).len() && ({
                        let f = live_fields(#[trigger] live_players(one)[i]);
                        (f.0 > 0 && f.0 == self_sid) || (self_puuid@.len() > 0 && f.1 == self_puuid@)
                    });
                assert(live_player_is(one_probe@[i], live_players(one)[i], "my"@));
            }
        }
        assert(in_two == holds_self(two, self_sid, self_puuid@)) by {
            if in_two {
                let i = choose|i: int|
                    0 <= i < two_probe.len() && (((#[trigger] two_probe@[i]).summoner_id > 0
                        && two_probe@[i].summoner_id == self_sid) || (self_puuid@.len() > 0
                        && two_probe@[i].puuid@ == self_puuid@));
                assert(live_player_is(two_probe@[i], live_players(two)[i], "my"@));
            }
            if holds_self(two, self_sid, self_puuid@) {
                let i = choose|i: int|
                    0 <= i < live_players(two).len() && ({
                        let f = live_fields(#[trigger] live_players(two)[i]);
                        (f.0 > 0 && f.0 == self_sid) || (self_puuid@.len() > 0 && f.1 == self_puuid@)
                    });
                assert(live_player_is(two_probe@[i], live_players(two)[i], "my"@));
            }
        }
    }
    if !in_one && in_two {
        LiveGameTeams {
            game_id,
            my_team: two_probe,
            their_team: parse_team(gd, "teamOne", "their"),
        }
    } else {
        LiveGameTeams {
            game_id,
            my_team: one_probe,
            their_team: parse_team(gd, "teamTwo", "their"),
        }
    }
}

} // verus!
