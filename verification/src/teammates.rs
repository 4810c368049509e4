//! Recent teammates: who played on the player's side in recent games, and how often.
use vstd::prelude::*;

use crate::json::{
    array_field, bool_field, field, i64_field, str_field, u64_field, unwrap_or, wrap_i32, Json,
};
use crate::match_detail::{resolve_team_id, spec_resolve_team_id};
use crate::queue::is_arena_queue;
use crate::text::{concat3, i64_to_decimal, int_to_decimal, owned, str_eq};

verus! {

/// A teammate as the summary shows it.
pub struct RecentTeammate {
    pub name: String,
    pub puuid: String,
    pub icon: String,
    pub total: u32,
    pub wins: u32,
    pub losses: u32,
    pub last_play_time: u64,
    pub tag: Option<String>,
}

/// The recent teammates of a player.
pub struct RecentTeammatesResponse {
    pub puuid: String,
    pub summoners: Vec<RecentTeammate>,
}

/// A teammate met in one game.
pub struct TeammateInfo {
    pub name: String,
    pub puuid: String,
    pub icon: i32,
    pub win: bool,
}

/// The teammates of one game.
pub struct GameTeammates {
    pub remake: bool,
    pub game_creation: u64,
    pub summoners: Vec<TeammateInfo>,
}

/// The puuid that marks an anonymous player.
pub open spec fn anonymous_puuid() -> Seq<char> {
    "00000000-0000-0000-0000-000000000000"@
}

/// The first identity whose player has puuid `target` (a missing puuid reads as empty).
pub open spec fn ident_of_puuid(ids: Seq<Json>, target: Seq<char>) -> Option<Json>
    decreases ids.len(),
{
    if ids.len() == 0 {
        None
    } else {
        match field(ids[0], "player"@) {
            Some(pl) => if unwrap_or(str_field(pl, "puuid"@), Seq::empty()) == target {
                Some(ids[0])
            } else {
                ident_of_puuid(ids.drop_first(), target)
            },
            None => ident_of_puuid(ids.drop_first(), target),
        }
    }
}

/// The stats record of a participant, `Null` when it has none.
pub open spec fn stats_or_null(p: Json) -> Json {
    unwrap_or(field(p, "stats"@), Json::Null)
}

/// The first participant with id `pid` that has stats.
pub open spec fn participant_with_stats(ps: Seq<Json>, pid: i64) -> Option<Json>
    decreases ps.len(),
{
    if ps.len() == 0 {
        None
    } else if i64_field(ps[0], "participantId"@) == Some(pid) && field(ps[0], "stats"@) is Some {
        Some(ps[0])
    } else {
        participant_with_stats(ps.drop_first(), pid)
    }
}

/// The first identity with id `pid` that has a player.
pub open spec fn ident_of_pid(ids: Seq<Json>, pid: i64) -> Option<Json>
    decreases ids.len(),
{
    if ids.len() == 0 {
        None
    } else if i64_field(ids[0], "participantId"@) == Some(pid) && field(ids[0], "player"@) is Some {
        Some(ids[0])
    } else {
        ident_of_pid(ids.drop_first(), pid)
    }
}

/// A string member, empty when absent.
pub open spec fn str_or_empty(j: Json, key: Seq<char>) -> Seq<char> {
    unwrap_or(str_field(j, key), Seq::empty())
}

/// The shown name of a player record: game name, else summoner name, else
/// display name, with `#tag` when both name and tag are non-empty.
pub open spec fn teammate_name(pl: Json) -> Seq<char> {
    let g = str_or_empty(pl, "gameName"@);
    let s = str_or_empty(pl, "summonerName"@);
    let d = str_or_empty(pl, "displayName"@);
    let name = if g.len() > 0 {
        g
    } else if s.len() > 0 {
        s
    } else {
        d
    };
    let tag = str_or_empty(pl, "tagLine"@);
    if tag.len() > 0 && name.len() > 0 {
        name + "#"@ + tag
    } else {
        name
    }
}

/// The player record of a teammate with participant id `pid`, when it is kept
/// (its identity is found and its puuid is neither empty nor anonymous).
pub open spec fn kept_player(ids: Seq<Json>, pid: i64) -> Option<Json> {
    match ident_of_pid(ids, pid) {
        Some(ident) => match field(ident, "player"@) {
            Some(pl) => {
                let puuid = str_or_empty(pl, "puuid"@);
                if puuid.len() > 0 && puuid != anonymous_puuid() {
                    Some(pl)
                } else {
                    None
                }
            },
            None => None,
        },
        None => None,
    }
}

/// The participants that count as teammates of `target_pid` on `team`, in order.
pub open spec fn teammate_records(
    ps: Seq<Json>,
    ids: Seq<Json>,
    target_pid: i64,
    team: i32,
    arena: bool,
) -> Seq<(Json, Json)>
    decreases ps.len(),
{
    if ps.len() == 0 {
        Seq::empty()
    } else {
        let rest = teammate_records(ps.drop_last(), ids, target_pid, team, arena);
        let p = ps.last();
        match i64_field(p, "participantId"@) {
            Some(pid) => if pid != target_pid && spec_resolve_team_id(p, stats_or_null(p), arena)
                == Some(team) {
                match kept_player(ids, pid) {
                    Some(pl) => rest.push((p, pl)),
                    None => rest,
                }
            } else {
                rest
            },
            None => rest,
        }
    }
}

/// `t` is the teammate read from participant `p` and player record `pl`.
pub open spec fn teammate_is(t: TeammateInfo, p: Json, pl: Json) -> bool {
    &&& t.name@ == teammate_name(pl)
    &&& t.puuid@ == str_or_empty(pl, "puuid"@)
    &&& t.icon == match i64_field(pl, "profileIcon"@) {
        Some(n) => wrap_i32(n),
        None => 0,
    }
    &&& t.win == unwrap_or(bool_field(stats_or_null(p), "win"@), false)
}

/// What a game record tells of the player `target`'s side: `None` when the
/// record lacks participants or identities, the player is not found by puuid
/// or has no participant id, or no participant with that id and stats has a team.
pub open spec fn game_side(detail: Json, target: Seq<char>) -> Option<(bool, u64, i64, i32)> {
    let ps = array_field(detail, "participants"@);
    let ids = array_field(detail, "participantIdentities"@);
    let arena = crate::queue::spec_is_arena_queue(unwrap_or(i64_field(detail, "queueId"@), 0));
    match (ps, ids) {
        (Some(ps), Some(ids)) => match ident_of_puuid(ids, target) {
            Some(ident) => match i64_field(ident, "participantId"@) {
                Some(pid) => match participant_with_stats(ps, pid) {
                    Some(p) => match spec_resolve_team_id(p, stats_or_null(p), arena) {
                        Some(team) => Some(
                            (
                                unwrap_or(bool_field(stats_or_null(p), "gameEndedInEarlySurrender"@), false),
                                unwrap_or(u64_field(detail, "gameCreation"@), 0),
                                pid,
                                team,
                            ),
                        ),
                        None => None,
                    },
                    None => None,
                },
                None => None,
            },
            None => None,
        },
        _ => None,
    }
}

/// The records of a game: participants, identities, whether it is an arena game.
pub open spec fn game_records(detail: Json) -> (Seq<Json>, Seq<Json>, bool) {
    (
        unwrap_or(array_field(detail, "participants"@), Seq::empty()),
        unwrap_or(array_field(detail, "participantIdentities"@), Seq::empty()),
        crate::queue::spec_is_arena_queue(unwrap_or(i64_field(detail, "queueId"@), 0)),
    )
}

fn ident_of_puuid_exec<'a>(ids: &'a Vec<Json>, target: &str) -> (r: Option<&'a Json>)
    ensures
        crate::tft::deref_json(r) == ident_of_puuid(ids@, target@),
{
    let mut i: usize = 0;
    assert(ids@.skip(0) =~= ids@);
    while i < ids.len()
        invariant
            i <= ids.len(),
            ident_of_puuid(ids@, target@) == ident_of_puuid(ids@.skip(i as int), target@),
        decreases ids.len() - i,
    {
        assert(ids@.skip(i as int).drop_first() =~= ids@.skip(i + 1));
        assert(ids@.skip(i as int)[0] == ids@[i as int]);
        match ids[i].get("player") {
            Some(pl) => {
                let pu = str_member(pl, "puuid");
                if str_eq(pu, target) {
                    return Some(&ids[i]);
                }
            },
            None => {},
        }
        i = i + 1;
    }
    None
}

fn participant_with_stats_exec<'a>(ps: &'a Vec<Json>, pid: i64) -> (r: Option<&'a Json>)
    ensures
        crate::tft::deref_json(r) == participant_with_stats(ps@, pid),
{
    let mut i: usize = 0;
    assert(ps@.skip(0) =~= ps@);
    while i < ps.len()
        invariant
            i <= ps.len(),
            participant_with_stats(ps@, pid) == participant_with_stats(ps@.skip(i as int), pid),
        decreases ps.len() - i,
    {
        assert(ps@.skip(i as int).drop_first() =~= ps@.skip(i + 1));
        assert(ps@.skip(i as int)[0] == ps@[i as int]);
        if ps[i].i64_at("participantId") == Some(pid) && ps[i].get("stats").is_some() {
            return Some(&ps[i]);
        }
        i = i + 1;
    }
    None
}

fn ident_of_pid_exec<'a>(ids: &'a Vec<Json>, pid: i64) -> (r: Option<&'a Json>)
    ensures
        crate::tft::deref_json(r) == ident_of_pid(ids@, pid),
{
    let mut i: usize = 0;
    assert(ids@.skip(0) =~= ids@);
    while i < ids.len()
        invariant
            i <= ids.len(),
            ident_of_pid(ids@, pid) == ident_of_pid(ids@.skip(i as int), pid),
        decreases ids.len() - i,
    {
        assert(ids@.skip(i as int).drop_first() =~= ids@.skip(i + 1));
        assert(ids@.skip(i as int)[0] == ids@[i as int]);
        if ids[i].i64_at("participantId") == Some(pid) && ids[i].get("player").is_some() {
            return Some(&ids[i]);
        }
        i = i + 1;
    }
    None
}

fn str_member<'a>(j: &'a Json, key: &str) -> (r: &'a str)
    ensures
        r@ == str_or_empty(*j, key@),
{
    proof {
        reveal_strlit("");
        assert(""@ =~= Seq::<char>::empty());
    }
    match j.str_at(key) {
        Some(s) => s,
        None => "",
    }
}

/// The shown name of a player record.
fn teammate_name_exec(pl: &Json) -> (r: String)
    ensures
        r@ == teammate_name(*pl),
{
    let g = str_member(pl, "gameName");
    let s = str_member(pl, "summonerName");
    let d = str_member(pl, "displayName");
    let name = if !g.is_empty() {
        g
    } else if !s.is_empty() {
        s
    } else {
        d
    };
    let tag = str_member(pl, "tagLine");
    if !tag.is_empty() && !name.is_empty() {
        concat3(name, "#", tag)
    } else {
        owned(name)
    }
}

/// The teammates of the player `target_puuid` in one game record.
pub fn teammates_of_game(detail: &Json, target_puuid: &str) -> (r: Option<GameTeammates>)
    ensures
        match game_side(*detail, target_puuid@) {
            None => r is None,
            Some((remake, creation, pid, team)) => r matches Some(g) && g.remake == remake
                && g.game_creation == creation && {
                let (ps, ids, arena) = game_records(*detail);
                let recs = teammate_records(ps, ids, pid, team, arena);
                &&& g.summoners.len() == recs.len()
                &&& forall|i: int|
                    0 <= i < recs.len() ==> teammate_is(#[trigger] g.summoners@[i], recs[i].0, recs[i].1)
            },
        },
{
    let game_creation = match detail.u64_at("gameCreation") {
        Some(v) => v,
        None => 0,
    };
    let queue_id = match detail.i64_at("queueId") {
        Some(v) => v,
        None => 0,
    };
    let arena = is_arena_queue(queue_id);
    let ps = detail.array_at("participants")?;
    let ids = detail.array_at("participantIdentities")?;
    let ident = ident_of_puuid_exec(ids, target_puuid)?;
    let target_pid = ident.i64_at("participantId")?;
    let me = participant_with_stats_exec(ps, target_pid)?;
    let null = Json::Null;
    let me_stats = match me.get("stats") {
        Some(s) => s,
        None => &null,
    };
    let remake = match me_stats.bool_at("gameEndedInEarlySurrender") {
        Some(b) => b,
        None => false,
    };
    let team = resolve_team_id(me, me_stats, arena)?;
    let ghost recs_all = teammate_records(ps@, ids@, target_pid, team, arena);
    let mut summoners: Vec<TeammateInfo> = Vec::new();
    let mut k: usize = 0;
    while k < ps.len()
        invariant
            k <= ps.len(),
            null == Json::Null,
            summoners.len() == teammate_records(ps@.take(k as int), ids@, target_pid, team, arena).len(),
            forall|i: int|
                0 <= i < summoners.len() ==> teammate_is(
                    #[trigger] summoners@[i],
                    teammate_records(ps@.take(k as int), ids@, target_pid, team, arena)[i].0,
                    teammate_records(ps@.take(k as int), ids@, target_pid, team, arena)[i].1,
                ),
        decreases ps.len() - k,
    {
        assert(ps@.take(k + 1).drop_last() =~= ps@.take(k as int));
        assert(ps@.take(k + 1).last() == ps@[k as int]);
        let p = &ps[k];
        match p.i64_at("participantId") {
            Some(pid) => {
                let p_stats = match p.get("stats") {
                    Some(s) => s,
                    None => &null,
                };
                if pid != target_pid && resolve_team_id(p, p_stats, arena) == Some(team) {
                    match ident_of_pid_exec(ids, pid) {
                        Some(idt) => match idt.get("player") {
                            Some(pl) => {
                                let puuid = str_member(pl, "puuid");
                                if !puuid.is_empty() && !str_eq(
                                    puuid,
                                    "00000000-0000-0000-0000-000000000000",
                                ) {
                                    let win = match p_stats.bool_at("win") {
                                        Some(b) => b,
                                        None => false,
                                    };
                                    let icon = match pl.i64_at("profileIcon") {
                                        Some(n) => n as i32,
                                        None => 0,
                                    };
                                    summoners.push(
                                        TeammateInfo {
                                            name: teammate_name_exec(pl),
                                            puuid: owned(puuid),
                                            icon,
                                            win,
                                        },
                                    );
                                }
                            },
                            None => {},
                        },
                        None => {},
                    }
                }
            },
            None => {},
        }
        k = k + 1;
    }
    assert(ps@.take(ps.len() as int) =~= ps@);
    Some(GameTeammates { remake, game_creation, summoners })
}

/// At most this many recent games are searched for teammates.
pub const MAX_RECENT_TEAMMATE_GAMES: usize = 20;

/// The game ids searched: the first `MAX_RECENT_TEAMMATE_GAMES`.
pub fn limit_game_ids(ids: &Vec<u64>) -> (r: Vec<u64>)
    ensures
        r@ == (if ids@.len() > 20 {
            ids@.take(20)
        } else {
            ids@
        }),
{
    let mut out: Vec<u64> = Vec::new();
    let mut k: usize = 0;
    while k < ids.len() && k < MAX_RECENT_TEAMMATE_GAMES
        invariant
            k <= ids.len(),
            k <= 20,
            out@ == ids@.take(k as int),
        decreases ids.len() - k,
    {
        out.push(ids[k]);
        assert(out@ =~= ids@.take(k + 1));
        k = k + 1;
    }
    assert(ids@.len() <= 20 ==> ids@.take(ids@.len() as int) =~= ids@);
    out
}

/// One meeting with a teammate: who, when the game was created, whether it was a remake.
pub open spec fn meetings(games: Seq<GameTeammates>) -> Seq<(TeammateInfo, u64, bool)>
    decreases games.len(),
{
    if games.len() == 0 {
        Seq::empty()
    } else {
        let g = games.last();
        meetings(games.drop_last()) + g.summoners@.map_values(
            |t: TeammateInfo| (t, g.game_creation, g.remake),
        )
    }
}

/// The running tally of one teammate.
pub struct TallyView {
    pub puuid: Seq<char>,
    pub name: Seq<char>,
    pub icon: i32,
    pub total: nat,
    pub wins: nat,
    pub losses: nat,
    pub last: u64,
}

/// The index of the tally of `puuid`.
pub open spec fn tally_index(t: Seq<TallyView>, puuid: Seq<char>) -> Option<int>
    decreases t.len(),
{
    if t.len() == 0 {
        None
    } else {
        match tally_index(t.drop_last(), puuid) {
            Some(i) => Some(i),
            None => if t.last().puuid == puuid {
                Some(t.len() - 1)
            } else {
                None
            },
        }
    }
}

/// A tally after one more meeting: one more game, the later creation time kept,
/// a win or a loss unless the game was a remake.
pub open spec fn bump(v: TallyView, win: bool, creation: u64, remake: bool) -> TallyView {
    TallyView {
        total: v.total + 1,
        last: if creation > v.last {
            creation
        } else {
            v.last
        },
        wins: if !remake && win {
            v.wins + 1
        } else {
            v.wins
        },
        losses: if !remake && !win {
            v.losses + 1
        } else {
            v.losses
        },
        ..v
    }
}

/// The tallies of the teammates met, in the order first met; name and icon are
/// those of the first meeting.
pub open spec fn tally(m: Seq<(TeammateInfo, u64, bool)>) -> Seq<TallyView>
    decreases m.len(),
{
    if m.len() == 0 {
        Seq::empty()
    } else {
        let prev = tally(m.drop_last());
        let (t, creation, remake) = m.last();
        match tally_index(prev, t.puuid@) {
            Some(i) => prev.update(i, bump(prev[i], t.win, creation, remake)),
            None => prev.push(
                bump(
                    TallyView {
                        puuid: t.puuid@,
                        name: t.name@,
                        icon: t.icon,
                        total: 0,
                        wins: 0,
                        losses: 0,
                        last: creation,
                    },
                    t.win,
                    creation,
                    remake,
                ),
            ),
        }
    }
}

/// The tag of a marked player.
pub open spec fn tag_of(tagged: Seq<(String, String)>, puuid: Seq<char>) -> Option<Seq<char>> {
    crate::tft::lookup(tagged, puuid)
}

/// The order of the summary: marked players first, then more games first.
pub open spec fn rank(v: TallyView, tagged: Seq<(String, String)>) -> int {
    (if tag_of(tagged, v.puuid) is Some {
        0int
    } else {
        1int
    }) * 0x1_0000_0000_0000_0000 - v.total
}

/// `sorted` with `x` inserted after every element not ranked after it.
pub open spec fn insert_by_rank(sorted: Seq<TallyView>, x: TallyView, tagged: Seq<(String, String)>) -> Seq<
    TallyView,
>
    decreases sorted.len(),
{
    if sorted.len() == 0 {
        seq![x]
    } else if rank(sorted.last(), tagged) <= rank(x, tagged) {
        sorted.push(x)
    } else {
        insert_by_rank(sorted.drop_last(), x, tagged).push(sorted.last())
    }
}

/// Stable sort by rank.
pub open spec fn sort_by_rank(s: Seq<TallyView>, tagged: Seq<(String, String)>) -> Seq<TallyView>
    decreases s.len(),
{
    if s.len() == 0 {
        s
    } else {
        insert_by_rank(sort_by_rank(s.drop_last(), tagged), s.last(), tagged)
    }
}

/// The summary: the tallies sorted by rank, at most five.
pub open spec fn summary_of(games: Seq<GameTeammates>, tagged: Seq<(String, String)>) -> Seq<TallyView> {
    let s = sort_by_rank(tally(meetings(games)), tagged);
    if s.len() > 5 {
        s.take(5)
    } else {
        s
    }
}

/// The icon path of a profile icon id.
pub open spec fn icon_path(icon: i32) -> Seq<char> {
    "/lol-game-data/assets/v1/profile-icons/"@ + int_to_decimal(icon as int) + ".jpg"@
}

/// `r` shows the tally `v`.
pub open spec fn shows(r: RecentTeammate, v: TallyView, tagged: Seq<(String, String)>) -> bool {
    &&& r.name@ == v.name
    &&& r.puuid@ == v.puuid
    &&& r.icon@ == icon_path(v.icon)
    &&& r.total == v.total
    &&& r.wins == v.wins
    &&& r.losses == v.losses
    &&& r.last_play_time == v.last
    &&& match r.tag {
        Some(t) => tag_of(tagged, v.puuid) == Some(t@),
        None => tag_of(tagged, v.puuid) is None,
    }
}

/// The first tally with `puuid`.
proof fn lemma_tally_index(t: Seq<TallyView>, p: Seq<char>, i: int)
    requires
        0 <= i <= t.len(),
        forall|k: int| 0 <= k < i ==> (#[trigger] t[k]).puuid != p,
    ensures
        i == t.len() ==> tally_index(t, p) is None,
        i < t.len() && t[i].puuid == p ==> tally_index(t, p) == Some(i),
    decreases t.len(),
{
    if t.len() > 0 {
        if i == t.len() {
            lemma_tally_index(t.drop_last(), p, i - 1);
        } else if i < t.len() - 1 {
            lemma_tally_index(t.drop_last(), p, i);
        } else {
            lemma_tally_index(t.drop_last(), p, i);
        }
    }
}

/// The number of meetings bounds every count of the tally.
proof fn lemma_tally_bounded(m: Seq<(TeammateInfo, u64, bool)>)
    ensures
        forall|i: int|
            0 <= i < tally(m).len() ==> (#[trigger] tally(m)[i]).total <= m.len() && tally(m)[i].wins
                <= tally(m)[i].total && tally(m)[i].losses <= tally(m)[i].total,
    decreases m.len(),
{
    if m.len() > 0 {
        lemma_tally_bounded(m.drop_last());
        let prev = tally(m.drop_last());
        let (t, c, rm) = m.last();
        lemma_tally_index_in_range(prev, t.puuid@);
        assert forall|i: int| 0 <= i < tally(m).len() implies (#[trigger] tally(m)[i]).total <= m.len()
            && tally(m)[i].wins <= tally(m)[i].total && tally(m)[i].losses <= tally(m)[i].total by {
            match tally_index(prev, t.puuid@) {
                Some(j) => {
                    if i != j {
                        assert(tally(m)[i] == prev[i]);
                    }
                },
                None => {
                    if i < prev.len() {
                        assert(tally(m)[i] == prev[i]);
                    }
                },
            }
        }
    }
}

/// The index found lies within the tallies and has the puuid.
proof fn lemma_tally_index_in_range(t: Seq<TallyView>, p: Seq<char>)
    ensures
        tally_index(t, p) matches Some(i) ==> 0 <= i < t.len() && t[i].puuid == p,
    decreases t.len(),
{
    if t.len() > 0 {
        lemma_tally_index_in_range(t.drop_last(), p);
    }
}

/// The meetings of one more game extend those of the earlier games.
proof fn lemma_meetings_step(games: Seq<GameTeammates>, g: int)
    requires
        0 <= g < games.len(),
    ensures
        meetings(games.take(g + 1)) == meetings(games.take(g)) + games[g].summoners@.map_values(
            |t: TeammateInfo| (t, games[g].game_creation, games[g].remake),
        ),
{
    assert(games.take(g + 1).drop_last() =~= games.take(g));
}

/// Copies a tally entry with its counts bumped.
fn bumped(e: &RecentTeammate, win: bool, creation: u64, remake: bool) -> (r: RecentTeammate)
    requires
        e.total < u32::MAX,
        e.wins <= e.total,
        e.losses <= e.total,
    ensures
        r.name@ == e.name@,
        r.puuid@ == e.puuid@,
        r.icon@ == e.icon@,
        r.total == e.total + 1,
        r.last_play_time == (if creation > e.last_play_time {
            creation
        } else {
            e.last_play_time
        }),
        r.wins == (if !remake && win {
            e.wins + 1
        } else {
            e.wins as int
        }),
        r.losses == (if !remake && !win {
            e.losses + 1
        } else {
            e.losses as int
        }),
        match (r.tag, e.tag) {
            (Some(a), Some(b)) => a@ == b@,
            (None, None) => true,
            _ => false,
        },
{
    RecentTeammate {
        name: e.name.clone(),
        puuid: e.puuid.clone(),
        icon: e.icon.clone(),
        total: e.total + 1,
        wins: if !remake && win {
            e.wins + 1
        } else {
            e.wins
        },
        losses: if !remake && !win {
            e.losses + 1
        } else {
            e.losses
        },
        last_play_time: if creation > e.last_play_time {
            creation
        } else {
            e.last_play_time
        },
        tag: match &e.tag {
            Some(t) => Some(t.clone()),
            None => None,
        },
    }
}

/// Tallies the meetings of all games, in the order first met.
fn tally_teammates(games: &Vec<GameTeammates>, tagged: &Vec<(String, String)>) -> (r: Vec<
    RecentTeammate,
>)
    requires
        meetings(games@).len() < u32::MAX,
    ensures
        r.len() == tally(meetings(games@)).len(),
        forall|i: int|
            0 <= i < r.len() ==> shows(#[trigger] r@[i], tally(meetings(games@))[i], tagged@),
{
    let mut out: Vec<RecentTeammate> = Vec::new();
    let mut g: usize = 0;
    assert(games@.take(0) =~= Seq::<GameTeammates>::empty());
    while g < games.len()
        invariant
            g <= games.len(),
            meetings(games@).len() < u32::MAX,
            out.len() == tally(meetings(games@.take(g as int))).len(),
            forall|i: int|
                0 <= i < out.len() ==> shows(
                    #[trigger] out@[i],
                    tally(meetings(games@.take(g as int)))[i],
                    tagged@,
                ),
        decreases games.len() - g,
    {
        proof {
            lemma_meetings_step(games@, g as int);
        }
        let game = &games[g];
        let ghost base = meetings(games@.take(g as int));
        let ghost full = game.summoners@.map_values(
            |t: TeammateInfo| (t, game.game_creation, game.remake),
        );
        proof {
            assert(meetings(games@.take(g + 1)) == base + full);
            assert(games@.take(g + 1).len() <= games@.len());
            lemma_meetings_prefix_len(games@, g + 1);
        }
        let mut j: usize = 0;
        assert(base + full.take(0) =~= base);
        while j < game.summoners.len()
            invariant
                j <= game.summoners.len(),
                game == &games@[g as int],
                full == game.summoners@.map_values(
                    |t: TeammateInfo| (t, game.game_creation, game.remake),
                ),
                (base + full).len() < u32::MAX,
                out.len() == tally(base + full.take(j as int)).len(),
                forall|i: int|
                    0 <= i < out.len() ==> shows(
                        #[trigger] out@[i],
                        tally(base + full.take(j as int))[i],
                        tagged@,
                    ),
            decreases game.summoners.len() - j,
        {
            let ghost m = base + full.take(j as int);
            let ghost m1 = base + full.take(j + 1);
            assert(m1.drop_last() =~= m);
            assert(m1.last() == full[j as int]);
            let t = &game.summoners[j];
            proof {
                lemma_tally_bounded(m);
            }
            let mut i: usize = 0;
            while i < out.len()
                invariant
                    i <= out.len(),
                    out.len() == tally(m).len(),
                    forall|k: int| 0 <= k < out.len() ==> shows(#[trigger] out@[k], tally(m)[k], tagged@),
                    forall|k: int| 0 <= k < i ==> (#[trigger] tally(m)[k]).puuid != t.puuid@,
                ensures
                    i <= out.len(),
                    out.len() == tally(m).len(),
                    forall|k: int| 0 <= k < out.len() ==> shows(#[trigger] out@[k], tally(m)[k], tagged@),
                    forall|k: int| 0 <= k < i ==> (#[trigger] tally(m)[k]).puuid != t.puuid@,
                    i < out.len() ==> tally(m)[i as int].puuid == t.puuid@,
                decreases out.len() - i,
            {
                assert(shows(out@[i as int], tally(m)[i as int], tagged@));
                if str_eq(out[i].puuid.as_str(), t.puuid.as_str()) {
                    break;
                }
                i = i + 1;
            }
            proof {
                lemma_tally_index(tally(m), t.puuid@, i as int);
                assert(m.len() + 1 == m1.len());
                assert(m1.len() <= (base + full).len()) by {
                    assert(full.take(j + 1).len() <= full.len());
                }
            }
            let ghost prev = tally(m);
            let ghost tv = (t.win, game.game_creation, game.remake);
            assert(m1.last() == (*t, game.game_creation, game.remake));
            if i < out.len() {
                assert(shows(out@[i as int], prev[i as int], tagged@));
                let e = bumped(&out[i], t.win, game.game_creation, game.remake);
                let ghost before = out@;
                out.set(i, e);
                assert(tally(m1) == prev.update(i as int, bump(prev[i as int], t.win, game.game_creation, game.remake)));
                assert forall|k: int| 0 <= k < out.len() implies shows(#[trigger] out@[k], tally(m1)[k], tagged@) by {
                    if k != i {
                        assert(out@[k] == before[k]);
                    }
                }
            } else {
                let tag = match crate::tft::lookup_exec(tagged, t.puuid.as_str()) {
                    Some(x) => Some(x.clone()),
                    None => None,
                };
                let icon = concat3(
                    "/lol-game-data/assets/v1/profile-icons/",
                    i64_to_decimal(t.icon as i64).as_str(),
                    ".jpg",
                );
                let fresh = RecentTeammate {
                    name: t.name.clone(),
                    puuid: t.puuid.clone(),
                    icon,
                    total: 0,
                    wins: 0,
                    losses: 0,
                    last_play_time: game.game_creation,
                    tag,
                };
                let e = bumped(&fresh, t.win, game.game_creation, game.remake);
                let ghost before = out@;
                out.push(e);
                assert forall|k: int| 0 <= k < out.len() implies shows(#[trigger] out@[k], tally(m1)[k], tagged@) by {
                    if k < before.len() {
                        assert(out@[k] == before[k]);
                    }
                }
            }
            j = j + 1;
        }
        assert(full.take(game.summoners.len() as int) =~= full);
        g = g + 1;
    }
    assert(games@.take(games.len() as int) =~= games@);
    out
}

/// The meetings of a prefix of the games are no more than those of all games.
proof fn lemma_meetings_prefix_len(games: Seq<GameTeammates>, n: int)
    requires
        0 <= n <= games.len(),
    ensures
        meetings(games.take(n)).len() <= meetings(games).len(),
    decreases games.len() - n,
{
    if n < games.len() {
        lemma_meetings_prefix_len(games, n + 1);
        lemma_meetings_step(games, n);
    } else {
        assert(games.take(n) =~= games);
    }
}

proof fn lemma_insert_by_rank_at(s: Seq<TallyView>, x: TallyView, tagged: Seq<(String, String)>, pos: int)
    requires
        0 <= pos <= s.len(),
        forall|j: int| pos <= j < s.len() ==> rank(#[trigger] s[j], tagged) > rank(x, tagged),
        pos == 0 || rank(s[pos - 1], tagged) <= rank(x, tagged),
    ensures
        insert_by_rank(s, x, tagged) == s.take(pos).push(x) + s.skip(pos),
    decreases s.len(),
{
    if s.len() == 0 {
        assert(s.take(pos).push(x) + s.skip(pos) =~= seq![x]);
    } else if pos == s.len() {
        assert(s.take(pos).push(x) + s.skip(pos) =~= s.push(x));
    } else {
        lemma_insert_by_rank_at(s.drop_last(), x, tagged, pos);
        assert(s.take(pos).push(x) + s.skip(pos) =~= (s.drop_last().take(pos).push(x)
            + s.drop_last().skip(pos)).push(s.last()));
    }
}

/// The games played together with `puuid` among the meetings.
pub open spec fn games_with(m: Seq<(TeammateInfo, u64, bool)>, puuid: Seq<char>) -> nat
    decreases m.len(),
{
    if m.len() == 0 {
        0
    } else {
        games_with(m.drop_last(), puuid) + if m.last().0.puuid@ == puuid {
            1nat
        } else {
            0nat
        }
    }
}

/// The games won together with `puuid` (remakes not counted).
pub open spec fn wins_with(m: Seq<(TeammateInfo, u64, bool)>, puuid: Seq<char>) -> nat
    decreases m.len(),
{
    if m.len() == 0 {
        0
    } else {
        wins_with(m.drop_last(), puuid) + if m.last().0.puuid@ == puuid && m.last().0.win && !m.last().2 {
            1nat
        } else {
            0nat
        }
    }
}

/// The games lost together with `puuid` (remakes not counted).
pub open spec fn losses_with(m: Seq<(TeammateInfo, u64, bool)>, puuid: Seq<char>) -> nat
    decreases m.len(),
{
    if m.len() == 0 {
        0
    } else {
        losses_with(m.drop_last(), puuid) + if m.last().0.puuid@ == puuid && !m.last().0.win
            && !m.last().2 {
            1nat
        } else {
            0nat
        }
    }
}

/// A tally index that is not found means no tally has the puuid.
proof fn lemma_tally_index_none(t: Seq<TallyView>, p: Seq<char>)
    ensures
        tally_index(t, p) is None ==> forall|k: int| 0 <= k < t.len() ==> (#[trigger] t[k]).puuid != p,
    decreases t.len(),
{
    if t.len() > 0 {
        lemma_tally_index_none(t.drop_last(), p);
        if tally_index(t, p) is None {
            assert forall|k: int| 0 <= k < t.len() implies (#[trigger] t[k]).puuid != p by {
                if k < t.len() - 1 {
                    assert(t[k] == t.drop_last()[k]);
                }
            }
        }
    }
}

/// The tally holds one entry per teammate met, and each entry counts that
/// teammate's games together, wins and losses over the meetings; a teammate
/// without an entry was never met.
pub proof fn law_tally_counts_meetings(m: Seq<(TeammateInfo, u64, bool)>)
    ensures
        forall|i: int, j: int|
            0 <= i < j < tally(m).len() ==> (#[trigger] tally(m)[i]).puuid != (#[trigger] tally(m)[j]).puuid,
        forall|i: int|
            0 <= i < tally(m).len() ==> {
                let v = #[trigger] tally(m)[i];
                &&& v.total == games_with(m, v.puuid)
                &&& v.wins == wins_with(m, v.puuid)
                &&& v.losses == losses_with(m, v.puuid)
            },
        forall|q: Seq<char>|
            #![trigger games_with(m, q)]
            #![trigger wins_with(m, q)]
            #![trigger losses_with(m, q)]
            tally_index(tally(m), q) is None ==> games_with(m, q) == 0 && wins_with(m, q) == 0
                && losses_with(m, q) == 0,
    decreases m.len(),
{
    if m.len() > 0 {
        let d = m.drop_last();
        law_tally_counts_meetings(d);
        let prev = tally(d);
        let (t, c, rm) = m.last();
        let p = t.puuid@;
        lemma_tally_index_in_range(prev, p);
        lemma_tally_index_none(prev, p);
        let cur = tally(m);
        match tally_index(prev, p) {
            Some(j) => {
                assert(cur == prev.update(j, bump(prev[j], t.win, c, rm)));
                assert forall|i: int, k: int| 0 <= i < k < cur.len() implies (#[trigger] cur[i]).puuid != (
                #[trigger] cur[k]).puuid by {
                    assert(cur[i].puuid == prev[i].puuid);
                    assert(cur[k].puuid == prev[k].puuid);
                }
                assert forall|i: int| 0 <= i < cur.len() implies {
                    let v = #[trigger] cur[i];
                    &&& v.total == games_with(m, v.puuid)
                    &&& v.wins == wins_with(m, v.puuid)
                    &&& v.losses == losses_with(m, v.puuid)
                } by {
                    let w = prev[i];
                    assert(w.total == games_with(d, w.puuid));
                    if i != j {
                        assert(cur[i] == w);
                        if j < i {
                            assert(prev[j].puuid != prev[i].puuid);
                        } else {
                            assert(prev[i].puuid != prev[j].puuid);
                        }
                    }
                }
                assert forall|q: Seq<char>| tally_index(cur, q) is None implies games_with(m, q) == 0
                    && wins_with(m, q) == 0 && losses_with(m, q) == 0 by {
                    lemma_tally_index_none(cur, q);
                    if q == p {
                        assert(cur[j].puuid == p);
                    }
                    assert(tally_index(prev, q) is None) by {
                        lemma_tally_index_in_range(prev, q);
                        if tally_index(prev, q) is Some {
                            let k = tally_index(prev, q)->0;
                            assert(cur[k].puuid == prev[k].puuid);
                            assert(cur[k].puuid != q);
                            assert(false);
                        }
                    }
                    assert(games_with(d, q) == 0 && wins_with(d, q) == 0 && losses_with(d, q) == 0);
                    assert(q != p);
                }
            },
            None => {
                assert(cur == prev.push(
                    bump(
                        TallyView { puuid: p, name: t.name@, icon: t.icon, total: 0, wins: 0, losses: 0, last: c },
                        t.win,
                        c,
                        rm,
                    ),
                ));
                assert(games_with(d, p) == 0);
                assert forall|i: int, k: int| 0 <= i < k < cur.len() implies (#[trigger] cur[i]).puuid != (
                #[trigger] cur[k]).puuid by {
                    if k == cur.len() - 1 {
                        assert(prev[i].puuid != p);
                    } else {
                        assert(cur[i] == prev[i] && cur[k] == prev[k]);
                    }
                }
                assert forall|i: int| 0 <= i < cur.len() implies {
                    let v = #[trigger] cur[i];
                    &&& v.total == games_with(m, v.puuid)
                    &&& v.wins == wins_with(m, v.puuid)
                    &&& v.losses == losses_with(m, v.puuid)
                } by {
                    if i < prev.len() {
                        assert(cur[i] == prev[i]);
                        assert(prev[i].puuid != p);
                        assert(prev[i].total == games_with(d, prev[i].puuid));
                    }
                }
                assert forall|q: Seq<char>| tally_index(cur, q) is None implies games_with(m, q) == 0
                    && wins_with(m, q) == 0 && losses_with(m, q) == 0 by {
                    lemma_tally_index_none(cur, q);
                    if q == p {
                        assert(cur[cur.len() - 1].puuid == p);
                    }
                    assert(tally_index(prev, q) is None) by {
                        lemma_tally_index_in_range(prev, q);
                        if tally_index(prev, q) is Some {
                            let k = tally_index(prev, q)->0;
                            assert(cur[k] == prev[k]);
                            assert(cur[k].puuid != q);
                            assert(false);
                        }
                    }
                    assert(games_with(d, q) == 0 && wins_with(d, q) == 0 && losses_with(d, q) == 0);
                    assert(q != p);
                }
            },
        }
    }
}

/// `s` is in summary order: no entry ranks after a later one.
pub open spec fn rank_sorted(s: Seq<TallyView>, tagged: Seq<(String, String)>) -> bool {
    forall|i: int, j: int| 0 <= i < j < s.len() ==> rank(#[trigger] s[i], tagged) <= rank(#[trigger] s[j], tagged)
}

/// Inserting into a sorted sequence keeps it sorted and adds exactly `x`.
proof fn lemma_insert_by_rank_sorted(s: Seq<TallyView>, x: TallyView, tagged: Seq<(String, String)>)
    requires
        rank_sorted(s, tagged),
    ensures
        rank_sorted(insert_by_rank(s, x, tagged), tagged),
        insert_by_rank(s, x, tagged).to_multiset() == s.to_multiset().insert(x),
    decreases s.len(),
{
    broadcast use vstd::seq_lib::group_to_multiset_ensures;
    broadcast use vstd::multiset::group_multiset_axioms;

    if s.len() == 0 {
        assert(seq![x] =~= Seq::<TallyView>::empty().push(x));
    } else if rank(s.last(), tagged) <= rank(x, tagged) {
        let r = s.push(x);
        assert forall|i: int, j: int| 0 <= i < j < r.len() implies rank(#[trigger] r[i], tagged) <= rank(#[trigger] r[j], tagged) by {
            if j == r.len() - 1 {
                if i < s.len() - 1 {
                    assert(rank(s[i], tagged) <= rank(s[s.len() - 1], tagged));
                }
            } else {
                assert(rank(s[i], tagged) <= rank(s[j], tagged));
            }
        }
    } else {
        let t = s.drop_last();
        let l = s.last();
        assert(rank_sorted(t, tagged)) by {
            assert forall|i: int, j: int| 0 <= i < j < t.len() implies rank(#[trigger] t[i], tagged) <= rank(#[trigger] t[j], tagged) by {
                assert(rank(s[i], tagged) <= rank(s[j], tagged));
            }
        }
        lemma_insert_by_rank_sorted(t, x, tagged);
        let q = insert_by_rank(t, x, tagged);
        let r = q.push(l);
        assert(s =~= t.push(l));
        assert forall|i: int| 0 <= i < q.len() implies rank(#[trigger] q[i], tagged) <= rank(l, tagged) by {
            let e = q[i];
            assert(q.contains(e));
            assert(q.to_multiset().count(e) > 0);
            if e != x {
                assert(t.to_multiset().count(e) > 0);
                assert(t.contains(e));
                let k = choose|k: int| 0 <= k < t.len() && t[k] == e;
                assert(rank(s[k], tagged) <= rank(s[s.len() - 1], tagged));
            }
        }
        assert forall|i: int, j: int| 0 <= i < j < r.len() implies rank(#[trigger] r[i], tagged) <= rank(#[trigger] r[j], tagged) by {
            if j == r.len() - 1 {
                assert(rank(q[i], tagged) <= rank(l, tagged));
            } else {
                assert(rank(q[i], tagged) <= rank(q[j], tagged));
            }
        }
        assert(r.to_multiset() == q.to_multiset().insert(l));
        assert(s.to_multiset() == t.to_multiset().insert(l));
        assert(r.to_multiset() =~= s.to_multiset().insert(x));
    }
}

/// The sort orders by rank and keeps exactly the given tallies.
proof fn lemma_sort_by_rank(s: Seq<TallyView>, tagged: Seq<(String, String)>)
    ensures
        rank_sorted(sort_by_rank(s, tagged), tagged),
        sort_by_rank(s, tagged).to_multiset() == s.to_multiset(),
    decreases s.len(),
{
    broadcast use vstd::seq_lib::group_to_multiset_ensures;

    if s.len() > 0 {
        lemma_sort_by_rank(s.drop_last(), tagged);
        lemma_insert_by_rank_sorted(sort_by_rank(s.drop_last(), tagged), s.last(), tagged);
        assert(s =~= s.drop_last().push(s.last()));
    }
}

/// The order the summary keeps between two tallies that rank in order, read
/// off their marks and game counts (counts below 2^64).
proof fn lemma_rank_order(a: TallyView, b: TallyView, tagged: Seq<(String, String)>)
    requires
        rank(a, tagged) <= rank(b, tagged),
        a.total < 0x1_0000_0000_0000_0000,
        b.total < 0x1_0000_0000_0000_0000,
    ensures
        tag_of(tagged, b.puuid) is Some ==> tag_of(tagged, a.puuid) is Some,
        (tag_of(tagged, a.puuid) is Some) == (tag_of(tagged, b.puuid) is Some) ==> a.total >= b.total,
{
}

/// The order of the recent-teammates summary: marked players come before
/// unmarked ones, and among players that are both marked or both unmarked one
/// met in more games never comes after one met in fewer.
pub proof fn law_summary_order(games: Seq<GameTeammates>, tagged: Seq<(String, String)>)
    requires
        meetings(games).len() < u32::MAX,
    ensures
        forall|i: int, j: int|
            0 <= i < j < summary_of(games, tagged).len() ==> {
                let a = #[trigger] summary_of(games, tagged)[i];
                let b = #[trigger] summary_of(games, tagged)[j];
                &&& tag_of(tagged, b.puuid) is Some ==> tag_of(tagged, a.puuid) is Some
                &&& (tag_of(tagged, a.puuid) is Some) == (tag_of(tagged, b.puuid) is Some) ==> a.total >= b.total
            },
{
    broadcast use vstd::seq_lib::group_to_multiset_ensures;

    let m = meetings(games);
    let t = tally(m);
    let s = sort_by_rank(t, tagged);
    lemma_sort_by_rank(t, tagged);
    lemma_tally_bounded(m);
    let out = summary_of(games, tagged);
    assert forall|i: int| 0 <= i < s.len() implies (#[trigger] s[i]).total <= m.len() by {
        assert(s.contains(s[i]));
        assert(s.to_multiset().count(s[i]) > 0);
        assert(t.contains(s[i]));
        let k = choose|k: int| 0 <= k < t.len() && t[k] == s[i];
        assert(t[k].total <= m.len());
    }
    assert forall|i: int, j: int| 0 <= i < j < out.len() implies {
        let a = #[trigger] out[i];
        let b = #[trigger] out[j];
        &&& tag_of(tagged, b.puuid) is Some ==> tag_of(tagged, a.puuid) is Some
        &&& (tag_of(tagged, a.puuid) is Some) == (tag_of(tagged, b.puuid) is Some) ==> a.total >= b.total
    } by {
        assert(out[i] == s[i] && out[j] == s[j]);
        assert(rank(s[i], tagged) <= rank(s[j], tagged));
        assert(s[i].total <= m.len() && s[j].total <= m.len());
        lemma_rank_order(s[i], s[j], tagged);
    }
}

/// The summary keeps the teammates met most: every teammate met is in the
/// summary, or the summary holds five and each of them is marked while this
/// one is not, or shares its mark and was met in at least as many games.
pub proof fn law_summary_keeps_most_met(games: Seq<GameTeammates>, tagged: Seq<(String, String)>, v: TallyView)
    requires
        meetings(games).len() < u32::MAX,
        tally(meetings(games)).contains(v),
    ensures
        summary_of(games, tagged).contains(v) || (summary_of(games, tagged).len() == 5 && forall|i: int|
            0 <= i < 5 ==> {
                let a = #[trigger] summary_of(games, tagged)[i];
                ||| (tag_of(tagged, a.puuid) is Some && tag_of(tagged, v.puuid) is None)
                ||| ((tag_of(tagged, a.puuid) is Some) == (tag_of(tagged, v.puuid) is Some) && a.total >= v.total)
            }),
{
    broadcast use vstd::seq_lib::group_to_multiset_ensures;

    let m = meetings(games);
    let t = tally(m);
    let s = sort_by_rank(t, tagged);
    lemma_sort_by_rank(t, tagged);
    lemma_tally_bounded(m);
    let out = summary_of(games, tagged);
    assert(t.to_multiset().count(v) > 0);
    assert(s.contains(v));
    let p = choose|p: int| 0 <= p < s.len() && s[p] == v;
    if p < 5 {
        assert(out[p] == v);
        assert(out.contains(v));
    } else {
        assert forall|i: int| 0 <= i < 5 implies {
            let a = #[trigger] out[i];
            ||| (tag_of(tagged, a.puuid) is Some && tag_of(tagged, v.puuid) is None)
            ||| ((tag_of(tagged, a.puuid) is Some) == (tag_of(tagged, v.puuid) is Some) && a.total >= v.total)
        } by {
            assert(out[i] == s[i]);
            assert(rank(s[i], tagged) <= rank(s[p], tagged));
            assert(s.contains(s[i]));
            assert(s.to_multiset().count(s[i]) > 0);
            assert(t.contains(s[i]));
            let k = choose|k: int| 0 <= k < t.len() && t[k] == s[i];
            assert(t[k].total <= m.len());
            let kv = choose|k: int| 0 <= k < t.len() && t[k] == v;
            assert(t[kv].total <= m.len());
            lemma_rank_order(s[i], s[p], tagged);
        }
    }
}

/// Each teammate in the summary carries the games played together, won and
/// lost (remakes counting only as games) over all the recent games.
pub proof fn law_summary_counts(games: Seq<GameTeammates>, tagged: Seq<(String, String)>)
    ensures
        forall|i: int|
            0 <= i < summary_of(games, tagged).len() ==> {
                let v = #[trigger] summary_of(games, tagged)[i];
                &&& v.total == games_with(meetings(games), v.puuid)
                &&& v.wins == wins_with(meetings(games), v.puuid)
                &&& v.losses == losses_with(meetings(games), v.puuid)
            },
{
    broadcast use vstd::seq_lib::group_to_multiset_ensures;

    let m = meetings(games);
    let t = tally(m);
    let s = sort_by_rank(t, tagged);
    lemma_sort_by_rank(t, tagged);
    law_tally_counts_meetings(m);
    let out = summary_of(games, tagged);
    assert forall|i: int| 0 <= i < out.len() implies {
        let v = #[trigger] out[i];
        &&& v.total == games_with(m, v.puuid)
        &&& v.wins == wins_with(m, v.puuid)
        &&& v.losses == losses_with(m, v.puuid)
    } by {
        assert(out[i] == s[i]);
        assert(s.contains(s[i]));
        assert(s.to_multiset().count(s[i]) > 0);
        assert(t.contains(s[i]));
        let k = choose|k: int| 0 <= k < t.len() && t[k] == s[i];
        assert(t[k] == s[i]);
    }
}

/// Whether `a` ranks after `b`.
fn ranks_after(a: &RecentTeammate, b: &RecentTeammate, Ghost(av): Ghost<TallyView>, Ghost(bv): Ghost<TallyView>, Ghost(tagged): Ghost<Seq<(String, String)>>) -> (r: bool)
    requires
        shows(*a, av, tagged),
        shows(*b, bv, tagged),
    ensures
        r == (rank(av, tagged) > rank(bv, tagged)),
{
    let at = a.tag.is_some();
    let bt = b.tag.is_some();
    (!at && bt) || (at == bt && a.total < b.total)
}

/// The summary of recent teammates: every teammate met in `games` (the
/// player's side of each game), tallied in the order first met, sorted with
/// marked players first and then by games together, at most five.
pub fn summarize_teammates(games: &Vec<GameTeammates>, tagged: &Vec<(String, String)>) -> (r: Vec<
    RecentTeammate,
>)
    requires
        meetings(games@).len() < u32::MAX,
    ensures
        r.len() == summary_of(games@, tagged@).len(),
        forall|i: int| 0 <= i < r.len() ==> shows(#[trigger] r@[i], summary_of(games@, tagged@)[i], tagged@),
        forall|i: int, j: int|
            0 <= i < j < r.len() ==> (#[trigger] r@[j].tag is Some ==> #[trigger] r@[i].tag is Some) && (
            (r@[i].tag is Some) == (r@[j].tag is Some) ==> r@[i].total >= r@[j].total),
        forall|i: int|
            0 <= i < r.len() ==> (#[trigger] r@[i]).total == games_with(meetings(games@), r@[i].puuid@)
                && r@[i].wins == wins_with(meetings(games@), r@[i].puuid@) && r@[i].losses == losses_with(
                meetings(games@),
                r@[i].puuid@,
            ),
{
    let mut rest = tally_teammates(games, tagged);
    let ghost orig = tally(meetings(games@));
    let ghost n = orig.len();
    let mut out: Vec<RecentTeammate> = Vec::new();
    let ghost mut sv: Seq<TallyView> = Seq::empty();
    let ghost mut done: int = 0;
    while rest.len() > 0
        invariant
            0 <= done <= n,
            n == orig.len(),
            rest.len() == n - done,
            forall|k: int| 0 <= k < rest.len() ==> shows(#[trigger] rest@[k], orig[done + k], tagged@),
            sv == sort_by_rank(orig.take(done), tagged@),
            out.len() == sv.len(),
            forall|k: int| 0 <= k < out.len() ==> shows(#[trigger] out@[k], sv[k], tagged@),
        decreases rest.len(),
    {
        let ghost before_rest = rest@;
        let x = rest.remove(0);
        let ghost xv = orig[done];
        assert(shows(x, xv, tagged@)) by {
            assert(shows(before_rest[0], orig[done + 0], tagged@));
        }
        assert forall|k: int| 0 <= k < rest.len() implies shows(#[trigger] rest@[k], orig[done + 1 + k], tagged@) by {
            assert(rest@[k] == before_rest[k + 1]);
            assert(shows(before_rest[k + 1], orig[done + (k + 1)], tagged@));
        }
        assert(orig.take(done + 1).drop_last() =~= orig.take(done));
        assert(orig.take(done + 1).last() == xv);
        let mut pos: usize = out.len();
        while pos > 0 && ranks_after(&out[pos - 1], &x, Ghost(sv[pos - 1]), Ghost(xv), Ghost(tagged@))
            invariant
                pos <= out.len(),
                out.len() == sv.len(),
                forall|k: int| 0 <= k < out.len() ==> shows(#[trigger] out@[k], sv[k], tagged@),
                shows(x, xv, tagged@),
                forall|j: int| pos <= j < sv.len() ==> rank(#[trigger] sv[j], tagged@) > rank(xv, tagged@),
            decreases pos,
        {
            pos = pos - 1;
        }
        proof {
            if pos > 0 {
                assert(!(rank(sv[pos - 1], tagged@) > rank(xv, tagged@)));
            }
            lemma_insert_by_rank_at(sv, xv, tagged@, pos as int);
        }
        let ghost before = out@;
        out.insert(pos, x);
        proof {
            let nsv = sv.take(pos as int).push(xv) + sv.skip(pos as int);
            assert forall|k: int| 0 <= k < out.len() implies shows(#[trigger] out@[k], nsv[k], tagged@) by {
                if k < pos {
                    assert(out@[k] == before[k]);
                } else if k > pos {
                    assert(out@[k] == before[k - 1]);
                }
            }
            sv = nsv;
            done = done + 1;
        }
    }
    assert(orig.take(n as int) =~= orig);
    if out.len() > 5 {
        out.truncate(5);
    }
    proof {
        law_summary_counts(games@, tagged@);
        assert forall|i: int| 0 <= i < out.len() implies (#[trigger] out@[i]).total == games_with(
            meetings(games@),
            out@[i].puuid@,
        ) && out@[i].wins == wins_with(meetings(games@), out@[i].puuid@) && out@[i].losses
            == losses_with(meetings(games@), out@[i].puuid@) by {
            assert(shows(out@[i], summary_of(games@, tagged@)[i], tagged@));
        }
        law_summary_order(games@, tagged@);
        let sum = summary_of(games@, tagged@);
        assert forall|i: int, j: int| 0 <= i < j < out.len() implies (#[trigger] out@[j].tag is Some
            ==> #[trigger] out@[i].tag is Some) && ((out@[i].tag is Some) == (out@[j].tag is Some)
            ==> out@[i].total >= out@[j].total) by {
            assert(shows(out@[i], sum[i], tagged@));
            assert(shows(out@[j], sum[j], tagged@));
        }
    }
    out
}

} // verus!
