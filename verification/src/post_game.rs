//! What happens around a game's end and in champion select: picking the finished
//! game out of the history, naming the players to auto-tag, warning about known
//! players, and reminding the team of tagged ones.
use vstd::prelude::*;

use crate::auto_tag::PlayerPerf;
use crate::current_game::non_empty;
use crate::json::{as_str, field, i64_field, or_else, str_field, unwrap_or, Json};
use crate::saved_players::SavedPlayerMarker;
use crate::text::{chars_of, concat2, owned, str_eq, string_of, sub_vec};

verus! {

/// The document of one history game: its `json` member, else the game itself.
pub open spec fn game_doc(g: Json) -> Json {
    unwrap_or(field(g, "json"@), g)
}

/// The first game whose id is `game_id` (any game when `game_id` is 0).
pub open spec fn first_game_with_id(games: Seq<Json>, game_id: i64) -> Option<Json>
    decreases games.len(),
{
    if games.len() == 0 {
        None
    } else if unwrap_or(i64_field(game_doc(games[0]), "gameId"@), 0i64) == game_id || game_id == 0 {
        Some(game_doc(games[0]))
    } else {
        first_game_with_id(games.drop_first(), game_id)
    }
}

/// The games of a match-history reply: `games.games`.
pub open spec fn history_games(body: Json) -> Option<Seq<Json>> {
    match field(body, "games"@) {
        Some(g) => crate::json::array_field(g, "games"@),
        None => None,
    }
}

/// The document of the game `game_id` in a match-history reply; `None` when the
/// reply lists no games or not that one (with `game_id` 0, the first game).
pub fn find_match_json(body: &Json, game_id: i64) -> (r: Option<&Json>)
    ensures
        crate::tft::deref_json(r) == match history_games(*body) {
            Some(games) => first_game_with_id(games, game_id),
            None => None,
        },
{
    let games = match body.get("games") {
        Some(g) => match g.array_at("games") {
            Some(a) => a,
            None => return None,
        },
        None => return None,
    };
    let mut k: usize = 0;
    assert(games@.subrange(0, games.len() as int) =~= games@);
    while k < games.len()
        invariant
            k <= games.len(),
            history_games(*body) == Some(games@),
            first_game_with_id(games@.subrange(k as int, games.len() as int), game_id)
                == first_game_with_id(games@, game_id),
        decreases games.len() - k,
    {
        let ghost rest = games@.subrange(k as int, games.len() as int);
        assert(rest[0] == games@[k as int]);
        assert(rest.drop_first() =~= games@.subrange(k + 1, games.len() as int));
        let g = &games[k];
        let raw = match g.get("json") {
            Some(j) => j,
            None => g,
        };
        let gid = match raw.i64_at("gameId") {
            Some(n) => n,
            None => 0,
        };
        if gid == game_id || game_id == 0 {
            return Some(raw);
        }
        k = k + 1;
    }
    None
}

/// A game asked for by a non-zero id is never taken for another one: whatever
/// the history lists, the game found carries that id.
pub proof fn law_found_game_has_the_id(games: Seq<Json>, game_id: i64)
    requires
        game_id != 0,
    ensures
        first_game_with_id(games, game_id) matches Some(g) ==> unwrap_or(i64_field(g, "gameId"@), 0i64)
            == game_id,
    decreases games.len(),
{
    if games.len() > 0 {
        law_found_game_has_the_id(games.drop_first(), game_id);
    }
}

/// The team of the first player whose puuid is `puuid`, 0 when none.
pub open spec fn team_of_puuid(players: Seq<PlayerPerf>, puuid: Seq<char>) -> i32
    decreases players.len(),
{
    if players.len() == 0 {
        0
    } else if players[0].puuid@ == puuid {
        players[0].team_id
    } else {
        team_of_puuid(players.drop_first(), puuid)
    }
}

/// The relation of a player on team `team` to a summoner on team `self_team`
/// (0: unknown).
pub open spec fn relation_to(self_team: i32, team: i32) -> Seq<char> {
    if self_team != 0 && team == self_team {
        "ally"@
    } else if self_team != 0 {
        "enemy"@
    } else {
        ""@
    }
}

/// The last player other than the summoner whose puuid is `puuid` (non-empty).
pub open spec fn last_other_with(players: Seq<PlayerPerf>, self_puuid: Seq<char>, puuid: Seq<char>) -> Option<PlayerPerf>
    decreases players.len(),
{
    if players.len() == 0 {
        None
    } else {
        let p = players.last();
        if p.puuid@.len() > 0 && p.puuid@ != self_puuid && p.puuid@ == puuid {
            Some(p)
        } else {
            last_other_with(players.drop_last(), self_puuid, puuid)
        }
    }
}

/// What the auto-tagger stores with a tagged player: no name, his champion and
/// his relation to the summoner (empty values when he is not among `players`).
pub open spec fn spec_auto_tag_name(players: Seq<PlayerPerf>, self_puuid: Seq<char>, puuid: Seq<char>) -> (Seq<char>, i32, Seq<char>) {
    match last_other_with(players, self_puuid, puuid) {
        Some(p) => (Seq::empty(), p.champion_id, relation_to(team_of_puuid(players, self_puuid), p.team_id)),
        None => (Seq::empty(), 0, Seq::empty()),
    }
}

/// The team of the first player whose puuid is `puuid`, 0 when none.
fn find_team(players: &Vec<PlayerPerf>, puuid: &str) -> (r: i32)
    ensures
        r == team_of_puuid(players@, puuid@),
{
    let mut k: usize = 0;
    assert(players@.subrange(0, players.len() as int) =~= players@);
    while k < players.len()
        invariant
            k <= players.len(),
            team_of_puuid(players@.subrange(k as int, players.len() as int), puuid@) == team_of_puuid(
                players@,
                puuid@,
            ),
        decreases players.len() - k,
    {
        let ghost rest = players@.subrange(k as int, players.len() as int);
        assert(rest[0] == players@[k as int]);
        assert(rest.drop_first() =~= players@.subrange(k + 1, players.len() as int));
        if str_eq(players[k].puuid.as_str(), puuid) {
            return players[k].team_id;
        }
        k = k + 1;
    }
    0
}

/// The name, champion and relation the auto-tagger stores with the tagged
/// player `puuid`, from the game's `players` seen by `self_puuid`.
pub fn auto_tag_name(players: &Vec<PlayerPerf>, self_puuid: &str, puuid: &str) -> (r: (String, i32, String))
    ensures
        (r.0@, r.1, r.2@) == spec_auto_tag_name(players@, self_puuid@, puuid@),
{
    let self_team = find_team(players, self_puuid);
    let mut k: usize = players.len();
    assert(players@.take(k as int) =~= players@);
    while k > 0
        invariant
            k <= players.len(),
            self_team == team_of_puuid(players@, self_puuid@),
            last_other_with(players@, self_puuid@, puuid@) == last_other_with(players@.take(k as int), self_puuid@, puuid@),
        decreases k,
    {
        let p = &players[k - 1];
        assert(players@.take(k as int).last() == players@[k - 1]);
        assert(players@.take(k as int).drop_last() =~= players@.take(k - 1));
        if !p.puuid.as_str().is_empty() && !str_eq(p.puuid.as_str(), self_puuid) && str_eq(p.puuid.as_str(), puuid) {
            let relation = if self_team != 0 && p.team_id == self_team {
                "ally"
            } else if self_team != 0 {
                "enemy"
            } else {
                ""
            };
            return (String::new(), p.champion_id, owned(relation));
        }
        k = k - 1;
    }
    (String::new(), 0, String::new())
}

/// A known player's puuid taken from a champion-select team member: a
/// non-empty puuid other than the summoner's.
pub open spec fn radar_puuid(p: Json, self_puuid: Seq<char>) -> Option<Seq<char>> {
    match str_field(p, "puuid"@) {
        Some(s) => if s.len() > 0 && s != self_puuid {
            Some(s)
        } else {
            None
        },
        None => None,
    }
}

/// The name given with a team member: the first present of `gameName`,
/// `displayName`, `summonerName`, when it is a string.
pub open spec fn radar_name(p: Json) -> Option<Seq<char>> {
    match or_else(or_else(field(p, "gameName"@), field(p, "displayName"@)), field(p, "summonerName"@)) {
        Some(v) => as_str(v),
        None => None,
    }
}

/// The team members that are candidates (with a puuid other than the summoner's).
pub open spec fn radar_members(team: Seq<Json>, self_puuid: Seq<char>) -> Seq<Json>
    decreases team.len(),
{
    if team.len() == 0 {
        Seq::empty()
    } else if radar_puuid(team.last(), self_puuid) is Some {
        radar_members(team.drop_last(), self_puuid).push(team.last())
    } else {
        radar_members(team.drop_last(), self_puuid)
    }
}

/// The last name given for `puuid` among the candidate members.
pub open spec fn known_name(members: Seq<Json>, self_puuid: Seq<char>, puuid: Seq<char>) -> Option<Seq<char>>
    decreases members.len(),
{
    if members.len() == 0 {
        None
    } else if radar_puuid(members.last(), self_puuid) == Some(puuid) && radar_name(members.last()) is Some {
        radar_name(members.last())
    } else {
        known_name(members.drop_last(), self_puuid, puuid)
    }
}

/// A champion-select teammate to look up among the saved players, and the name
/// to show for him.
pub struct RadarCandidate {
    pub puuid: String,
    pub name: String,
}

/// `c` is the candidate of member `m` of `team`: his puuid, and his known name or
/// the first eight characters of his puuid.
pub open spec fn candidate_is(c: RadarCandidate, m: Json, team: Seq<Json>, self_puuid: Seq<char>) -> bool {
    let puuid = radar_puuid(m, self_puuid)->0;
    &&& c.puuid@ == puuid
    &&& c.name@ == match known_name(radar_members(team, self_puuid), self_puuid, puuid) {
        Some(n) => n,
        None => puuid.take(if puuid.len() < 8 { puuid.len() as int } else { 8 }),
    }
}

/// The last name given for `puuid` among the members.
fn find_known_name<'a>(members: &Vec<&'a Json>, self_puuid: &str, puuid: &str) -> (r: Option<&'a str>)
    ensures
        match r {
            Some(n) => known_name(members@.map_values(|m: &Json| *m), self_puuid@, puuid@) == Some(n@),
            None => known_name(members@.map_values(|m: &Json| *m), self_puuid@, puuid@) is None,
        },
{
    let ghost ms = members@.map_values(|m: &Json| *m);
    let mut k: usize = members.len();
    assert(ms.take(k as int) =~= ms);
    while k > 0
        invariant
            k <= members.len(),
            ms == members@.map_values(|m: &Json| *m),
            known_name(ms, self_puuid@, puuid@) == known_name(ms.take(k as int), self_puuid@, puuid@),
        decreases k,
    {
        let m = members[k - 1];
        assert(ms.take(k as int).last() == *m);
        assert(ms.take(k as int).drop_last() =~= ms.take(k - 1));
        let pid = match m.str_at("puuid") {
            Some(s) => if !s.is_empty() && !str_eq(s, self_puuid) {
                Some(s)
            } else {
                None
            },
            None => None,
        };
        let name_value = match m.get("gameName") {
            Some(v) => Some(v),
            None => match m.get("displayName") {
                Some(v) => Some(v),
                None => m.get("summonerName"),
            },
        };
        let name = match name_value {
            Some(v) => v.as_str(),
            None => None,
        };
        match (pid, name) {
            (Some(p), Some(n)) => if str_eq(p, puuid) {
                return Some(n);
            },
            _ => {},
        }
        k = k - 1;
    }
    assert(ms.take(0) =~= Seq::<Json>::empty());
    None
}

/// The first eight characters of `s` (all of it when shorter).
fn first_eight(s: &str) -> (r: String)
    ensures
        r@ == s@.take(if s@.len() < 8 { s@.len() as int } else { 8 }),
{
    let cs = chars_of(s);
    let n: usize = if cs.len() < 8 {
        cs.len()
    } else {
        8
    };
    let part = sub_vec(cs.as_slice(), 0, n);
    let r = string_of(part.as_slice());
    assert(r@ =~= s@.take(n as int));
    r
}

/// The teammates of the champion-select `team` to look up, in order, with the
/// names to show.
pub fn radar_candidates(team: &Vec<Json>, self_puuid: &str) -> (r: Vec<RadarCandidate>)
    ensures
        r.len() == radar_members(team@, self_puuid@).len(),
        forall|i: int|
            0 <= i < r.len() ==> candidate_is(
                #[trigger] r@[i],
                radar_members(team@, self_puuid@)[i],
                team@,
                self_puuid@,
            ),
{
    let mut members: Vec<&Json> = Vec::new();
    let mut k: usize = 0;
    while k < team.len()
        invariant
            k <= team.len(),
            members@.map_values(|m: &Json| *m) =~= radar_members(team@.take(k as int), self_puuid@),
        decreases team.len() - k,
    {
        assert(team@.take(k + 1).drop_last() =~= team@.take(k as int));
        assert(team@.take(k + 1).last() == team@[k as int]);
        let m = &team[k];
        match m.str_at("puuid") {
            Some(s) => if !s.is_empty() && !str_eq(s, self_puuid) {
                members.push(m);
            },
            None => {},
        }
        k = k + 1;
    }
    assert(team@.take(team.len() as int) =~= team@);
    let ghost ms = radar_members(team@, self_puuid@);
    let mut out: Vec<RadarCandidate> = Vec::new();
    let mut i: usize = 0;
    while i < members.len()
        invariant
            i <= members.len(),
            members@.map_values(|m: &Json| *m) == ms,
            ms == radar_members(team@, self_puuid@),
            out.len() == i,
            forall|j: int| 0 <= j < i ==> candidate_is(#[trigger] out@[j], ms[j], team@, self_puuid@),
        decreases members.len() - i,
    {
        let m = members[i];
        assert(ms[i as int] == *m);
        proof {
            lemma_radar_members_have_puuid(team@, self_puuid@, i as int);
        }
        let puuid = match m.str_at("puuid") {
            Some(s) => s,
            None => "",
        };
        let name = match find_known_name(&members, self_puuid, puuid) {
            Some(n) => owned(n),
            None => first_eight(puuid),
        };
        out.push(RadarCandidate { puuid: owned(puuid), name });
        i = i + 1;
    }
    out
}

proof fn lemma_radar_members_have_puuid(team: Seq<Json>, self_puuid: Seq<char>, i: int)
    requires
        0 <= i < radar_members(team, self_puuid).len(),
    ensures
        radar_puuid(radar_members(team, self_puuid)[i], self_puuid) is Some,
    decreases team.len(),
{
    if team.len() > 0 {
        let rest = radar_members(team.drop_last(), self_puuid);
        if radar_puuid(team.last(), self_puuid) is Some {
            if i < rest.len() {
                lemma_radar_members_have_puuid(team.drop_last(), self_puuid, i);
            }
        } else {
            lemma_radar_members_have_puuid(team.drop_last(), self_puuid, i);
        }
    }
}

/// A warning about a known player in champion select.
pub struct RadarAlert {
    pub puuid: String,
    pub name: String,
    /// The label shown: the auto tag, else the manual tag, else `已标记`.
    pub tag: String,
    pub auto_tag: Option<String>,
    pub manual_tag: Option<String>,
    pub relation: Option<String>,
    pub encounter_count: i32,
    pub list_kind: String,
    pub list_reason: Option<String>,
}

/// The label of a marked player: his auto tag, else his manual tag, else `已标记`.
pub open spec fn radar_label(m: SavedPlayerMarker) -> Seq<char> {
    match m.auto_tag {
        Some(a) => a@,
        None => match m.tag {
            Some(t) => t@,
            None => "已标记"@,
        },
    }
}

/// A copy of an optional string.
fn clone_opt(o: &Option<String>) -> (r: Option<String>)
    ensures
        crate::fate::opt_view(r) == crate::fate::opt_view(*o),
{
    match o {
        Some(s) => Some(s.clone()),
        None => None,
    }
}

/// The warning about candidate `c`, whose saved mark is `m`.
pub fn radar_alert(c: &RadarCandidate, m: &SavedPlayerMarker) -> (r: RadarAlert)
    ensures
        r.puuid@ == c.puuid@,
        r.name@ == c.name@,
        r.tag@ == radar_label(*m),
        crate::fate::opt_view(r.auto_tag) == crate::fate::opt_view(m.auto_tag),
        crate::fate::opt_view(r.manual_tag) == crate::fate::opt_view(m.tag),
        crate::fate::opt_view(r.relation) == crate::fate::opt_view(m.last_relation),
        r.encounter_count == m.encounter_count,
        r.list_kind@ == m.list_kind@,
        crate::fate::opt_view(r.list_reason) == crate::fate::opt_view(m.list_reason),
{
    let tag = match &m.auto_tag {
        Some(a) => a.clone(),
        None => match &m.tag {
            Some(t) => t.clone(),
            None => "已标记".to_string(),
        },
    };
    RadarAlert {
        puuid: c.puuid.clone(),
        name: c.name.clone(),
        tag,
        auto_tag: clone_opt(&m.auto_tag),
        manual_tag: clone_opt(&m.tag),
        relation: clone_opt(&m.last_relation),
        encounter_count: m.encounter_count,
        list_kind: m.list_kind.clone(),
        list_reason: clone_opt(&m.list_reason),
    }
}

/// The tag of `puuid` among the tagged players (the last entry for him).
pub open spec fn tag_of(tagged: Seq<(String, String)>, puuid: Seq<char>) -> Option<Seq<char>>
    decreases tagged.len(),
{
    if tagged.len() == 0 {
        None
    } else if tagged.last().0@ == puuid {
        Some(tagged.last().1@)
    } else {
        tag_of(tagged.drop_last(), puuid)
    }
}

/// The puuid used for a champion-select teammate: his own, else his summoner
/// record's (empty when neither has one).
pub open spec fn reminder_puuid(player: Json, info: Option<Json>) -> Seq<char> {
    let own = unwrap_or(str_field(player, "puuid"@), Seq::empty());
    if own.len() == 0 {
        match info {
            Some(i) => unwrap_or(str_field(i, "puuid"@), Seq::empty()),
            None => own,
        }
    } else {
        own
    }
}

/// The reminder sent about a teammate: `None` unless he has a puuid and a tag;
/// the name shown is his display name, else game name, else his puuid.
pub open spec fn spec_reminder(player: Json, info: Option<Json>, tagged: Seq<(String, String)>) -> Option<Seq<char>> {
    let puuid = reminder_puuid(player, info);
    let name = match info {
        Some(i) => match non_empty(i, "displayName"@) {
            Some(n) => n,
            None => unwrap_or(non_empty(i, "gameName"@), Seq::empty()),
        },
        None => Seq::empty(),
    };
    let shown = if name.len() == 0 {
        puuid
    } else {
        name
    };
    if puuid.len() == 0 {
        None
    } else {
        match tag_of(tagged, puuid) {
            Some(tag) => Some("[rustyuumi] 玩家 "@ + shown + " 已被标记："@ + tag),
            None => None,
        }
    }
}

/// The tag of `puuid` among the tagged players.
fn find_tag<'a>(tagged: &'a Vec<(String, String)>, puuid: &str) -> (r: Option<&'a String>)
    ensures
        match r {
            Some(t) => tag_of(tagged@, puuid@) == Some(t@),
            None => tag_of(tagged@, puuid@) is None,
        },
{
    let mut k: usize = tagged.len();
    assert(tagged@.take(k as int) =~= tagged@);
    while k > 0
        invariant
            k <= tagged.len(),
            tag_of(tagged@, puuid@) == tag_of(tagged@.take(k as int), puuid@),
        decreases k,
    {
        assert(tagged@.take(k as int).last() == tagged@[k - 1]);
        assert(tagged@.take(k as int).drop_last() =~= tagged@.take(k - 1));
        if str_eq(tagged[k - 1].0.as_str(), puuid) {
            return Some(&tagged[k - 1].1);
        }
        k = k - 1;
    }
    None
}

/// The reminder to send about a champion-select teammate `player`, given his
/// summoner record `info` (if it could be read) and the tagged players
/// `tagged` (puuid and tag).
pub fn reminder_message(player: &Json, info: Option<&Json>, tagged: &Vec<(String, String)>) -> (r: Option<String>)
    ensures
        match r {
            Some(m) => spec_reminder(*player, crate::tft::deref_json(info), tagged@) == Some(m@),
            None => spec_reminder(*player, crate::tft::deref_json(info), tagged@) is None,
        },
{
    let mut puuid = match player.str_at("puuid") {
        Some(s) => owned(s),
        None => String::new(),
    };
    let mut name = String::new();
    match info {
        Some(i) => {
            if puuid.as_str().is_empty() {
                puuid = match i.str_at("puuid") {
                    Some(s) => owned(s),
                    None => String::new(),
                };
            }
            name = match i.str_at("displayName") {
                Some(n) if !n.is_empty() => owned(n),
                _ => match i.str_at("gameName") {
                    Some(n) if !n.is_empty() => owned(n),
                    _ => String::new(),
                },
            };
        },
        None => {},
    }
    if puuid.as_str().is_empty() {
        return None;
    }
    let tag = match find_tag(tagged, puuid.as_str()) {
        Some(t) => t,
        None => return None,
    };
    if name.as_str().is_empty() {
        name = puuid.clone();
    }
    let head = concat2("[rustyuumi] 玩家 ", name.as_str());
    let mid = concat2(head.as_str(), " 已被标记：");
    let msg = concat2(mid.as_str(), tag.as_str());
    Some(msg)
}

} // verus!
