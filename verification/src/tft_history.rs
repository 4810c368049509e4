//! TFT match history: the cleaning of each game and the tally of placements.
use vstd::prelude::*;

use crate::clock::{chrono_fixed_offset_text, format_fixed_offset};
use crate::json::{
    as_u64_lenient, field, str_field, i64_field, opt_str, opt_u64_lenient, or_else, u64_field,
    unwrap_or, wrap_i32, Json,
};
use crate::queue::{secs_to_str, spec_secs_to_str};
use crate::text::{concat3, owned, str_eq};
use crate::tft::{deref_json, opt_as_str, or_field, TftDataMapping};
use crate::tft_participant::{
    parse_single_tft_participant, participant_matches, TftParticipantDisplay, TftTraitDisplay, TftUnitDisplay,
};

verus! {

/// One cleaned TFT game, seen from the player whose history it is.
pub struct TftMatchDisplay {
    pub game_id: u64,
    pub queue_id: i32,
    pub queue_name: String,
    pub game_creation: u64,
    pub game_duration: u64,
    pub time_str: String,
    pub duration_str: String,
    /// 1 to 8.
    pub placement: i32,
    pub level: i32,
    pub gold_left: i32,
    pub total_damage_to_players: i32,
    pub companion_icon_url: String,
    pub traits: Vec<TftTraitDisplay>,
    pub units: Vec<TftUnitDisplay>,
    pub augments: Vec<String>,
    pub participants: Vec<TftParticipantDisplay>,
}

/// The cleaned games of a history, with the tallies of the player's placements.
pub struct TftHistory {
    pub matches: Vec<TftMatchDisplay>,
    /// Games the player won (placement 1).
    pub win_count: u64,
    /// Games the player finished in the top four.
    pub top4_count: u64,
    /// The sum of the player's placements.
    pub placement_sum: i128,
}

/// The display name of a TFT queue.
pub open spec fn tft_queue_name(queue_id: i32) -> Seq<char> {
    if queue_id == 1090 {
        "云顶之弈(匹配)"@
    } else if queue_id == 1100 {
        "云顶之弈(排位)"@
    } else if queue_id == 1130 {
        "狂暴模式"@
    } else if queue_id == 1160 {
        "双人作战"@
    } else {
        "云顶模式"@
    }
}

/// The display name of a TFT queue.
pub fn tft_queue_name_exec(queue_id: i32) -> (r: &'static str)
    ensures
        r@ == tft_queue_name(queue_id),
{
    if queue_id == 1090 {
        "云顶之弈(匹配)"
    } else if queue_id == 1100 {
        "云顶之弈(排位)"
    } else if queue_id == 1130 {
        "狂暴模式"
    } else if queue_id == 1160 {
        "双人作战"
    } else {
        "云顶模式"
    }
}

/// The puuid of an identity's `player` record.
pub open spec fn identity_puuid(player: Json) -> Seq<char> {
    unwrap_or(opt_str(or_else(field(player, "puuid"@), field(player, "currentPuuid"@))), Seq::empty())
}

/// The name of an identity's `player` record: `gameName#tagLine`, the game name
/// alone, a legacy name member, else empty.
pub open spec fn identity_name(player: Json) -> Seq<char> {
    let gn = opt_str(or_else(field(player, "gameName"@), field(player, "game_name"@)));
    let tl = opt_str(or_else(field(player, "tagLine"@), field(player, "tag_line"@)));
    match gn {
        Some(g) => match tl {
            Some(t) => g + "#"@ + t,
            None => g,
        },
        None => unwrap_or(
            opt_str(
                or_else(
                    or_else(field(player, "summonerName"@), field(player, "displayName"@)),
                    field(player, "name"@),
                ),
            ),
            Seq::empty(),
        ),
    }
}

/// The identity registered for participant id `pid` (`pid > 0`): that of the last
/// identity record with that id and a `player`.
pub open spec fn ident_by_pid(ids: Seq<Json>, pid: i64) -> Option<(Seq<char>, Seq<char>)>
    decreases ids.len(),
{
    if ids.len() == 0 {
        None
    } else {
        let it = ids.last();
        match field(it, "player"@) {
            Some(pl) => if pid > 0 && unwrap_or(i64_field(it, "participantId"@), 0) == pid {
                Some((identity_puuid(pl), identity_name(pl)))
            } else {
                ident_by_pid(ids.drop_last(), pid)
            },
            None => ident_by_pid(ids.drop_last(), pid),
        }
    }
}

/// The name registered for `puuid`: that of the last identity record whose
/// player has that puuid and a name.
pub open spec fn name_by_puuid(ids: Seq<Json>, puuid: Seq<char>) -> Option<Seq<char>>
    decreases ids.len(),
{
    if ids.len() == 0 {
        None
    } else {
        match field(ids.last(), "player"@) {
            Some(pl) => if identity_puuid(pl).len() > 0 && identity_name(pl).len() > 0
                && identity_puuid(pl) == puuid {
                Some(identity_name(pl))
            } else {
                name_by_puuid(ids.drop_last(), puuid)
            },
            None => name_by_puuid(ids.drop_last(), puuid),
        }
    }
}

/// The identity records of a game.
pub open spec fn game_identities(g: Json) -> Seq<Json> {
    unwrap_or(crate::json::array_field(g, "participantIdentities"@), Seq::empty())
}

/// The puuid a participant record carries itself, empty when it has none.
pub open spec fn own_puuid(p: Json) -> Seq<char> {
    unwrap_or(
        opt_str(
            or_else(
                field(p, "puuid"@),
                match field(p, "stats"@) {
                    Some(s) => field(s, "puuid"@),
                    None => None,
                },
            ),
        ),
        Seq::empty(),
    )
}

/// The identity known for a participant: by its participant id, else by its puuid.
pub open spec fn participant_ident(g: Json, p: Json) -> Option<(Seq<char>, Seq<char>)> {
    let pid = unwrap_or(i64_field(p, "participantId"@), 0);
    let by_pid = if pid > 0 {
        ident_by_pid(game_identities(g), pid)
    } else {
        None
    };
    let key = own_puuid(p);
    if by_pid is None && key.len() > 0 {
        match name_by_puuid(game_identities(g), key) {
            Some(n) => Some((key, n)),
            None => None,
        }
    } else {
        by_pid
    }
}

/// The participant records of a game.
pub open spec fn game_participants(g: Json) -> Seq<Json> {
    unwrap_or(crate::json::array_field(g, "participants"@), Seq::empty())
}

/// `sorted` with `x` inserted after every element whose placement is not above its own.
pub open spec fn insert_by_placement(sorted: Seq<TftParticipantDisplay>, x: TftParticipantDisplay) -> Seq<
    TftParticipantDisplay,
>
    decreases sorted.len(),
{
    if sorted.len() == 0 {
        seq![x]
    } else if sorted.last().placement <= x.placement {
        sorted.push(x)
    } else {
        insert_by_placement(sorted.drop_last(), x).push(sorted.last())
    }
}

/// `s` in ascending placement, players of equal placement in their first order.
pub open spec fn sort_by_placement(s: Seq<TftParticipantDisplay>) -> Seq<TftParticipantDisplay>
    decreases s.len(),
{
    if s.len() == 0 {
        s
    } else {
        insert_by_placement(sort_by_placement(s.drop_last()), s.last())
    }
}

/// The index of the first player marked as the history's owner.
pub open spec fn first_self(ps: Seq<TftParticipantDisplay>) -> Option<int>
    decreases ps.len(),
{
    if ps.len() == 0 {
        None
    } else if ps[0].is_self {
        Some(0)
    } else {
        match first_self(ps.drop_first()) {
            Some(i) => Some(i + 1),
            None => None,
        }
    }
}

pub open spec fn unit_same(a: TftUnitDisplay, b: TftUnitDisplay) -> bool {
    &&& a.character_id@ == b.character_id@
    &&& a.name@ == b.name@
    &&& a.icon_url@ == b.icon_url@
    &&& a.rarity == b.rarity
    &&& a.tier == b.tier
    &&& a.item_names@.len() == b.item_names@.len()
    &&& (forall|i: int| 0 <= i < a.item_names@.len() ==> #[trigger] a.item_names@[i]@ == b.item_names@[i]@)
    &&& a.item_icon_urls@.len() == b.item_icon_urls@.len()
    &&& (forall|i: int|
        0 <= i < a.item_icon_urls@.len() ==> #[trigger] a.item_icon_urls@[i]@ == b.item_icon_urls@[i]@)
}

pub open spec fn trait_same(a: TftTraitDisplay, b: TftTraitDisplay) -> bool {
    &&& a.name@ == b.name@
    &&& a.num_units == b.num_units
    &&& a.tier_current == b.tier_current
    &&& a.icon_url@ == b.icon_url@
}

/// The board of the match display is that of player `p`.
pub open spec fn board_of(m: TftMatchDisplay, p: TftParticipantDisplay) -> bool {
    &&& m.placement == p.placement
    &&& m.level == p.level
    &&& m.gold_left == p.gold_left
    &&& m.total_damage_to_players == p.total_damage_to_players
    &&& m.companion_icon_url@ == p.companion_icon_url@
    &&& m.traits.len() == p.traits.len()
    &&& (forall|i: int| 0 <= i < m.traits.len() ==> trait_same(#[trigger] m.traits@[i], p.traits@[i]))
    &&& m.units.len() == p.units.len()
    &&& (forall|i: int| 0 <= i < m.units.len() ==> unit_same(#[trigger] m.units@[i], p.units@[i]))
    &&& m.augments.len() == p.augments.len()
    &&& (forall|i: int| 0 <= i < m.augments.len() ==> #[trigger] m.augments@[i]@ == p.augments@[i]@)
}

/// The board shown when the game lists no player.
pub open spec fn empty_board(m: TftMatchDisplay) -> bool {
    &&& m.placement == 8
    &&& m.level == 1
    &&& m.gold_left == 0
    &&& m.total_damage_to_players == 0
    &&& m.companion_icon_url@ == Seq::<char>::empty()
    &&& m.traits.len() == 0
    &&& m.units.len() == 0
    &&& m.augments.len() == 0
}

/// The parsed players `ps` are those of the records `raw` of game `g`.
pub open spec fn players_of(
    ps: Seq<TftParticipantDisplay>,
    g: Json,
    data: TftDataMapping,
    puuid: Seq<char>,
) -> bool {
    let raw = game_participants(g);
    &&& ps.len() == raw.len()
    &&& forall|i: int|
        0 <= i < ps.len() ==> participant_matches(
            #[trigger] ps[i],
            raw[i],
            participant_ident(g, raw[i]),
            data,
            puuid,
        )
}

pub open spec fn game_duration_of(g: Json) -> u64 {
    unwrap_or(
        opt_u64_lenient(
            or_else(or_else(field(g, "game_length"@), field(g, "gameDuration"@)), field(g, "gameLength"@)),
        ),
        0,
    )
}

/// The header of a match display: what comes from the game record itself.
pub open spec fn match_header(m: TftMatchDisplay, g: Json) -> bool {
    let creation = unwrap_or(u64_field(g, "gameCreation"@), 0);
    let queue_id = wrap_i32(unwrap_or(i64_field(g, "queueId"@), 0));
    &&& m.game_id == unwrap_or(u64_field(g, "gameId"@), 0)
    &&& m.game_creation == creation
    &&& m.game_duration == game_duration_of(g)
    &&& m.queue_id == queue_id
    &&& m.queue_name@ == tft_queue_name(queue_id)
    &&& m.time_str@ == unwrap_or(
        chrono_fixed_offset_text((creation / 1000) as i64, 28800, "%m-%d %H:%M"@),
        "01-01 00:00"@,
    )
    &&& m.duration_str@ == spec_secs_to_str(game_duration_of(g))
}

/// `m` is the display of game `g` for the player `puuid`: its players are
/// those of the record sorted by placement, and its board is that of the
/// first player marked as the owner, else of the first player.
pub open spec fn match_built(m: TftMatchDisplay, g: Json, data: TftDataMapping, puuid: Seq<char>) -> bool {
    &&& match_header(m, g)
    &&& exists|ps: Seq<TftParticipantDisplay>|
        #[trigger] players_of(ps, g, data, puuid) && m.participants@ == sort_by_placement(ps)
    &&& match first_self(m.participants@) {
        Some(j) => board_of(m, m.participants@[j]),
        None => if m.participants.len() > 0 {
            board_of(m, m.participants@[0])
        } else {
            empty_board(m)
        },
    }
}

/// The puuid of an identity's `player` record.
fn identity_puuid_exec(player: &Json) -> (r: String)
    ensures
        r@ == identity_puuid(*player),
{
    match opt_as_str(or_field(player.get("puuid"), player, "currentPuuid")) {
        Some(s) => owned(s),
        None => String::new(),
    }
}

/// The name of an identity's `player` record.
fn identity_name_exec(player: &Json) -> (r: String)
    ensures
        r@ == identity_name(*player),
{
    let gn = opt_as_str(or_field(player.get("gameName"), player, "game_name"));
    let tl = opt_as_str(or_field(player.get("tagLine"), player, "tag_line"));
    match gn {
        Some(g) => match tl {
            Some(t) => concat3(g, "#", t),
            None => owned(g),
        },
        None => match opt_as_str(
            or_field(or_field(player.get("summonerName"), player, "displayName"), player, "name"),
        ) {
            Some(s) => owned(s),
            None => String::new(),
        },
    }
}

/// The identity registered for participant id `pid`.
fn ident_by_pid_exec(ids: &Vec<Json>, pid: i64) -> (r: Option<(String, String)>)
    ensures
        r matches Some(x) ==> ident_by_pid(ids@, pid) == Some((x.0@, x.1@)),
        r is None ==> ident_by_pid(ids@, pid) is None,
{
    let mut k: usize = ids.len();
    assert(ids@.take(ids.len() as int) =~= ids@);
    while k > 0
        invariant
            k <= ids.len(),
            ident_by_pid(ids@, pid) == ident_by_pid(ids@.take(k as int), pid),
        decreases k,
    {
        assert(ids@.take(k as int).drop_last() =~= ids@.take(k - 1));
        assert(ids@.take(k as int).last() == ids@[k - 1]);
        let it = &ids[k - 1];
        match it.get("player") {
            Some(pl) => {
                let it_pid = match it.i64_at("participantId") {
                    Some(n) => n,
                    None => 0,
                };
                if pid > 0 && it_pid == pid {
                    return Some((identity_puuid_exec(pl), identity_name_exec(pl)));
                }
            },
            None => {},
        }
        k = k - 1;
    }
    None
}

/// The name registered for `puuid`.
fn name_by_puuid_exec(ids: &Vec<Json>, puuid: &str) -> (r: Option<String>)
    ensures
        r matches Some(x) ==> name_by_puuid(ids@, puuid@) == Some(x@),
        r is None ==> name_by_puuid(ids@, puuid@) is None,
{
    let mut k: usize = ids.len();
    assert(ids@.take(ids.len() as int) =~= ids@);
    while k > 0
        invariant
            k <= ids.len(),
            name_by_puuid(ids@, puuid@) == name_by_puuid(ids@.take(k as int), puuid@),
        decreases k,
    {
        assert(ids@.take(k as int).drop_last() =~= ids@.take(k - 1));
        assert(ids@.take(k as int).last() == ids@[k - 1]);
        match ids[k - 1].get("player") {
            Some(pl) => {
                let u = identity_puuid_exec(pl);
                let n = identity_name_exec(pl);
                if !u.as_str().is_empty() && !n.as_str().is_empty() && str_eq(u.as_str(), puuid) {
                    return Some(n);
                }
            },
            None => {},
        }
        k = k - 1;
    }
    None
}

/// The identity known for the participant record `p` of game `g`.
pub fn participant_ident_exec(g: &Json, p: &Json) -> (r: Option<(String, String)>)
    ensures
        r matches Some(x) ==> participant_ident(*g, *p) == Some((x.0@, x.1@)),
        r is None ==> participant_ident(*g, *p) is None,
{
    let empty: Vec<Json> = Vec::new();
    let ids = match g.array_at("participantIdentities") {
        Some(a) => a,
        None => &empty,
    };
    assert(ids@ == game_identities(*g));
    let pid = match p.i64_at("participantId") {
        Some(n) => n,
        None => 0,
    };
    let by_pid = if pid > 0 {
        ident_by_pid_exec(ids, pid)
    } else {
        None
    };
    let own = match p.get("puuid") {
        Some(v) => Some(v),
        None => match p.get("stats") {
            Some(st) => st.get("puuid"),
            None => None,
        },
    };
    let key = match opt_as_str(own) {
        Some(s) => s,
        None => "",
    };
    proof {
        reveal_strlit("");
    }
    assert(key@ == own_puuid(*p));
    if by_pid.is_none() && !key.is_empty() {
        match name_by_puuid_exec(ids, key) {
            Some(n) => Some((owned(key), n)),
            None => None,
        }
    } else {
        by_pid
    }
}

/// Inserting `x` into `s` lands it just after the last element whose
/// placement is not above its own.
proof fn lemma_insert_at(s: Seq<TftParticipantDisplay>, x: TftParticipantDisplay, pos: int)
    requires
        0 <= pos <= s.len(),
        forall|j: int| pos <= j < s.len() ==> s[j].placement > x.placement,
        pos == 0 || s[pos - 1].placement <= x.placement,
    ensures
        insert_by_placement(s, x) == s.take(pos).push(x) + s.skip(pos),
    decreases s.len(),
{
    if s.len() == 0 {
        assert(s.take(pos).push(x) + s.skip(pos) =~= seq![x]);
    } else if pos == s.len() {
        assert(s.take(pos).push(x) + s.skip(pos) =~= s.push(x));
    } else {
        lemma_insert_at(s.drop_last(), x, pos);
        assert(s.take(pos).push(x) + s.skip(pos) =~= (s.drop_last().take(pos).push(x)
            + s.drop_last().skip(pos)).push(s.last()));
    }
}

/// Sorts the players by placement, keeping the first order among equals.
pub fn sort_participants_by_placement(ps: Vec<TftParticipantDisplay>) -> (r: Vec<
    TftParticipantDisplay,
>)
    ensures
        r@ == sort_by_placement(ps@),
{
    let mut out: Vec<TftParticipantDisplay> = Vec::new();
    let mut rest = ps;
    let ghost orig = rest@;
    let ghost n = orig.len();
    while rest.len() > 0
        invariant
            rest.len() <= n,
            n == orig.len(),
            rest@ =~= orig.skip(n - rest.len()),
            out@ == sort_by_placement(orig.take(n - rest.len())),
        decreases rest.len(),
    {
        let ghost done = n - rest.len();
        let x = rest.remove(0);
        assert(x == orig[done]) by {
            assert(orig.skip(done)[0] == orig[done]);
        }
        assert(orig.take(done + 1).drop_last() =~= orig.take(done));
        assert(orig.take(done + 1).last() == x);
        let mut pos: usize = out.len();
        while pos > 0 && out[pos - 1].placement > x.placement
            invariant
                pos <= out.len(),
                forall|j: int| pos <= j < out.len() ==> out@[j].placement > x.placement,
            decreases pos,
        {
            pos = pos - 1;
        }
        proof {
            lemma_insert_at(out@, x, pos as int);
        }
        let ghost before = out@;
        out.insert(pos, x);
        assert(out@ =~= before.take(pos as int).push(x) + before.skip(pos as int));
        assert(rest@ =~= orig.skip(n - rest.len()));
    }
    assert(orig.take(n as int) =~= orig);
    out
}

/// A copy of a list of strings.
fn copy_strings(v: &Vec<String>) -> (r: Vec<String>)
    ensures
        r.len() == v.len(),
        forall|i: int| 0 <= i < v.len() ==> #[trigger] r@[i]@ == v@[i]@,
{
    let mut out: Vec<String> = Vec::new();
    let mut k: usize = 0;
    while k < v.len()
        invariant
            k <= v.len(),
            out.len() == k,
            forall|i: int| 0 <= i < k ==> #[trigger] out@[i]@ == v@[i]@,
        decreases v.len() - k,
    {
        out.push(v[k].clone());
        k = k + 1;
    }
    out
}

/// A copy of a board's units.
fn copy_units(v: &Vec<TftUnitDisplay>) -> (r: Vec<TftUnitDisplay>)
    ensures
        r.len() == v.len(),
        forall|i: int| 0 <= i < v.len() ==> unit_same(#[trigger] r@[i], v@[i]),
{
    let mut out: Vec<TftUnitDisplay> = Vec::new();
    let mut k: usize = 0;
    while k < v.len()
        invariant
            k <= v.len(),
            out.len() == k,
            forall|i: int| 0 <= i < k ==> unit_same(#[trigger] out@[i], v@[i]),
        decreases v.len() - k,
    {
        let u = &v[k];
        out.push(
            TftUnitDisplay {
                character_id: u.character_id.clone(),
                name: u.name.clone(),
                icon_url: u.icon_url.clone(),
                rarity: u.rarity,
                tier: u.tier,
                item_names: copy_strings(&u.item_names),
                item_icon_urls: copy_strings(&u.item_icon_urls),
            },
        );
        k = k + 1;
    }
    out
}

/// A copy of a board's traits.
fn copy_traits(v: &Vec<TftTraitDisplay>) -> (r: Vec<TftTraitDisplay>)
    ensures
        r.len() == v.len(),
        forall|i: int| 0 <= i < v.len() ==> trait_same(#[trigger] r@[i], v@[i]),
{
    let mut out: Vec<TftTraitDisplay> = Vec::new();
    let mut k: usize = 0;
    while k < v.len()
        invariant
            k <= v.len(),
            out.len() == k,
            forall|i: int| 0 <= i < k ==> trait_same(#[trigger] out@[i], v@[i]),
        decreases v.len() - k,
    {
        let t = &v[k];
        out.push(
            TftTraitDisplay {
                name: t.name.clone(),
                num_units: t.num_units,
                tier_current: t.tier_current,
                icon_url: t.icon_url.clone(),
            },
        );
        k = k + 1;
    }
    out
}

/// The first owner's index lies within the list.
proof fn lemma_first_self_in_range(ps: Seq<TftParticipantDisplay>)
    ensures
        first_self(ps) matches Some(i) ==> 0 <= i < ps.len() && ps[i].is_self,
    decreases ps.len(),
{
    if ps.len() > 0 {
        lemma_first_self_in_range(ps.drop_first());
    }
}

/// The index of the first player marked as the owner.
fn first_self_exec(ps: &Vec<TftParticipantDisplay>) -> (r: Option<usize>)
    ensures
        r matches Some(i) ==> first_self(ps@) == Some(i as int) && i < ps.len(),
        r is None ==> first_self(ps@) is None,
{
    proof {
        lemma_first_self_in_range(ps@);
    }
    let mut k: usize = 0;
    assert(ps@.skip(0) =~= ps@);
    while k < ps.len()
        invariant
            k <= ps.len(),
            forall|j: int| 0 <= j < k ==> !(#[trigger] ps@[j]).is_self,
            first_self(ps@) == match first_self(ps@.skip(k as int)) {
                Some(i) => Some(i + k),
                None => None,
            },
        decreases ps.len() - k,
    {
        assert(ps@.skip(k as int).drop_first() =~= ps@.skip(k + 1));
        assert(ps@.skip(k as int)[0] == ps@[k as int]);
        if ps[k].is_self {
            return Some(k);
        }
        k = k + 1;
    }
    None
}

/// Cleans one TFT game record for the player `puuid`.
///
/// The players are parsed with the identities of the game's
/// `participantIdentities`, sorted by placement, and the board shown is that
/// of the first player marked as `puuid`, else of the best placed one.
pub fn build_tft_match(g: &Json, tft_data: &TftDataMapping, puuid: &str) -> (r: TftMatchDisplay)
    ensures
        match_built(r, *g, *tft_data, puuid@),
{
    let game_id = match g.u64_at("gameId") {
        Some(n) => n,
        None => 0,
    };
    let game_creation = match g.u64_at("gameCreation") {
        Some(n) => n,
        None => 0,
    };
    let game_duration = match or_field(or_field(g.get("game_length"), g, "gameDuration"), g, "gameLength") {
        Some(v) => match v.as_u64_lenient() {
            Some(n) => n,
            None => 0,
        },
        None => 0,
    };
    let queue_id = match g.i64_at("queueId") {
        Some(n) => n as i32,
        None => 0,
    };
    let queue_name = owned(tft_queue_name_exec(queue_id));
    let secs = (game_creation / 1000) as i64;
    let time_str = match format_fixed_offset(secs, 28800, "%m-%d %H:%M") {
        Some(t) => t,
        None => owned("01-01 00:00"),
    };
    let duration_str = secs_to_str(game_duration);
    let empty: Vec<Json> = Vec::new();
    let raw = match g.array_at("participants") {
        Some(a) => a,
        None => &empty,
    };
    assert(raw@ == game_participants(*g));
    let mut parsed: Vec<TftParticipantDisplay> = Vec::new();
    let mut k: usize = 0;
    while k < raw.len()
        invariant
            k <= raw.len(),
            raw@ == game_participants(*g),
            parsed.len() == k,
            forall|i: int|
                0 <= i < k ==> participant_matches(
                    #[trigger] parsed@[i],
                    raw@[i],
                    participant_ident(*g, raw@[i]),
                    *tft_data,
                    puuid@,
                ),
        decreases raw.len() - k,
    {
        let ident = participant_ident_exec(g, &raw[k]);
        let d = match &ident {
            Some(x) => parse_single_tft_participant(&raw[k], Some(x), tft_data, puuid),
            None => parse_single_tft_participant(&raw[k], None, tft_data, puuid),
        };
        parsed.push(d);
        k = k + 1;
    }
    let ghost ps = parsed@;
    assert(players_of(ps, *g, *tft_data, puuid@));
    let participants = sort_participants_by_placement(parsed);
    let chosen = match first_self_exec(&participants) {
        Some(j) => Some(j),
        None => if participants.len() > 0 {
            Some(0)
        } else {
            None
        },
    };
    match chosen {
        Some(j) => {
            let me = &participants[j];
            let placement = me.placement;
            let level = me.level;
            let gold_left = me.gold_left;
            let total_damage_to_players = me.total_damage_to_players;
            let companion_icon_url = me.companion_icon_url.clone();
            let traits = copy_traits(&me.traits);
            let units = copy_units(&me.units);
            let augments = copy_strings(&me.augments);
            TftMatchDisplay {
                game_id,
                queue_id,
                queue_name,
                game_creation,
                game_duration,
                time_str,
                duration_str,
                placement,
                level,
                gold_left,
                total_damage_to_players,
                companion_icon_url,
                traits,
                units,
                augments,
                participants,
            }
        },
        None => TftMatchDisplay {
            game_id,
            queue_id,
            queue_name,
            game_creation,
            game_duration,
            time_str,
            duration_str,
            placement: 8,
            level: 1,
            gold_left: 0,
            total_damage_to_players: 0,
            companion_icon_url: String::new(),
            traits: Vec::new(),
            units: Vec::new(),
            augments: Vec::new(),
            participants,
        },
    }
}

/// The games of a history reply: the `games.games` array, else the `games` array.
pub open spec fn history_games(raw: Json) -> Seq<Json> {
    unwrap_or(
        crate::json::opt_array(
            match field(raw, "games"@) {
                Some(g) => or_else(field(g, "games"@), Some(g)),
                None => None,
            },
        ),
        Seq::empty(),
    )
}

/// The games array of a history reply, when there is one.
pub fn history_games_exec(raw: &Json) -> (r: Option<&Vec<Json>>)
    ensures
        r matches Some(v) ==> v@ == history_games(*raw),
        r is None ==> history_games(*raw) == Seq::<Json>::empty(),
{
    match raw.get("games") {
        Some(g) => match g.get("games") {
            Some(inner) => inner.as_array(),
            None => g.as_array(),
        },
        None => None,
    }
}

/// The text of a game whose record is embedded as a JSON string under `json`.
pub fn tft_embedded_json_text(raw_g: &Json) -> (r: Option<&str>)
    ensures
        r matches Some(s) ==> str_field(*raw_g, "json"@) == Some(s@),
        r is None ==> str_field(*raw_g, "json"@) is None,
{
    raw_g.str_at("json")
}

/// The record of a game: the object embedded under `json`, the parse of the
/// text embedded there (`parsed`, the record itself when it did not parse),
/// else the record itself.
pub open spec fn game_object(raw_g: Json, parsed: Option<Json>) -> Json {
    match field(raw_g, "json"@) {
        Some(j) => match j {
            Json::Str(_) => unwrap_or(parsed, raw_g),
            Json::Object(_) => j,
            _ => raw_g,
        },
        None => raw_g,
    }
}

/// The record of a game, given the parse of its embedded text.
pub fn game_object_exec<'a>(raw_g: &'a Json, parsed: Option<&'a Json>) -> (r: &'a Json)
    ensures
        *r == game_object(*raw_g, deref_json(parsed)),
{
    match raw_g.get("json") {
        Some(j) => match j {
            Json::Str(_) => match parsed {
                Some(v) => v,
                None => raw_g,
            },
            Json::Object(_) => j,
            _ => raw_g,
        },
        None => raw_g,
    }
}

/// `parsed[i]`, or `None` past its end.
pub open spec fn parsed_at(parsed: Seq<Option<Json>>, i: int) -> Option<Json> {
    if 0 <= i < parsed.len() {
        parsed[i]
    } else {
        None
    }
}

/// Games won.
pub open spec fn win_total(ms: Seq<TftMatchDisplay>) -> nat
    decreases ms.len(),
{
    if ms.len() == 0 {
        0
    } else {
        win_total(ms.drop_last()) + if ms.last().placement == 1 {
            1nat
        } else {
            0nat
        }
    }
}

/// Games finished in the top four.
pub open spec fn top4_total(ms: Seq<TftMatchDisplay>) -> nat
    decreases ms.len(),
{
    if ms.len() == 0 {
        0
    } else {
        top4_total(ms.drop_last()) + if ms.last().placement <= 4 {
            1nat
        } else {
            0nat
        }
    }
}

/// The sum of the placements.
pub open spec fn placement_total(ms: Seq<TftMatchDisplay>) -> int
    decreases ms.len(),
{
    if ms.len() == 0 {
        0
    } else {
        placement_total(ms.drop_last()) + ms.last().placement
    }
}

/// The games the player finished fourth or better.
pub open spec fn top_four_finishes(ms: Seq<TftMatchDisplay>) -> Seq<TftMatchDisplay> {
    ms.filter(|m: TftMatchDisplay| m.placement <= 4)
}

/// The games the player won.
pub open spec fn first_places(ms: Seq<TftMatchDisplay>) -> Seq<TftMatchDisplay> {
    ms.filter(|m: TftMatchDisplay| m.placement == 1)
}

/// The tallies count games by placement: the top-four count is the number of
/// games placed first to fourth (a fourth place counts), the win count the
/// number placed first; a history of top-four games counts every game, one
/// without any counts none, and every win is a top-four finish.
pub proof fn law_tallies_count_placements(ms: Seq<TftMatchDisplay>)
    ensures
        top4_total(ms) == top_four_finishes(ms).len(),
        win_total(ms) == first_places(ms).len(),
        (forall|i: int| 0 <= i < ms.len() ==> #[trigger] ms[i].placement <= 4) ==> top4_total(ms) == ms.len(),
        (forall|i: int| 0 <= i < ms.len() ==> #[trigger] ms[i].placement > 4) ==> top4_total(ms) == 0,
        win_total(ms) <= top4_total(ms) <= ms.len(),
    decreases ms.len(),
{
    if ms.len() > 0 {
        let t = ms.drop_last();
        law_tallies_count_placements(t);
        assert(ms =~= t.push(ms.last()));
        t.lemma_filter_len_push(|m: TftMatchDisplay| m.placement <= 4, ms.last());
        t.lemma_filter_len_push(|m: TftMatchDisplay| m.placement == 1, ms.last());
        if forall|i: int| 0 <= i < ms.len() ==> #[trigger] ms[i].placement <= 4 {
            assert forall|i: int| 0 <= i < t.len() implies #[trigger] t[i].placement <= 4 by {
                assert(ms[i].placement <= 4);
            }
            assert(ms[ms.len() - 1].placement <= 4);
        }
        if forall|i: int| 0 <= i < ms.len() ==> #[trigger] ms[i].placement > 4 {
            assert forall|i: int| 0 <= i < t.len() implies #[trigger] t[i].placement > 4 by {
                assert(ms[i].placement > 4);
            }
            assert(ms[ms.len() - 1].placement > 4);
        }
    } else {
        reveal(Seq::filter);
    }
}

/// Cleans every game of a TFT history reply for the player `puuid` and tallies
/// the player's placements.
///
/// `parsed[i]` is the parse of the JSON text embedded in the `i`-th game, where
/// there is one and it parsed.
pub fn build_tft_history(
    raw_json: &Json,
    parsed: &Vec<Option<Json>>,
    tft_data: &TftDataMapping,
    puuid: &str,
) -> (r: TftHistory)
    ensures
        r.matches.len() == history_games(*raw_json).len(),
        forall|i: int|
            0 <= i < r.matches.len() ==> match_built(
                #[trigger] r.matches@[i],
                game_object(history_games(*raw_json)[i], parsed_at(parsed@, i)),
                *tft_data,
                puuid@,
            ),
        r.win_count == win_total(r.matches@),
        r.top4_count == top4_total(r.matches@),
        r.placement_sum == placement_total(r.matches@),
        r.top4_count == top_four_finishes(r.matches@).len(),
        r.win_count == first_places(r.matches@).len(),
{
    let empty: Vec<Json> = Vec::new();
    let games = match history_games_exec(raw_json) {
        Some(v) => v,
        None => &empty,
    };
    let ghost gs = history_games(*raw_json);
    assert(games@ == gs);
    let mut matches: Vec<TftMatchDisplay> = Vec::new();
    let mut win_count: u64 = 0;
    let mut top4_count: u64 = 0;
    let mut placement_sum: i128 = 0;
    let mut k: usize = 0;
    while k < games.len()
        invariant
            k <= games.len(),
            games@ == gs,
            matches.len() == k,
            forall|i: int|
                0 <= i < k ==> match_built(
                    #[trigger] matches@[i],
                    game_object(gs[i], parsed_at(parsed@, i)),
                    *tft_data,
                    puuid@,
                ),
            win_count == win_total(matches@),
            top4_count == top4_total(matches@),
            placement_sum == placement_total(matches@),
            win_count <= k,
            top4_count <= k,
            -2147483648 * k <= placement_sum <= 2147483647 * k,
        decreases games.len() - k,
    {
        let p = if k < parsed.len() {
            match &parsed[k] {
                Some(v) => Some(v),
                None => None,
            }
        } else {
            None
        };
        let g = game_object_exec(&games[k], p);
        let m = build_tft_match(g, tft_data, puuid);
        let ghost before = matches@;
        if m.placement == 1 {
            win_count = win_count + 1;
        }
        if m.placement <= 4 {
            top4_count = top4_count + 1;
        }
        placement_sum = placement_sum + m.placement as i128;
        matches.push(m);
        assert(matches@.drop_last() =~= before);
        k = k + 1;
    }
    proof {
        law_tallies_count_placements(matches@);
    }
    TftHistory { matches, win_count, top4_count, placement_sum }
}

/// Ascending placement.
pub open spec fn placement_sorted(s: Seq<TftParticipantDisplay>) -> bool {
    forall|i: int, j: int| 0 <= i <= j < s.len() ==> s[i].placement <= s[j].placement
}

proof fn lemma_insert_sorted(s: Seq<TftParticipantDisplay>, x: TftParticipantDisplay)
    requires
        placement_sorted(s),
    ensures
        placement_sorted(insert_by_placement(s, x)),
        insert_by_placement(s, x).to_multiset() == s.to_multiset().insert(x),
        insert_by_placement(s, x).len() == s.len() + 1,
        forall|i: int|
            0 <= i < insert_by_placement(s, x).len() ==> #[trigger] insert_by_placement(s, x)[i] == x
                || s.contains(insert_by_placement(s, x)[i]),
    decreases s.len(),
{
    broadcast use vstd::seq_lib::group_to_multiset_ensures;

    if s.len() == 0 {
        assert(seq![x] =~= Seq::<TftParticipantDisplay>::empty().push(x));
    } else if s.last().placement <= x.placement {
    } else {
        let t = s.drop_last();
        assert(t.push(s.last()) =~= s);
        lemma_insert_sorted(t, x);
        let r = insert_by_placement(t, x);
        assert forall|i: int| 0 <= i < r.len() implies (#[trigger] r[i]).placement <= s.last().placement by {
            if r[i] != x {
                let k = choose|k: int| 0 <= k < t.len() && t[k] == r[i];
                assert(s[k] == t[k]);
            }
        }
        assert forall|i: int| 0 <= i < r.len() + 1 implies #[trigger] r.push(s.last())[i] == x
            || s.contains(r.push(s.last())[i]) by {
            if i < r.len() && r[i] != x {
                let k = choose|k: int| 0 <= k < t.len() && t[k] == r[i];
                assert(s[k] == t[k]);
            } else if i == r.len() {
                assert(s[s.len() - 1] == s.last());
            }
        }
    }
}

/// Sorting by placement gives the players in ascending placement, each player
/// kept and none added.
pub proof fn law_sort_by_placement(s: Seq<TftParticipantDisplay>)
    ensures
        placement_sorted(sort_by_placement(s)),
        sort_by_placement(s).to_multiset() == s.to_multiset(),
        sort_by_placement(s).len() == s.len(),
    decreases s.len(),
{
    broadcast use vstd::seq_lib::group_to_multiset_ensures;

    if s.len() > 0 {
        law_sort_by_placement(s.drop_last());
        lemma_insert_sorted(sort_by_placement(s.drop_last()), s.last());
        assert(s.drop_last().push(s.last()) =~= s);
    }
}

} // verus!
