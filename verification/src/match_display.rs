//! Match history: the LCU game records and their cleaning for display.
use vstd::prelude::*;

use crate::augments::{dedupe_augment_ids, spec_dedupe_augment_ids};
use crate::clock::{chrono_fixed_offset_text, chrono_max_timestamp, format_local, opt_string_view, valid_utc_offset};
use crate::game_assets::{lookup_path, path_or_empty, CherryAugmentDetail, GameDataAssets};
use crate::kda::{kda_text, spec_kda_text};
use crate::queue::{get_queue_info, secs_to_str, spec_queue_info, spec_secs_to_str, QueueTable};
use crate::json::{array_field, field, i64_field, str_field, u64_field, unwrap_or, wrap_i32, Json};
use crate::text::{
    ascii_lower_seq, concat3, eq_ignore_ascii_case, i64_to_decimal, int_to_decimal, owned, trim, trim_ws,
};

verus! {

/// The reply of the LCU match history.
pub struct LcuMatchHistoryResponse {
    pub games: LcuMatchGamesContainer,
}

pub struct LcuMatchGamesContainer {
    pub games: Vec<LcuMatchGame>,
    pub game_count: Option<u32>,
}

/// One game of the history, as seen by one player (the first participant).
pub struct LcuMatchGame {
    pub game_id: u64,
    pub game_creation: u64,
    pub game_duration: u64,
    pub queue_id: i32,
    pub map_id: Option<u32>,
    pub participants: Vec<LcuMatchParticipant>,
}

pub struct LcuMatchParticipant {
    pub champion_id: i32,
    pub spell1_id: i32,
    pub spell2_id: i32,
    pub stats: LcuMatchStats,
}

pub struct LcuMatchStats {
    pub win: bool,
    pub kills: i32,
    pub deaths: i32,
    pub assists: i32,
    pub champ_level: i32,
    pub item0: i32,
    pub item1: i32,
    pub item2: i32,
    pub item3: i32,
    pub item4: i32,
    pub item5: i32,
    pub item6: i32,
    pub perk0: i32,
    pub total_minions_killed: Option<i32>,
    pub neutral_minions_killed: Option<i32>,
    pub gold_earned: Option<i32>,
    pub total_damage_dealt_to_champions: Option<i32>,
    pub total_damage_taken: Option<i32>,
    pub total_heal: Option<i32>,
    pub vision_score: Option<i32>,
    pub game_ended_in_early_surrender: bool,
    pub subteam_placement: Option<u32>,
    pub augments: Vec<i32>,
    pub player_augment1: i32,
    pub player_augment2: i32,
    pub player_augment3: i32,
    pub player_augment4: i32,
    pub player_augment5: i32,
}

/// One game of the history, cleaned for display.
pub struct MatchDisplay {
    pub queue_id: i32,
    pub game_id: u64,
    pub time: String,
    pub short_time: String,
    pub name: String,
    pub map: String,
    pub duration: String,
    pub remake: bool,
    pub win: bool,
    pub placement: Option<u32>,
    pub champion_id: i32,
    pub spell1_id: i32,
    pub spell2_id: i32,
    pub champ_level: i32,
    pub kills: i32,
    pub deaths: i32,
    pub assists: i32,
    pub kda: String,
    pub item_ids: Vec<i32>,
    pub rune_id: i32,
    pub cs: i32,
    pub gold: i32,
    pub time_stamp: u64,
    pub total_damage: i32,
    pub total_damage_taken: i32,
    pub total_heal: i32,
    pub vision_score: i32,
    pub champion_icon_url: String,
    pub spell1_icon_url: String,
    pub spell2_icon_url: String,
    pub rune_icon_url: String,
    pub item_icon_urls: Vec<String>,
    pub augment_ids: Vec<i32>,
    pub augment_icon_urls: Vec<String>,
    pub augment_names: Vec<String>,
}

/// The text chrono gives for `secs` at the fixed offset `offset_secs` with the
/// pattern `fmt`, or `fallback` where it gives none.
pub open spec fn fixed_offset_text_or(secs: i64, offset_secs: i32, fmt: Seq<char>, fallback: Seq<char>) -> Seq<char> {
    match chrono_fixed_offset_text(secs, offset_secs, fmt) {
        Some(t) => t,
        None => fallback,
    }
}

/// The date and time text of the millisecond timestamp `ms` at the offset
/// `offset_secs`: `%Y-%m-%d %H:%M`, or `1970-01-01 00:00` out of chrono's range.
pub open spec fn spec_timestamp_text(ms: u64, offset_secs: i32) -> Seq<char> {
    fixed_offset_text_or((ms / 1000) as i64, offset_secs, "%Y-%m-%d %H:%M"@, "1970-01-01 00:00"@)
}

/// The month, day and time text of the millisecond timestamp `ms` at the
/// offset `offset_secs`: `%m-%d %H:%M`, or `01-01 00:00` out of chrono's range.
pub open spec fn spec_timestamp_short_text(ms: u64, offset_secs: i32) -> Seq<char> {
    fixed_offset_text_or((ms / 1000) as i64, offset_secs, "%m-%d %H:%M"@, "01-01 00:00"@)
}

/// A millisecond timestamp as local date and time, `%Y-%m-%d %H:%M`, at the
/// offset the machine's time zone gives the instant (which one is not stated);
/// `1970-01-01 00:00` when out of chrono's range.
pub fn timestamp_to_str(ms: u64) -> (r: String)
    ensures
        exists|offset_secs: i32|
            valid_utc_offset(offset_secs) && r@ == #[trigger] spec_timestamp_text(ms, offset_secs),
        ms / 1000 > chrono_max_timestamp() ==> r@ == "1970-01-01 00:00"@,
{
    let secs = (ms / 1000) as i64;
    let t = format_local(secs, "%Y-%m-%d %H:%M");
    let ghost off = choose|off: i32|
        valid_utc_offset(off) && opt_string_view(t) == #[trigger] chrono_fixed_offset_text(
            secs,
            off,
            "%Y-%m-%d %H:%M"@,
        );
    let r = match t {
        Some(t) => t,
        None => owned("1970-01-01 00:00"),
    };
    assert(r@ == spec_timestamp_text(ms, off));
    r
}

/// A millisecond timestamp as local month, day and time, `%m-%d %H:%M`, at
/// the offset the machine's time zone gives the instant (which one is not
/// stated); `01-01 00:00` when out of chrono's range.
pub fn timestamp_to_short_str(ms: u64) -> (r: String)
    ensures
        exists|offset_secs: i32|
            valid_utc_offset(offset_secs) && r@ == #[trigger] spec_timestamp_short_text(ms, offset_secs),
        ms / 1000 > chrono_max_timestamp() ==> r@ == "01-01 00:00"@,
{
    let secs = (ms / 1000) as i64;
    let t = format_local(secs, "%m-%d %H:%M");
    let ghost off = choose|off: i32|
        valid_utc_offset(off) && opt_string_view(t) == #[trigger] chrono_fixed_offset_text(
            secs,
            off,
            "%m-%d %H:%M"@,
        );
    let r = match t {
        Some(t) => t,
        None => owned("01-01 00:00"),
    };
    assert(r@ == spec_timestamp_short_text(ms, off));
    r
}

/// The augment candidates of a player: the `augments` list, then the five slots.
pub open spec fn augment_candidates(stats: LcuMatchStats) -> Seq<i32> {
    stats.augments@ + seq![
        stats.player_augment1,
        stats.player_augment2,
        stats.player_augment3,
        stats.player_augment4,
        stats.player_augment5,
    ]
}

/// The augments of a player: non-zero ids, each once, at most five.
pub fn extract_augment_ids(stats: &LcuMatchStats) -> (r: Vec<i32>)
    ensures
        r@ == spec_dedupe_augment_ids(augment_candidates(*stats)),
{
    let mut all: Vec<i32> = Vec::new();
    let mut k: usize = 0;
    while k < stats.augments.len()
        invariant
            k <= stats.augments.len(),
            all@ == stats.augments@.take(k as int),
        decreases stats.augments.len() - k,
    {
        all.push(stats.augments[k]);
        assert(all@ =~= stats.augments@.take(k + 1));
        k = k + 1;
    }
    all.push(stats.player_augment1);
    all.push(stats.player_augment2);
    all.push(stats.player_augment3);
    all.push(stats.player_augment4);
    all.push(stats.player_augment5);
    assert(all@ =~= augment_candidates(*stats));
    dedupe_augment_ids(all.as_slice())
}

/// The augments of `ids` found in the resources, in order.
pub open spec fn known_augments(ids: Seq<i32>, table: Map<i32, CherryAugmentDetail>) -> Seq<i32>
    decreases ids.len(),
{
    if ids.len() == 0 {
        Seq::empty()
    } else {
        let rest = known_augments(ids.drop_last(), table);
        if table.contains_key(ids.last()) {
            rest.push(ids.last())
        } else {
            rest
        }
    }
}

/// The name shown for an augment: its name, or `海克斯强化` when blank.
pub open spec fn augment_name(d: CherryAugmentDetail) -> Seq<char> {
    if trim_ws(d.name@).len() == 0 {
        "海克斯强化"@
    } else {
        d.name@
    }
}

/// The icon paths and names of the augments `ids` found in the resources,
/// in order (ids not found are skipped).
pub fn resolve_augment_details(ids: &[i32], assets: &GameDataAssets) -> (r: (Vec<String>, Vec<String>))
    ensures
        r.0.len() == known_augments(ids@, assets.augments@).len(),
        r.1.len() == known_augments(ids@, assets.augments@).len(),
        forall|i: int|
            0 <= i < r.0.len() ==> #[trigger] r.0@[i]@
                == assets.augments@[known_augments(ids@, assets.augments@)[i]].icon_path@,
        forall|i: int|
            0 <= i < r.1.len() ==> #[trigger] r.1@[i]@ == augment_name(
                assets.augments@[known_augments(ids@, assets.augments@)[i]],
            ),
{
    broadcast use vstd::std_specs::hash::group_hash_axioms;

    let mut icons: Vec<String> = Vec::new();
    let mut names: Vec<String> = Vec::new();
    let mut k: usize = 0;
    while k < ids.len()
        invariant
            k <= ids.len(),
            icons.len() == known_augments(ids@.take(k as int), assets.augments@).len(),
            names.len() == icons.len(),
            forall|i: int|
                0 <= i < icons.len() ==> #[trigger] icons@[i]@ == assets.augments@[known_augments(
                    ids@.take(k as int),
                    assets.augments@,
                )[i]].icon_path@,
            forall|i: int|
                0 <= i < names.len() ==> #[trigger] names@[i]@ == augment_name(
                    assets.augments@[known_augments(ids@.take(k as int), assets.augments@)[i]],
                ),
        decreases ids.len() - k,
    {
        assert(ids@.take(k + 1).drop_last() =~= ids@.take(k as int));
        assert(ids@.take(k + 1).last() == ids@[k as int]);
        let id = ids[k];
        match assets.augments.get(&id) {
            Some(detail) => {
                icons.push(detail.icon_path.clone());
                let name = if trim(detail.name.as_str()).as_str().is_empty() {
                    owned("海克斯强化")
                } else {
                    detail.name.clone()
                };
                names.push(name);
            },
            None => {},
        }
        k = k + 1;
    }
    assert(ids@.take(ids.len() as int) =~= ids@);
    (icons, names)
}

/// The item ids of a player, slots 0 to 6.
pub open spec fn item_slots(s: LcuMatchStats) -> Seq<i32> {
    seq![s.item0, s.item1, s.item2, s.item3, s.item4, s.item5, s.item6]
}

/// The icon paths of the items with a positive id found in the resources, in order.
pub open spec fn item_icons(ids: Seq<i32>, table: Map<i32, String>) -> Seq<Seq<char>>
    decreases ids.len(),
{
    if ids.len() == 0 {
        Seq::empty()
    } else {
        let rest = item_icons(ids.drop_last(), table);
        let id = ids.last();
        if id > 0 && table.contains_key(id) {
            rest.push(table[id]@)
        } else {
            rest
        }
    }
}

pub open spec fn or_zero(o: Option<i32>) -> i32 {
    match o {
        Some(v) => v,
        None => 0,
    }
}

/// `d` is the display of game `g`, whose first participant is the player, with
/// the queue named from the table `queues`. The two time texts are the
/// creation time at an offset the machine's time zone gives (each read on its
/// own; which offset is not stated).
pub open spec fn display_of(d: MatchDisplay, g: LcuMatchGame, assets: GameDataAssets, queues: QueueTable) -> bool {
    let p = g.participants@[0];
    let s = p.stats;
    let ids = spec_dedupe_augment_ids(augment_candidates(s));
    let known = known_augments(ids, assets.augments@);
    &&& d.queue_id == g.queue_id
    &&& d.game_id == g.game_id
    &&& d.name@ == spec_queue_info(queues, g.queue_id).0
    &&& d.map@ == spec_queue_info(queues, g.queue_id).1
    &&& d.duration@ == spec_secs_to_str(g.game_duration)
    &&& d.remake == s.game_ended_in_early_surrender
    &&& d.win == s.win
    &&& d.placement == s.subteam_placement
    &&& d.champion_id == p.champion_id
    &&& d.spell1_id == p.spell1_id
    &&& d.spell2_id == p.spell2_id
    &&& d.champ_level == s.champ_level
    &&& d.kills == s.kills
    &&& d.deaths == s.deaths
    &&& d.assists == s.assists
    &&& d.kda@ == spec_kda_text(s.kills, s.deaths, s.assists)
    &&& d.item_ids@ == item_slots(s)
    &&& d.rune_id == s.perk0
    &&& d.cs == vstd::wrapping::i32_specs::wrapping_add(
        or_zero(s.total_minions_killed),
        or_zero(s.neutral_minions_killed),
    )
    &&& d.gold == or_zero(s.gold_earned)
    &&& d.time_stamp == g.game_creation
    &&& exists|off: i32| valid_utc_offset(off) && d.time@ == #[trigger] spec_timestamp_text(g.game_creation, off)
    &&& exists|off: i32|
        valid_utc_offset(off) && d.short_time@ == #[trigger] spec_timestamp_short_text(g.game_creation, off)
    &&& d.total_damage == or_zero(s.total_damage_dealt_to_champions)
    &&& d.total_damage_taken == or_zero(s.total_damage_taken)
    &&& d.total_heal == or_zero(s.total_heal)
    &&& d.vision_score == or_zero(s.vision_score)
    &&& d.champion_icon_url@ == "/lol-game-data/assets/v1/champion-icons/"@ + int_to_decimal(
        p.champion_id as int,
    ) + ".png"@
    &&& d.spell1_icon_url@ == path_or_empty(assets.spells@, p.spell1_id)
    &&& d.spell2_icon_url@ == path_or_empty(assets.spells@, p.spell2_id)
    &&& d.rune_icon_url@ == path_or_empty(assets.runes@, s.perk0)
    &&& d.item_icon_urls@.len() == item_icons(item_slots(s), assets.items@).len()
    &&& (forall|i: int|
        0 <= i < d.item_icon_urls@.len() ==> #[trigger] d.item_icon_urls@[i]@ == item_icons(
            item_slots(s),
            assets.items@,
        )[i])
    &&& d.augment_ids@ == ids
    &&& d.augment_icon_urls@.len() == known.len()
    &&& d.augment_names@.len() == known.len()
    &&& (forall|i: int|
        0 <= i < known.len() ==> #[trigger] d.augment_icon_urls@[i]@
            == assets.augments@[known[i]].icon_path@)
    &&& (forall|i: int|
        0 <= i < known.len() ==> #[trigger] d.augment_names@[i]@ == augment_name(
            assets.augments@[known[i]],
        ))
}

/// The icon paths of the item slots.
fn item_icon_urls(items: &Vec<i32>, assets: &GameDataAssets) -> (r: Vec<String>)
    ensures
        r@.len() == item_icons(items@, assets.items@).len(),
        forall|i: int| 0 <= i < r@.len() ==> #[trigger] r@[i]@ == item_icons(items@, assets.items@)[i],
{
    broadcast use vstd::std_specs::hash::group_hash_axioms;

    let mut out: Vec<String> = Vec::new();
    let mut k: usize = 0;
    while k < items.len()
        invariant
            k <= items.len(),
            out@.len() == item_icons(items@.take(k as int), assets.items@).len(),
            forall|i: int|
                0 <= i < out@.len() ==> #[trigger] out@[i]@ == item_icons(
                    items@.take(k as int),
                    assets.items@,
                )[i],
        decreases items.len() - k,
    {
        assert(items@.take(k + 1).drop_last() =~= items@.take(k as int));
        assert(items@.take(k + 1).last() == items@[k as int]);
        let id = items[k];
        if id > 0 {
            match assets.items.get(&id) {
                Some(p) => {
                    out.push(p.clone());
                },
                None => {},
            }
        }
        k = k + 1;
    }
    assert(items@.take(items.len() as int) =~= items@);
    out
}

impl LcuMatchGame {
    /// Cleans the game for display, from its first participant's point of view,
    /// naming its queue from the table `queues`; `None` for a game without
    /// participants.
    pub fn to_display(&self, assets: &GameDataAssets, queues: &QueueTable) -> (r: Option<MatchDisplay>)
        ensures
            self.participants.len() == 0 ==> r is None,
            self.participants.len() > 0 ==> (r matches Some(d) && display_of(d, *self, *assets, *queues)),
    {
        if self.participants.len() == 0 {
            return None;
        }
        let participant = &self.participants[0];
        let stats = &participant.stats;
        let cs = or_zero_exec(stats.total_minions_killed).wrapping_add(
            or_zero_exec(stats.neutral_minions_killed),
        );
        let item_ids: Vec<i32> = vec![
            stats.item0,
            stats.item1,
            stats.item2,
            stats.item3,
            stats.item4,
            stats.item5,
            stats.item6,
        ];
        assert(item_ids@ =~= item_slots(*stats));
        let queue_info = get_queue_info(queues, self.queue_id);
        let time = timestamp_to_str(self.game_creation);
        let short_time = timestamp_to_short_str(self.game_creation);
        let duration = secs_to_str(self.game_duration);
        let kda = kda_text(stats.kills, stats.deaths, stats.assists);
        let champion_icon_url = concat3(
            "/lol-game-data/assets/v1/champion-icons/",
            i64_to_decimal(participant.champion_id as i64).as_str(),
            ".png",
        );
        let spell1_icon_url = lookup_path(&assets.spells, participant.spell1_id);
        let spell2_icon_url = lookup_path(&assets.spells, participant.spell2_id);
        let rune_icon_url = lookup_path(&assets.runes, stats.perk0);
        let item_icon_urls = item_icon_urls(&item_ids, assets);
        let augment_ids = extract_augment_ids(stats);
        let (augment_icon_urls, augment_names) = resolve_augment_details(augment_ids.as_slice(), assets);
        Some(
            MatchDisplay {
                queue_id: self.queue_id,
                game_id: self.game_id,
                time,
                short_time,
                name: queue_info.name,
                map: queue_info.map,
                duration,
                remake: stats.game_ended_in_early_surrender,
                win: stats.win,
                placement: stats.subteam_placement,
                champion_id: participant.champion_id,
                spell1_id: participant.spell1_id,
                spell2_id: participant.spell2_id,
                champ_level: stats.champ_level,
                kills: stats.kills,
                deaths: stats.deaths,
                assists: stats.assists,
                kda,
                item_ids,
                rune_id: stats.perk0,
                cs,
                gold: or_zero_exec(stats.gold_earned),
                time_stamp: self.game_creation,
                total_damage: or_zero_exec(stats.total_damage_dealt_to_champions),
                total_damage_taken: or_zero_exec(stats.total_damage_taken),
                total_heal: or_zero_exec(stats.total_heal),
                vision_score: or_zero_exec(stats.vision_score),
                champion_icon_url,
                spell1_icon_url,
                spell2_icon_url,
                rune_icon_url,
                item_icon_urls,
                augment_ids,
                augment_icon_urls,
                augment_names,
            },
        )
    }
}

fn or_zero_exec(o: Option<i32>) -> (r: i32)
    ensures
        r == or_zero(o),
{
    match o {
        Some(v) => v,
        None => 0,
    }
}

/// The index of the game `game_id` in `list`.
pub open spec fn game_index(list: Seq<MatchDisplay>, game_id: u64) -> Option<int>
    decreases list.len(),
{
    if list.len() == 0 {
        None
    } else {
        match game_index(list.drop_last(), game_id) {
            Some(i) => Some(i),
            None => if list.last().game_id == game_id {
                Some(list.len() - 1)
            } else {
                None
            },
        }
    }
}

/// `list` with `m` in place of the entry of its game, or added at the end.
pub open spec fn upsert(list: Seq<MatchDisplay>, m: MatchDisplay) -> Seq<MatchDisplay> {
    match game_index(list, m.game_id) {
        Some(i) => list.update(i, m),
        None => list.push(m),
    }
}

/// `list` with each of `ms` upserted in turn.
pub open spec fn upsert_all(list: Seq<MatchDisplay>, ms: Seq<MatchDisplay>) -> Seq<MatchDisplay>
    decreases ms.len(),
{
    if ms.len() == 0 {
        list
    } else {
        upsert(upsert_all(list, ms.drop_last()), ms.last())
    }
}

/// `sorted` with `x` inserted after every entry not older than it.
pub open spec fn insert_newest_first(sorted: Seq<MatchDisplay>, x: MatchDisplay) -> Seq<MatchDisplay>
    decreases sorted.len(),
{
    if sorted.len() == 0 {
        seq![x]
    } else if sorted.last().time_stamp >= x.time_stamp {
        sorted.push(x)
    } else {
        insert_newest_first(sorted.drop_last(), x).push(sorted.last())
    }
}

/// Newest first, entries of equal time in their first order.
pub open spec fn sort_newest_first(s: Seq<MatchDisplay>) -> Seq<MatchDisplay>
    decreases s.len(),
{
    if s.len() == 0 {
        s
    } else {
        insert_newest_first(sort_newest_first(s.drop_last()), s.last())
    }
}

/// The merge of two histories: one entry per game, the SGP one where both have
/// it, newest first, at most `limit`.
pub open spec fn spec_merge(lcu: Seq<MatchDisplay>, sgp: Seq<MatchDisplay>, limit: nat) -> Seq<
    MatchDisplay,
> {
    let s = sort_newest_first(upsert_all(upsert_all(Seq::empty(), lcu), sgp));
    if s.len() > limit {
        s.take(limit as int)
    } else {
        s
    }
}

proof fn lemma_game_index_in_range(list: Seq<MatchDisplay>, game_id: u64)
    ensures
        game_index(list, game_id) matches Some(i) ==> 0 <= i < list.len() && list[i].game_id == game_id,
        game_index(list, game_id) is None ==> forall|k: int| 0 <= k < list.len() ==> (#[trigger] list[k]).game_id != game_id,
    decreases list.len(),
{
    if list.len() > 0 {
        lemma_game_index_in_range(list.drop_last(), game_id);
        assert forall|k: int| 0 <= k < list.len() - 1 implies list[k] == list.drop_last()[k] by {}
    }
}

proof fn lemma_game_index_first(list: Seq<MatchDisplay>, game_id: u64, i: int)
    requires
        0 <= i <= list.len(),
        forall|k: int| 0 <= k < i ==> (#[trigger] list[k]).game_id != game_id,
    ensures
        i < list.len() && list[i].game_id == game_id ==> game_index(list, game_id) == Some(i),
        i == list.len() ==> game_index(list, game_id) is None,
    decreases list.len(),
{
    if list.len() > 0 {
        if i == list.len() {
            lemma_game_index_first(list.drop_last(), game_id, i - 1);
        } else {
            lemma_game_index_first(list.drop_last(), game_id, i);
        }
    }
}

/// Upserts `m` into `out`.
fn upsert_exec(out: &mut Vec<MatchDisplay>, m: MatchDisplay)
    ensures
        final(out)@ == upsert(old(out)@, m),
{
    let mut i: usize = 0;
    while i < out.len()
        invariant
            i <= out.len(),
            forall|k: int| 0 <= k < i ==> (#[trigger] out@[k]).game_id != m.game_id,
        ensures
            i <= out.len(),
            forall|k: int| 0 <= k < i ==> (#[trigger] out@[k]).game_id != m.game_id,
            i < out.len() ==> out@[i as int].game_id == m.game_id,
        decreases out.len() - i,
    {
        if out[i].game_id == m.game_id {
            break;
        }
        i = i + 1;
    }
    proof {
        lemma_game_index_first(out@, m.game_id, i as int);
    }
    if i < out.len() {
        out.set(i, m);
    } else {
        out.push(m);
    }
}

proof fn lemma_insert_newest_at(s: Seq<MatchDisplay>, x: MatchDisplay, pos: int)
    requires
        0 <= pos <= s.len(),
        forall|j: int| pos <= j < s.len() ==> (#[trigger] s[j]).time_stamp < x.time_stamp,
        pos == 0 || s[pos - 1].time_stamp >= x.time_stamp,
    ensures
        insert_newest_first(s, x) == s.take(pos).push(x) + s.skip(pos),
    decreases s.len(),
{
    if s.len() == 0 {
        assert(s.take(pos).push(x) + s.skip(pos) =~= seq![x]);
    } else if pos == s.len() {
        assert(s.take(pos).push(x) + s.skip(pos) =~= s.push(x));
    } else {
        lemma_insert_newest_at(s.drop_last(), x, pos);
        assert(s.take(pos).push(x) + s.skip(pos) =~= (s.drop_last().take(pos).push(x)
            + s.drop_last().skip(pos)).push(s.last()));
    }
}

/// Upserts every entry of `ms` into `out`, in order.
fn upsert_each(out: &mut Vec<MatchDisplay>, ms: Vec<MatchDisplay>)
    ensures
        final(out)@ == upsert_all(old(out)@, ms@),
{
    let mut rest = ms;
    let ghost orig = rest@;
    let ghost start = out@;
    let ghost n = orig.len();
    while rest.len() > 0
        invariant
            rest.len() <= n,
            n == orig.len(),
            rest@ =~= orig.skip(n - rest.len()),
            out@ == upsert_all(start, orig.take(n - rest.len())),
        decreases rest.len(),
    {
        let ghost done = n - rest.len();
        let x = rest.remove(0);
        assert(x == orig[done]) by {
            assert(orig.skip(done)[0] == orig[done]);
        }
        assert(orig.take(done + 1).drop_last() =~= orig.take(done));
        assert(orig.take(done + 1).last() == x);
        upsert_exec(out, x);
        assert(rest@ =~= orig.skip(n - rest.len()));
    }
    assert(orig.take(n as int) =~= orig);
}

/// Merges the LCU and SGP histories: one entry per game id, the SGP entry where
/// both have the game, newest first (equal times in their first order), at most
/// `limit` entries.
pub fn merge_match_displays(lcu: Vec<MatchDisplay>, sgp: Vec<MatchDisplay>, limit: usize) -> (r: Vec<
    MatchDisplay,
>)
    ensures
        r@ == spec_merge(lcu@, sgp@, limit as nat),
{
    let mut merged: Vec<MatchDisplay> = Vec::new();
    upsert_each(&mut merged, lcu);
    upsert_each(&mut merged, sgp);
    let mut rest = merged;
    let ghost orig = rest@;
    let ghost n = orig.len();
    let mut out: Vec<MatchDisplay> = Vec::new();
    while rest.len() > 0
        invariant
            rest.len() <= n,
            n == orig.len(),
            rest@ =~= orig.skip(n - rest.len()),
            out@ == sort_newest_first(orig.take(n - rest.len())),
        decreases rest.len(),
    {
        let ghost done = n - rest.len();
        let x = rest.remove(0);
        assert(x == orig[done]) by {
            assert(orig.skip(done)[0] == orig[done]);
        }
        assert(orig.take(done + 1).drop_last() =~= orig.take(done));
        assert(orig.take(done + 1).last() == x);
        let mut pos: usize = out.len();
        while pos > 0 && out[pos - 1].time_stamp < x.time_stamp
            invariant
                pos <= out.len(),
                forall|j: int| pos <= j < out.len() ==> (#[trigger] out@[j]).time_stamp < x.time_stamp,
            decreases pos,
        {
            pos = pos - 1;
        }
        proof {
            lemma_insert_newest_at(out@, x, pos as int);
        }
        let ghost before = out@;
        out.insert(pos, x);
        assert(out@ =~= before.take(pos as int).push(x) + before.skip(pos as int));
        assert(rest@ =~= orig.skip(n - rest.len()));
    }
    assert(orig.take(n as int) =~= orig);
    if out.len() > limit {
        out.truncate(limit);
    }
    out
}

/// No two entries share a game id.
pub open spec fn one_per_game(s: Seq<MatchDisplay>) -> bool {
    forall|i: int, j: int| 0 <= i < j < s.len() ==> (#[trigger] s[i]).game_id != (#[trigger] s[j]).game_id
}

/// Newest first.
pub open spec fn newest_first(s: Seq<MatchDisplay>) -> bool {
    forall|i: int, j: int| 0 <= i <= j < s.len() ==> (#[trigger] s[i]).time_stamp >= (#[trigger] s[j]).time_stamp
}

proof fn lemma_upsert_all_one_per_game(list: Seq<MatchDisplay>, ms: Seq<MatchDisplay>)
    requires
        one_per_game(list),
    ensures
        one_per_game(upsert_all(list, ms)),
    decreases ms.len(),
{
    if ms.len() > 0 {
        lemma_upsert_all_one_per_game(list, ms.drop_last());
        let l = upsert_all(list, ms.drop_last());
        lemma_game_index_in_range(l, ms.last().game_id);
    }
}

proof fn lemma_insert_newest(s: Seq<MatchDisplay>, x: MatchDisplay)
    requires
        newest_first(s),
    ensures
        newest_first(insert_newest_first(s, x)),
        insert_newest_first(s, x).len() == s.len() + 1,
        forall|i: int|
            0 <= i < insert_newest_first(s, x).len() ==> #[trigger] insert_newest_first(s, x)[i] == x
                || s.contains(insert_newest_first(s, x)[i]),
        one_per_game(s) && (forall|k: int| 0 <= k < s.len() ==> (#[trigger] s[k]).game_id != x.game_id)
            ==> one_per_game(insert_newest_first(s, x)),
    decreases s.len(),
{
    if s.len() > 0 && s.last().time_stamp < x.time_stamp {
        let t = s.drop_last();
        assert(t.push(s.last()) =~= s);
        lemma_insert_newest(t, x);
        let r = insert_newest_first(t, x);
        assert forall|i: int| 0 <= i < r.len() implies (#[trigger] r[i]).time_stamp >= s.last().time_stamp by {
            if r[i] != x {
                let k = choose|k: int| 0 <= k < t.len() && t[k] == r[i];
                assert(s[k] == t[k]);
            }
        }
        assert forall|i: int| 0 <= i < r.len() + 1 implies #[trigger] r.push(s.last())[i] == x
            || s.contains(r.push(s.last())[i]) by {
            if i < r.len() && r[i] != x {
                let k = choose|k: int| 0 <= k < t.len() && t[k] == r[i];
                assert(s[k] == t[k]);
            } else if i == r.len() {
                assert(s[s.len() - 1] == s.last());
            }
        }
        if one_per_game(s) && (forall|k: int| 0 <= k < s.len() ==> (#[trigger] s[k]).game_id != x.game_id) {
            assert forall|i: int| 0 <= i < r.len() implies (#[trigger] r[i]).game_id != s.last().game_id by {
                if r[i] != x {
                    let k = choose|k: int| 0 <= k < t.len() && t[k] == r[i];
                    assert(s[k] == t[k]);
                } else {
                    assert(s[s.len() - 1] == s.last());
                }
            }
        }
    } else if s.len() == 0 {
        assert(seq![x] =~= Seq::<MatchDisplay>::empty().push(x));
    }
}

proof fn lemma_sort_newest(s: Seq<MatchDisplay>)
    ensures
        newest_first(sort_newest_first(s)),
        sort_newest_first(s).len() == s.len(),
        forall|i: int| 0 <= i < s.len() ==> s.contains(#[trigger] sort_newest_first(s)[i]),
        one_per_game(s) ==> one_per_game(sort_newest_first(s)),
    decreases s.len(),
{
    if s.len() > 0 {
        let t = s.drop_last();
        lemma_sort_newest(t);
        let st = sort_newest_first(t);
        lemma_insert_newest(st, s.last());
        let r = sort_newest_first(s);
        assert forall|i: int| 0 <= i < s.len() implies s.contains(#[trigger] r[i]) by {
            if r[i] == s.last() {
                assert(s[s.len() - 1] == s.last());
            } else {
                let k = choose|k: int| 0 <= k < st.len() && st[k] == r[i];
                assert(t.contains(st[k]));
                let m = choose|m: int| 0 <= m < t.len() && t[m] == st[k];
                assert(s[m] == t[m]);
            }
        }
        if one_per_game(s) {
            assert(one_per_game(t)) by {
                assert forall|i: int, j: int| 0 <= i < j < t.len() implies (#[trigger] t[i]).game_id != (#[trigger] t[j]).game_id by {
                    assert(s[i] == t[i] && s[j] == t[j]);
                }
            }
            assert forall|k: int| 0 <= k < st.len() implies (#[trigger] st[k]).game_id != s.last().game_id by {
                assert(t.contains(st[k]));
                let m = choose|m: int| 0 <= m < t.len() && t[m] == st[k];
                assert(s[m] == t[m]);
                assert(s[s.len() - 1] == s.last());
            }
        }
    }
}

/// The merged history is newest first and holds each game once.
pub proof fn law_merge_newest_first_one_per_game(lcu: Seq<MatchDisplay>, sgp: Seq<MatchDisplay>, limit: nat)
    ensures
        newest_first(spec_merge(lcu, sgp, limit)),
        one_per_game(spec_merge(lcu, sgp, limit)),
        spec_merge(lcu, sgp, limit).len() <= limit,
{
    let m = upsert_all(upsert_all(Seq::empty(), lcu), sgp);
    lemma_upsert_all_one_per_game(Seq::empty(), lcu);
    lemma_upsert_all_one_per_game(upsert_all(Seq::empty(), lcu), sgp);
    lemma_sort_newest(m);
}

/// The first participant of an SGP game whose puuid equals `puuid` up to ASCII case.
pub open spec fn sgp_target(ps: Seq<Json>, puuid: Seq<char>) -> Option<int>
    decreases ps.len(),
{
    if ps.len() == 0 {
        None
    } else {
        match sgp_target(ps.drop_last(), puuid) {
            Some(i) => Some(i),
            None => match str_field(ps.last(), "puuid"@) {
                Some(p) => if ascii_lower_seq(p) == ascii_lower_seq(puuid) {
                    Some(ps.len() - 1)
                } else {
                    None
                },
                None => None,
            },
        }
    }
}

/// The index, among the participants of an SGP game, of the player `puuid`.
pub fn sgp_target_participant(participants: &Vec<Json>, puuid: &str) -> (r: Option<usize>)
    ensures
        match r {
            Some(i) => sgp_target(participants@, puuid@) == Some(i as int) && i < participants.len(),
            None => sgp_target(participants@, puuid@) is None,
        },
{
    let mut k: usize = 0;
    while k < participants.len()
        invariant
            k <= participants.len(),
            sgp_target(participants@.take(k as int), puuid@) is None,
        decreases participants.len() - k,
    {
        assert(participants@.take(k + 1).drop_last() =~= participants@.take(k as int));
        assert(participants@.take(k + 1).last() == participants@[k as int]);
        match participants[k].str_at("puuid") {
            Some(p) => if eq_ignore_ascii_case(p, puuid) {
                proof {
                    lemma_sgp_target_prefix(participants@, puuid@, k + 1);
                }
                return Some(k);
            },
            None => {},
        }
        k = k + 1;
    }
    assert(participants@.take(participants.len() as int) =~= participants@);
    None
}

proof fn lemma_sgp_target_prefix(ps: Seq<Json>, puuid: Seq<char>, n: int)
    requires
        0 < n <= ps.len(),
        sgp_target(ps.take(n), puuid) is Some,
    ensures
        sgp_target(ps, puuid) == sgp_target(ps.take(n), puuid),
    decreases ps.len() - n,
{
    if n < ps.len() {
        assert(ps.take(n + 1).drop_last() =~= ps.take(n));
        lemma_sgp_target_prefix(ps, puuid, n + 1);
    } else {
        assert(ps.take(n) =~= ps);
    }
}

/// The rune to write into an SGP participant's stats: none when its
/// `stats.perk0` is a non-zero integer, else the first selection of the first
/// style under `perks.styles`, when non-zero.
pub open spec fn spec_sgp_perk0(p: Json) -> Option<i32> {
    let has = match field(p, "stats"@) {
        Some(st) => match i64_field(st, "perk0"@) {
            Some(v) => v != 0,
            None => false,
        },
        None => false,
    };
    if has {
        None
    } else {
        let styles = match field(p, "perks"@) {
            Some(pk) => array_field(pk, "styles"@),
            None => None,
        };
        let perk = match styles {
            Some(st) => if st.len() > 0 {
                match array_field(st[0], "selections"@) {
                    Some(sel) => if sel.len() > 0 {
                        i64_field(sel[0], "perk"@)
                    } else {
                        None
                    },
                    None => None,
                }
            } else {
                None
            },
            None => None,
        };
        let v = match perk {
            Some(n) => wrap_i32(n),
            None => 0,
        };
        if v != 0 {
            Some(v)
        } else {
            None
        }
    }
}

/// The rune to write into an SGP participant's stats, if any.
pub fn sgp_perk0(p: &Json) -> (r: Option<i32>)
    ensures
        r == spec_sgp_perk0(*p),
{
    let has = match p.get("stats") {
        Some(st) => match st.i64_at("perk0") {
            Some(v) => v != 0,
            None => false,
        },
        None => false,
    };
    if has {
        return None;
    }
    let styles = match p.get("perks") {
        Some(pk) => pk.array_at("styles"),
        None => None,
    };
    let perk = match styles {
        Some(st) => if st.len() > 0 {
            match st[0].array_at("selections") {
                Some(sel) => if sel.len() > 0 {
                    sel[0].i64_at("perk")
                } else {
                    None
                },
                None => None,
            }
        } else {
            None
        },
        None => None,
    };
    let v = match perk {
        Some(n) => n as i32,
        None => 0,
    };
    if v != 0 {
        Some(v)
    } else {
        None
    }
}

/// The header of an SGP game: id, creation, duration, queue and map.
pub struct SgpGameHeader {
    pub game_id: u64,
    pub game_creation: u64,
    pub game_duration: u64,
    pub queue_id: i32,
    pub map_id: Option<u32>,
}

/// Reads the header of an SGP game (absent members read as zero, a duration
/// with a fraction as its whole part).
pub fn sgp_game_header(g: &Json) -> (r: SgpGameHeader)
    ensures
        r.game_id == unwrap_or(u64_field(*g, "gameId"@), 0),
        r.game_creation == unwrap_or(u64_field(*g, "gameCreation"@), 0),
        r.game_duration == unwrap_or(crate::json::opt_u64_lenient(field(*g, "gameDuration"@)), 0),
        r.queue_id == wrap_i32(unwrap_or(i64_field(*g, "queueId"@), 0)),
        r.map_id == match u64_field(*g, "mapId"@) {
            Some(m) => Some(m as u32),
            None => None,
        },
{
    SgpGameHeader {
        game_id: match g.u64_at("gameId") {
            Some(v) => v,
            None => 0,
        },
        game_creation: match g.u64_at("gameCreation") {
            Some(v) => v,
            None => 0,
        },
        game_duration: match g.get("gameDuration") {
            Some(v) => match v.as_u64_lenient() {
                Some(n) => n,
                None => 0,
            },
            None => 0,
        },
        queue_id: match g.i64_at("queueId") {
            Some(v) => v as i32,
            None => 0,
        },
        map_id: match g.u64_at("mapId") {
            Some(m) => Some(m as u32),
            None => None,
        },
    }
}

/// The SGP history reply's games: the `games` array, else the `games.games` array.
pub fn sgp_games(data: &Json) -> (r: Option<&Vec<Json>>)
    ensures
        match r {
            Some(v) => match field(*data, "games"@) {
                Some(g) => match crate::json::as_array(g) {
                    Some(a) => v@ == a,
                    None => array_field(g, "games"@) == Some(v@),
                },
                None => false,
            },
            None => match field(*data, "games"@) {
                Some(g) => crate::json::as_array(g) is None && array_field(g, "games"@) is None,
                None => true,
            },
        },
{
    let g = data.get("games")?;
    match g.as_array() {
        Some(a) => Some(a),
        None => g.array_at("games"),
    }
}

/// How the merged history is fetched.
pub struct MergedHistoryPlan {
    /// Whether the SGP history is fetched too (first page, or forced).
    pub want_sgp: bool,
    /// The number of games shown.
    pub limit: u32,
    /// The last index asked of SGP.
    pub sgp_end_index: u32,
}

/// Plans a merged history fetch of `[beg_index, end_index]`: SGP is asked on
/// the first page or when forced, for at most ten games. Counts wrap around `u32`.
pub fn merged_history_plan(beg_index: u32, end_index: u32, force_sgp: Option<bool>) -> (r:
    MergedHistoryPlan)
    ensures
        r.want_sgp == (beg_index == 0 || force_sgp == Some(true)),
        r.limit == vstd::wrapping::u32_specs::wrapping_add(
            (if end_index >= beg_index {
                end_index - beg_index
            } else {
                0
            }) as u32,
            1,
        ),
        r.sgp_end_index == vstd::wrapping::u32_specs::wrapping_add(
            beg_index,
            (if r.limit == 0 {
                0
            } else if r.limit - 1 > 9 {
                9
            } else {
                r.limit - 1
            }) as u32,
        ),
{
    let forced = match force_sgp {
        Some(b) => b,
        None => false,
    };
    let want_sgp = beg_index == 0 || forced;
    let limit = end_index.saturating_sub(beg_index).wrapping_add(1);
    let less = limit.saturating_sub(1);
    let count = if less > 9 {
        9
    } else {
        less
    };
    MergedHistoryPlan { want_sgp, limit, sgp_end_index: beg_index.wrapping_add(count) }
}

/// The merged history from the two fetched lists: one list alone when the
/// other is empty, else their merge.
pub fn combine_histories(lcu: Vec<MatchDisplay>, sgp: Vec<MatchDisplay>, limit: u32) -> (r: Vec<
    MatchDisplay,
>)
    ensures
        sgp@.len() == 0 ==> r@ == lcu@,
        sgp@.len() > 0 && lcu@.len() == 0 ==> r@ == sgp@,
        sgp@.len() > 0 && lcu@.len() > 0 ==> r@ == spec_merge(lcu@, sgp@, limit as nat),
{
    if sgp.len() == 0 {
        return lcu;
    }
    if lcu.len() == 0 {
        return sgp;
    }
    merge_match_displays(lcu, sgp, limit as usize)
}

/// The number of games asked of SGP for `[beg_index, end_index]`, or the
/// refusal of a reversed range. The count wraps around `u32`.
pub fn sgp_page_count(beg_index: u32, end_index: u32) -> (r: Result<u32, String>)
    ensures
        end_index < beg_index ==> (r matches Err(e) && e@ == "参数错误: end_index 不能小于 beg_index"@),
        end_index >= beg_index ==> r == Ok::<u32, String>(
            vstd::wrapping::u32_specs::wrapping_add((end_index - beg_index) as u32, 1),
        ),
{
    if end_index < beg_index {
        Err(owned("参数错误: end_index 不能小于 beg_index"))
    } else {
        Ok((end_index - beg_index).wrapping_add(1))
    }
}

} // verus!
