//! The upload of a finished match: the payload built from the LCU game record.
use vstd::prelude::*;

use std::collections::HashMap;

use crate::augments::{dedupe_augment_ids, spec_dedupe_augment_ids};
use crate::clock::{chrono_fixed_offset_text, format_local, now_local, opt_string_view, valid_utc_offset};
use crate::text::{concat3, owned};

verus! {

/// The statistics of one participant, as the LCU game record holds them
/// (absent members read as zero, `false` or an empty list).
pub struct ParticipantStats {
    pub win: bool,
    pub kills: i32,
    pub deaths: i32,
    pub assists: i32,
    pub total_damage_dealt_to_champions: i32,
    pub physical_damage_dealt_to_champions: i32,
    pub magic_damage_dealt_to_champions: i32,
    pub true_damage_dealt_to_champions: i32,
    pub total_damage_dealt: i32,
    pub physical_damage_dealt: i32,
    pub magic_damage_dealt: i32,
    pub true_damage_dealt: i32,
    pub total_damage_taken: i32,
    pub physical_damage_taken: i32,
    pub magical_damage_taken: i32,
    pub total_heal: i32,
    pub gold_earned: i32,
    pub gold_spent: i32,
    pub total_minions_killed: i32,
    pub neutral_minions_killed: i32,
    pub item0: i32,
    pub item1: i32,
    pub item2: i32,
    pub item3: i32,
    pub item4: i32,
    pub item5: i32,
    pub item6: i32,
    pub role_bound_item: i32,
    pub vision_score: i32,
    pub wards_placed: i32,
    pub wards_killed: i32,
    pub vision_wards_bought_in_game: i32,
    pub champ_level: i32,
    pub double_kills: i32,
    pub triple_kills: i32,
    pub quadra_kills: i32,
    pub penta_kills: i32,
    pub largest_multi_kill: i32,
    pub largest_killing_spree: i32,
    pub killing_sprees: i32,
    pub most_kills: bool,
    pub most_assists: bool,
    pub most_damage_dealt: bool,
    pub most_damage_taken: bool,
    pub most_gold_earned: bool,
    pub most_turret_kills: bool,
    pub most_healing_done: bool,
    pub turret_kills: i32,
    pub inhibitor_kills: i32,
    pub first_blood_kill: bool,
    pub first_blood_assist: bool,
    pub first_tower_kill: bool,
    pub first_tower_assist: bool,
    pub damage_dealt_to_turrets: i32,
    pub damage_dealt_to_objectives: i32,
    pub perk_primary_style: i32,
    pub perk_sub_style: i32,
    pub augments: Vec<i32>,
    pub player_augment1: i32,
    pub player_augment2: i32,
    pub player_augment3: i32,
    pub player_augment4: i32,
    pub player_augment5: i32,
}

/// One participant of the LCU game record.
pub struct RawParticipant {
    pub participant_id: Option<i32>,
    pub team_id: Option<i32>,
    pub champion_id: Option<i32>,
    pub spell1_id: Option<i32>,
    pub spell2_id: Option<i32>,
    pub stats: ParticipantStats,
    pub augments: Vec<i32>,
    pub player_augment1: i32,
    pub player_augment2: i32,
    pub player_augment3: i32,
    pub player_augment4: i32,
    pub player_augment5: i32,
}

/// The player behind a participant id.
pub struct PlayerInfo {
    pub puuid: String,
    pub game_name: Option<String>,
    pub summoner_name: Option<String>,
    pub tag_line: Option<String>,
}

/// A participant id and its player.
pub struct ParticipantIdentity {
    pub participant_id: Option<i32>,
    pub player: Option<PlayerInfo>,
}

/// The LCU game record of a finished match.
pub struct GameDetail {
    pub game_id: Option<u64>,
    pub game_mode: Option<String>,
    pub game_type: Option<String>,
    pub queue_id: Option<i32>,
    pub game_creation: Option<u64>,
    pub game_duration: Option<u64>,
    pub game_version: Option<String>,
    pub participants: Vec<RawParticipant>,
    pub participant_identities: Vec<ParticipantIdentity>,
}

/// One participant of the upload.
pub struct ParticipantInfo {
    pub summoner_name: String,
    pub puuid: String,
    pub team_id: i32,
    pub champion_id: i32,
    pub champion_name: String,
    pub summoner_spell1_id: i32,
    pub summoner_spell2_id: i32,
    pub hextech0: i32,
    pub hextech1: i32,
    pub hextech2: i32,
    pub hextech3: i32,
    pub hextech4: i32,
    pub win: bool,
    pub kills: i32,
    pub deaths: i32,
    pub assists: i32,
    pub total_damage_dealt_to_champions: i32,
    pub physical_damage_dealt_to_champions: i32,
    pub magic_damage_dealt_to_champions: i32,
    pub true_damage_dealt_to_champions: i32,
    pub total_damage_dealt: i32,
    pub physical_damage_dealt: i32,
    pub magic_damage_dealt: i32,
    pub true_damage_dealt: i32,
    pub total_damage_taken: i32,
    pub physical_damage_taken: i32,
    pub magical_damage_taken: i32,
    pub total_heal: i32,
    pub gold_earned: i32,
    pub gold_spent: i32,
    pub total_minions_killed: i32,
    pub neutral_minions_killed: i32,
    pub item0: i32,
    pub item1: i32,
    pub item2: i32,
    pub item3: i32,
    pub item4: i32,
    pub item5: i32,
    pub item6: i32,
    pub role_bound_item: i32,
    pub vision_score: i32,
    pub wards_placed: i32,
    pub wards_killed: i32,
    pub vision_wards_bought_in_game: i32,
    pub champ_level: i32,
    pub double_kills: i32,
    pub triple_kills: i32,
    pub quadra_kills: i32,
    pub penta_kills: i32,
    pub largest_multi_kill: i32,
    pub largest_killing_spree: i32,
    pub killing_sprees: i32,
    pub most_kills: bool,
    pub most_assists: bool,
    pub most_damage_dealt: bool,
    pub most_damage_taken: bool,
    pub most_gold_earned: bool,
    pub most_turret_kills: bool,
    pub most_healing_done: bool,
    pub turret_kills: i32,
    pub inhibitor_kills: i32,
    pub first_blood_kill: bool,
    pub first_blood_assist: bool,
    pub first_tower_kill: bool,
    pub first_tower_assist: bool,
    pub damage_dealt_to_turrets: i32,
    pub damage_dealt_to_objectives: i32,
    pub perk_primary_style: i32,
    pub perk_sub_style: i32,
}

/// The match of the upload; its `participants` hold the uploading player.
pub struct MatchInfo {
    pub match_id: u64,
    pub game_mode: String,
    pub game_type: String,
    pub queue_id: i32,
    pub game_creation: String,
    pub game_duration: u64,
    pub game_version: String,
    pub participants: Vec<ParticipantInfo>,
}

/// The upload: the uploading player inside the match, the others outside.
pub struct UploadPayload {
    pub match_info: MatchInfo,
    pub participants: Vec<ParticipantInfo>,
}

/// The augment candidates of a participant: the statistics' list and
/// `playerAugment1..5`, then the participant's own list and slots.
pub open spec fn hextech_candidates(p: RawParticipant) -> Seq<i32> {
    p.stats.augments@ + seq![
        p.stats.player_augment1,
        p.stats.player_augment2,
        p.stats.player_augment3,
        p.stats.player_augment4,
        p.stats.player_augment5,
    ] + p.augments@ + seq![
        p.player_augment1,
        p.player_augment2,
        p.player_augment3,
        p.player_augment4,
        p.player_augment5,
    ]
}

/// Slot `i` of the five augment slots: the `i`-th kept augment, else 0.
pub open spec fn hextech_slot(p: RawParticipant, i: int) -> i32 {
    let kept = spec_dedupe_augment_ids(hextech_candidates(p));
    if i < kept.len() {
        kept[i]
    } else {
        0
    }
}

/// The five augment slots of a participant: its non-zero augment ids, each
/// once, in the order of the candidates, padded with zeros.
pub fn extract_hextech_ids(participant: &RawParticipant) -> (r: [i32; 5])
    ensures
        forall|i: int| 0 <= i < 5 ==> #[trigger] r@[i] == hextech_slot(*participant, i),
{
    let stats = &participant.stats;
    let mut all: Vec<i32> = Vec::new();
    let mut k: usize = 0;
    while k < stats.augments.len()
        invariant
            k <= stats.augments.len(),
            all@ == stats.augments@.take(k as int),
        decreases stats.augments.len() - k,
    {
        all.push(stats.augments[k]);
        assert(all@ =~= stats.augments@.take(k + 1));
        k = k + 1;
    }
    all.push(stats.player_augment1);
    all.push(stats.player_augment2);
    all.push(stats.player_augment3);
    all.push(stats.player_augment4);
    all.push(stats.player_augment5);
    let ghost mid = all@;
    let mut k: usize = 0;
    while k < participant.augments.len()
        invariant
            k <= participant.augments.len(),
            all@ == mid + participant.augments@.take(k as int),
        decreases participant.augments.len() - k,
    {
        all.push(participant.augments[k]);
        assert(all@ =~= mid + participant.augments@.take(k + 1));
        k = k + 1;
    }
    all.push(participant.player_augment1);
    all.push(participant.player_augment2);
    all.push(participant.player_augment3);
    all.push(participant.player_augment4);
    all.push(participant.player_augment5);
    assert(all@ =~= hextech_candidates(*participant));
    let kept = dedupe_augment_ids(all.as_slice());
    let mut result: [i32; 5] = [0, 0, 0, 0, 0];
    let mut i: usize = 0;
    while i < 5
        invariant
            i <= 5,
            kept@ == spec_dedupe_augment_ids(hextech_candidates(*participant)),
            forall|j: int| 0 <= j < i ==> #[trigger] result@[j] == hextech_slot(*participant, j),
            forall|j: int| i <= j < 5 ==> #[trigger] result@[j] == 0,
        decreases 5 - i,
    {
        if i < kept.len() {
            result[i] = kept[i];
        }
        i = i + 1;
    }
    result
}

/// The player of participant id `pid`: that of the last identity with that id
/// and a player.
pub open spec fn player_for(ids: Seq<ParticipantIdentity>, pid: i32) -> Option<PlayerInfo>
    decreases ids.len(),
{
    if ids.len() == 0 {
        None
    } else if ids.last().participant_id == Some(pid) && ids.last().player is Some {
        ids.last().player
    } else {
        player_for(ids.drop_last(), pid)
    }
}

/// `o.as_deref()` by characters.
pub open spec fn opt_chars(o: Option<String>) -> Option<Seq<char>> {
    match o {
        Some(s) => Some(s@),
        None => None,
    }
}

/// The uploaded name of a player: `name#tag` (name: game name, else summoner
/// name, else `Unknown`), the name alone without a tag, `Unknown` without a player.
pub open spec fn upload_name(player: Option<PlayerInfo>) -> Seq<char> {
    match player {
        Some(pl) => {
            let name = match opt_chars(pl.game_name) {
                Some(n) => n,
                None => match opt_chars(pl.summoner_name) {
                    Some(n) => n,
                    None => "Unknown"@,
                },
            };
            match opt_chars(pl.tag_line) {
                Some(t) => name + "#"@ + t,
                None => name,
            }
        },
        None => "Unknown"@,
    }
}

/// The uploaded puuid of a player, empty without a player.
pub open spec fn upload_puuid(player: Option<PlayerInfo>) -> Seq<char> {
    match player {
        Some(pl) => pl.puuid@,
        None => Seq::empty(),
    }
}

pub open spec fn or_zero(o: Option<i32>) -> i32 {
    match o {
        Some(v) => v,
        None => 0,
    }
}

/// The uploaded participant `d` is built from the record `p` of `g`.
pub open spec fn info_of(
    d: ParticipantInfo,
    p: RawParticipant,
    g: GameDetail,
    champion_names: Map<i32, String>,
) -> bool {
    let player = player_for(g.participant_identities@, or_zero(p.participant_id));
    let cid = or_zero(p.champion_id);
    &&& d.summoner_name@ == upload_name(player)
    &&& d.puuid@ == upload_puuid(player)
    &&& d.team_id == or_zero(p.team_id)
    &&& d.champion_id == cid
    &&& d.champion_name@ == (if champion_names.contains_key(cid) {
        champion_names[cid]@
    } else {
        "Unknown"@
    })
    &&& d.summoner_spell1_id == or_zero(p.spell1_id)
    &&& d.summoner_spell2_id == or_zero(p.spell2_id)
    &&& d.hextech0 == hextech_slot(p, 0)
    &&& d.hextech1 == hextech_slot(p, 1)
    &&& d.hextech2 == hextech_slot(p, 2)
    &&& d.hextech3 == hextech_slot(p, 3)
    &&& d.hextech4 == hextech_slot(p, 4)
    &&& d.win == p.stats.win
    &&& d.kills == p.stats.kills
    &&& d.deaths == p.stats.deaths
    &&& d.assists == p.stats.assists
    &&& d.total_damage_dealt_to_champions == p.stats.total_damage_dealt_to_champions
    &&& d.physical_damage_dealt_to_champions == p.stats.physical_damage_dealt_to_champions
    &&& d.magic_damage_dealt_to_champions == p.stats.magic_damage_dealt_to_champions
    &&& d.true_damage_dealt_to_champions == p.stats.true_damage_dealt_to_champions
    &&& d.total_damage_dealt == p.stats.total_damage_dealt
    &&& d.physical_damage_dealt == p.stats.physical_damage_dealt
    &&& d.magic_damage_dealt == p.stats.magic_damage_dealt
    &&& d.true_damage_dealt == p.stats.true_damage_dealt
    &&& d.total_damage_taken == p.stats.total_damage_taken
    &&& d.physical_damage_taken == p.stats.physical_damage_taken
    &&& d.magical_damage_taken == p.stats.magical_damage_taken
    &&& d.total_heal == p.stats.total_heal
    &&& d.gold_earned == p.stats.gold_earned
    &&& d.gold_spent == p.stats.gold_spent
    &&& d.total_minions_killed == p.stats.total_minions_killed
    &&& d.neutral_minions_killed == p.stats.neutral_minions_killed
    &&& d.item0 == p.stats.item0
    &&& d.item1 == p.stats.item1
    &&& d.item2 == p.stats.item2
    &&& d.item3 == p.stats.item3
    &&& d.item4 == p.stats.item4
    &&& d.item5 == p.stats.item5
    &&& d.item6 == p.stats.item6
    &&& d.role_bound_item == p.stats.role_bound_item
    &&& d.vision_score == p.stats.vision_score
    &&& d.wards_placed == p.stats.wards_placed
    &&& d.wards_killed == p.stats.wards_killed
    &&& d.vision_wards_bought_in_game == p.stats.vision_wards_bought_in_game
    &&& d.champ_level == p.stats.champ_level
    &&& d.double_kills == p.stats.double_kills
    &&& d.triple_kills == p.stats.triple_kills
    &&& d.quadra_kills == p.stats.quadra_kills
    &&& d.penta_kills == p.stats.penta_kills
    &&& d.largest_multi_kill == p.stats.largest_multi_kill
    &&& d.largest_killing_spree == p.stats.largest_killing_spree
    &&& d.killing_sprees == p.stats.killing_sprees
    &&& d.most_kills == p.stats.most_kills
    &&& d.most_assists == p.stats.most_assists
    &&& d.most_damage_dealt == p.stats.most_damage_dealt
    &&& d.most_damage_taken == p.stats.most_damage_taken
    &&& d.most_gold_earned == p.stats.most_gold_earned
    &&& d.most_turret_kills == p.stats.most_turret_kills
    &&& d.most_healing_done == p.stats.most_healing_done
    &&& d.turret_kills == p.stats.turret_kills
    &&& d.inhibitor_kills == p.stats.inhibitor_kills
    &&& d.first_blood_kill == p.stats.first_blood_kill
    &&& d.first_blood_assist == p.stats.first_blood_assist
    &&& d.first_tower_kill == p.stats.first_tower_kill
    &&& d.first_tower_assist == p.stats.first_tower_assist
    &&& d.damage_dealt_to_turrets == p.stats.damage_dealt_to_turrets
    &&& d.damage_dealt_to_objectives == p.stats.damage_dealt_to_objectives
    &&& d.perk_primary_style == p.stats.perk_primary_style
    &&& d.perk_sub_style == p.stats.perk_sub_style
}

/// The index of the participant that goes inside the match: the first whose
/// puuid is the uploading player's, else the first participant.
pub open spec fn split_index(puuids: Seq<Seq<char>>, target: Option<Seq<char>>) -> Option<int>
    decreases puuids.len(),
{
    if puuids.len() == 0 {
        None
    } else {
        match target {
            Some(t) => match first_with(puuids, t) {
                Some(i) => Some(i),
                None => Some(0),
            },
            None => Some(0),
        }
    }
}

/// The first index of `t` in `s`.
pub open spec fn first_with(s: Seq<Seq<char>>, t: Seq<char>) -> Option<int>
    decreases s.len(),
{
    if s.len() == 0 {
        None
    } else {
        match first_with(s.drop_last(), t) {
            Some(i) => Some(i),
            None => if s.last() == t {
                Some(s.len() - 1)
            } else {
                None
            },
        }
    }
}

/// The uploaded puuids of the participants of `g`, in order.
pub open spec fn game_puuids(g: GameDetail) -> Seq<Seq<char>> {
    Seq::new(
        g.participants@.len(),
        |i: int|
            upload_puuid(player_for(g.participant_identities@, or_zero(g.participants@[i].participant_id))),
    )
}

/// The player of participant id `pid`.
fn player_for_exec<'a>(ids: &'a Vec<ParticipantIdentity>, pid: i32) -> (r: Option<&'a PlayerInfo>)
    ensures
        match r {
            Some(pl) => player_for(ids@, pid) == Some(*pl),
            None => player_for(ids@, pid) is None,
        },
{
    let mut k: usize = ids.len();
    assert(ids@.take(ids.len() as int) =~= ids@);
    while k > 0
        invariant
            k <= ids.len(),
            player_for(ids@, pid) == player_for(ids@.take(k as int), pid),
        decreases k,
    {
        assert(ids@.take(k as int).drop_last() =~= ids@.take(k - 1));
        assert(ids@.take(k as int).last() == ids@[k - 1]);
        let it = &ids[k - 1];
        if it.participant_id == Some(pid) {
            match &it.player {
                Some(pl) => {
                    return Some(pl);
                },
                None => {},
            }
        }
        k = k - 1;
    }
    None
}

/// The uploaded name of a player.
fn upload_name_exec(player: Option<&PlayerInfo>) -> (r: String)
    ensures
        r@ == upload_name(match player {
            Some(pl) => Some(*pl),
            None => None,
        }),
{
    match player {
        Some(pl) => {
            let name: &str = match &pl.game_name {
                Some(n) => n.as_str(),
                None => match &pl.summoner_name {
                    Some(n) => n.as_str(),
                    None => "Unknown",
                },
            };
            match &pl.tag_line {
                Some(t) => concat3(name, "#", t.as_str()),
                None => owned(name),
            }
        },
        None => owned("Unknown"),
    }
}

/// The uploaded participant built from the record `p`.
fn build_participant_info(
    p: &RawParticipant,
    g: &GameDetail,
    champion_names: &HashMap<i32, String>,
) -> (r: ParticipantInfo)
    ensures
        info_of(r, *p, *g, champion_names@),
{
    broadcast use vstd::std_specs::hash::group_hash_axioms;

    let pid = match p.participant_id {
        Some(v) => v,
        None => 0,
    };
    let player = player_for_exec(&g.participant_identities, pid);
    let summoner_name = upload_name_exec(player);
    let puuid = match player {
        Some(pl) => pl.puuid.clone(),
        None => String::new(),
    };
    let cid = match p.champion_id {
        Some(v) => v,
        None => 0,
    };
    let champion_name = match champion_names.get(&cid) {
        Some(n) => n.clone(),
        None => owned("Unknown"),
    };
    let hextech = extract_hextech_ids(p);
    let s = &p.stats;
    ParticipantInfo {
        summoner_name,
        puuid,
        team_id: match p.team_id {
            Some(v) => v,
            None => 0,
        },
        champion_id: cid,
        champion_name,
        summoner_spell1_id: match p.spell1_id {
            Some(v) => v,
            None => 0,
        },
        summoner_spell2_id: match p.spell2_id {
            Some(v) => v,
            None => 0,
        },
        hextech0: hextech[0],
        hextech1: hextech[1],
        hextech2: hextech[2],
        hextech3: hextech[3],
        hextech4: hextech[4],
        win: s.win,
        kills: s.kills,
        deaths: s.deaths,
        assists: s.assists,
        total_damage_dealt_to_champions: s.total_damage_dealt_to_champions,
        physical_damage_dealt_to_champions: s.physical_damage_dealt_to_champions,
        magic_damage_dealt_to_champions: s.magic_damage_dealt_to_champions,
        true_damage_dealt_to_champions: s.true_damage_dealt_to_champions,
        total_damage_dealt: s.total_damage_dealt,
        physical_damage_dealt: s.physical_damage_dealt,
        magic_damage_dealt: s.magic_damage_dealt,
        true_damage_dealt: s.true_damage_dealt,
        total_damage_taken: s.total_damage_taken,
        physical_damage_taken: s.physical_damage_taken,
        magical_damage_taken: s.magical_damage_taken,
        total_heal: s.total_heal,
        gold_earned: s.gold_earned,
        gold_spent: s.gold_spent,
        total_minions_killed: s.total_minions_killed,
        neutral_minions_killed: s.neutral_minions_killed,
        item0: s.item0,
        item1: s.item1,
        item2: s.item2,
        item3: s.item3,
        item4: s.item4,
        item5: s.item5,
        item6: s.item6,
        role_bound_item: s.role_bound_item,
        vision_score: s.vision_score,
        wards_placed: s.wards_placed,
        wards_killed: s.wards_killed,
        vision_wards_bought_in_game: s.vision_wards_bought_in_game,
        champ_level: s.champ_level,
        double_kills: s.double_kills,
        triple_kills: s.triple_kills,
        quadra_kills: s.quadra_kills,
        penta_kills: s.penta_kills,
        largest_multi_kill: s.largest_multi_kill,
        largest_killing_spree: s.largest_killing_spree,
        killing_sprees: s.killing_sprees,
        most_kills: s.most_kills,
        most_assists: s.most_assists,
        most_damage_dealt: s.most_damage_dealt,
        most_damage_taken: s.most_damage_taken,
        most_gold_earned: s.most_gold_earned,
        most_turret_kills: s.most_turret_kills,
        most_healing_done: s.most_healing_done,
        turret_kills: s.turret_kills,
        inhibitor_kills: s.inhibitor_kills,
        first_blood_kill: s.first_blood_kill,
        first_blood_assist: s.first_blood_assist,
        first_tower_kill: s.first_tower_kill,
        first_tower_assist: s.first_tower_assist,
        damage_dealt_to_turrets: s.damage_dealt_to_turrets,
        damage_dealt_to_objectives: s.damage_dealt_to_objectives,
        perk_primary_style: s.perk_primary_style,
        perk_sub_style: s.perk_sub_style,
    }
}

/// `o.clone().unwrap_or_default()` for an optional string.
fn string_or_empty(o: &Option<String>) -> (r: String)
    ensures
        r@ == (match o {
            Some(s) => s@,
            None => Seq::<char>::empty(),
        }),
{
    match o {
        Some(s) => s.clone(),
        None => String::new(),
    }
}

/// `text` is the creation time `ms` at the offset `offset_secs` with the
/// upload's pattern, wherever chrono gives that text.
pub open spec fn creation_text_at(text: Seq<char>, ms: u64, offset_secs: i32) -> bool {
    match chrono_fixed_offset_text((ms / 1000) as i64, offset_secs, "%Y-%m-%dT%H:%M:%S"@) {
        Some(t) => text == t,
        None => true,
    }
}

/// Builds the upload of a finished match. Every participant is uploaded; the
/// one whose puuid is the uploading player's (the first such), else the first
/// participant, goes inside the match, the others outside in their order.
///
/// The match's `game_creation` is the creation time in the machine's local
/// time zone (`%Y-%m-%dT%H:%M:%S`): its text at the offset that zone gives the
/// instant (which offset is not stated). Where the record has no creation time,
/// or chrono cannot place it, it is the current local time, which depends on
/// the clock and is not stated.
pub fn build_upload_payload(
    game_detail: &GameDetail,
    current_summoner_puuid: Option<&str>,
    champion_names: &HashMap<i32, String>,
) -> (r: UploadPayload)
    ensures
        r.match_info.match_id == (match game_detail.game_id {
            Some(v) => v,
            None => 0,
        }),
        r.match_info.game_mode@ == (match opt_chars(game_detail.game_mode) {
            Some(s) => s,
            None => Seq::<char>::empty(),
        }),
        r.match_info.game_type@ == (match opt_chars(game_detail.game_type) {
            Some(s) => s,
            None => Seq::<char>::empty(),
        }),
        r.match_info.queue_id == or_zero(game_detail.queue_id),
        game_detail.game_creation matches Some(ms) ==> exists|off: i32|
            valid_utc_offset(off) && #[trigger] creation_text_at(r.match_info.game_creation@, ms, off),
        r.match_info.game_duration == (match game_detail.game_duration {
            Some(v) => v,
            None => 0,
        }),
        r.match_info.game_version@ == (match opt_chars(game_detail.game_version) {
            Some(s) => s,
            None => Seq::<char>::empty(),
        }),
        match split_index(
            game_puuids(*game_detail),
            match current_summoner_puuid {
                Some(t) => Some(t@),
                None => None,
            },
        ) {
            Some(c) => {
                &&& r.match_info.participants.len() == 1
                &&& info_of(
                    r.match_info.participants@[0],
                    game_detail.participants@[c],
                    *game_detail,
                    champion_names@,
                )
                &&& r.participants.len() == game_detail.participants.len() - 1
                &&& forall|j: int|
                    0 <= j < r.participants.len() ==> info_of(
                        #[trigger] r.participants@[j],
                        game_detail.participants@[if j < c {
                            j
                        } else {
                            j + 1
                        }],
                        *game_detail,
                        champion_names@,
                    )
            },
            None => r.match_info.participants.len() == 0 && r.participants.len() == 0,
        },
{
    let game_creation = match game_detail.game_creation {
        Some(ms) => {
            let secs = (ms / 1000) as i64;
            let t = format_local(secs, "%Y-%m-%dT%H:%M:%S");
            let ghost off = choose|off: i32|
                valid_utc_offset(off) && opt_string_view(t) == #[trigger] chrono_fixed_offset_text(
                    secs,
                    off,
                    "%Y-%m-%dT%H:%M:%S"@,
                );
            let text = match t {
                Some(t) => t,
                None => now_local("%Y-%m-%dT%H:%M:%S"),
            };
            assert(creation_text_at(text@, ms, off));
            text
        },
        None => now_local("%Y-%m-%dT%H:%M:%S"),
    };
    let raw = &game_detail.participants;
    let mut all: Vec<ParticipantInfo> = Vec::new();
    let mut k: usize = 0;
    while k < raw.len()
        invariant
            k <= raw.len(),
            all.len() == k,
            forall|i: int|
                0 <= i < k ==> info_of(#[trigger] all@[i], raw@[i], *game_detail, champion_names@),
        decreases raw.len() - k,
    {
        all.push(build_participant_info(&raw[k], game_detail, champion_names));
        k = k + 1;
    }
    let ghost puuids = game_puuids(*game_detail);
    assert forall|i: int| 0 <= i < all.len() implies #[trigger] all@[i].puuid@ == puuids[i] by {
        assert(info_of(all@[i], raw@[i], *game_detail, champion_names@));
    }
    let ghost target = match current_summoner_puuid {
        Some(t) => Some(t@),
        None => None,
    };
    let chosen: Option<usize> = if all.len() == 0 {
        None
    } else {
        match current_summoner_puuid {
            Some(t) => match first_puuid_index(&all, t, Ghost(puuids)) {
                Some(i) => Some(i),
                None => Some(0),
            },
            None => Some(0),
        }
    };
    assert(chosen matches Some(c) ==> split_index(puuids, target) == Some(c as int));
    assert(chosen is None ==> split_index(puuids, target) is None);
    let mut inner: Vec<ParticipantInfo> = Vec::new();
    match chosen {
        Some(c) => {
            let ghost before = all@;
            let x = all.remove(c);
            inner.push(x);
            assert forall|j: int| 0 <= j < all.len() implies info_of(
                #[trigger] all@[j],
                game_detail.participants@[if j < c {
                    j
                } else {
                    j + 1
                }],
                *game_detail,
                champion_names@,
            ) by {
                assert(all@[j] == before[if j < c {
                    j
                } else {
                    j + 1
                }]);
            }
        },
        None => {},
    }
    let match_id = match game_detail.game_id {
        Some(v) => v,
        None => 0,
    };
    let ghost created = game_creation@;
    assert(game_detail.game_creation matches Some(ms) ==> exists|o: i32|
        valid_utc_offset(o) && #[trigger] creation_text_at(created, ms, o));
    let r = UploadPayload {
        match_info: MatchInfo {
            match_id,
            game_mode: string_or_empty(&game_detail.game_mode),
            game_type: string_or_empty(&game_detail.game_type),
            queue_id: or_zero_exec(game_detail.queue_id),
            game_creation,
            game_duration: match game_detail.game_duration {
                Some(v) => v,
                None => 0,
            },
            game_version: string_or_empty(&game_detail.game_version),
            participants: inner,
        },
        participants: all,
    };
    assert(r.match_info.game_creation@ == created);
    r
}

/// A prefix's first match is the whole list's.
proof fn lemma_first_with_prefix(s: Seq<Seq<char>>, t: Seq<char>, n: int)
    requires
        0 < n <= s.len(),
        first_with(s.take(n), t) is Some,
    ensures
        first_with(s, t) == first_with(s.take(n), t),
    decreases s.len() - n,
{
    if n < s.len() {
        assert(s.take(n + 1).drop_last() =~= s.take(n));
        lemma_first_with_prefix(s, t, n + 1);
    } else {
        assert(s.take(n) =~= s);
    }
}

/// The index of the first participant whose puuid is `t`.
fn first_puuid_index(all: &Vec<ParticipantInfo>, t: &str, Ghost(puuids): Ghost<Seq<Seq<char>>>) -> (r:
    Option<usize>)
    requires
        all.len() == puuids.len(),
        forall|j: int| 0 <= j < all.len() ==> #[trigger] all@[j].puuid@ == puuids[j],
    ensures
        r matches Some(i) ==> first_with(puuids, t@) == Some(i as int) && i < all.len(),
        r is None ==> first_with(puuids, t@) is None,
{
    let mut i: usize = 0;
    while i < all.len()
        invariant
            i <= all.len(),
            all.len() == puuids.len(),
            forall|j: int| 0 <= j < all.len() ==> #[trigger] all@[j].puuid@ == puuids[j],
            first_with(puuids.take(i as int), t@) is None,
        decreases all.len() - i,
    {
        assert(puuids.take(i + 1).drop_last() =~= puuids.take(i as int));
        assert(puuids.take(i + 1).last() == puuids[i as int]);
        if crate::text::str_eq(all[i].puuid.as_str(), t) {
            proof {
                lemma_first_with_prefix(puuids, t@, i + 1);
            }
            return Some(i);
        }
        i = i + 1;
    }
    assert(puuids.take(all.len() as int) =~= puuids);
    None
}

fn or_zero_exec(o: Option<i32>) -> (r: i32)
    ensures
        r == or_zero(o),
{
    match o {
        Some(v) => v,
        None => 0,
    }
}

} // verus!
