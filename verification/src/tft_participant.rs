//! One player of a TFT match record, cleaned for display.
use vstd::prelude::*;

use crate::icon_path::{convert_lcu_icon_path, spec_convert_lcu_icon_path};
use crate::json::{
    as_i64, as_str, field, i64_field, opt_array, opt_i64, opt_str, or_else, str_field, unwrap_or,
    wrap_i32, Json,
};
use crate::text::{concat2, concat3, i64_to_decimal, int_to_decimal, owned, to_lowercase};
use crate::tft::{
    lookup_ci, lookup_ci_exec, opt_as_array, opt_as_i64, opt_as_str, or_field,
    TftDataMapping,
};

verus! {

/// One unit on a player's board.
pub struct TftUnitDisplay {
    pub character_id: String,
    pub name: String,
    pub icon_url: String,
    pub rarity: i32,
    /// Star level, 1 to 3.
    pub tier: i32,
    pub item_names: Vec<String>,
    pub item_icon_urls: Vec<String>,
}

/// One active trait of a player.
pub struct TftTraitDisplay {
    pub name: String,
    pub num_units: i32,
    pub tier_current: i32,
    pub icon_url: String,
}

/// One player of a TFT match.
pub struct TftParticipantDisplay {
    pub puuid: String,
    pub summoner_name: String,
    pub is_self: bool,
    pub placement: i32,
    pub level: i32,
    pub gold_left: i32,
    pub total_damage_to_players: i32,
    pub companion_icon_url: String,
    pub traits: Vec<TftTraitDisplay>,
    pub units: Vec<TftUnitDisplay>,
    pub augments: Vec<String>,
}

/// `v` holds, in order, strings whose characters are those of `s`.
pub open spec fn strings_are(v: Seq<String>, s: Seq<Seq<char>>) -> bool {
    v.len() == s.len() && forall|i: int| 0 <= i < v.len() ==> #[trigger] v[i]@ == s[i]
}

/// The record of a player's statistics: the `stats` member, else the player itself.
pub open spec fn stats_of(p: Json) -> Json {
    unwrap_or(field(p, "stats"@), p)
}

/// An item or augment written as a string, or as an integer in decimal.
pub open spec fn item_key(i: Json) -> Option<Seq<char>> {
    match as_str(i) {
        Some(s) => Some(s),
        None => match as_i64(i) {
            Some(n) => Some(int_to_decimal(n as int)),
            None => None,
        },
    }
}

/// The keys of the entries of `arr` that have one, in order.
pub open spec fn item_keys(arr: Seq<Json>) -> Seq<Seq<char>>
    decreases arr.len(),
{
    if arr.len() == 0 {
        Seq::empty()
    } else {
        let rest = item_keys(arr.drop_last());
        match item_key(arr.last()) {
            Some(k) => rest.push(k),
            None => rest,
        }
    }
}

/// The display name of an item: its dictionary name, else the key itself.
pub open spec fn item_name(data: TftDataMapping, k: Seq<char>) -> Seq<char> {
    unwrap_or(lookup_ci(data.item_names@, k), k)
}

/// The icon link of an item (empty when the dictionary has none).
pub open spec fn item_icon(data: TftDataMapping, k: Seq<char>) -> Seq<char> {
    spec_convert_lcu_icon_path(unwrap_or(lookup_ci(data.item_icons@, k), Seq::empty()))
}

/// The non-empty icon links of `keys`, in order.
pub open spec fn item_icons_of(data: TftDataMapping, keys: Seq<Seq<char>>) -> Seq<Seq<char>>
    decreases keys.len(),
{
    if keys.len() == 0 {
        Seq::empty()
    } else {
        let rest = item_icons_of(data, keys.drop_last());
        let ic = item_icon(data, keys.last());
        if ic.len() == 0 {
            rest
        } else {
            rest.push(ic)
        }
    }
}

pub open spec fn unit_character_id(u: Json) -> Seq<char> {
    unwrap_or(
        opt_str(or_else(or_else(field(u, "character_id"@), field(u, "characterId"@)), field(u, "name"@))),
        Seq::empty(),
    )
}

pub open spec fn unit_items(u: Json) -> Seq<Json> {
    unwrap_or(opt_array(or_else(field(u, "itemNames"@), field(u, "items"@))), Seq::empty())
}

pub open spec fn unit_name(u: Json, data: TftDataMapping) -> Seq<char> {
    let cid = unit_character_id(u);
    match lookup_ci(data.champions@, cid) {
        Some(n) => n,
        None => unwrap_or(str_field(u, "name"@), cid),
    }
}

pub open spec fn unit_raw_icon(u: Json, data: TftDataMapping) -> Seq<char> {
    match lookup_ci(data.champion_icons@, unit_character_id(u)) {
        Some(x) => x,
        None => unwrap_or(
            opt_str(
                or_else(
                    or_else(or_else(field(u, "icon"@), field(u, "squareIcon"@)), field(u, "iconUrl"@)),
                    field(u, "iconPath"@),
                ),
            ),
            Seq::empty(),
        ),
    }
}

/// `d` is the display of the unit record `u`.
pub open spec fn unit_matches(d: TftUnitDisplay, u: Json, data: TftDataMapping) -> bool {
    let keys = item_keys(unit_items(u));
    &&& d.character_id@ == unit_character_id(u)
    &&& d.name@ == unit_name(u, data)
    &&& d.icon_url@ == spec_convert_lcu_icon_path(unit_raw_icon(u, data))
    &&& d.rarity == wrap_i32(unwrap_or(i64_field(u, "rarity"@), 0))
    &&& d.tier == wrap_i32(unwrap_or(i64_field(u, "tier"@), 1))
    &&& strings_are(d.item_names@, Seq::new(keys.len(), |i: int| item_name(data, keys[i])))
    &&& strings_are(d.item_icon_urls@, item_icons_of(data, keys))
}

pub open spec fn trait_api_name(t: Json) -> Seq<char> {
    unwrap_or(opt_str(or_else(field(t, "name"@), field(t, "trait_name"@))), Seq::empty())
}

pub open spec fn trait_num_units(t: Json) -> i32 {
    wrap_i32(unwrap_or(opt_i64(or_else(field(t, "num_units"@), field(t, "numUnits"@))), 0))
}

pub open spec fn trait_tier_current(t: Json) -> i32 {
    wrap_i32(
        unwrap_or(
            opt_i64(or_else(or_else(field(t, "tier_current"@), field(t, "tierCurrent"@)), field(t, "style"@))),
            0,
        ),
    )
}

/// A trait is shown when it has a tier or units.
pub open spec fn trait_active(t: Json) -> bool {
    trait_tier_current(t) > 0 || trait_num_units(t) > 0
}

/// The shown traits of `arr`, in order.
pub open spec fn active_traits(arr: Seq<Json>) -> Seq<Json>
    decreases arr.len(),
{
    if arr.len() == 0 {
        Seq::empty()
    } else {
        let rest = active_traits(arr.drop_last());
        if trait_active(arr.last()) {
            rest.push(arr.last())
        } else {
            rest
        }
    }
}

pub open spec fn trait_raw_icon(t: Json, data: TftDataMapping) -> Seq<char> {
    match lookup_ci(data.trait_icons@, trait_api_name(t)) {
        Some(x) => x,
        None => unwrap_or(
            opt_str(or_else(or_else(field(t, "icon"@), field(t, "iconPath"@)), field(t, "iconUrl"@))),
            Seq::empty(),
        ),
    }
}

/// `d` is the display of the trait record `t`.
pub open spec fn trait_matches(d: TftTraitDisplay, t: Json, data: TftDataMapping) -> bool {
    let api = trait_api_name(t);
    &&& d.name@ == unwrap_or(lookup_ci(data.traits@, api), api)
    &&& d.num_units == trait_num_units(t)
    &&& d.tier_current == trait_tier_current(t)
    &&& d.icon_url@ == spec_convert_lcu_icon_path(trait_raw_icon(t, data))
}

/// An identity handed in as `(puuid, name)`, by characters.
pub open spec fn ident_view(o: Option<&(String, String)>) -> Option<(Seq<char>, Seq<char>)> {
    match o {
        Some(x) => Some((x.0@, x.1@)),
        None => None,
    }
}

/// The player's puuid: the one handed in, else the record's own.
pub open spec fn tft_puuid(p: Json, ident: Option<(Seq<char>, Seq<char>)>) -> Seq<char> {
    let given = match ident {
        Some(x) => x.0,
        None => Seq::empty(),
    };
    if given.len() == 0 {
        unwrap_or(opt_str(or_else(field(p, "puuid"@), field(stats_of(p), "puuid"@))), Seq::empty())
    } else {
        given
    }
}

/// `riotIdGameName#riotIdTagline`, the name alone without a tag, empty without a name.
pub open spec fn riot_id_name(p: Json) -> Seq<char> {
    let g = unwrap_or(str_field(p, "riotIdGameName"@), Seq::empty());
    let t = unwrap_or(str_field(p, "riotIdTagline"@), Seq::empty());
    if g.len() == 0 {
        Seq::empty()
    } else if t.len() == 0 {
        g
    } else {
        g + "#"@ + t
    }
}

/// The player's name: the one handed in, else the Riot id, else a legacy name
/// member, else a placeholder built from the participant id.
pub open spec fn tft_name(p: Json, ident: Option<(Seq<char>, Seq<char>)>) -> Seq<char> {
    let n0 = match ident {
        Some(x) => x.1,
        None => Seq::empty(),
    };
    let n1 = if n0.len() == 0 {
        riot_id_name(p)
    } else {
        n0
    };
    let n2 = if n1.len() == 0 {
        unwrap_or(
            opt_str(
                or_else(
                    or_else(field(p, "summonerName"@), field(p, "gameName"@)),
                    field(stats_of(p), "summonerName"@),
                ),
            ),
            Seq::empty(),
        )
    } else {
        n1
    };
    if n2.len() == 0 {
        let pid = unwrap_or(i64_field(p, "participantId"@), 0);
        if pid > 0 {
            "玩家 "@ + int_to_decimal(pid as int)
        } else {
            "召唤师"@
        }
    } else {
        n2
    }
}

pub open spec fn tft_placement(p: Json) -> i32 {
    let st = stats_of(p);
    wrap_i32(
        unwrap_or(
            opt_i64(
                or_else(
                    or_else(or_else(field(st, "placement"@), field(st, "rank"@)), field(p, "placement"@)),
                    field(p, "rank"@),
                ),
            ),
            8,
        ),
    )
}

pub open spec fn tft_level(p: Json) -> i32 {
    let st = stats_of(p);
    wrap_i32(unwrap_or(opt_i64(or_else(field(st, "level"@), field(st, "champLevel"@))), 1))
}

pub open spec fn tft_gold_left(p: Json) -> i32 {
    let st = stats_of(p);
    wrap_i32(unwrap_or(opt_i64(or_else(field(st, "goldLeft"@), field(st, "gold_left"@))), 0))
}

pub open spec fn tft_damage(p: Json) -> i32 {
    let st = stats_of(p);
    wrap_i32(
        unwrap_or(
            opt_i64(or_else(field(st, "totalDamageToPlayers"@), field(st, "total_damage_to_players"@))),
            0,
        ),
    )
}

/// The profile icon of the player's companion, empty when it has no skin or item id.
pub open spec fn tft_companion_icon(p: Json) -> Seq<char> {
    match or_else(field(stats_of(p), "companion"@), field(p, "companion"@)) {
        Some(c) => match opt_i64(
            or_else(or_else(field(c, "skin_ID"@), field(c, "item_ID"@)), field(c, "skinId"@)),
        ) {
            Some(id) => "/lol-game-data/assets/v1/profile-icons/"@ + int_to_decimal(id as int)
                + ".jpg"@,
            None => Seq::empty(),
        },
        None => Seq::empty(),
    }
}

/// The array member `key` of the stats record, else of the player, else empty.
pub open spec fn tft_list(p: Json, key: Seq<char>) -> Seq<Json> {
    unwrap_or(opt_array(or_else(field(stats_of(p), key), field(p, key))), Seq::empty())
}

/// `d` is the display of the player record `p`.
pub open spec fn participant_matches(
    d: TftParticipantDisplay,
    p: Json,
    ident: Option<(Seq<char>, Seq<char>)>,
    data: TftDataMapping,
    current_puuid: Seq<char>,
) -> bool {
    let units = tft_list(p, "units"@);
    let traits = active_traits(tft_list(p, "traits"@));
    &&& d.puuid@ == tft_puuid(p, ident)
    &&& d.summoner_name@ == tft_name(p, ident)
    &&& d.is_self == (tft_puuid(p, ident) == current_puuid)
    &&& d.placement == tft_placement(p)
    &&& d.level == tft_level(p)
    &&& d.gold_left == tft_gold_left(p)
    &&& d.total_damage_to_players == tft_damage(p)
    &&& d.companion_icon_url@ == tft_companion_icon(p)
    &&& d.units.len() == units.len()
    &&& (forall|i: int| 0 <= i < units.len() ==> unit_matches(#[trigger] d.units@[i], units[i], data))
    &&& d.traits.len() == traits.len()
    &&& (forall|i: int|
        0 <= i < traits.len() ==> trait_matches(#[trigger] d.traits@[i], traits[i], data))
    &&& strings_are(d.augments@, item_keys(tft_list(p, "augments"@)))
}

/// The key of one item or augment entry.
pub fn item_key_exec(i: &Json) -> (r: Option<String>)
    ensures
        r matches Some(s) ==> item_key(*i) == Some(s@),
        r is None ==> item_key(*i) is None,
{
    match i.as_str() {
        Some(s) => Some(owned(s)),
        None => match i.as_i64() {
            Some(n) => Some(i64_to_decimal(n)),
            None => None,
        },
    }
}

/// The keys of the entries of `arr` that have one, in order.
pub fn item_keys_exec(arr: &Vec<Json>) -> (r: Vec<String>)
    ensures
        strings_are(r@, item_keys(arr@)),
{
    let mut out: Vec<String> = Vec::new();
    let mut k: usize = 0;
    while k < arr.len()
        invariant
            k <= arr.len(),
            strings_are(out@, item_keys(arr@.take(k as int))),
        decreases arr.len() - k,
    {
        assert(arr@.take(k + 1).drop_last() =~= arr@.take(k as int));
        assert(arr@.take(k + 1).last() == arr@[k as int]);
        match item_key_exec(&arr[k]) {
            Some(s) => {
                out.push(s);
            },
            None => {},
        }
        k = k + 1;
    }
    assert(arr@.take(arr.len() as int) =~= arr@);
    out
}

/// The display names of the items `keys`.
fn item_names_exec(keys: &Vec<String>, data: &TftDataMapping) -> (r: Vec<String>)
    ensures
        r.len() == keys.len(),
        forall|i: int| 0 <= i < keys.len() ==> #[trigger] r@[i]@ == item_name(*data, keys@[i]@),
{
    let mut out: Vec<String> = Vec::new();
    let mut k: usize = 0;
    while k < keys.len()
        invariant
            k <= keys.len(),
            out.len() == k,
            forall|i: int| 0 <= i < k ==> #[trigger] out@[i]@ == item_name(*data, keys@[i]@),
        decreases keys.len() - k,
    {
        let key = keys[k].as_str();
        let lower = to_lowercase(key);
        let name = match lookup_ci_exec(&data.item_names, key, lower.as_str()) {
            Some(v) => v.clone(),
            None => owned(key),
        };
        out.push(name);
        k = k + 1;
    }
    out
}

/// The non-empty icon links of the items `keys`.
fn item_icons_exec(keys: &Vec<String>, data: &TftDataMapping, Ghost(ks): Ghost<Seq<Seq<char>>>) -> (r:
    Vec<String>)
    requires
        strings_are(keys@, ks),
    ensures
        strings_are(r@, item_icons_of(*data, ks)),
{
    let mut out: Vec<String> = Vec::new();
    let mut k: usize = 0;
    while k < keys.len()
        invariant
            k <= keys.len(),
            strings_are(keys@, ks),
            strings_are(out@, item_icons_of(*data, ks.take(k as int))),
        decreases keys.len() - k,
    {
        assert(ks.take(k + 1).drop_last() =~= ks.take(k as int));
        assert(ks.take(k + 1).last() == ks[k as int]);
        assert(keys@[k as int]@ == ks[k as int]);
        let key = keys[k].as_str();
        let lower = to_lowercase(key);
        let raw = match lookup_ci_exec(&data.item_icons, key, lower.as_str()) {
            Some(v) => v.clone(),
            None => String::new(),
        };
        let url = convert_lcu_icon_path(raw.as_str());
        if !url.as_str().is_empty() {
            out.push(url);
        }
        k = k + 1;
    }
    assert(ks.take(keys.len() as int) =~= ks);
    out
}

/// The display of one unit record.
pub fn parse_tft_unit(u: &Json, data: &TftDataMapping) -> (r: TftUnitDisplay)
    ensures
        unit_matches(r, *u, *data),
{
    let cid_ref = opt_as_str(or_field(or_field(u.get("character_id"), u, "characterId"), u, "name"));
    let character_id = match cid_ref {
        Some(s) => owned(s),
        None => String::new(),
    };
    let char_lower = to_lowercase(character_id.as_str());
    let name = match lookup_ci_exec(&data.champions, character_id.as_str(), char_lower.as_str()) {
        Some(n) => n.clone(),
        None => match u.str_at("name") {
            Some(s) => owned(s),
            None => character_id.clone(),
        },
    };
    let rarity = match u.i64_at("rarity") {
        Some(n) => n as i32,
        None => 0,
    };
    let tier = match u.i64_at("tier") {
        Some(n) => n as i32,
        None => 1,
    };
    let keys = match opt_as_array(or_field(u.get("itemNames"), u, "items")) {
        Some(arr) => item_keys_exec(arr),
        None => {
            assert(item_keys(Seq::<Json>::empty()) =~= Seq::<Seq<char>>::empty());
            Vec::new()
        },
    };
    let ghost ks = item_keys(unit_items(*u));
    let item_names = item_names_exec(&keys, data);
    assert(strings_are(item_names@, Seq::new(ks.len(), |i: int| item_name(*data, ks[i])))) by {
        assert forall|i: int| 0 <= i < item_names@.len() implies #[trigger] item_names@[i]@ == Seq::new(
            ks.len(),
            |i: int| item_name(*data, ks[i]),
        )[i] by {
            assert(keys@[i]@ == ks[i]);
        }
    }
    let item_icon_urls = item_icons_exec(&keys, data, Ghost(ks));
    let raw_icon = match lookup_ci_exec(&data.champion_icons, character_id.as_str(), char_lower.as_str()) {
        Some(x) => x.clone(),
        None => match opt_as_str(
            or_field(or_field(or_field(u.get("icon"), u, "squareIcon"), u, "iconUrl"), u, "iconPath"),
        ) {
            Some(s) => owned(s),
            None => String::new(),
        },
    };
    let icon_url = convert_lcu_icon_path(raw_icon.as_str());
    TftUnitDisplay { character_id, name, icon_url, rarity, tier, item_names, item_icon_urls }
}

/// The display of one trait record, when the trait is shown.
pub fn parse_tft_trait(t: &Json, data: &TftDataMapping) -> (r: Option<TftTraitDisplay>)
    ensures
        r is Some <==> trait_active(*t),
        r matches Some(d) ==> trait_matches(d, *t, *data),
{
    let api = match opt_as_str(or_field(t.get("name"), t, "trait_name")) {
        Some(s) => owned(s),
        None => String::new(),
    };
    let lower = to_lowercase(api.as_str());
    let name = match lookup_ci_exec(&data.traits, api.as_str(), lower.as_str()) {
        Some(n) => n.clone(),
        None => api.clone(),
    };
    let num_units = match opt_as_i64(or_field(t.get("num_units"), t, "numUnits")) {
        Some(n) => n as i32,
        None => 0,
    };
    let tier_current = match opt_as_i64(
        or_field(or_field(t.get("tier_current"), t, "tierCurrent"), t, "style"),
    ) {
        Some(n) => n as i32,
        None => 0,
    };
    if tier_current > 0 || num_units > 0 {
        let raw_icon = match lookup_ci_exec(&data.trait_icons, api.as_str(), lower.as_str()) {
            Some(x) => x.clone(),
            None => match opt_as_str(or_field(or_field(t.get("icon"), t, "iconPath"), t, "iconUrl")) {
                Some(s) => owned(s),
                None => String::new(),
            },
        };
        let icon_url = convert_lcu_icon_path(raw_icon.as_str());
        Some(TftTraitDisplay { name, num_units, tier_current, icon_url })
    } else {
        None
    }
}

/// The displays of the unit records `arr`.
fn parse_tft_units(arr: &Vec<Json>, data: &TftDataMapping) -> (r: Vec<TftUnitDisplay>)
    ensures
        r.len() == arr.len(),
        forall|i: int| 0 <= i < arr.len() ==> unit_matches(#[trigger] r@[i], arr@[i], *data),
{
    let mut out: Vec<TftUnitDisplay> = Vec::new();
    let mut k: usize = 0;
    while k < arr.len()
        invariant
            k <= arr.len(),
            out.len() == k,
            forall|i: int| 0 <= i < k ==> unit_matches(#[trigger] out@[i], arr@[i], *data),
        decreases arr.len() - k,
    {
        let d = parse_tft_unit(&arr[k], data);
        out.push(d);
        k = k + 1;
    }
    out
}

/// The displays of the shown trait records of `arr`, in order.
fn parse_tft_traits(arr: &Vec<Json>, data: &TftDataMapping) -> (r: Vec<TftTraitDisplay>)
    ensures
        r.len() == active_traits(arr@).len(),
        forall|i: int|
            0 <= i < r.len() ==> trait_matches(#[trigger] r@[i], active_traits(arr@)[i], *data),
{
    let mut out: Vec<TftTraitDisplay> = Vec::new();
    let mut k: usize = 0;
    while k < arr.len()
        invariant
            k <= arr.len(),
            out.len() == active_traits(arr@.take(k as int)).len(),
            forall|i: int|
                0 <= i < out.len() ==> trait_matches(
                    #[trigger] out@[i],
                    active_traits(arr@.take(k as int))[i],
                    *data,
                ),
        decreases arr.len() - k,
    {
        assert(arr@.take(k + 1).drop_last() =~= arr@.take(k as int));
        assert(arr@.take(k + 1).last() == arr@[k as int]);
        match parse_tft_trait(&arr[k], data) {
            Some(d) => {
                out.push(d);
            },
            None => {},
        }
        k = k + 1;
    }
    assert(arr@.take(arr.len() as int) =~= arr@);
    out
}

/// Cleans one player of a TFT match record.
///
/// `pid_identity` is the `(puuid, name)` already known for the player; the
/// record's own members fill what it leaves empty. The player is `is_self`
/// when its puuid is `current_puuid`.
pub fn parse_single_tft_participant(
    p: &Json,
    pid_identity: Option<&(String, String)>,
    tft_data: &TftDataMapping,
    current_puuid: &str,
) -> (r: TftParticipantDisplay)
    ensures
        participant_matches(r, *p, ident_view(pid_identity), *tft_data, current_puuid@),
{
    let stats = match p.get("stats") {
        Some(s) => s,
        None => p,
    };
    let ghost ident = ident_view(pid_identity);
    let (mut p_puuid, mut summoner_name) = match pid_identity {
        Some(x) => (x.0.clone(), x.1.clone()),
        None => (String::new(), String::new()),
    };
    if p_puuid.as_str().is_empty() {
        p_puuid = match opt_as_str(or_field(p.get("puuid"), stats, "puuid")) {
            Some(s) => owned(s),
            None => String::new(),
        };
    }
    assert(p_puuid@ == tft_puuid(*p, ident));
    if summoner_name.as_str().is_empty() {
        let g = match p.str_at("riotIdGameName") {
            Some(s) => s,
            None => "",
        };
        let t = match p.str_at("riotIdTagline") {
            Some(s) => s,
            None => "",
        };
        proof {
            reveal_strlit("");
        }
        if !g.is_empty() {
            summoner_name = if t.is_empty() {
                owned(g)
            } else {
                concat3(g, "#", t)
            };
        }
        assert(summoner_name@ == riot_id_name(*p));
    }
    if summoner_name.as_str().is_empty() {
        summoner_name = match opt_as_str(
            or_field(or_field(p.get("summonerName"), p, "gameName"), stats, "summonerName"),
        ) {
            Some(s) => owned(s),
            None => String::new(),
        };
    }
    if summoner_name.as_str().is_empty() {
        let pid = match p.i64_at("participantId") {
            Some(n) => n,
            None => 0,
        };
        if pid > 0 {
            summoner_name = concat2("玩家 ", i64_to_decimal(pid).as_str());
        } else {
            summoner_name = owned("召唤师");
        }
    }
    assert(summoner_name@ == tft_name(*p, ident));
    let is_self = p_puuid == owned(current_puuid);
    let placement = match opt_as_i64(
        or_field(or_field(or_field(stats.get("placement"), stats, "rank"), p, "placement"), p, "rank"),
    ) {
        Some(n) => n as i32,
        None => 8,
    };
    let level = match opt_as_i64(or_field(stats.get("level"), stats, "champLevel")) {
        Some(n) => n as i32,
        None => 1,
    };
    let gold_left = match opt_as_i64(or_field(stats.get("goldLeft"), stats, "gold_left")) {
        Some(n) => n as i32,
        None => 0,
    };
    let total_damage_to_players = match opt_as_i64(
        or_field(stats.get("totalDamageToPlayers"), stats, "total_damage_to_players"),
    ) {
        Some(n) => n as i32,
        None => 0,
    };
    let companion_icon_url = match or_field(stats.get("companion"), p, "companion") {
        Some(c) => match opt_as_i64(or_field(or_field(c.get("skin_ID"), c, "item_ID"), c, "skinId")) {
            Some(id) => concat3(
                "/lol-game-data/assets/v1/profile-icons/",
                i64_to_decimal(id).as_str(),
                ".jpg",
            ),
            None => String::new(),
        },
        None => String::new(),
    };
    let units = match opt_as_array(or_field(stats.get("units"), p, "units")) {
        Some(arr) => parse_tft_units(arr, tft_data),
        None => Vec::new(),
    };
    let traits = match opt_as_array(or_field(stats.get("traits"), p, "traits")) {
        Some(arr) => parse_tft_traits(arr, tft_data),
        None => {
            assert(active_traits(Seq::<Json>::empty()) =~= Seq::<Json>::empty());
            Vec::new()
        },
    };
    let augments = match opt_as_array(or_field(stats.get("augments"), p, "augments")) {
        Some(arr) => item_keys_exec(arr),
        None => {
            assert(item_keys(Seq::<Json>::empty()) =~= Seq::<Seq<char>>::empty());
            Vec::new()
        },
    };
    TftParticipantDisplay {
        puuid: p_puuid,
        summoner_name,
        is_self,
        placement,
        level,
        gold_left,
        total_damage_to_players,
        companion_icon_url,
        traits,
        units,
        augments,
    }
}

} // verus!
