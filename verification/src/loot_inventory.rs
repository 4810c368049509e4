//! The loot inventory: cleaning the player's loot list, ownership, essence balances.
use vstd::prelude::*;

use crate::json::{
    as_array, bool_field, field, i64_field, str_field, unwrap_or, wrap_i32, Json,
};
use crate::text::{
    ascii_lower_seq, eq_ignore_ascii_case, is_prefix, owned, starts_with, str_eq, to_uppercase,
    trim, trim_ws, unicode_uppercase,
};

verus! {

/// One shard of the inventory (champion, skin, emote, ward skin, icon).
pub struct LootItem {
    pub loot_id: String,
    pub loot_name: String,
    pub item_desc: String,
    pub display_categories: String,
    pub loot_type: String,
    pub rarity: String,
    pub count: i32,
    pub value: i32,
    pub disenchant_value: i32,
    pub item_status: String,
    pub tile_path: Option<String>,
    pub upgrade_recipe_name: String,
    pub upgrade_essence_cost: i32,
    pub parent_item_status: String,
}

/// Blue and orange essence.
pub struct EssenceBalances {
    pub blue_essence: i32,
    pub orange_essence: i32,
}

/// The store ids the player owns, by collection.
pub struct OwnedCollections {
    pub skins: Vec<i32>,
    pub icons: Vec<i32>,
    pub emotes: Vec<i32>,
    pub ward_skins: Vec<i32>,
}

/// A string member, else `d`.
pub open spec fn str_or(j: Json, key: Seq<char>, d: Seq<char>) -> Seq<char> {
    unwrap_or(str_field(j, key), d)
}

/// A string member, else empty.
pub open spec fn str_or_empty(j: Json, key: Seq<char>) -> Seq<char> {
    unwrap_or(str_field(j, key), Seq::empty())
}

/// An integer member cast to `i32`, else `d`.
pub open spec fn i32_or(j: Json, key: Seq<char>, d: i32) -> i32 {
    match i64_field(j, key) {
        Some(n) => wrap_i32(n),
        None => d,
    }
}

/// A string member that is present and non-empty.
pub open spec fn non_empty_str(j: Json, key: Seq<char>) -> Option<Seq<char>> {
    match str_field(j, key) {
        Some(s) => if s.len() > 0 {
            Some(s)
        } else {
            None
        },
        None => None,
    }
}

/// The description shown for a loot: its localized name, else its item
/// description, else its id; well-known materials and engines get their names.
pub open spec fn loot_desc(item: Json) -> Seq<char> {
    let d = match non_empty_str(item, "localizedName"@) {
        Some(s) => s,
        None => match non_empty_str(item, "itemDesc"@) {
            Some(s) => s,
            None => str_or_empty(item, "lootId"@),
        },
    };
    if d == "MATERIAL_key_fragment"@ {
        "钥匙碎片"@
    } else if d == "MATERIAL_key"@ {
        "海克斯科技钥匙"@
    } else if d == "MATERIAL_key_premium"@ {
        "杰作钥匙"@
    } else if ascii_lower_seq(d) == ascii_lower_seq("chest_128"@) {
        "英雄魔法引擎"@
    } else if ascii_lower_seq(d) == ascii_lower_seq("chest_129"@) {
        "荣耀英雄魔法引擎"@
    } else {
        d
    }
}

/// The raw description before renaming (used for the emptiness test).
pub open spec fn loot_raw_desc(item: Json) -> Seq<char> {
    match non_empty_str(item, "localizedName"@) {
        Some(s) => s,
        None => match non_empty_str(item, "itemDesc"@) {
            Some(s) => s,
            None => str_or_empty(item, "lootId"@),
        },
    }
}

/// A loot is listed when its id is not blank, is not a TFT loot, its count is
/// positive and its description is not blank.
pub open spec fn loot_listed(item: Json) -> bool {
    let id = trim_ws(str_or_empty(item, "lootId"@));
    &&& id.len() > 0
    &&& !is_prefix("TFT"@, unicode_uppercase(id))
    &&& i32_or(item, "count"@, 0) > 0
    &&& trim_ws(loot_raw_desc(item)).len() > 0
}

/// The player owns the store item `id` of the category `category` (upper case).
pub open spec fn owned_in(owned: OwnedCollections, category: Seq<char>, id: i32) -> bool {
    (category == "SKIN"@ && owned.skins@.contains(id)) || (category == "SUMMONERICON"@
        && owned.icons@.contains(id)) || (category == "EMOTE"@ && owned.emotes@.contains(id)) || (
    category == "WARDSKIN"@ && owned.ward_skins@.contains(id))
}

/// The status shown: `OWNED` when the collections show the store item as owned,
/// else the loot's own status (`NONE` when it has none).
pub open spec fn loot_status(item: Json, owned: OwnedCollections) -> Seq<char> {
    let store_id = i32_or(item, "storeItemId"@, 0);
    let category = unicode_uppercase(str_or_empty(item, "displayCategories"@));
    if store_id > 0 && owned_in(owned, category, store_id) {
        "OWNED"@
    } else {
        str_or(item, "itemStatus"@, "NONE"@)
    }
}

/// The status a loot carries itself: `itemStatus`, else `NONE`.
pub open spec fn own_status(item: Json) -> Seq<char> {
    str_or(item, "itemStatus"@, "NONE"@)
}

/// A loot of category `category` (upper case) and store id `id` whose owned
/// collection is `coll` shows `OWNED` when `coll` holds `id`, else its own status.
pub open spec fn marks_by(item: Json, owned: OwnedCollections, category: Seq<char>, coll: Seq<i32>) -> bool {
    let id = i32_or(item, "storeItemId"@, 0);
    let cat = unicode_uppercase(str_or_empty(item, "displayCategories"@));
    (id > 0 && cat == category) ==> (if coll.contains(id) {
        loot_status(item, owned) == "OWNED"@
    } else {
        loot_status(item, owned) == own_status(item)
    })
}

/// Ownership marking: a skin is looked up among the owned skins, a summoner
/// icon among the owned icons, an emote among the owned emotes and a ward skin
/// among the owned ward skins; found, the loot shows `OWNED`, else its own
/// status. A loot without a positive store id, or of another category, always
/// shows its own status.
pub proof fn law_owned_marking(item: Json, owned: OwnedCollections)
    ensures
        marks_by(item, owned, "SKIN"@, owned.skins@),
        marks_by(item, owned, "SUMMONERICON"@, owned.icons@),
        marks_by(item, owned, "EMOTE"@, owned.emotes@),
        marks_by(item, owned, "WARDSKIN"@, owned.ward_skins@),
        ({
            let cat = unicode_uppercase(str_or_empty(item, "displayCategories"@));
            (i32_or(item, "storeItemId"@, 0) <= 0 || (cat != "SKIN"@ && cat != "SUMMONERICON"@ && cat
                != "EMOTE"@ && cat != "WARDSKIN"@)) ==> loot_status(item, owned) == own_status(item)
        }),
{
    reveal_strlit("SKIN");
    reveal_strlit("SUMMONERICON");
    reveal_strlit("EMOTE");
    reveal_strlit("WARDSKIN");
    assert("SKIN"@.len() == 4 && "EMOTE"@.len() == 5 && "WARDSKIN"@.len() == 8 && "SUMMONERICON"@.len() == 12);
}

/// The tile image of a loot: `tilePath`, else `imagePath`.
pub open spec fn loot_tile(item: Json) -> Option<Seq<char>> {
    match str_field(item, "tilePath"@) {
        Some(s) => Some(s),
        None => str_field(item, "imagePath"@),
    }
}

/// `d` is the inventory entry of the loot record `item`.
pub open spec fn loot_item_of(d: LootItem, item: Json, owned: OwnedCollections) -> bool {
    &&& d.loot_id@ == str_or_empty(item, "lootId"@)
    &&& d.loot_name@ == str_or_empty(item, "lootName"@)
    &&& d.item_desc@ == loot_desc(item)
    &&& d.display_categories@ == str_or_empty(item, "displayCategories"@)
    &&& d.loot_type@ == str_or_empty(item, "type"@)
    &&& d.rarity@ == str_or(item, "rarity"@, "DEFAULT"@)
    &&& d.count == i32_or(item, "count"@, 0)
    &&& d.value == i32_or(item, "value"@, 0)
    &&& d.disenchant_value == i32_or(item, "disenchantValue"@, 0)
    &&& d.item_status@ == loot_status(item, owned)
    &&& match d.tile_path {
        Some(t) => loot_tile(item) == Some(t@),
        None => loot_tile(item) is None,
    }
    &&& d.upgrade_recipe_name@ == str_or_empty(item, "upgradeRecipeName"@)
    &&& d.upgrade_essence_cost == i32_or(item, "upgradeEssenceValue"@, 0)
    &&& d.parent_item_status@ == str_or_empty(item, "parentItemStatus"@)
}

/// The listed loot records of `raw`, in order.
pub open spec fn listed_loots(raw: Seq<Json>) -> Seq<Json>
    decreases raw.len(),
{
    if raw.len() == 0 {
        Seq::empty()
    } else {
        let rest = listed_loots(raw.drop_last());
        if loot_listed(raw.last()) {
            rest.push(raw.last())
        } else {
            rest
        }
    }
}

fn str_member_or(j: &Json, key: &str, d: &str) -> (r: String)
    ensures
        r@ == str_or(*j, key@, d@),
{
    match j.str_at(key) {
        Some(s) => owned(s),
        None => owned(d),
    }
}

fn str_member(j: &Json, key: &str) -> (r: String)
    ensures
        r@ == str_or_empty(*j, key@),
{
    match j.str_at(key) {
        Some(s) => owned(s),
        None => String::new(),
    }
}

fn i32_member_or(j: &Json, key: &str, d: i32) -> (r: i32)
    ensures
        r == i32_or(*j, key@, d),
{
    match j.i64_at(key) {
        Some(n) => n as i32,
        None => d,
    }
}

fn non_empty_member<'a>(j: &'a Json, key: &str) -> (r: Option<&'a str>)
    ensures
        r matches Some(s) ==> non_empty_str(*j, key@) == Some(s@),
        r is None ==> non_empty_str(*j, key@) is None,
{
    match j.str_at(key) {
        Some(s) => if !s.is_empty() {
            Some(s)
        } else {
            None
        },
        None => None,
    }
}

/// Whether `v` holds `x`.
fn holds(v: &Vec<i32>, x: i32) -> (r: bool)
    ensures
        r == v@.contains(x),
{
    let mut k: usize = 0;
    while k < v.len()
        invariant
            k <= v.len(),
            forall|i: int| 0 <= i < k ==> v@[i] != x,
        decreases v.len() - k,
    {
        if v[k] == x {
            return true;
        }
        k = k + 1;
    }
    false
}

/// Cleans one loot record for the inventory; `None` for a loot that is not listed.
pub fn clean_loot_item(item: &Json, owned_ids: &OwnedCollections) -> (r: Option<LootItem>)
    ensures
        r is Some <==> loot_listed(*item),
        r matches Some(d) ==> loot_item_of(d, *item, *owned_ids),
{
    proof {
        reveal_strlit("");
    }
    let loot_id = str_member(item, "lootId");
    let id_trim = trim(loot_id.as_str());
    if id_trim.as_str().is_empty() || starts_with(to_uppercase(id_trim.as_str()).as_str(), "TFT") {
        return None;
    }
    let count = i32_member_or(item, "count", 0);
    if count <= 0 {
        return None;
    }
    let raw_desc = match non_empty_member(item, "localizedName") {
        Some(s) => owned(s),
        None => match non_empty_member(item, "itemDesc") {
            Some(s) => owned(s),
            None => loot_id.clone(),
        },
    };
    if trim(raw_desc.as_str()).as_str().is_empty() {
        return None;
    }
    let item_desc = if str_eq(raw_desc.as_str(), "MATERIAL_key_fragment") {
        owned("钥匙碎片")
    } else if str_eq(raw_desc.as_str(), "MATERIAL_key") {
        owned("海克斯科技钥匙")
    } else if str_eq(raw_desc.as_str(), "MATERIAL_key_premium") {
        owned("杰作钥匙")
    } else if eq_ignore_ascii_case(raw_desc.as_str(), "chest_128") {
        owned("英雄魔法引擎")
    } else if eq_ignore_ascii_case(raw_desc.as_str(), "chest_129") {
        owned("荣耀英雄魔法引擎")
    } else {
        raw_desc
    };
    let display_categories = str_member(item, "displayCategories");
    let store_item_id = i32_member_or(item, "storeItemId", 0);
    let display_upper = to_uppercase(display_categories.as_str());
    let du = display_upper.as_str();
    let is_owned = store_item_id > 0 && ((str_eq(du, "SKIN") && holds(&owned_ids.skins, store_item_id))
        || (str_eq(du, "SUMMONERICON") && holds(&owned_ids.icons, store_item_id)) || (str_eq(
        du,
        "EMOTE",
    ) && holds(&owned_ids.emotes, store_item_id)) || (str_eq(du, "WARDSKIN") && holds(
        &owned_ids.ward_skins,
        store_item_id,
    )));
    let item_status = if is_owned {
        owned("OWNED")
    } else {
        str_member_or(item, "itemStatus", "NONE")
    };
    let tile_path = match item.str_at("tilePath") {
        Some(s) => Some(owned(s)),
        None => match item.str_at("imagePath") {
            Some(s) => Some(owned(s)),
            None => None,
        },
    };
    Some(
        LootItem {
            loot_id,
            loot_name: str_member(item, "lootName"),
            item_desc,
            display_categories,
            loot_type: str_member(item, "type"),
            rarity: str_member_or(item, "rarity", "DEFAULT"),
            count,
            value: i32_member_or(item, "value", 0),
            disenchant_value: i32_member_or(item, "disenchantValue", 0),
            item_status,
            tile_path,
            upgrade_recipe_name: str_member(item, "upgradeRecipeName"),
            upgrade_essence_cost: i32_member_or(item, "upgradeEssenceValue", 0),
            parent_item_status: str_member(item, "parentItemStatus"),
        },
    )
}

/// The inventory: the listed loots of the player's loot list, cleaned, in order.
pub fn build_loot_inventory(raw_loots: &Vec<Json>, owned_ids: &OwnedCollections) -> (r: Vec<
    LootItem,
>)
    ensures
        r.len() == listed_loots(raw_loots@).len(),
        forall|i: int|
            0 <= i < r.len() ==> loot_item_of(
                #[trigger] r@[i],
                listed_loots(raw_loots@)[i],
                *owned_ids,
            ),
{
    let mut out: Vec<LootItem> = Vec::new();
    let mut k: usize = 0;
    while k < raw_loots.len()
        invariant
            k <= raw_loots.len(),
            out.len() == listed_loots(raw_loots@.take(k as int)).len(),
            forall|i: int|
                0 <= i < out.len() ==> loot_item_of(
                    #[trigger] out@[i],
                    listed_loots(raw_loots@.take(k as int))[i],
                    *owned_ids,
                ),
        decreases raw_loots.len() - k,
    {
        assert(raw_loots@.take(k + 1).drop_last() =~= raw_loots@.take(k as int));
        assert(raw_loots@.take(k + 1).last() == raw_loots@[k as int]);
        match clean_loot_item(&raw_loots[k], owned_ids) {
            Some(d) => {
                out.push(d);
            },
            None => {},
        }
        k = k + 1;
    }
    assert(raw_loots@.take(raw_loots.len() as int) =~= raw_loots@);
    out
}

/// The `count` of the last loot with id `id`, cast to `i32`; 0 when none.
pub open spec fn currency_count(raw: Seq<Json>, id: Seq<char>) -> i32
    decreases raw.len(),
{
    if raw.len() == 0 {
        0
    } else if str_field(raw.last(), "lootId"@) == Some(id) {
        i32_or(raw.last(), "count"@, 0)
    } else {
        currency_count(raw.drop_last(), id)
    }
}

/// The essence balances read from the player's loot list.
pub fn essence_balances(raw_loots: &Vec<Json>) -> (r: EssenceBalances)
    ensures
        r.blue_essence == currency_count(raw_loots@, "CURRENCY_champion"@),
        r.orange_essence == currency_count(raw_loots@, "CURRENCY_cosmetic"@),
{
    proof {
        reveal_strlit("CURRENCY_champion");
        reveal_strlit("CURRENCY_cosmetic");
        assert("CURRENCY_champion"@[10] != "CURRENCY_cosmetic"@[10]);
    }
    let mut blue_essence: i32 = 0;
    let mut orange_essence: i32 = 0;
    let mut k: usize = 0;
    while k < raw_loots.len()
        invariant
            k <= raw_loots.len(),
            blue_essence == currency_count(raw_loots@.take(k as int), "CURRENCY_champion"@),
            orange_essence == currency_count(raw_loots@.take(k as int), "CURRENCY_cosmetic"@),
            "CURRENCY_champion"@ != "CURRENCY_cosmetic"@,
        decreases raw_loots.len() - k,
    {
        assert(raw_loots@.take(k + 1).drop_last() =~= raw_loots@.take(k as int));
        assert(raw_loots@.take(k + 1).last() == raw_loots@[k as int]);
        let item = &raw_loots[k];
        match item.str_at("lootId") {
            Some(id) => {
                if str_eq(id, "CURRENCY_champion") {
                    blue_essence = i32_member_or(item, "count", 0);
                } else if str_eq(id, "CURRENCY_cosmetic") {
                    orange_essence = i32_member_or(item, "count", 0);
                }
            },
            None => {},
        }
        k = k + 1;
    }
    assert(raw_loots@.take(raw_loots.len() as int) =~= raw_loots@);
    EssenceBalances { blue_essence, orange_essence }
}

/// The id of an entry whose `ownership.owned` is true (skins, ward skins).
pub open spec fn owned_entry_id(e: Json) -> Option<i32> {
    match i64_field(e, "id"@) {
        Some(id) => match field(e, "ownership"@) {
            Some(o) => if unwrap_or(bool_field(o, "owned"@), false) {
                Some(wrap_i32(id))
            } else {
                None
            },
            None => None,
        },
        None => None,
    }
}

/// The id of an entry under `first`, else under `second`.
pub open spec fn either_id(e: Json, first: Seq<char>, second: Seq<char>) -> Option<i32> {
    match i64_field(e, first) {
        Some(id) => Some(wrap_i32(id)),
        None => match i64_field(e, second) {
            Some(id) => Some(wrap_i32(id)),
            None => None,
        },
    }
}

/// How the ids of a collection reply are read.
pub enum IdRule {
    /// `id`, when `ownership.owned` is true.
    Ownership,
    /// `id`, else `iconId`.
    IconId,
    /// `itemId`, else `id`.
    ItemId,
}

pub open spec fn rule_id(rule: IdRule, e: Json) -> Option<i32> {
    match rule {
        IdRule::Ownership => owned_entry_id(e),
        IdRule::IconId => either_id(e, "id"@, "iconId"@),
        IdRule::ItemId => either_id(e, "itemId"@, "id"@),
    }
}

/// The ids read from `entries` by `rule`, in order.
pub open spec fn ids_by_rule(rule: IdRule, entries: Seq<Json>) -> Seq<i32>
    decreases entries.len(),
{
    if entries.len() == 0 {
        Seq::empty()
    } else {
        let rest = ids_by_rule(rule, entries.drop_last());
        match rule_id(rule, entries.last()) {
            Some(id) => rest.push(id),
            None => rest,
        }
    }
}

fn rule_id_exec(rule: &IdRule, e: &Json) -> (r: Option<i32>)
    ensures
        r == rule_id(*rule, *e),
{
    match rule {
        IdRule::Ownership => match e.i64_at("id") {
            Some(id) => match e.get("ownership") {
                Some(o) => {
                    let yes = match o.bool_at("owned") {
                        Some(b) => b,
                        None => false,
                    };
                    if yes {
                        Some(id as i32)
                    } else {
                        None
                    }
                },
                None => None,
            },
            None => None,
        },
        IdRule::IconId => match e.i64_at("id") {
            Some(id) => Some(id as i32),
            None => match e.i64_at("iconId") {
                Some(id) => Some(id as i32),
                None => None,
            },
        },
        IdRule::ItemId => match e.i64_at("itemId") {
            Some(id) => Some(id as i32),
            None => match e.i64_at("id") {
                Some(id) => Some(id as i32),
                None => None,
            },
        },
    }
}

/// The ids read from `entries` by `rule`.
pub fn collect_ids(rule: IdRule, entries: &Vec<Json>) -> (r: Vec<i32>)
    ensures
        r@ == ids_by_rule(rule, entries@),
{
    let mut out: Vec<i32> = Vec::new();
    let mut k: usize = 0;
    while k < entries.len()
        invariant
            k <= entries.len(),
            out@ == ids_by_rule(rule, entries@.take(k as int)),
        decreases entries.len() - k,
    {
        assert(entries@.take(k + 1).drop_last() =~= entries@.take(k as int));
        assert(entries@.take(k + 1).last() == entries@[k as int]);
        match rule_id_exec(&rule, &entries[k]) {
            Some(id) => {
                out.push(id);
            },
            None => {},
        }
        k = k + 1;
    }
    assert(entries@.take(entries.len() as int) =~= entries@);
    out
}

/// The entries of a collection reply: the reply when it is an array, else its
/// `icons` array when `icons_member` holds, else none.
pub open spec fn reply_entries(reply: Json, icons_member: bool) -> Seq<Json> {
    match as_array(reply) {
        Some(a) => a,
        None => if icons_member {
            unwrap_or(crate::json::array_field(reply, "icons"@), Seq::empty())
        } else {
            Seq::empty()
        },
    }
}

/// The owned ids of a collection reply (skins and ward skins by ownership,
/// icons by `id`/`iconId`, also under an `icons` member, emotes by `itemId`/`id`).
pub fn owned_ids_from_reply(rule: IdRule, reply: &Json) -> (r: Vec<i32>)
    ensures
        r@ == ids_by_rule(rule, reply_entries(*reply, rule is IconId)),
{
    let icons_member = match rule {
        IdRule::IconId => true,
        _ => false,
    };
    match reply.as_array() {
        Some(a) => collect_ids(rule, a),
        None => if icons_member {
            match reply.array_at("icons") {
                Some(a) => collect_ids(rule, a),
                None => {
                    assert(ids_by_rule(rule, Seq::<Json>::empty()) =~= Seq::<i32>::empty());
                    Vec::new()
                },
            }
        } else {
            assert(ids_by_rule(rule, Seq::<Json>::empty()) =~= Seq::<i32>::empty());
            Vec::new()
        },
    }
}

} // verus!
