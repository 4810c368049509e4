//! Loot: opening priority, openable kinds, and crafting recipe selection.
use vstd::prelude::*;

use crate::json::{str_field, Json};
use crate::text::{
    ascii_lower_seq, ascii_lower_vec, ascii_upper_seq, ascii_upper_vec, chars_of, contains,
    eq_ignore_ascii_case, find_from, owned, seq_contains, str_eq,
};

verus! {

/// Opening order of a loot id (smaller first): plain chests, hextech chests, orbs,
/// capsules, everything else.
pub open spec fn spec_loot_priority(loot_id: Seq<char>) -> i32 {
    if seq_contains(loot_id, "CHEST"@) && !seq_contains(loot_id, "hextech"@) && !seq_contains(
        loot_id,
        "premium"@,
    ) {
        0
    } else if loot_id == "CHEST_hextech"@ || seq_contains(loot_id, "hextech"@) {
        1
    } else if seq_contains(loot_id, "ORB"@) || seq_contains(loot_id, "orb"@) {
        2
    } else if seq_contains(loot_id, "CAPSULE"@) || seq_contains(loot_id, "capsule"@) {
        3
    } else {
        4
    }
}

/// Opening priority of a loot id.
pub fn loot_priority(loot_id: &str) -> (r: i32)
    ensures
        r == spec_loot_priority(loot_id@),
{
    if contains(loot_id, "CHEST") && !contains(loot_id, "hextech") && !contains(loot_id, "premium") {
        0
    } else if str_eq(loot_id, "CHEST_hextech") || contains(loot_id, "hextech") {
        1
    } else if contains(loot_id, "ORB") || contains(loot_id, "orb") {
        2
    } else if contains(loot_id, "CAPSULE") || contains(loot_id, "capsule") {
        3
    } else {
        4
    }
}

/// The key fragment material, in any ASCII case.
pub fn is_key_fragment_loot_id(loot_id: &str) -> (r: bool)
    ensures
        r == (ascii_lower_seq(loot_id@) == ascii_lower_seq("MATERIAL_key_fragment"@)),
{
    eq_ignore_ascii_case(loot_id, "MATERIAL_key_fragment")
}

/// Loot that can be opened: chests, orbs and portals, ids naming an orb or chest,
/// and materials that are orbs, chests, capsules or key fragments.
pub open spec fn spec_is_openable_loot(loot_type: Seq<char>, loot_id: Seq<char>) -> bool {
    let t = ascii_upper_seq(loot_type);
    let id = ascii_upper_seq(loot_id);
    t == "CHEST"@ || t == "ORB"@ || t == "PORTAL"@ || seq_contains(id, "ORB"@) || seq_contains(
        id,
        "CHEST"@,
    ) || (t == "MATERIAL"@ && (seq_contains(id, "ORB"@) || seq_contains(id, "CHEST"@)
        || seq_contains(id, "CAPSULE"@) || ascii_lower_seq(loot_id) == ascii_lower_seq(
        "MATERIAL_key_fragment"@,
    )))
}

fn contains_vec(s: &[char], p: &str) -> (r: bool)
    ensures
        r == seq_contains(s@, p@),
{
    let pv = chars_of(p);
    let r = find_from(s, pv.as_slice(), 0);
    proof {
        crate::text::lemma_first_occurrence_from(s@, p@, 0);
    }
    r.is_some()
}

fn seq_is(s: &[char], p: &str) -> (r: bool)
    ensures
        r == (s@ == p@),
{
    let pv = chars_of(p);
    crate::text::seq_eq(s, pv.as_slice())
}

/// Whether a loot entry can be opened.
pub fn is_openable_loot(loot_type: &str, loot_id: &str) -> (r: bool)
    ensures
        r == spec_is_openable_loot(loot_type@, loot_id@),
{
    let t = ascii_upper_vec(chars_of(loot_type).as_slice());
    let id = ascii_upper_vec(chars_of(loot_id).as_slice());
    let t = t.as_slice();
    let id = id.as_slice();
    seq_is(t, "CHEST") || seq_is(t, "ORB") || seq_is(t, "PORTAL") || contains_vec(id, "ORB")
        || contains_vec(id, "CHEST") || (seq_is(t, "MATERIAL") && (contains_vec(id, "ORB")
        || contains_vec(id, "CHEST") || contains_vec(id, "CAPSULE") || is_key_fragment_loot_id(
        loot_id,
    )))
}

/// The `recipeName` of a recipe document.
pub open spec fn recipe_name_of(recipe: Json) -> Option<Seq<char>> {
    str_field(recipe, "recipeName"@)
}

/// The first recipe named `name`.
pub open spec fn spec_find_recipe_by_name(recipes: Seq<Json>, name: Seq<char>) -> Option<int>
    decreases recipes.len(),
{
    if recipes.len() == 0 {
        None
    } else {
        match spec_find_recipe_by_name(recipes.drop_last(), name) {
            Some(i) => Some(i),
            None => if recipe_name_of(recipes.last()) == Some(name) {
                Some(recipes.len() - 1)
            } else {
                None
            },
        }
    }
}

/// Position of the first recipe named `recipe_name`.
pub fn find_recipe_by_name(recipes: &[Json], recipe_name: &str) -> (r: Option<usize>)
    ensures
        r matches Some(i) ==> spec_find_recipe_by_name(recipes@, recipe_name@) == Some(i as int)
            && i < recipes@.len(),
        r is None ==> spec_find_recipe_by_name(recipes@, recipe_name@) is None,
{
    let mut i: usize = 0;
    while i < recipes.len()
        invariant
            i <= recipes.len(),
            spec_find_recipe_by_name(recipes@.take(i as int), recipe_name@) is None,
        decreases recipes.len() - i,
    {
        assert(recipes@.take(i + 1).drop_last() =~= recipes@.take(i as int));
        match recipes[i].str_at("recipeName") {
            Some(n) => {
                if str_eq(n, recipe_name) {
                    proof {
                        lemma_find_by_name_prefix(recipes@, recipe_name@, i + 1);
                    }
                    return Some(i);
                }
            },
            None => {},
        }
        i += 1;
    }
    assert(recipes@.take(recipes.len() as int) =~= recipes@);
    None
}

/// The recipe found by name lies within the list and has that name.
pub proof fn lemma_find_by_name_in_range(recipes: Seq<Json>, name: Option<Seq<char>>)
    ensures
        name matches Some(n) ==> (spec_find_recipe_by_name(recipes, n) matches Some(i) ==> 0 <= i
            < recipes.len() && recipe_name_of(recipes[i]) == Some(n)),
    decreases recipes.len(),
{
    if recipes.len() > 0 {
        lemma_find_by_name_in_range(recipes.drop_last(), name);
    }
}

proof fn lemma_find_by_name_prefix(recipes: Seq<Json>, name: Seq<char>, n: int)
    requires
        0 < n <= recipes.len(),
        spec_find_recipe_by_name(recipes.take(n), name) is Some,
    ensures
        spec_find_recipe_by_name(recipes, name) == spec_find_recipe_by_name(recipes.take(n), name),
    decreases recipes.len() - n,
{
    if n < recipes.len() {
        assert(recipes.take(n + 1).drop_last() =~= recipes.take(n));
        lemma_find_by_name_prefix(recipes, name, n + 1);
    } else {
        assert(recipes.take(n) =~= recipes);
    }
}

/// The recipe matches the keyword: its name, ASCII lower-cased, holds the keyword lower-cased.
pub open spec fn recipe_matches_keyword(recipe: Json, keyword: Seq<char>) -> bool {
    recipe_name_of(recipe) matches Some(n) && seq_contains(
        ascii_lower_seq(n),
        ascii_lower_seq(keyword),
    )
}

/// The first recipe matching `keyword`.
pub open spec fn first_matching(recipes: Seq<Json>, keyword: Seq<char>) -> Option<int>
    decreases recipes.len(),
{
    if recipes.len() == 0 {
        None
    } else {
        match first_matching(recipes.drop_last(), keyword) {
            Some(i) => Some(i),
            None => if recipe_matches_keyword(recipes.last(), keyword) {
                Some(recipes.len() - 1)
            } else {
                None
            },
        }
    }
}

/// Keywords are tried in order; the first recipe matching the first keyword that
/// matches any is chosen.
pub open spec fn spec_find_recipe_by_keywords(recipes: Seq<Json>, keywords: Seq<Seq<char>>) -> Option<
    int,
>
    decreases keywords.len(),
{
    if keywords.len() == 0 {
        None
    } else {
        match first_matching(recipes, keywords[0]) {
            Some(i) => Some(i),
            None => spec_find_recipe_by_keywords(recipes, keywords.drop_first()),
        }
    }
}

proof fn lemma_first_matching_prefix(recipes: Seq<Json>, kw: Seq<char>, n: int)
    requires
        0 < n <= recipes.len(),
        first_matching(recipes.take(n), kw) is Some,
    ensures
        first_matching(recipes, kw) == first_matching(recipes.take(n), kw),
    decreases recipes.len() - n,
{
    if n < recipes.len() {
        assert(recipes.take(n + 1).drop_last() =~= recipes.take(n));
        lemma_first_matching_prefix(recipes, kw, n + 1);
    } else {
        assert(recipes.take(n) =~= recipes);
    }
}

fn first_matching_exec(recipes: &[Json], keyword: &str) -> (r: Option<usize>)
    ensures
        r matches Some(i) ==> first_matching(recipes@, keyword@) == Some(i as int) && i < recipes@.len(),
        r is None ==> first_matching(recipes@, keyword@) is None,
{
    let kw = ascii_lower_vec(chars_of(keyword).as_slice());
    let mut i: usize = 0;
    while i < recipes.len()
        invariant
            i <= recipes.len(),
            kw@ == ascii_lower_seq(keyword@),
            first_matching(recipes@.take(i as int), keyword@) is None,
        decreases recipes.len() - i,
    {
        assert(recipes@.take(i + 1).drop_last() =~= recipes@.take(i as int));
        match recipes[i].str_at("recipeName") {
            Some(n) => {
                let nl = ascii_lower_vec(chars_of(n).as_slice());
                let found = find_from(nl.as_slice(), kw.as_slice(), 0);
                proof {
                    crate::text::lemma_first_occurrence_from(nl@, kw@, 0);
                }
                if found.is_some() {
                    proof {
                        lemma_first_matching_prefix(recipes@, keyword@, i + 1);
                    }
                    return Some(i);
                }
            },
            None => {},
        }
        i += 1;
    }
    assert(recipes@.take(recipes.len() as int) =~= recipes@);
    None
}

/// Position of the recipe chosen by keywords tried in order.
pub fn find_recipe_by_keywords(recipes: &[Json], keywords: &[&str]) -> (r: Option<usize>)
    ensures
        r matches Some(i) ==> spec_find_recipe_by_keywords(
            recipes@,
            keywords@.map_values(|k: &str| k@),
        ) == Some(i as int) && i < recipes@.len(),
        r is None ==> spec_find_recipe_by_keywords(recipes@, keywords@.map_values(|k: &str| k@)) is None,
{
    let ghost kws = keywords@.map_values(|k: &str| k@);
    let mut j: usize = 0;
    assert(kws.skip(0) =~= kws);
    while j < keywords.len()
        invariant
            j <= keywords.len(),
            kws == keywords@.map_values(|k: &str| k@),
            spec_find_recipe_by_keywords(recipes@, kws) == spec_find_recipe_by_keywords(
                recipes@,
                kws.skip(j as int),
            ),
        decreases keywords.len() - j,
    {
        assert(kws.skip(j as int)[0] == keywords@[j as int]@);
        assert(kws.skip(j as int).drop_first() =~= kws.skip(j + 1));
        match first_matching_exec(recipes, keywords[j]) {
            Some(i) => return Some(i),
            None => {},
        }
        j += 1;
    }
    None
}

/// A recipe's `recipeName`, which must be present and non-empty.
pub fn recipe_name(recipe: &Json) -> (r: Result<&str, String>)
    ensures
        r matches Ok(n) ==> recipe_name_of(*recipe) == Some(n@) && n@.len() > 0,
        r is Err <==> !(recipe_name_of(*recipe) matches Some(n) && n.len() > 0),
        r matches Err(e) ==> e@ == "配方缺少 recipeName 字段"@,
{
    match recipe.str_at("recipeName") {
        Some(n) => if !n.is_empty() {
            Ok(n)
        } else {
            Err(owned("配方缺少 recipeName 字段"))
        },
        None => Err(owned("配方缺少 recipeName 字段")),
    }
}

/// A loot that can be opened, with the key it needs.
pub struct OpenableLoot {
    pub loot_id: String,
    pub name: String,
    pub count: i32,
    pub recipe_name: String,
    pub need_key: bool,
    pub key_loot_id: Option<String>,
    pub key_count: i32,
    pub key_name: Option<String>,
    pub tile_path: Option<String>,
}

/// Progress of a batch of openings.
pub struct LootProgressEvent {
    pub current: i32,
    pub total: i32,
    pub success: bool,
    pub reward_name: String,
    pub error_msg: Option<String>,
    pub item_name: Option<String>,
}

/// One loot to open in a batch, with its recipe and ingredients.
pub struct OpenBatchItem {
    pub loot_id: String,
    pub name: String,
    pub count: i32,
    pub recipe_name: String,
    pub ingredients: Vec<String>,
}

} // verus!
