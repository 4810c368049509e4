//! The static game resources loaded from the client: icon paths by id.
use vstd::prelude::*;

use std::collections::HashMap;

verus! {

/// One arena augment.
pub struct CherryAugmentDetail {
    pub id: i32,
    pub name: String,
    pub icon_path: String,
}

/// Icon paths (and champion names) by id.
pub struct GameDataAssets {
    pub items: HashMap<i32, String>,
    pub spells: HashMap<i32, String>,
    pub runes: HashMap<i32, String>,
    pub champions: HashMap<i32, String>,
    pub augments: HashMap<i32, CherryAugmentDetail>,
}

/// The resources as the front end receives them.
pub struct GameDataAssetsDisplay {
    pub items: HashMap<i32, String>,
    pub spells: HashMap<i32, String>,
    pub runes: HashMap<i32, String>,
    pub augments: HashMap<i32, CherryAugmentDetail>,
}

impl GameDataAssets {
    /// Resources not loaded yet: every table empty.
    pub fn empty() -> (r: GameDataAssets)
        ensures
            r.items@ == Map::<i32, String>::empty(),
            r.spells@ == Map::<i32, String>::empty(),
            r.runes@ == Map::<i32, String>::empty(),
            r.champions@ == Map::<i32, String>::empty(),
            r.augments@ == Map::<i32, CherryAugmentDetail>::empty(),
    {
        GameDataAssets {
            items: HashMap::new(),
            spells: HashMap::new(),
            runes: HashMap::new(),
            champions: HashMap::new(),
            augments: HashMap::new(),
        }
    }
}

impl Default for GameDataAssets {
    fn default() -> (r: GameDataAssets)
        ensures
            r.items@ == Map::<i32, String>::empty(),
            r.spells@ == Map::<i32, String>::empty(),
            r.runes@ == Map::<i32, String>::empty(),
            r.champions@ == Map::<i32, String>::empty(),
            r.augments@ == Map::<i32, CherryAugmentDetail>::empty(),
    {
        GameDataAssets::empty()
    }
}

/// The path of `id` in `table`, empty when absent.
pub open spec fn path_or_empty(table: Map<i32, String>, id: i32) -> Seq<char> {
    if table.contains_key(id) {
        table[id]@
    } else {
        Seq::empty()
    }
}

/// The path of `id` in `table`, empty when absent.
pub fn lookup_path(table: &HashMap<i32, String>, id: i32) -> (r: String)
    ensures
        r@ == path_or_empty(table@, id),
{
    broadcast use vstd::std_specs::hash::group_hash_axioms;

    match table.get(&id) {
        Some(p) => p.clone(),
        None => String::new(),
    }
}

} // verus!
