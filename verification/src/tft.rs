//! Teamfight Tactics: resource dictionaries and the cleaning of match records.
use vstd::prelude::*;

use crate::json::{
    as_array, as_i64, as_str, field, opt_array, opt_i64, opt_str, or_else, Json,
};
use crate::text::{
    str_eq, unicode_lowercase,
};

verus! {

/// One hextech augment of the TFT catalogue.
pub struct TftAugmentInfo {
    pub api_name: String,
    pub name: String,
    pub desc: String,
    pub icon_path: String,
    /// 1 silver, 2 gold, 3 prismatic.
    pub tier: i32,
}

/// The dictionaries that turn TFT api names into display names and icons.
/// Each is a list of `(key, value)` entries; a key is looked up by its first entry.
pub struct TftDataMapping {
    pub champions: Vec<(String, String)>,
    pub traits: Vec<(String, String)>,
    pub champion_icons: Vec<(String, String)>,
    pub trait_icons: Vec<(String, String)>,
    pub item_icons: Vec<(String, String)>,
    pub item_names: Vec<(String, String)>,
}

/// The value of the first entry whose key is `key`.
pub open spec fn lookup(entries: Seq<(String, String)>, key: Seq<char>) -> Option<Seq<char>>
    decreases entries.len(),
{
    if entries.len() == 0 {
        None
    } else if entries[0].0@ == key {
        Some(entries[0].1@)
    } else {
        lookup(entries.drop_first(), key)
    }
}

/// Lookup by the key as written, then by its lower-case form.
pub open spec fn lookup_ci(entries: Seq<(String, String)>, key: Seq<char>) -> Option<Seq<char>> {
    or_else(lookup(entries, key), lookup(entries, unicode_lowercase(key)))
}

/// `Option<&Json>` read as the value it points to.
pub open spec fn deref_json(o: Option<&Json>) -> Option<Json> {
    match o {
        Some(v) => Some(*v),
        None => None,
    }
}

/// The entry of `entries` whose key is `key`, if any (first match).
pub fn lookup_exec<'a>(entries: &'a Vec<(String, String)>, key: &str) -> (r: Option<&'a String>)
    ensures
        r matches Some(v) ==> lookup(entries@, key@) == Some(v@),
        r is None ==> lookup(entries@, key@) is None,
{
    let mut i: usize = 0;
    assert(entries@.skip(0) =~= entries@);
    while i < entries.len()
        invariant
            0 <= i <= entries.len(),
            lookup(entries@, key@) == lookup(entries@.skip(i as int), key@),
        decreases entries.len() - i,
    {
        assert(entries@.skip(i as int).drop_first() =~= entries@.skip(i + 1));
        assert(entries@.skip(i as int)[0] == entries@[i as int]);
        if str_eq(entries[i].0.as_str(), key) {
            return Some(&entries[i].1);
        }
        i = i + 1;
    }
    None
}

/// Lookup by `key`, then by its lower-case form `key_lower`.
pub fn lookup_ci_exec<'a>(entries: &'a Vec<(String, String)>, key: &str, key_lower: &str) -> (r:
    Option<&'a String>)
    requires
        key_lower@ == unicode_lowercase(key@),
    ensures
        r matches Some(v) ==> lookup_ci(entries@, key@) == Some(v@),
        r is None ==> lookup_ci(entries@, key@) is None,
{
    match lookup_exec(entries, key) {
        Some(v) => Some(v),
        None => lookup_exec(entries, key_lower),
    }
}

/// `a.or_else(|| j.get(key))`.
pub fn or_field<'a>(a: Option<&'a Json>, j: &'a Json, key: &str) -> (r: Option<&'a Json>)
    ensures
        deref_json(r) == or_else(deref_json(a), field(*j, key@)),
{
    match a {
        Some(v) => Some(v),
        None => j.get(key),
    }
}

/// `o.and_then(|v| v.as_i64())`.
pub fn opt_as_i64(o: Option<&Json>) -> (r: Option<i64>)
    ensures
        r == opt_i64(deref_json(o)),
{
    match o {
        Some(v) => v.as_i64(),
        None => None,
    }
}

/// `o.and_then(|v| v.as_str())`.
pub fn opt_as_str<'a>(o: Option<&'a Json>) -> (r: Option<&'a str>)
    ensures
        r matches Some(s) ==> opt_str(deref_json(o)) == Some(s@),
        r is None ==> opt_str(deref_json(o)) is None,
{
    match o {
        Some(v) => v.as_str(),
        None => None,
    }
}

/// `o.and_then(|v| v.as_array())`.
pub fn opt_as_array<'a>(o: Option<&'a Json>) -> (r: Option<&'a Vec<Json>>)
    ensures
        r matches Some(v) ==> opt_array(deref_json(o)) == Some(v@),
        r is None ==> opt_array(deref_json(o)) is None,
{
    match o {
        Some(v) => v.as_array(),
        None => None,
    }
}

} // verus!
