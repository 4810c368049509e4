//! Building the TFT dictionaries from the catalogue, and the maps derived from
//! them for the front end.
use vstd::prelude::*;

use crate::icon_path::{
    convert_lcu_icon_path, convert_lcu_icon_path_to_cdragon, spec_convert_lcu_icon_path,
    spec_convert_lcu_icon_path_to_cdragon,
};
use crate::json::{array_field, as_str, field, or_else, str_field, unwrap_or, Json};
use crate::text::{
    chars_of, concat2, ends_with, is_suffix, last_index_of, owned, str_eq, string_of, sub_vec,
    to_lowercase, unicode_lowercase,
};
use crate::tft::{lookup, lookup_exec, TftDataMapping};
use crate::tft_augments::object_values;

verus! {

/// The value of the last entry for `key` among `events`.
pub open spec fn last_value(events: Seq<(Seq<char>, Seq<char>)>, key: Seq<char>) -> Option<Seq<char>>
    decreases events.len(),
{
    if events.len() == 0 {
        None
    } else if events.last().0 == key {
        Some(events.last().1)
    } else {
        last_value(events.drop_last(), key)
    }
}

/// The value of the first entry for `key` among `events`.
pub open spec fn first_value(events: Seq<(Seq<char>, Seq<char>)>, key: Seq<char>) -> Option<Seq<char>>
    decreases events.len(),
{
    if events.len() == 0 {
        None
    } else {
        match first_value(events.drop_last(), key) {
            Some(v) => Some(v),
            None => if events.last().0 == key {
                Some(events.last().1)
            } else {
                None
            },
        }
    }
}

/// The dictionary `d` holds, for every key, the last value `events` gave it.
pub open spec fn holds_last(d: Seq<(String, String)>, events: Seq<(Seq<char>, Seq<char>)>) -> bool {
    forall|k: Seq<char>| #[trigger] lookup(d, k) == last_value(events, k)
}

/// The dictionary `d` holds, for every key, the first value `events` gave it.
pub open spec fn holds_first(d: Seq<(String, String)>, events: Seq<(Seq<char>, Seq<char>)>) -> bool {
    forall|k: Seq<char>| #[trigger] lookup(d, k) == first_value(events, k)
}

proof fn lemma_lookup_push(s: Seq<(String, String)>, e: (String, String), k: Seq<char>)
    ensures
        lookup(s.push(e), k) == match lookup(s, k) {
            Some(v) => Some(v),
            None => if e.0@ == k {
                Some(e.1@)
            } else {
                None
            },
        },
    decreases s.len(),
{
    let t = s.push(e);
    if s.len() > 0 {
        assert(t[0] == s[0]);
        assert(t.drop_first() =~= s.drop_first().push(e));
        lemma_lookup_push(s.drop_first(), e, k);
        if s[0].0@ == k {
            assert(lookup(t, k) == Some(s[0].1@));
            assert(lookup(s, k) == Some(s[0].1@));
        } else {
            assert(lookup(t, k) == lookup(t.drop_first(), k));
            assert(lookup(s, k) == lookup(s.drop_first(), k));
        }
    } else {
        assert(t[0] == e);
        assert(t.drop_first() =~= Seq::<(String, String)>::empty());
        assert(lookup(Seq::<(String, String)>::empty(), k) is None);
        assert(lookup(s, k) is None);
        if e.0@ == k {
            assert(lookup(t, k) == Some(e.1@));
        } else {
            assert(lookup(t, k) == lookup(t.drop_first(), k));
        }
    }
}

proof fn lemma_lookup_update(s: Seq<(String, String)>, i: int, e: (String, String), k: Seq<char>)
    requires
        0 <= i < s.len(),
        s[i].0@ == e.0@,
        forall|j: int| 0 <= j < i ==> (#[trigger] s[j]).0@ != e.0@,
    ensures
        lookup(s.update(i, e), k) == if k == e.0@ {
            Some(e.1@)
        } else {
            lookup(s, k)
        },
    decreases i,
{
    if i == 0 {
        assert(s.update(0, e).drop_first() =~= s.drop_first());
    } else {
        assert(s[0].0@ != e.0@);
        assert(s.update(i, e).drop_first() =~= s.drop_first().update(i - 1, e));
        assert forall|j: int| 0 <= j < i - 1 implies (#[trigger] s.drop_first()[j]).0@ != e.0@ by {
            assert(s.drop_first()[j] == s[j + 1]);
        }
        lemma_lookup_update(s.drop_first(), i - 1, e, k);
    }
}

proof fn lemma_lookup_absent(s: Seq<(String, String)>, k: Seq<char>)
    requires
        forall|j: int| 0 <= j < s.len() ==> (#[trigger] s[j]).0@ != k,
    ensures
        lookup(s, k) is None,
    decreases s.len(),
{
    if s.len() > 0 {
        assert forall|j: int| 0 <= j < s.len() - 1 implies (#[trigger] s.drop_first()[j]).0@ != k by {
            assert(s.drop_first()[j] == s[j + 1]);
        }
        lemma_lookup_absent(s.drop_first(), k);
    }
}

/// Sets `key` to `value`: the entry for `key` is replaced, or added at the end.
pub fn dict_insert(d: &mut Vec<(String, String)>, key: &str, value: &str)
    ensures
        forall|k: Seq<char>|
            #[trigger] lookup(final(d)@, k) == if k == key@ {
                Some(value@)
            } else {
                lookup(old(d)@, k)
            },
{
    let mut i: usize = 0;
    while i < d.len()
        invariant
            i <= d.len(),
            d@ == old(d)@,
            forall|j: int| 0 <= j < i ==> (#[trigger] d@[j]).0@ != key@,
        decreases d.len() - i,
    {
        if str_eq(d[i].0.as_str(), key) {
            let e = (owned(key), owned(value));
            proof {
                assert forall|k: Seq<char>| #[trigger] lookup(d@.update(i as int, e), k) == if k == key@ {
                    Some(value@)
                } else {
                    lookup(d@, k)
                } by {
                    lemma_lookup_update(d@, i as int, e, k);
                }
            }
            d.set(i, e);
            return;
        }
        i = i + 1;
    }
    let e = (owned(key), owned(value));
    proof {
        lemma_lookup_absent(d@, key@);
        assert forall|k: Seq<char>| #[trigger] lookup(d@.push(e), k) == if k == key@ {
            Some(value@)
        } else {
            lookup(d@, k)
        } by {
            lemma_lookup_push(d@, e, k);
        }
    }
    d.push(e);
}

/// Adds `key` with `value` unless `key` is already present.
pub fn dict_insert_absent(d: &mut Vec<(String, String)>, key: &str, value: &str)
    ensures
        forall|k: Seq<char>|
            #[trigger] lookup(final(d)@, k) == match lookup(old(d)@, k) {
                Some(v) => Some(v),
                None => if k == key@ {
                    Some(value@)
                } else {
                    None
                },
            },
{
    if lookup_exec(d, key).is_none() {
        let e = (owned(key), owned(value));
        proof {
            assert forall|k: Seq<char>| #[trigger] lookup(d@.push(e), k) == match lookup(d@, k) {
                Some(v) => Some(v),
                None => if k == key@ {
                    Some(value@)
                } else {
                    None
                },
            } by {
                lemma_lookup_push(d@, e, k);
            }
        }
        d.push(e);
    }
}

/// The two entries made for an api name: as written, and lower-cased.
pub open spec fn pair(api: Seq<char>, value: Seq<char>) -> Seq<(Seq<char>, Seq<char>)> {
    seq![(api, value), (unicode_lowercase(api), value)]
}

/// Sets both forms of `api` (given with its lower-cased form) to `value`.
fn insert_pair(d: &mut Vec<(String, String)>, api: &str, lower: &str, value: &str, Ghost(ev): Ghost<Seq<(Seq<char>, Seq<char>)>>)
    requires
        lower@ == unicode_lowercase(api@),
        holds_last(old(d)@, ev),
    ensures
        holds_last(final(d)@, ev + pair(api@, value@)),
{
    let ghost d0 = d@;
    dict_insert(d, api, value);
    let ghost d1 = d@;
    dict_insert(d, lower, value);
    assert forall|k: Seq<char>| #[trigger] lookup(d@, k) == last_value(ev + pair(api@, value@), k) by {
        let e2 = ev + pair(api@, value@);
        let e1 = ev.push((api@, value@));
        assert(e2.last() == (lower@, value@));
        assert(e2.drop_last() =~= e1);
        assert(e1.last() == (api@, value@));
        assert(e1.drop_last() =~= ev);
        assert(lookup(d1, k) == if k == api@ { Some(value@) } else { lookup(d0, k) });
        assert(lookup(d0, k) == last_value(ev, k));
        assert(last_value(e1, k) == if k == api@ { Some(value@) } else { last_value(ev, k) });
        assert(last_value(e2, k) == if k == lower@ { Some(value@) } else { last_value(e1, k) });
    }
}

/// The string under `a`, or under `b` when `a` is absent, if it is a string.
pub open spec fn first_str2(j: Json, a: Seq<char>, b: Seq<char>) -> Option<Seq<char>> {
    match or_else(field(j, a), field(j, b)) {
        Some(v) => as_str(v),
        None => None,
    }
}

/// A champion or trait record: its name under both forms of its api name.
pub open spec fn name_events(c: Json) -> Seq<(Seq<char>, Seq<char>)> {
    match str_field(c, "apiName"@) {
        Some(api) => pair(api, unwrap_or(str_field(c, "name"@), Seq::empty())),
        None => Seq::empty(),
    }
}

/// A champion record: its converted icon (square icon, else icon) under both
/// forms of its api name, when it has a non-empty one.
pub open spec fn champion_icon_events(c: Json) -> Seq<(Seq<char>, Seq<char>)> {
    let icon = unwrap_or(first_str2(c, "squareIcon"@, "icon"@), Seq::empty());
    match str_field(c, "apiName"@) {
        Some(api) => if icon.len() > 0 {
            pair(api, spec_convert_lcu_icon_path(icon))
        } else {
            Seq::empty()
        },
        None => Seq::empty(),
    }
}

/// A trait record: its converted icon under both forms of its api name, when
/// it has a non-empty one.
pub open spec fn trait_icon_events(t: Json) -> Seq<(Seq<char>, Seq<char>)> {
    let icon = unwrap_or(str_field(t, "icon"@), Seq::empty());
    match str_field(t, "apiName"@) {
        Some(api) => if icon.len() > 0 {
            pair(api, spec_convert_lcu_icon_path(icon))
        } else {
            Seq::empty()
        },
        None => Seq::empty(),
    }
}

/// An item record: its name under both forms of its api name, when it has one.
pub open spec fn item_name_events(i: Json) -> Seq<(Seq<char>, Seq<char>)> {
    match (str_field(i, "apiName"@), str_field(i, "name"@)) {
        (Some(api), Some(n)) => pair(api, n),
        _ => Seq::empty(),
    }
}

/// An item record: its converted icon under both forms of its api name, when it
/// has an icon string.
pub open spec fn item_icon_events(i: Json) -> Seq<(Seq<char>, Seq<char>)> {
    match (str_field(i, "apiName"@), str_field(i, "icon"@)) {
        (Some(api), Some(ic)) => pair(api, spec_convert_lcu_icon_path(ic)),
        _ => Seq::empty(),
    }
}

/// Which entries a record makes.
pub enum EntryKind {
    Name,
    ChampionIcon,
    TraitIcon,
    ItemName,
    ItemIcon,
}

/// The entries a record makes for one dictionary.
pub open spec fn entries_of(kind: EntryKind, j: Json) -> Seq<(Seq<char>, Seq<char>)> {
    match kind {
        EntryKind::Name => name_events(j),
        EntryKind::ChampionIcon => champion_icon_events(j),
        EntryKind::TraitIcon => trait_icon_events(j),
        EntryKind::ItemName => item_name_events(j),
        EntryKind::ItemIcon => item_icon_events(j),
    }
}

/// The entries a list of records makes, in order.
pub open spec fn fold_events(recs: Seq<Json>, f: EntryKind) -> Seq<(Seq<char>, Seq<char>)>
    decreases recs.len(),
{
    if recs.len() == 0 {
        Seq::empty()
    } else {
        fold_events(recs.drop_last(), f) + entries_of(f, recs.last())
    }
}

/// The records under `key` of a set (none when absent).
pub open spec fn records(set_obj: Json, key: Seq<char>) -> Seq<Json> {
    unwrap_or(array_field(set_obj, key), Seq::empty())
}

/// The sets of the catalogue: those of `setData`, then the values of `sets`.
pub open spec fn catalogue_sets(root: Json) -> Seq<Json> {
    records(root, "setData"@) + match field(root, "sets"@) {
        Some(s) => object_values(s),
        None => Seq::empty(),
    }
}

/// The events made for one dictionary by the records under `key` of every set.
pub open spec fn sets_events(sets: Seq<Json>, key: Seq<char>, f: EntryKind) -> Seq<(Seq<char>, Seq<char>)>
    decreases sets.len(),
{
    if sets.len() == 0 {
        Seq::empty()
    } else {
        sets_events(sets.drop_last(), key, f) + fold_events(records(sets.last(), key), f)
    }
}

/// The top-level item records: the items, then the augments.
pub open spec fn catalogue_items(root: Json) -> Seq<Json> {
    records(root, "items"@) + records(root, "augments"@)
}

/// `m` holds the dictionaries of the catalogue `root`: for every key, the
/// value of the last record that named it.
pub open spec fn mapping_of(m: TftDataMapping, root: Json) -> bool {
    let sets = catalogue_sets(root);
    let items = catalogue_items(root);
    &&& holds_last(m.champions@, sets_events(sets, "champions"@, EntryKind::Name))
    &&& holds_last(m.champion_icons@, sets_events(sets, "champions"@, EntryKind::ChampionIcon))
    &&& holds_last(m.traits@, sets_events(sets, "traits"@, EntryKind::Name))
    &&& holds_last(m.trait_icons@, sets_events(sets, "traits"@, EntryKind::TraitIcon))
    &&& holds_last(m.item_names@, fold_events(items, EntryKind::ItemName))
    &&& holds_last(m.item_icons@, fold_events(items, EntryKind::ItemIcon))
}

/// The dictionaries before any record: all empty.
pub fn empty_mapping() -> (m: TftDataMapping)
    ensures
        m.champions@.len() == 0,
        m.traits@.len() == 0,
        m.champion_icons@.len() == 0,
        m.trait_icons@.len() == 0,
        m.item_icons@.len() == 0,
        m.item_names@.len() == 0,
{
    TftDataMapping {
        champions: Vec::new(),
        traits: Vec::new(),
        champion_icons: Vec::new(),
        trait_icons: Vec::new(),
        item_icons: Vec::new(),
        item_names: Vec::new(),
    }
}

/// The string under `a`, or under `b` when `a` is absent, if it is a string.
fn first_str2_exec<'a>(j: &'a Json, a: &str, b: &str) -> (r: Option<&'a str>)
    ensures
        match r {
            Some(s) => first_str2(*j, a@, b@) == Some(s@),
            None => first_str2(*j, a@, b@) is None,
        },
{
    let v = match j.get(a) {
        Some(v) => Some(v),
        None => j.get(b),
    };
    match v {
        Some(v) => v.as_str(),
        None => None,
    }
}

/// Adds the champion records of one set.
fn add_champions(
    champs: &Vec<Json>,
    names: &mut Vec<(String, String)>,
    icons: &mut Vec<(String, String)>,
    Ghost(ev_n): Ghost<Seq<(Seq<char>, Seq<char>)>>,
    Ghost(ev_i): Ghost<Seq<(Seq<char>, Seq<char>)>>,
)
    requires
        holds_last(old(names)@, ev_n),
        holds_last(old(icons)@, ev_i),
    ensures
        holds_last(final(names)@, ev_n + fold_events(champs@, EntryKind::Name)),
        holds_last(final(icons)@, ev_i + fold_events(champs@, EntryKind::ChampionIcon)),
{
    let ghost fname = EntryKind::Name;
    let ghost ficon = EntryKind::ChampionIcon;
    let mut k: usize = 0;
    assert(ev_n + fold_events(champs@.take(0), fname) =~= ev_n);
    assert(ev_i + fold_events(champs@.take(0), ficon) =~= ev_i);
    while k < champs.len()
        invariant
            k <= champs.len(),
            fname == EntryKind::Name,
            ficon == EntryKind::ChampionIcon,
            holds_last(names@, ev_n + fold_events(champs@.take(k as int), fname)),
            holds_last(icons@, ev_i + fold_events(champs@.take(k as int), ficon)),
        decreases champs.len() - k,
    {
        let c = &champs[k];
        let ghost pn = ev_n + fold_events(champs@.take(k as int), fname);
        let ghost pi = ev_i + fold_events(champs@.take(k as int), ficon);
        assert(champs@.take(k + 1).drop_last() =~= champs@.take(k as int));
        assert(champs@.take(k + 1).last() == *c);
        assert(fold_events(champs@.take(k + 1), fname) == fold_events(champs@.take(k as int), fname) + entries_of(fname, *c));
        assert(fold_events(champs@.take(k + 1), ficon) == fold_events(champs@.take(k as int), ficon) + entries_of(ficon, *c));
        assert(ev_n + fold_events(champs@.take(k + 1), fname) =~= pn + name_events(*c));
        assert(ev_i + fold_events(champs@.take(k + 1), ficon) =~= pi + champion_icon_events(*c));
        match c.str_at("apiName") {
            Some(api) => {
                let name = crate::json::str_or_empty(c.str_at("name"));
                let icon = crate::json::str_or_empty(first_str2_exec(c, "squareIcon", "icon"));
                let lower = to_lowercase(api);
                insert_pair(names, api, lower.as_str(), name, Ghost(pn));
                if !icon.is_empty() {
                    let conv = convert_lcu_icon_path(icon);
                    insert_pair(icons, api, lower.as_str(), conv.as_str(), Ghost(pi));
                } else {
                    assert(pi + champion_icon_events(*c) =~= pi);
                }
            },
            None => {
                assert(pn + name_events(*c) =~= pn);
                assert(pi + champion_icon_events(*c) =~= pi);
            },
        }
        k = k + 1;
    }
    assert(champs@.take(champs.len() as int) =~= champs@);
}

/// Adds the trait records of one set.
fn add_traits(
    traits: &Vec<Json>,
    names: &mut Vec<(String, String)>,
    icons: &mut Vec<(String, String)>,
    Ghost(ev_n): Ghost<Seq<(Seq<char>, Seq<char>)>>,
    Ghost(ev_i): Ghost<Seq<(Seq<char>, Seq<char>)>>,
)
    requires
        holds_last(old(names)@, ev_n),
        holds_last(old(icons)@, ev_i),
    ensures
        holds_last(final(names)@, ev_n + fold_events(traits@, EntryKind::Name)),
        holds_last(final(icons)@, ev_i + fold_events(traits@, EntryKind::TraitIcon)),
{
    let ghost fname = EntryKind::Name;
    let ghost ficon = EntryKind::TraitIcon;
    let mut k: usize = 0;
    assert(ev_n + fold_events(traits@.take(0), fname) =~= ev_n);
    assert(ev_i + fold_events(traits@.take(0), ficon) =~= ev_i);
    while k < traits.len()
        invariant
            k <= traits.len(),
            fname == EntryKind::Name,
            ficon == EntryKind::TraitIcon,
            holds_last(names@, ev_n + fold_events(traits@.take(k as int), fname)),
            holds_last(icons@, ev_i + fold_events(traits@.take(k as int), ficon)),
        decreases traits.len() - k,
    {
        let t = &traits[k];
        let ghost pn = ev_n + fold_events(traits@.take(k as int), fname);
        let ghost pi = ev_i + fold_events(traits@.take(k as int), ficon);
        assert(traits@.take(k + 1).drop_last() =~= traits@.take(k as int));
        assert(traits@.take(k + 1).last() == *t);
        assert(fold_events(traits@.take(k + 1), fname) == fold_events(traits@.take(k as int), fname) + entries_of(fname, *t));
        assert(fold_events(traits@.take(k + 1), ficon) == fold_events(traits@.take(k as int), ficon) + entries_of(ficon, *t));
        assert(ev_n + fold_events(traits@.take(k + 1), fname) =~= pn + name_events(*t));
        assert(ev_i + fold_events(traits@.take(k + 1), ficon) =~= pi + trait_icon_events(*t));
        match t.str_at("apiName") {
            Some(api) => {
                let name = crate::json::str_or_empty(t.str_at("name"));
                let icon = crate::json::str_or_empty(t.str_at("icon"));
                let lower = to_lowercase(api);
                insert_pair(names, api, lower.as_str(), name, Ghost(pn));
                if !icon.is_empty() {
                    let conv = convert_lcu_icon_path(icon);
                    insert_pair(icons, api, lower.as_str(), conv.as_str(), Ghost(pi));
                } else {
                    assert(pi + trait_icon_events(*t) =~= pi);
                }
            },
            None => {
                assert(pn + name_events(*t) =~= pn);
                assert(pi + trait_icon_events(*t) =~= pi);
            },
        }
        k = k + 1;
    }
    assert(traits@.take(traits.len() as int) =~= traits@);
}

/// Adds item records (items or augments of the catalogue's top level).
fn add_items(
    items: &Vec<Json>,
    names: &mut Vec<(String, String)>,
    icons: &mut Vec<(String, String)>,
    Ghost(ev_n): Ghost<Seq<(Seq<char>, Seq<char>)>>,
    Ghost(ev_i): Ghost<Seq<(Seq<char>, Seq<char>)>>,
)
    requires
        holds_last(old(names)@, ev_n),
        holds_last(old(icons)@, ev_i),
    ensures
        holds_last(final(names)@, ev_n + fold_events(items@, EntryKind::ItemName)),
        holds_last(final(icons)@, ev_i + fold_events(items@, EntryKind::ItemIcon)),
{
    let ghost fname = EntryKind::ItemName;
    let ghost ficon = EntryKind::ItemIcon;
    let mut k: usize = 0;
    assert(ev_n + fold_events(items@.take(0), fname) =~= ev_n);
    assert(ev_i + fold_events(items@.take(0), ficon) =~= ev_i);
    while k < items.len()
        invariant
            k <= items.len(),
            fname == EntryKind::ItemName,
            ficon == EntryKind::ItemIcon,
            holds_last(names@, ev_n + fold_events(items@.take(k as int), fname)),
            holds_last(icons@, ev_i + fold_events(items@.take(k as int), ficon)),
        decreases items.len() - k,
    {
        let it = &items[k];
        let ghost pn = ev_n + fold_events(items@.take(k as int), fname);
        let ghost pi = ev_i + fold_events(items@.take(k as int), ficon);
        assert(items@.take(k + 1).drop_last() =~= items@.take(k as int));
        assert(items@.take(k + 1).last() == *it);
        assert(fold_events(items@.take(k + 1), fname) == fold_events(items@.take(k as int), fname) + entries_of(fname, *it));
        assert(fold_events(items@.take(k + 1), ficon) == fold_events(items@.take(k as int), ficon) + entries_of(ficon, *it));
        assert(ev_n + fold_events(items@.take(k + 1), fname) =~= pn + item_name_events(*it));
        assert(ev_i + fold_events(items@.take(k + 1), ficon) =~= pi + item_icon_events(*it));
        match it.str_at("apiName") {
            Some(api) => {
                let lower = to_lowercase(api);
                match it.str_at("name") {
                    Some(n) => insert_pair(names, api, lower.as_str(), n, Ghost(pn)),
                    None => {
                        assert(pn + item_name_events(*it) =~= pn);
                    },
                }
                match it.str_at("icon") {
                    Some(ic) => {
                        let conv = convert_lcu_icon_path(ic);
                        insert_pair(icons, api, lower.as_str(), conv.as_str(), Ghost(pi));
                    },
                    None => {
                        assert(pi + item_icon_events(*it) =~= pi);
                    },
                }
            },
            None => {
                assert(pn + item_name_events(*it) =~= pn);
                assert(pi + item_icon_events(*it) =~= pi);
            },
        }
        k = k + 1;
    }
    assert(items@.take(items.len() as int) =~= items@);
}

/// The records under `key`, or none.
fn records_exec<'a>(j: &'a Json, key: &str, empty: &'a Vec<Json>) -> (r: &'a Vec<Json>)
    requires
        empty@.len() == 0,
    ensures
        r@ == records(*j, key@),
{
    match j.array_at(key) {
        Some(a) => a,
        None => {
            assert(empty@ =~= Seq::<Json>::empty());
            empty
        },
    }
}

/// Adds the champions and traits of the sets `sets`.
fn add_sets(
    sets: &Vec<&Json>,
    m: &mut TftDataMapping,
    Ghost(base): Ghost<Seq<Json>>,
)
    requires
        holds_last(old(m).champions@, sets_events(base, "champions"@, EntryKind::Name)),
        holds_last(old(m).champion_icons@, sets_events(base, "champions"@, EntryKind::ChampionIcon)),
        holds_last(old(m).traits@, sets_events(base, "traits"@, EntryKind::Name)),
        holds_last(old(m).trait_icons@, sets_events(base, "traits"@, EntryKind::TraitIcon)),
    ensures
        ({
            let all = base + sets@.map_values(|j: &Json| *j);
            &&& holds_last(final(m).champions@, sets_events(all, "champions"@, EntryKind::Name))
            &&& holds_last(final(m).champion_icons@, sets_events(all, "champions"@, EntryKind::ChampionIcon))
            &&& holds_last(final(m).traits@, sets_events(all, "traits"@, EntryKind::Name))
            &&& holds_last(final(m).trait_icons@, sets_events(all, "traits"@, EntryKind::TraitIcon))
        }),
        final(m).item_names == old(m).item_names,
        final(m).item_icons == old(m).item_icons,
{
    let ghost s = sets@.map_values(|j: &Json| *j);
    let ghost f1 = EntryKind::Name;
    let ghost f2 = EntryKind::ChampionIcon;
    let ghost f3 = EntryKind::Name;
    let ghost f4 = EntryKind::TraitIcon;
    let empty: Vec<Json> = Vec::new();
    let mut k: usize = 0;
    assert(base + s.take(0) =~= base);
    while k < sets.len()
        invariant
            k <= sets.len(),
            s == sets@.map_values(|j: &Json| *j),
            empty@.len() == 0,
            f1 == EntryKind::Name,
            f2 == EntryKind::ChampionIcon,
            f3 == EntryKind::Name,
            f4 == EntryKind::TraitIcon,
            holds_last(m.champions@, sets_events(base + s.take(k as int), "champions"@, f1)),
            holds_last(m.champion_icons@, sets_events(base + s.take(k as int), "champions"@, f2)),
            holds_last(m.traits@, sets_events(base + s.take(k as int), "traits"@, f3)),
            holds_last(m.trait_icons@, sets_events(base + s.take(k as int), "traits"@, f4)),
            m.item_names == old(m).item_names,
            m.item_icons == old(m).item_icons,
        decreases sets.len() - k,
    {
        let set_obj = sets[k];
        let ghost prev = base + s.take(k as int);
        let ghost next = base + s.take(k + 1);
        assert(next.drop_last() =~= prev);
        assert(next.last() == *set_obj);
        let champs = records_exec(set_obj, "champions", &empty);
        let traits = records_exec(set_obj, "traits", &empty);
        add_champions(
            champs,
            &mut m.champions,
            &mut m.champion_icons,
            Ghost(sets_events(prev, "champions"@, f1)),
            Ghost(sets_events(prev, "champions"@, f2)),
        );
        add_traits(
            traits,
            &mut m.traits,
            &mut m.trait_icons,
            Ghost(sets_events(prev, "traits"@, f3)),
            Ghost(sets_events(prev, "traits"@, f4)),
        );
        k = k + 1;
    }
    assert(base + s.take(sets.len() as int) =~= base + s);
}

/// The dictionaries of the TFT catalogue `root`: names and icons of champions
/// and traits from every set (of `setData`, then of `sets`), names and icons of
/// the top-level items and augments, each under its api name as written and
/// lower-cased; a later record overrides an earlier one with the same key.
pub fn parse_tft_data_from_value(root: &Json) -> (m: TftDataMapping)
    ensures
        mapping_of(m, *root),
{
    let mut m = empty_mapping();
    let mut sets: Vec<&Json> = Vec::new();
    let empty: Vec<Json> = Vec::new();
    let set_data = records_exec(root, "setData", &empty);
    let mut k: usize = 0;
    while k < set_data.len()
        invariant
            k <= set_data.len(),
            sets@.map_values(|j: &Json| *j) =~= set_data@.take(k as int),
        decreases set_data.len() - k,
    {
        let ghost before = sets@;
        sets.push(&set_data[k]);
        assert(sets@.map_values(|j: &Json| *j) =~= before.map_values(|j: &Json| *j).push(set_data@[k as int]));
        assert(set_data@.take(k + 1) =~= set_data@.take(k as int).push(set_data@[k as int]));
        k = k + 1;
    }
    assert(set_data@.take(set_data.len() as int) =~= set_data@);
    match root.get("sets") {
        Some(obj) => match obj {
            Json::Object(fields) => {
                let mut i: usize = 0;
                let ghost vals = fields@.map_values(|f: (String, Json)| f.1);
                while i < fields.len()
                    invariant
                        i <= fields.len(),
                        vals == fields@.map_values(|f: (String, Json)| f.1),
                        sets@.map_values(|j: &Json| *j) =~= set_data@ + vals.take(i as int),
                    decreases fields.len() - i,
                {
                    let ghost before = sets@;
                    sets.push(&fields[i].1);
                    assert(sets@.map_values(|j: &Json| *j) =~= before.map_values(|j: &Json| *j).push(vals[i as int]));
                    assert(vals.take(i + 1) =~= vals.take(i as int).push(vals[i as int]));
                    i = i + 1;
                }
                assert(vals.take(fields.len() as int) =~= vals);
            },
            _ => {},
        },
        None => {},
    }
    assert(sets@.map_values(|j: &Json| *j) =~= catalogue_sets(*root));
    let ghost nothing = Seq::<Json>::empty();
    assert(nothing + sets@.map_values(|j: &Json| *j) =~= catalogue_sets(*root));
    add_sets(&sets, &mut m, Ghost(nothing));
    let items = records_exec(root, "items", &empty);
    let augments = records_exec(root, "augments", &empty);
    let ghost fname = EntryKind::ItemName;
    let ghost ficon = EntryKind::ItemIcon;
    add_items(items, &mut m.item_names, &mut m.item_icons, Ghost(Seq::empty()), Ghost(Seq::empty()));
    add_items(
        augments,
        &mut m.item_names,
        &mut m.item_icons,
        Ghost(Seq::empty() + fold_events(items@, fname)),
        Ghost(Seq::empty() + fold_events(items@, ficon)),
    );
    proof {
        lemma_fold_concat(items@, augments@, fname);
        lemma_fold_concat(items@, augments@, ficon);
        assert(Seq::<(Seq<char>, Seq<char>)>::empty() + fold_events(items@, fname) =~= fold_events(items@, fname));
        assert(Seq::<(Seq<char>, Seq<char>)>::empty() + fold_events(items@, ficon) =~= fold_events(items@, ficon));
    }
    m
}

/// The events of two lists of records are those of each, in turn.
pub proof fn lemma_fold_concat(a: Seq<Json>, b: Seq<Json>, f: EntryKind)
    ensures
        fold_events(a + b, f) == fold_events(a, f) + fold_events(b, f),
    decreases b.len(),
{
    if b.len() == 0 {
        assert(a + b =~= a);
        assert(fold_events(a, f) + fold_events(b, f) =~= fold_events(a, f));
    } else {
        assert((a + b).drop_last() =~= a + b.drop_last());
        assert((a + b).last() == b.last());
        lemma_fold_concat(a, b.drop_last(), f);
        assert(fold_events(a, f) + fold_events(b, f) =~= fold_events(a, f) + fold_events(b.drop_last(), f) + entries_of(f, b.last()));
    }
}

/// The part of `s` after its last `_` (all of `s` without one).
pub open spec fn last_seg(s: Seq<char>) -> Seq<char> {
    match last_index_of(s, '_') {
        Some(i) => s.skip(i + 1),
        None => s,
    }
}

/// The part of `s` before its last `_` (all of `s` without one).
pub open spec fn before_last_seg(s: Seq<char>) -> Seq<char> {
    match last_index_of(s, '_') {
        Some(i) => s.take(i),
        None => s,
    }
}

/// The short key of a trait api name: its last `_`-separated part (the one
/// before it when the last is `Trait`), without a trailing `Trait`, lower-cased.
pub open spec fn trait_key(api: Seq<char>) -> Seq<char> {
    let k0 = if last_seg(api) == "Trait"@ && last_index_of(api, '_') is Some {
        last_seg(before_last_seg(api))
    } else {
        last_seg(api)
    };
    let k1 = if is_suffix("Trait"@, k0) && k0.len() > 5 {
        k0.take(k0.len() - 5)
    } else {
        k0
    };
    unicode_lowercase(k1)
}

/// The entries of the trait-name map made by one trait: its display name under
/// its short key and under the short key followed by `trait`.
pub open spec fn trait_key_events(e: (String, String)) -> Seq<(Seq<char>, Seq<char>)> {
    let key = trait_key(e.0@);
    if key.len() > 0 {
        seq![(key, e.1@), (key + "trait"@, e.1@)]
    } else {
        Seq::empty()
    }
}

/// The entries made by a list of traits, in order.
pub open spec fn traits_key_events(ts: Seq<(String, String)>) -> Seq<(Seq<char>, Seq<char>)>
    decreases ts.len(),
{
    if ts.len() == 0 {
        Seq::empty()
    } else {
        traits_key_events(ts.drop_last()) + trait_key_events(ts.last())
    }
}

proof fn lemma_last_index_of(s: Seq<char>, c: char)
    ensures
        match last_index_of(s, c) {
            Some(i) => 0 <= i < s.len() && s[i] == c && forall|j: int| i < j < s.len() ==> s[j] != c,
            None => forall|j: int| 0 <= j < s.len() ==> s[j] != c,
        },
    decreases s.len(),
{
    if s.len() > 0 {
        lemma_last_index_of(s.drop_last(), c);
        assert forall|j: int| 0 <= j < s.len() - 1 implies s.drop_last()[j] == s[j] by {}
    }
}

/// The last position of `c` in `s`.
fn last_index_of_exec(s: &Vec<char>, c: char) -> (r: Option<usize>)
    ensures
        match r {
            Some(i) => last_index_of(s@, c) == Some(i as int),
            None => last_index_of(s@, c) is None,
        },
{
    let mut k: usize = s.len();
    assert(s@.take(k as int) =~= s@);
    while k > 0
        invariant
            k <= s.len(),
            last_index_of(s@, c) == last_index_of(s@.take(k as int), c),
        decreases k,
    {
        assert(s@.take(k as int).last() == s@[k - 1]);
        assert(s@.take(k as int).drop_last() =~= s@.take(k - 1));
        if s[k - 1] == c {
            return Some(k - 1);
        }
        k = k - 1;
    }
    None
}

/// The characters of `s` after its last `_`.
fn last_seg_exec(s: &Vec<char>) -> (r: Vec<char>)
    ensures
        r@ == last_seg(s@),
{
    match last_index_of_exec(s, '_') {
        Some(i) => {
            proof {
                lemma_last_index_of(s@, '_');
                assert(last_index_of(s@, '_') == Some(i as int));
                assert((i as int) < s@.len());
            }
            assert(i < s.len());
            let r = sub_vec(s.as_slice(), i + 1, s.len());
            assert(r@ =~= s@.skip(i + 1));
            r
        },
        None => sub_vec(s.as_slice(), 0, s.len()),
    }
}

/// The short key of a trait api name.
pub fn trait_key_exec(api: &str) -> (r: String)
    ensures
        r@ == trait_key(api@),
{
    let cs = chars_of(api);
    let last = last_seg_exec(&cs);
    let k0 = if str_eq(string_of(last.as_slice()).as_str(), "Trait") && last_index_of_exec(&cs, '_').is_some() {
        let i = last_index_of_exec(&cs, '_').unwrap();
        proof {
            lemma_last_index_of(cs@, '_');
        }
        let before = sub_vec(cs.as_slice(), 0, i);
        assert(before@ =~= before_last_seg(cs@));
        last_seg_exec(&before)
    } else {
        last
    };
    let k0s = string_of(k0.as_slice());
    let k1 = if ends_with(k0s.as_str(), "Trait") && k0.len() > 5 {
        let t = sub_vec(k0.as_slice(), 0, k0.len() - 5);
        assert(t@ =~= k0@.take(k0@.len() - 5));
        t
    } else {
        k0
    };
    to_lowercase(string_of(k1.as_slice()).as_str())
}

/// The trait-name map: each trait's display name under its short key and under
/// that key followed by `trait`; the first trait to claim a key keeps it.
pub fn build_trait_name_map_from_mapping(mapping: &TftDataMapping) -> (r: Vec<(String, String)>)
    ensures
        holds_first(r@, traits_key_events(mapping.traits@)),
{
    let ts = &mapping.traits;
    let mut out: Vec<(String, String)> = Vec::new();
    let mut k: usize = 0;
    while k < ts.len()
        invariant
            k <= ts.len(),
            holds_first(out@, traits_key_events(ts@.take(k as int))),
        decreases ts.len() - k,
    {
        let ghost ev = traits_key_events(ts@.take(k as int));
        assert(ts@.take(k + 1).drop_last() =~= ts@.take(k as int));
        assert(ts@.take(k + 1).last() == ts@[k as int]);
        let key = trait_key_exec(ts[k].0.as_str());
        let display = &ts[k].1;
        if !key.as_str().is_empty() {
            let ghost out0 = out@;
            dict_insert_absent(&mut out, key.as_str(), display.as_str());
            let ghost out1 = out@;
            let with_suffix = concat2(key.as_str(), "trait");
            dict_insert_absent(&mut out, with_suffix.as_str(), display.as_str());
            assert forall|q: Seq<char>| #[trigger] lookup(out@, q) == first_value(traits_key_events(ts@.take(k + 1)), q) by {
                let e2 = traits_key_events(ts@.take(k + 1));
                assert(e2 =~= ev + seq![(key@, display@), (with_suffix@, display@)]);
                let e1 = ev.push((key@, display@));
                assert(e2.drop_last() =~= e1);
                assert(e1.drop_last() =~= ev);
                assert(e2.last() == (with_suffix@, display@));
                assert(e1.last() == (key@, display@));
                assert(lookup(out0, q) == first_value(ev, q));
                assert(first_value(e1, q) == match first_value(ev, q) {
                    Some(v) => Some(v),
                    None => if key@ == q { Some(display@) } else { None },
                });
                assert(first_value(e2, q) == match first_value(e1, q) {
                    Some(v) => Some(v),
                    None => if with_suffix@ == q { Some(display@) } else { None },
                });
            }
        } else {
            assert(traits_key_events(ts@.take(k + 1)) =~= ev);
        }
        k = k + 1;
    }
    assert(ts@.take(ts.len() as int) =~= ts@);
    out
}

/// The dictionary `d` with each value passed through `conv` (identity when
/// `to_cdragon` is false, else the CommunityDragon link).
pub open spec fn conv_value(v: Seq<char>, to_cdragon: bool) -> Seq<char> {
    if to_cdragon {
        spec_convert_lcu_icon_path_to_cdragon(v)
    } else {
        v
    }
}

proof fn lemma_lookup_mapped(r: Seq<(String, String)>, d: Seq<(String, String)>, to_cdragon: bool, k: Seq<char>)
    requires
        r.len() == d.len(),
        forall|i: int| 0 <= i < d.len() ==> (#[trigger] r[i]).0@ == d[i].0@ && r[i].1@ == conv_value(d[i].1@, to_cdragon),
    ensures
        lookup(r, k) == match lookup(d, k) {
            Some(v) => Some(conv_value(v, to_cdragon)),
            None => None,
        },
    decreases d.len(),
{
    if d.len() > 0 {
        assert(r[0].0@ == d[0].0@);
        assert forall|i: int| 0 <= i < d.len() - 1 implies (#[trigger] r.drop_first()[i]).0@ == d.drop_first()[i].0@
            && r.drop_first()[i].1@ == conv_value(d.drop_first()[i].1@, to_cdragon) by {
            assert(r.drop_first()[i] == r[i + 1]);
            assert(d.drop_first()[i] == d[i + 1]);
        }
        lemma_lookup_mapped(r.drop_first(), d.drop_first(), to_cdragon, k);
    }
}

/// A copy of the dictionary `d`, its values turned into CommunityDragon links
/// when `to_cdragon` holds.
pub fn copy_dict(d: &Vec<(String, String)>, to_cdragon: bool) -> (r: Vec<(String, String)>)
    ensures
        forall|k: Seq<char>|
            #[trigger] lookup(r@, k) == match lookup(d@, k) {
                Some(v) => Some(conv_value(v, to_cdragon)),
                None => None,
            },
{
    let mut out: Vec<(String, String)> = Vec::new();
    let mut i: usize = 0;
    while i < d.len()
        invariant
            i <= d.len(),
            out.len() == i,
            forall|j: int|
                0 <= j < i ==> (#[trigger] out@[j]).0@ == d@[j].0@ && out@[j].1@ == conv_value(d@[j].1@, to_cdragon),
        decreases d.len() - i,
    {
        let v = if to_cdragon {
            convert_lcu_icon_path_to_cdragon(d[i].1.as_str())
        } else {
            d[i].1.clone()
        };
        out.push((d[i].0.clone(), v));
        i = i + 1;
    }
    proof {
        assert forall|k: Seq<char>| #[trigger] lookup(out@, k) == match lookup(d@, k) {
            Some(v) => Some(conv_value(v, to_cdragon)),
            None => None,
        } by {
            lemma_lookup_mapped(out@, d@, to_cdragon, k);
        }
    }
    out
}

/// The entries of the fallback champion-name map made by one icon entry: the
/// last `_`-separated part of its key, under the key and under its lower case.
pub open spec fn fallback_name_events(e: (String, String)) -> Seq<(Seq<char>, Seq<char>)> {
    pair(e.0@, last_seg(e.0@))
}

/// The entries made by a list of icon entries, in order.
pub open spec fn fallback_events(ds: Seq<(String, String)>) -> Seq<(Seq<char>, Seq<char>)>
    decreases ds.len(),
{
    if ds.len() == 0 {
        Seq::empty()
    } else {
        fallback_events(ds.drop_last()) + fallback_name_events(ds.last())
    }
}

/// The maps handed to the front end for TFT: trait names by short key, champion
/// icons (as links), champion names, item names and item icons (as links).
pub struct TftMetaMaps {
    pub trait_name_map: Vec<(String, String)>,
    pub champion_icon_map: Vec<(String, String)>,
    pub champion_name_map: Vec<(String, String)>,
    pub item_name_map: Vec<(String, String)>,
    pub item_icon_map: Vec<(String, String)>,
}

/// `r` maps every key of `d` to its value passed through `conv_value`.
pub open spec fn mapped(r: Seq<(String, String)>, d: Seq<(String, String)>, to_cdragon: bool) -> bool {
    forall|k: Seq<char>|
        #[trigger] lookup(r, k) == match lookup(d, k) {
            Some(v) => Some(conv_value(v, to_cdragon)),
            None => None,
        }
}

/// The TFT maps for the front end, built from the dictionaries `m`: all empty
/// when `m` has no trait; champion names fall back to the keys of the champion
/// icons when `m` has none.
pub fn tft_meta_maps(m: &TftDataMapping) -> (r: TftMetaMaps)
    ensures
        m.traits@.len() == 0 ==> r.trait_name_map@.len() == 0 && r.champion_icon_map@.len() == 0
            && r.champion_name_map@.len() == 0 && r.item_name_map@.len() == 0
            && r.item_icon_map@.len() == 0,
        m.traits@.len() > 0 ==> {
            &&& holds_first(r.trait_name_map@, traits_key_events(m.traits@))
            &&& mapped(r.champion_icon_map@, m.champion_icons@, true)
            &&& (m.champions@.len() == 0 ==> holds_last(r.champion_name_map@, fallback_events(m.champion_icons@)))
            &&& (m.champions@.len() > 0 ==> mapped(r.champion_name_map@, m.champions@, false))
            &&& mapped(r.item_name_map@, m.item_names@, false)
            &&& mapped(r.item_icon_map@, m.item_icons@, true)
        },
{
    if m.traits.len() == 0 {
        return TftMetaMaps {
            trait_name_map: Vec::new(),
            champion_icon_map: Vec::new(),
            champion_name_map: Vec::new(),
            item_name_map: Vec::new(),
            item_icon_map: Vec::new(),
        };
    }
    let champion_name_map = if m.champions.len() == 0 {
        let icons = &m.champion_icons;
        let mut out: Vec<(String, String)> = Vec::new();
        let mut k: usize = 0;
        while k < icons.len()
            invariant
                k <= icons.len(),
                holds_last(out@, fallback_events(icons@.take(k as int))),
            decreases icons.len() - k,
        {
            let ghost ev = fallback_events(icons@.take(k as int));
            assert(icons@.take(k + 1).drop_last() =~= icons@.take(k as int));
            assert(icons@.take(k + 1).last() == icons@[k as int]);
            let api = icons[k].0.as_str();
            let cs = chars_of(api);
            let display = string_of(last_seg_exec(&cs).as_slice());
            let lower = to_lowercase(api);
            insert_pair(&mut out, api, lower.as_str(), display.as_str(), Ghost(ev));
            assert(fallback_events(icons@.take(k + 1)) =~= ev + pair(api@, display@));
            k = k + 1;
        }
        assert(icons@.take(icons.len() as int) =~= icons@);
        out
    } else {
        copy_dict(&m.champions, false)
    };
    TftMetaMaps {
        trait_name_map: build_trait_name_map_from_mapping(m),
        champion_icon_map: copy_dict(&m.champion_icons, true),
        champion_name_map,
        item_name_map: copy_dict(&m.item_names, false),
        item_icon_map: copy_dict(&m.item_icons, true),
    }
}

} // verus!
