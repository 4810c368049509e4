//! The TFT augment catalogue: which catalogue records are augments, and how
//! their names, tiers, icons and descriptions are read.
use vstd::prelude::*;

use crate::icon_path::{convert_lcu_icon_path, spec_convert_lcu_icon_path};
use crate::json::{as_array, as_str, field, or_else, unwrap_or, Json};
use crate::text::{
    chars_of, contains, ends_with, is_prefix, is_suffix, owned, seq_contains, starts_with, string_of,
    str_eq, to_lowercase, trim_vec, trim_ws, unicode_lowercase,
};
use crate::tft::TftAugmentInfo;

verus! {

/// Whether the characters before the end of `s` leave an HTML tag open.
pub open spec fn tag_open(s: Seq<char>) -> bool
    decreases s.len(),
{
    if s.len() == 0 {
        false
    } else if s.last() == '<' {
        true
    } else if s.last() == '>' {
        false
    } else {
        tag_open(s.drop_last())
    }
}

/// `s` without its HTML tags: every character from a `<` to the next `>` is
/// dropped, the brackets included.
pub open spec fn strip_tags(s: Seq<char>) -> Seq<char>
    decreases s.len(),
{
    if s.len() == 0 {
        Seq::empty()
    } else {
        let c = s.last();
        let prev = strip_tags(s.drop_last());
        if c != '<' && c != '>' && !tag_open(s.drop_last()) {
            prev.push(c)
        } else {
            prev
        }
    }
}

/// A description as shown: its tags removed, then trimmed.
pub open spec fn spec_clean_desc(s: Seq<char>) -> Seq<char> {
    trim_ws(strip_tags(s))
}

/// Removes the HTML markup of a description and trims it. (Line-break tags are
/// removed with the rest of the markup.)
pub fn clean_tft_desc(desc_raw: &str) -> (r: String)
    ensures
        r@ == spec_clean_desc(desc_raw@),
{
    let cs = chars_of(desc_raw);
    let mut out: Vec<char> = Vec::new();
    let mut in_tag = false;
    let mut k: usize = 0;
    while k < cs.len()
        invariant
            k <= cs.len(),
            cs@ == desc_raw@,
            out@ == strip_tags(cs@.take(k as int)),
            in_tag == tag_open(cs@.take(k as int)),
        decreases cs.len() - k,
    {
        assert(cs@.take(k + 1).drop_last() =~= cs@.take(k as int));
        assert(cs@.take(k + 1).last() == cs@[k as int]);
        let ch = cs[k];
        if ch == '<' {
            in_tag = true;
        } else if ch == '>' {
            in_tag = false;
        } else if !in_tag {
            out.push(ch);
        }
        k = k + 1;
    }
    assert(cs@.take(cs.len() as int) =~= cs@);
    let t = trim_vec(out.as_slice());
    string_of(t.as_slice())
}

/// A piece of a description: literal text, or the expression between two `@`
/// signs, whose value the catalogue's `effects` gives.
pub struct DescPiece {
    pub is_token: bool,
    pub text: String,
}

/// The first position of `c` in `s`.
pub open spec fn char_pos(s: Seq<char>, c: char) -> Option<int>
    decreases s.len(),
{
    if s.len() == 0 {
        None
    } else if s[0] == c {
        Some(0)
    } else {
        match char_pos(s.drop_first(), c) {
            Some(i) => Some(i + 1),
            None => None,
        }
    }
}

/// The pieces of a description, as (is expression, text). A lone `@` ends the
/// scan: the text before it, then the whole remainder twice, are kept as text.
pub open spec fn desc_pieces_of(s: Seq<char>) -> Seq<(bool, Seq<char>)>
    decreases s.len(),
{
    match char_pos(s, '@') {
        None => seq![(false, s)],
        Some(i) => {
            let after = s.skip(i + 1);
            match char_pos(after, '@') {
                None => seq![(false, s.take(i)), (false, s), (false, s)],
                Some(j) => {
                    proof {
                        lemma_char_pos(s, '@');
                        lemma_char_pos(after, '@');
                    }
                    seq![(false, s.take(i)), (true, after.take(j))] + desc_pieces_of(after.skip(j + 1))
                },
            }
        },
    }
}

pub proof fn lemma_char_pos(s: Seq<char>, c: char)
    ensures
        match char_pos(s, c) {
            Some(i) => 0 <= i < s.len() && s[i] == c && forall|j: int| 0 <= j < i ==> s[j] != c,
            None => forall|j: int| 0 <= j < s.len() ==> s[j] != c,
        },
    decreases s.len(),
{
    if s.len() > 0 {
        lemma_char_pos(s.drop_first(), c);
        if s[0] != c {
            match char_pos(s.drop_first(), c) {
                Some(i) => {
                    assert forall|j: int| 0 <= j < i + 1 implies s[j] != c by {
                        if j > 0 {
                            assert(s[j] == s.drop_first()[j - 1]);
                        }
                    }
                },
                None => {
                    assert forall|j: int| 0 <= j < s.len() implies s[j] != c by {
                        if j > 0 {
                            assert(s[j] == s.drop_first()[j - 1]);
                        }
                    }
                },
            }
        }
    }
}

proof fn lemma_char_pos_unique(s: Seq<char>, c: char, i: int)
    requires
        0 <= i < s.len(),
        s[i] == c,
        forall|j: int| 0 <= j < i ==> s[j] != c,
    ensures
        char_pos(s, c) == Some(i),
    decreases s.len(),
{
    if i > 0 {
        assert forall|j: int| 0 <= j < i - 1 implies s.drop_first()[j] != c by {
            assert(s.drop_first()[j] == s[j + 1]);
        }
        lemma_char_pos_unique(s.drop_first(), c, i - 1);
    }
}

proof fn lemma_char_pos_none(s: Seq<char>, c: char)
    requires
        forall|j: int| 0 <= j < s.len() ==> s[j] != c,
    ensures
        char_pos(s, c) is None,
    decreases s.len(),
{
    if s.len() > 0 {
        assert forall|j: int| 0 <= j < s.len() - 1 implies s.drop_first()[j] != c by {
            assert(s.drop_first()[j] == s[j + 1]);
        }
        lemma_char_pos_none(s.drop_first(), c);
    }
}

/// The first position of `c` in `s` at or after `from`.
fn find_char(s: &Vec<char>, from: usize, c: char) -> (r: Option<usize>)
    requires
        from <= s.len(),
    ensures
        match r {
            Some(i) => from <= i < s.len() && char_pos(s@.skip(from as int), c) == Some(i - from),
            None => char_pos(s@.skip(from as int), c) is None,
        },
{
    let mut k = from;
    while k < s.len()
        invariant
            from <= k <= s.len(),
            forall|j: int| from <= j < k ==> s@[j] != c,
        decreases s.len() - k,
    {
        if s[k] == c {
            proof {
                let t = s@.skip(from as int);
                assert forall|j: int| 0 <= j < k - from implies t[j] != c by {
                    assert(t[j] == s@[from + j]);
                }
                lemma_char_pos_unique(t, c, k - from);
            }
            return Some(k);
        }
        k = k + 1;
    }
    proof {
        let t = s@.skip(from as int);
        assert forall|j: int| 0 <= j < t.len() implies t[j] != c by {
            assert(t[j] == s@[from + j]);
        }
        lemma_char_pos_none(t, c);
    }
    None
}

/// A piece holding `s@.subrange(a, b)`.
fn piece(s: &Vec<char>, a: usize, b: usize, is_token: bool) -> (r: DescPiece)
    requires
        a <= b <= s.len(),
    ensures
        r.is_token == is_token,
        r.text@ == s@.subrange(a as int, b as int),
{
    let part = crate::text::sub_vec(s.as_slice(), a, b);
    DescPiece { is_token, text: string_of(part.as_slice()) }
}

/// The view of a piece.
pub open spec fn piece_view(p: DescPiece) -> (bool, Seq<char>) {
    (p.is_token, p.text@)
}

/// Splits a description into its literal text and its `@...@` expressions.
pub fn desc_pieces(desc: &str) -> (r: Vec<DescPiece>)
    ensures
        r@.map_values(|p: DescPiece| piece_view(p)) == desc_pieces_of(desc@),
{
    let s = chars_of(desc);
    let mut out: Vec<DescPiece> = Vec::new();
    let mut pos: usize = 0;
    assert(s@.skip(0) =~= s@);
    while pos <= s.len()
        invariant
            pos <= s.len(),
            s@ == desc@,
            desc_pieces_of(desc@) == out@.map_values(|p: DescPiece| piece_view(p)) + desc_pieces_of(
                s@.skip(pos as int),
            ),
        decreases s.len() - pos,
    {
        let ghost rest = s@.skip(pos as int);
        let ghost out0 = out@.map_values(|p: DescPiece| piece_view(p));
        match find_char(&s, pos, '@') {
            None => {
                let p = piece(&s, pos, s.len(), false);
                assert(p.text@ =~= rest);
                out.push(p);
                assert(out@.map_values(|p: DescPiece| piece_view(p)) =~= out0 + seq![(false, rest)]);
                assert(desc_pieces_of(desc@) == out@.map_values(|p: DescPiece| piece_view(p)));
                return out;
            },
            Some(start) => {
                let ghost i = start - pos;
                let ghost after = rest.skip(i + 1);
                assert(after =~= s@.skip(start + 1));
                match find_char(&s, start + 1, '@') {
                    None => {
                        let p1 = piece(&s, pos, start, false);
                        let p2 = piece(&s, pos, s.len(), false);
                        let p3 = piece(&s, pos, s.len(), false);
                        assert(p1.text@ =~= rest.take(i));
                        assert(p2.text@ =~= rest);
                        assert(p3.text@ =~= rest);
                        out.push(p1);
                        out.push(p2);
                        out.push(p3);
                        assert(out@.map_values(|p: DescPiece| piece_view(p)) =~= out0 + seq![
                            (false, rest.take(i)),
                            (false, rest),
                            (false, rest),
                        ]);
                        assert(desc_pieces_of(desc@) == out@.map_values(|p: DescPiece| piece_view(p)));
                        return out;
                    },
                    Some(end) => {
                        let ghost j = end - (start + 1);
                        let p1 = piece(&s, pos, start, false);
                        let p2 = piece(&s, start + 1, end, true);
                        assert(p1.text@ =~= rest.take(i));
                        assert(p2.text@ =~= after.take(j));
                        out.push(p1);
                        out.push(p2);
                        assert(after.skip(j + 1) =~= s@.skip(end + 1));
                        assert(out@.map_values(|p: DescPiece| piece_view(p)) =~= out0 + seq![
                            (false, rest.take(i)),
                            (true, after.take(j)),
                        ]);
                        assert(desc_pieces_of(rest) == seq![(false, rest.take(i)), (true, after.take(j))]
                            + desc_pieces_of(after.skip(j + 1)));
                        assert(desc_pieces_of(desc@) =~= out@.map_values(|p: DescPiece| piece_view(p))
                            + desc_pieces_of(s@.skip(end + 1)));
                        pos = end + 1;
                    },
                }
            },
        }
    }
    // The scan returns from inside the loop: `pos` never exceeds the length.
    assert(false);
    out
}

/// The tier marked in an augment's api name or icon, before its name is read.
pub open spec fn marked_tier(lower_api: Seq<char>, lower_icon: Seq<char>) -> Option<i32> {
    if seq_contains(lower_api, "prismatic"@) || seq_contains(lower_icon, "prismatic"@) || seq_contains(
        lower_api,
        "tier3"@,
    ) || seq_contains(lower_icon, "tier3"@) || seq_contains(lower_api, "hr_t3"@) {
        Some(3)
    } else if seq_contains(lower_api, "gold"@) || seq_contains(lower_icon, "gold"@) || seq_contains(
        lower_api,
        "tier2"@,
    ) || seq_contains(lower_icon, "tier2"@) || seq_contains(lower_api, "hr_t2"@) {
        Some(2)
    } else if seq_contains(lower_api, "silver"@) || seq_contains(lower_icon, "silver"@)
        || seq_contains(lower_api, "tier1"@) || seq_contains(lower_icon, "tier1"@) || seq_contains(
        lower_api,
        "hr_t1"@,
    ) {
        Some(1)
    } else {
        None
    }
}

/// The tier of an augment: marked in its api name or icon (prismatic 3, gold 2,
/// silver 1), else by a Roman numeral ending its name or standing in it, else 2.
pub open spec fn spec_augment_tier(api_name: Seq<char>, icon: Seq<char>, name: Seq<char>) -> i32 {
    match marked_tier(unicode_lowercase(api_name), unicode_lowercase(icon)) {
        Some(t) => t,
        None => if is_suffix(" III"@, name) || seq_contains(name, " III "@) {
            3
        } else if is_suffix(" II"@, name) || seq_contains(name, " II "@) {
            2
        } else if is_suffix(" I"@, name) || seq_contains(name, " I "@) {
            1
        } else {
            2
        },
    }
}

/// The tier of an augment.
pub fn extract_augment_tier(api_name: &str, icon: &str, name: &str) -> (r: i32)
    ensures
        r == spec_augment_tier(api_name@, icon@, name@),
{
    let la = to_lowercase(api_name);
    let li = to_lowercase(icon);
    let a = la.as_str();
    let i = li.as_str();
    if contains(a, "prismatic") || contains(i, "prismatic") || contains(a, "tier3") || contains(
        i,
        "tier3",
    ) || contains(a, "hr_t3") {
        return 3;
    }
    if contains(a, "gold") || contains(i, "gold") || contains(a, "tier2") || contains(i, "tier2")
        || contains(a, "hr_t2") {
        return 2;
    }
    if contains(a, "silver") || contains(i, "silver") || contains(a, "tier1") || contains(
        i,
        "tier1",
    ) || contains(a, "hr_t1") {
        return 1;
    }
    if ends_with(name, " III") || contains(name, " III ") {
        return 3;
    }
    if ends_with(name, " II") || contains(name, " II ") {
        return 2;
    }
    if ends_with(name, " I") || contains(name, " I ") {
        return 1;
    }
    2
}

/// The string under the first present key of three, if it is a string.
pub open spec fn first_str3(j: Json, a: Seq<char>, b: Seq<char>, c: Seq<char>) -> Option<Seq<char>> {
    match or_else(or_else(field(j, a), field(j, b)), field(j, c)) {
        Some(v) => as_str(v),
        None => None,
    }
}

/// The string under the first present key of four, if it is a string.
pub open spec fn first_str4(j: Json, a: Seq<char>, b: Seq<char>, c: Seq<char>, d: Seq<char>) -> Option<Seq<char>> {
    match or_else(or_else(or_else(field(j, a), field(j, b)), field(j, c)), field(j, d)) {
        Some(v) => as_str(v),
        None => None,
    }
}

/// The name of a catalogue record (empty when missing).
pub open spec fn aug_name(item: Json) -> Seq<char> {
    unwrap_or(first_str3(item, "name"@, "displayName"@, "title"@), Seq::empty())
}

/// The api name of a catalogue record (its name when missing).
pub open spec fn aug_api(item: Json) -> Seq<char> {
    unwrap_or(first_str3(item, "apiName"@, "api_name"@, "hexId"@), aug_name(item))
}

/// The icon of a catalogue record (empty when missing).
pub open spec fn aug_icon(item: Json) -> Seq<char> {
    unwrap_or(first_str3(item, "icon"@, "squareIcon"@, "imgUrl"@), Seq::empty())
}

/// The raw description of a catalogue record (empty when missing).
pub open spec fn aug_raw_desc(item: Json) -> Seq<char> {
    unwrap_or(first_str4(item, "desc"@, "description"@, "descClean"@, "tooltip"@), Seq::empty())
}

/// A record is an augment when it comes from an augment list, or its api name or
/// icon says so.
pub open spec fn looks_like_augment(item: Json, forced: bool) -> bool {
    let la = unicode_lowercase(aug_api(item));
    let li = unicode_lowercase(aug_icon(item));
    forced || seq_contains(la, "augment"@) || seq_contains(li, "augment"@) || (is_prefix("tft"@, la)
        && (seq_contains(la, "aug"@) || seq_contains(la, "superrune"@) || seq_contains(
        la,
        "hextech"@,
    )))
}

/// The records of one set: its items, then its augments (forced).
pub open spec fn set_sources(set_obj: Json) -> Seq<(Json, bool)> {
    let items = unwrap_or(crate::json::array_field(set_obj, "items"@), Seq::empty());
    let augs = unwrap_or(crate::json::array_field(set_obj, "augments"@), Seq::empty());
    items.map_values(|j: Json| (j, false)) + augs.map_values(|j: Json| (j, true))
}

/// The records of a list of sets, in order.
pub open spec fn sets_sources(sets: Seq<Json>) -> Seq<(Json, bool)>
    decreases sets.len(),
{
    if sets.len() == 0 {
        Seq::empty()
    } else {
        sets_sources(sets.drop_last()) + set_sources(sets.last())
    }
}

/// The values of an object, in order (empty for a non-object).
pub open spec fn object_values(j: Json) -> Seq<Json> {
    match j {
        Json::Object(fields) => fields@.map_values(|f: (String, Json)| f.1),
        _ => Seq::empty(),
    }
}

/// Every catalogue record that may be an augment, in the order they are read:
/// a bare top-level list, the top-level augments (forced), the top-level
/// items, the sets of `setData`, then the sets of the `sets` object.
pub open spec fn augment_sources(root: Json) -> Seq<(Json, bool)> {
    let bare = unwrap_or(as_array(root), Seq::empty()).map_values(|j: Json| (j, false));
    let augs = unwrap_or(crate::json::array_field(root, "augments"@), Seq::empty()).map_values(
        |j: Json| (j, true),
    );
    let items = unwrap_or(crate::json::array_field(root, "items"@), Seq::empty()).map_values(
        |j: Json| (j, false),
    );
    let set_data = sets_sources(unwrap_or(crate::json::array_field(root, "setData"@), Seq::empty()));
    let sets = match field(root, "sets"@) {
        Some(s) => sets_sources(object_values(s)),
        None => Seq::empty(),
    };
    bare + augs + items + set_data + sets
}

/// The records accepted as augments, in order: named, looking like augments, and
/// with an api name not accepted before.
pub open spec fn accepted_augments(src: Seq<(Json, bool)>) -> Seq<Json>
    decreases src.len(),
{
    if src.len() == 0 {
        Seq::empty()
    } else {
        let prev = accepted_augments(src.drop_last());
        let (item, forced) = src.last();
        if aug_name(item).len() > 0 && !prev.map_values(|p: Json| aug_api(p)).contains(aug_api(item))
            && looks_like_augment(item, forced) {
            prev.push(item)
        } else {
            prev
        }
    }
}

/// An augment read from the catalogue, with the `effects` object its description
/// expressions refer to (`None` when the record has none).
pub struct AugmentDraft<'a> {
    pub info: TftAugmentInfo,
    pub effects: Option<&'a Json>,
}

/// `d` is the augment read from record `item`.
pub open spec fn draft_of(d: AugmentDraft, item: Json) -> bool {
    &&& d.info.api_name@ == aug_api(item)
    &&& d.info.name@ == aug_name(item)
    &&& d.info.desc@ == spec_clean_desc(aug_raw_desc(item))
    &&& d.info.icon_path@ == spec_convert_lcu_icon_path(aug_icon(item))
    &&& d.info.tier == spec_augment_tier(aug_api(item), aug_icon(item), aug_name(item))
    &&& crate::tft::deref_json(d.effects) == match field(item, "effects"@) {
        Some(Json::Object(f)) => Some(Json::Object(f)),
        _ => None,
    }
}

/// Appends the records of one set.
fn push_set_sources<'a>(set_obj: &'a Json, out: &mut Vec<(&'a Json, bool)>)
    ensures
        final(out)@.map_values(|p: (&Json, bool)| (*p.0, p.1)) == old(out)@.map_values(
            |p: (&Json, bool)| (*p.0, p.1),
        ) + set_sources(*set_obj),
{
    let ghost start = old(out)@.map_values(|p: (&Json, bool)| (*p.0, p.1));
    let items: Option<&Vec<Json>> = set_obj.array_at("items");
    let ghost iv = unwrap_or(crate::json::array_field(*set_obj, "items"@), Seq::empty());
    let ghost av = unwrap_or(crate::json::array_field(*set_obj, "augments"@), Seq::empty());
    match items {
        Some(arr) => push_all(arr, false, out),
        None => {},
    }
    assert(out@.map_values(|p: (&Json, bool)| (*p.0, p.1)) =~= start + iv.map_values(
        |j: Json| (j, false),
    ));
    let augs: Option<&Vec<Json>> = set_obj.array_at("augments");
    match augs {
        Some(arr) => push_all(arr, true, out),
        None => {},
    }
    assert(out@.map_values(|p: (&Json, bool)| (*p.0, p.1)) =~= start + iv.map_values(
        |j: Json| (j, false),
    ) + av.map_values(|j: Json| (j, true)));
}

/// Appends every record of `arr` with the flag `forced`.
fn push_all<'a>(arr: &'a Vec<Json>, forced: bool, out: &mut Vec<(&'a Json, bool)>)
    ensures
        final(out)@.map_values(|p: (&Json, bool)| (*p.0, p.1)) =~= old(out)@.map_values(
            |p: (&Json, bool)| (*p.0, p.1),
        ) + arr@.map_values(|j: Json| (j, forced)),
{
    let ghost start = old(out)@.map_values(|p: (&Json, bool)| (*p.0, p.1));
    let mut k: usize = 0;
    while k < arr.len()
        invariant
            k <= arr.len(),
            out@.map_values(|p: (&Json, bool)| (*p.0, p.1)) =~= start + arr@.take(k as int).map_values(
                |j: Json| (j, forced),
            ),
        decreases arr.len() - k,
    {
        let ghost before = out@;
        out.push((&arr[k], forced));
        assert(out@.map_values(|p: (&Json, bool)| (*p.0, p.1)) =~= before.map_values(
            |p: (&Json, bool)| (*p.0, p.1),
        ).push((arr@[k as int], forced)));
        assert(arr@.take(k + 1).map_values(|j: Json| (j, forced)) =~= arr@.take(k as int).map_values(
            |j: Json| (j, forced),
        ).push((arr@[k as int], forced)));
        k = k + 1;
    }
    assert(arr@.take(arr.len() as int) =~= arr@);
}

/// Appends the records of every set of `sets`.
fn push_sets<'a>(sets: &'a Vec<Json>, out: &mut Vec<(&'a Json, bool)>)
    ensures
        final(out)@.map_values(|p: (&Json, bool)| (*p.0, p.1)) =~= old(out)@.map_values(
            |p: (&Json, bool)| (*p.0, p.1),
        ) + sets_sources(sets@),
{
    let ghost start = old(out)@.map_values(|p: (&Json, bool)| (*p.0, p.1));
    let mut k: usize = 0;
    while k < sets.len()
        invariant
            k <= sets.len(),
            out@.map_values(|p: (&Json, bool)| (*p.0, p.1)) =~= start + sets_sources(sets@.take(k as int)),
        decreases sets.len() - k,
    {
        assert(sets@.take(k + 1).drop_last() =~= sets@.take(k as int));
        assert(sets@.take(k + 1).last() == sets@[k as int]);
        push_set_sources(&sets[k], out);
        k = k + 1;
    }
    assert(sets@.take(sets.len() as int) =~= sets@);
}

/// Appends the records of every set that is a value of the object `sets`.
fn push_object_sets<'a>(sets: &'a Json, out: &mut Vec<(&'a Json, bool)>)
    ensures
        final(out)@.map_values(|p: (&Json, bool)| (*p.0, p.1)) =~= old(out)@.map_values(
            |p: (&Json, bool)| (*p.0, p.1),
        ) + sets_sources(object_values(*sets)),
{
    let ghost start = old(out)@.map_values(|p: (&Json, bool)| (*p.0, p.1));
    match sets {
        Json::Object(fields) => {
            let ghost vals = fields@.map_values(|f: (String, Json)| f.1);
            let mut k: usize = 0;
            while k < fields.len()
                invariant
                    k <= fields.len(),
                    vals == fields@.map_values(|f: (String, Json)| f.1),
                    out@.map_values(|p: (&Json, bool)| (*p.0, p.1)) =~= start + sets_sources(
                        vals.take(k as int),
                    ),
                decreases fields.len() - k,
            {
                assert(vals.take(k + 1).drop_last() =~= vals.take(k as int));
                assert(vals.take(k + 1).last() == fields@[k as int].1);
                push_set_sources(&fields[k].1, out);
                k = k + 1;
            }
            assert(vals.take(fields.len() as int) =~= vals);
        },
        _ => {
            assert(sets_sources(Seq::<Json>::empty()) =~= Seq::<(Json, bool)>::empty());
        },
    }
}

/// Every catalogue record that may be an augment, in reading order.
fn collect_sources(root: &Json) -> (r: Vec<(&Json, bool)>)
    ensures
        r@.map_values(|p: (&Json, bool)| (*p.0, p.1)) =~= augment_sources(*root),
{
    let mut out: Vec<(&Json, bool)> = Vec::new();
    let ghost bare = unwrap_or(as_array(*root), Seq::empty()).map_values(|j: Json| (j, false));
    let ghost augs = unwrap_or(crate::json::array_field(*root, "augments"@), Seq::empty()).map_values(
        |j: Json| (j, true),
    );
    let ghost items = unwrap_or(crate::json::array_field(*root, "items"@), Seq::empty()).map_values(
        |j: Json| (j, false),
    );
    let ghost set_data = sets_sources(
        unwrap_or(crate::json::array_field(*root, "setData"@), Seq::empty()),
    );
    let ghost sets = match field(*root, "sets"@) {
        Some(s) => sets_sources(object_values(s)),
        None => Seq::empty(),
    };
    match root.as_array() {
        Some(arr) => push_all(arr, false, &mut out),
        None => {},
    }
    assert(out@.map_values(|p: (&Json, bool)| (*p.0, p.1)) =~= bare);
    match root.array_at("augments") {
        Some(arr) => push_all(arr, true, &mut out),
        None => {},
    }
    assert(out@.map_values(|p: (&Json, bool)| (*p.0, p.1)) =~= bare + augs);
    match root.array_at("items") {
        Some(arr) => push_all(arr, false, &mut out),
        None => {},
    }
    assert(out@.map_values(|p: (&Json, bool)| (*p.0, p.1)) =~= bare + augs + items);
    match root.array_at("setData") {
        Some(arr) => push_sets(arr, &mut out),
        None => {
            assert(sets_sources(Seq::<Json>::empty()) =~= Seq::<(Json, bool)>::empty());
        },
    }
    assert(out@.map_values(|p: (&Json, bool)| (*p.0, p.1)) =~= bare + augs + items + set_data);
    match root.get("sets") {
        Some(s) => push_object_sets(s, &mut out),
        None => {},
    }
    out
}

/// The string under the first present key of three.
fn first_str3_exec<'a>(j: &'a Json, a: &str, b: &str, c: &str) -> (r: Option<&'a str>)
    ensures
        match r {
            Some(s) => first_str3(*j, a@, b@, c@) == Some(s@),
            None => first_str3(*j, a@, b@, c@) is None,
        },
{
    let v = match j.get(a) {
        Some(v) => Some(v),
        None => match j.get(b) {
            Some(v) => Some(v),
            None => j.get(c),
        },
    };
    match v {
        Some(v) => v.as_str(),
        None => None,
    }
}

/// The string under the first present key of four.
fn first_str4_exec<'a>(j: &'a Json, a: &str, b: &str, c: &str, d: &str) -> (r: Option<&'a str>)
    ensures
        match r {
            Some(s) => first_str4(*j, a@, b@, c@, d@) == Some(s@),
            None => first_str4(*j, a@, b@, c@, d@) is None,
        },
{
    let v = match j.get(a) {
        Some(v) => Some(v),
        None => match j.get(b) {
            Some(v) => Some(v),
            None => match j.get(c) {
                Some(v) => Some(v),
                None => j.get(d),
            },
        },
    };
    match v {
        Some(v) => v.as_str(),
        None => None,
    }
}

/// Whether `api` is among the accepted api names.
fn seen_api(seen: &Vec<String>, api: &str) -> (r: bool)
    ensures
        r == seen@.map_values(|s: String| s@).contains(api@),
{
    let mut k: usize = 0;
    while k < seen.len()
        invariant
            k <= seen.len(),
            forall|i: int| 0 <= i < k ==> (#[trigger] seen@[i])@ != api@,
        decreases seen.len() - k,
    {
        if str_eq(seen[k].as_str(), api) {
            assert(seen@.map_values(|s: String| s@)[k as int] == api@);
            return true;
        }
        k = k + 1;
    }
    proof {
        let names = seen@.map_values(|s: String| s@);
        if names.contains(api@) {
            let i = choose|i: int| 0 <= i < names.len() && #[trigger] names[i] == api@;
            assert(seen@[i]@ != api@);
        }
    }
    false
}

/// The augments of the TFT catalogue `root`, in reading order and without
/// repeated api names. Descriptions are cleaned of markup; their `@...@`
/// expressions are left for the caller to evaluate against `effects`.
pub fn extract_augments_from_value(root: &Json) -> (r: Vec<AugmentDraft>)
    ensures
        r.len() == accepted_augments(augment_sources(*root)).len(),
        forall|i: int|
            0 <= i < r.len() ==> draft_of(#[trigger] r@[i], accepted_augments(augment_sources(*root))[i]),
{
    let sources = collect_sources(root);
    let ghost src = sources@.map_values(|p: (&Json, bool)| (*p.0, p.1));
    let mut out: Vec<AugmentDraft> = Vec::new();
    let mut seen: Vec<String> = Vec::new();
    let mut k: usize = 0;
    while k < sources.len()
        invariant
            k <= sources.len(),
            src == sources@.map_values(|p: (&Json, bool)| (*p.0, p.1)),
            src == augment_sources(*root),
            out.len() == accepted_augments(src.take(k as int)).len(),
            seen.len() == out.len(),
            forall|i: int|
                0 <= i < out.len() ==> draft_of(#[trigger] out@[i], accepted_augments(src.take(k as int))[i]),
            forall|i: int|
                0 <= i < seen.len() ==> (#[trigger] seen@[i])@ == aug_api(
                    accepted_augments(src.take(k as int))[i],
                ),
        decreases sources.len() - k,
    {
        let ghost prev = accepted_augments(src.take(k as int));
        assert(src.take(k + 1).drop_last() =~= src.take(k as int));
        assert(src.take(k + 1).last() == src[k as int]);
        let (item, forced) = sources[k];
        assert(src[k as int] == (*item, forced));
        assert(seen@.map_values(|s: String| s@) =~= prev.map_values(|p: Json| aug_api(p)));
        let name = match first_str3_exec(item, "name", "displayName", "title") {
            Some(n) => n,
            None => crate::json::str_or_empty(None),
        };
        if !name.is_empty() {
            let api = match first_str3_exec(item, "apiName", "api_name", "hexId") {
                Some(a) => a,
                None => name,
            };
            if !seen_api(&seen, api) {
                let icon = crate::json::str_or_empty(first_str3_exec(item, "icon", "squareIcon", "imgUrl"));
                let la = to_lowercase(api);
                let li = to_lowercase(icon);
                let is_aug = forced || contains(la.as_str(), "augment") || contains(li.as_str(), "augment")
                    || (starts_with(la.as_str(), "tft") && (contains(la.as_str(), "aug") || contains(
                    la.as_str(),
                    "superrune",
                ) || contains(la.as_str(), "hextech")));
                if is_aug {
                    let raw_desc = crate::json::str_or_empty(
                        first_str4_exec(item, "desc", "description", "descClean", "tooltip"),
                    );
                    let effects = match item.get("effects") {
                        Some(e) => match e {
                            Json::Object(_) => Some(e),
                            _ => None,
                        },
                        None => None,
                    };
                    let info = TftAugmentInfo {
                        api_name: owned(api),
                        name: owned(name),
                        desc: clean_tft_desc(raw_desc),
                        icon_path: convert_lcu_icon_path(icon),
                        tier: extract_augment_tier(api, icon, name),
                    };
                    seen.push(owned(api));
                    out.push(AugmentDraft { info, effects });
                    proof {
                        let next = accepted_augments(src.take(k + 1));
                        assert(next == prev.push(*item));
                        assert forall|i: int| 0 <= i < out.len() implies draft_of(
                            #[trigger] out@[i],
                            next[i],
                        ) by {
                            if i < prev.len() {
                                assert(next[i] == prev[i]);
                            }
                        }
                        assert forall|i: int| 0 <= i < seen.len() implies (#[trigger] seen@[i])@
                            == aug_api(next[i]) by {
                            if i < prev.len() {
                                assert(next[i] == prev[i]);
                            }
                        }
                    }
                }
            }
        }
        k = k + 1;
    }
    assert(src.take(sources.len() as int) =~= src);
    out
}

} // verus!
