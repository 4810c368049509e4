//! Asset icon paths: client paths, CommunityDragon links, set-marker stripping.
use vstd::prelude::*;

use crate::text::{
    chars_of, concat2, find_from, first_occurrence, is_prefix,
    last_index_of, replace_all, replace_vec, starts_with, string_of, sub_vec,
    to_lowercase, trim_start_char, trim_start_char_vec, unicode_lowercase,
};

verus! {

pub open spec fn is_ascii_digit(c: char) -> bool {
    '0' <= c && c <= '9'
}

pub open spec fn has_ascii_digit(s: Seq<char>) -> bool {
    exists|i: int| 0 <= i < s.len() && is_ascii_digit(#[trigger] s[i])
}

/// A client asset path for a raw icon path: lower-cased, `.tex` turned into `.png`,
/// prefixed with `/lol-game-data/assets` unless it has the `/lol-game-data/` prefix,
/// and with each `//` folded into `/`.
pub open spec fn spec_convert_lcu_icon_path(raw: Seq<char>) -> Seq<char> {
    if raw.len() == 0 {
        seq![]
    } else {
        let path = replace_all(unicode_lowercase(raw), ".tex"@, ".png"@);
        let prefixed = if is_prefix("/lol-game-data/"@, path) {
            path
        } else if is_prefix("/"@, path) {
            "/lol-game-data/assets"@ + path
        } else {
            "/lol-game-data/assets/"@ + path
        };
        replace_all(prefixed, "//"@, "/"@)
    }
}

/// The file name of `path` with its TFT set marker (`.tft_…` holding a digit,
/// up to the next `.`) removed; other paths are returned unchanged.
pub open spec fn spec_strip_tft_set_marker(path: Seq<char>) -> Seq<char> {
    match last_index_of(path, '/') {
        None => path,
        Some(slash) => {
            let head = slash + 1;
            match first_occurrence(path.skip(head), ".tft_"@) {
                None => path,
                Some(m) => {
                    let marker = head + m;
                    let rest = path.skip(marker + 1);
                    match first_occurrence(rest, "."@) {
                        None => path,
                        Some(e) => if has_ascii_digit(rest.take(e)) {
                            path.take(marker) + rest.skip(e)
                        } else {
                            path
                        },
                    }
                },
            }
        },
    }
}

/// The CommunityDragon link of a raw icon path.
pub open spec fn spec_convert_lcu_icon_path_to_cdragon(raw: Seq<char>) -> Seq<char> {
    if raw.len() == 0 {
        seq![]
    } else {
        let path = spec_strip_tft_set_marker(spec_convert_lcu_icon_path(raw));
        if is_prefix("/lol-game-data/assets/"@, path) {
            "https://raw.communitydragon.org/latest/game/"@ + path.skip(22)
        } else if is_prefix("/lol-game-data/"@, path) {
            "https://raw.communitydragon.org/latest/plugins/rcp-be-lol-game-data/global/default/"@
                + path.skip(15)
        } else {
            "https://raw.communitydragon.org/latest/game/"@ + trim_start_char(path, '/')
        }
    }
}

/// Converts a raw icon path into a client asset path.
pub fn convert_lcu_icon_path(raw_icon: &str) -> (r: String)
    ensures
        r@ == spec_convert_lcu_icon_path(raw_icon@),
{
    let raw = chars_of(raw_icon);
    if raw.len() == 0 {
        return String::new();
    }
    let lower = to_lowercase(raw_icon);
    let tex = chars_of(".tex");
    let png = chars_of(".png");
    proof {
        reveal_strlit(".tex");
    }
    let path_v = replace_vec(chars_of(lower.as_str()).as_slice(), tex.as_slice(), png.as_slice());
    let path = string_of(path_v.as_slice());
    let prefixed = if starts_with(path.as_str(), "/lol-game-data/") {
        path
    } else if starts_with(path.as_str(), "/") {
        concat2("/lol-game-data/assets", path.as_str())
    } else {
        concat2("/lol-game-data/assets/", path.as_str())
    };
    let dbl = chars_of("//");
    let one = chars_of("/");
    proof {
        reveal_strlit("//");
    }
    string_of(replace_vec(chars_of(prefixed.as_str()).as_slice(), dbl.as_slice(), one.as_slice()).as_slice())
}

/// The last position of `c` in `s`.
fn rfind_char(s: &[char], c: char) -> (r: Option<usize>)
    ensures
        r matches Some(i) ==> last_index_of(s@, c) == Some(i as int) && i < s.len(),
        r is None ==> last_index_of(s@, c) is None,
{
    let mut n = s.len();
    assert(s@.take(n as int) =~= s@);
    while n > 0
        invariant
            n <= s.len(),
            last_index_of(s@, c) == last_index_of(s@.take(n as int), c),
        decreases n,
    {
        assert(s@.take(n as int).drop_last() =~= s@.take(n - 1));
        if s[n - 1] == c {
            return Some(n - 1);
        }
        n -= 1;
    }
    None
}

fn has_ascii_digit_exec(s: &[char]) -> (r: bool)
    ensures
        r == has_ascii_digit(s@),
{
    let mut i: usize = 0;
    while i < s.len()
        invariant
            i <= s.len(),
            forall|j: int| 0 <= j < i ==> !is_ascii_digit(#[trigger] s@[j]),
        decreases s.len() - i,
    {
        if '0' <= s[i] && s[i] <= '9' {
            return true;
        }
        i += 1;
    }
    false
}

/// Removes the TFT set marker from the file name of `path`.
pub fn strip_tft_set_marker_from_path(path: &mut String)
    ensures
        final(path)@ == spec_strip_tft_set_marker(old(path)@),
{
    let s = chars_of(path.as_str());
    let slash = match rfind_char(s.as_slice(), '/') {
        None => return,
        Some(x) => x,
    };
    let head = slash + 1;
    let rel = sub_vec(s.as_slice(), head, s.len());
    assert(rel@ =~= s@.skip(head as int));
    let marker_pat = chars_of(".tft_");
    let m = match find_from(rel.as_slice(), marker_pat.as_slice(), 0) {
        None => return,
        Some(x) => x,
    };
    proof {
        crate::text::lemma_first_occurrence_from(rel@, marker_pat@, 0);
        reveal_strlit(".tft_");
    }
    let marker = head + m;
    let rest = sub_vec(s.as_slice(), marker + 1, s.len());
    assert(rest@ =~= s@.skip(marker + 1));
    let dot = chars_of(".");
    let e = match find_from(rest.as_slice(), dot.as_slice(), 0) {
        None => return,
        Some(x) => x,
    };
    proof {
        crate::text::lemma_first_occurrence_from(rest@, dot@, 0);
    }
    let token = sub_vec(rest.as_slice(), 0, e);
    if !has_ascii_digit_exec(token.as_slice()) {
        return;
    }
    let mut out = sub_vec(s.as_slice(), 0, marker);
    let ext = sub_vec(rest.as_slice(), e, rest.len());
    let mut k: usize = 0;
    let ghost out0 = out@;
    while k < ext.len()
        invariant
            k <= ext.len(),
            out@ == out0 + ext@.take(k as int),
        decreases ext.len() - k,
    {
        out.push(ext[k]);
        assert(ext@.take(k + 1) =~= ext@.take(k as int).push(ext@[k as int]));
        k += 1;
    }
    assert(ext@.take(ext.len() as int) =~= ext@);
    assert(out0 =~= s@.take(marker as int));
    assert(ext@ =~= rest@.skip(e as int));
    *path = string_of(out.as_slice());
}

/// Converts a raw icon path into a CommunityDragon link.
pub fn convert_lcu_icon_path_to_cdragon(raw_icon: &str) -> (r: String)
    ensures
        r@ == spec_convert_lcu_icon_path_to_cdragon(raw_icon@),
{
    let raw = chars_of(raw_icon);
    if raw.len() == 0 {
        return String::new();
    }
    let mut path = convert_lcu_icon_path(raw_icon);
    strip_tft_set_marker_from_path(&mut path);
    let p = chars_of(path.as_str());
    proof {
        reveal_strlit("/lol-game-data/assets/");
        reveal_strlit("/lol-game-data/");
    }
    if starts_with(path.as_str(), "/lol-game-data/assets/") {
        let sub = string_of(sub_vec(p.as_slice(), 22, p.len()).as_slice());
        concat2("https://raw.communitydragon.org/latest/game/", sub.as_str())
    } else if starts_with(path.as_str(), "/lol-game-data/") {
        let sub = string_of(sub_vec(p.as_slice(), 15, p.len()).as_slice());
        concat2(
            "https://raw.communitydragon.org/latest/plugins/rcp-be-lol-game-data/global/default/",
            sub.as_str(),
        )
    } else {
        let sub = string_of(trim_start_char_vec(p.as_slice(), '/').as_slice());
        concat2("https://raw.communitydragon.org/latest/game/", sub.as_str())
    }
}

} // verus!
