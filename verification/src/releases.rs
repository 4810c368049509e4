//! The release notes shown in the application, and the rules for reaching GitHub.
use vstd::prelude::*;

use crate::json::{as_array, str_field, unwrap_or, Json};
use crate::text::{
    chars_of, concat2, contains, ends_with, owned, seq_contains, str_eq, string_of, trim_start_char,
    trim_start_char_vec, trim_vec, trim_ws, is_suffix,
};

verus! {

/// One published release.
pub struct ReleaseEntry {
    pub tag: String,
    pub published_at: String,
    pub body: String,
}

/// A version number as compared: trimmed, leading `v`s removed, trimmed again.
pub open spec fn spec_normalize_version(v: Seq<char>) -> Seq<char> {
    trim_ws(trim_start_char(trim_ws(v), 'v'))
}

/// Normalizes a version number.
pub fn normalize_version(v: &str) -> (r: String)
    ensures
        r@ == spec_normalize_version(v@),
{
    let cs = chars_of(v);
    let t = trim_vec(cs.as_slice());
    let u = trim_start_char_vec(t.as_slice(), 'v');
    let w = trim_vec(u.as_slice());
    string_of(w.as_slice())
}

/// The release described by one record of the releases API.
pub open spec fn release_of(e: ReleaseEntry, rel: Json) -> bool {
    &&& e.tag@ == unwrap_or(str_field(rel, "tag_name"@), Seq::empty())
    &&& e.published_at@ == unwrap_or(str_field(rel, "published_at"@), Seq::empty())
    &&& e.body@ == unwrap_or(str_field(rel, "body"@), Seq::empty())
}

/// A string member, empty when missing.
fn str_member(j: &Json, key: &str) -> (r: String)
    ensures
        r@ == unwrap_or(str_field(*j, key@), Seq::empty()),
{
    match j.str_at(key) {
        Some(s) => owned(s),
        None => String::new(),
    }
}

/// The releases listed by the releases API reply `data`; fails unless it is a list.
pub fn releases_from_value(data: &Json) -> (r: Result<Vec<ReleaseEntry>, String>)
    ensures
        match as_array(*data) {
            None => r matches Err(e) && e@ == "版本数据格式错误"@,
            Some(arr) => r matches Ok(v) && v.len() == arr.len() && forall|i: int|
                0 <= i < arr.len() ==> release_of(#[trigger] v@[i], arr[i]),
        },
{
    let arr = match data.as_array() {
        Some(a) => a,
        None => return Err("版本数据格式错误".to_string()),
    };
    let mut out: Vec<ReleaseEntry> = Vec::new();
    let mut k: usize = 0;
    while k < arr.len()
        invariant
            k <= arr.len(),
            out.len() == k,
            forall|i: int| 0 <= i < k ==> release_of(#[trigger] out@[i], arr@[i]),
        decreases arr.len() - k,
    {
        let rel = &arr[k];
        out.push(
            ReleaseEntry {
                tag: str_member(rel, "tag_name"),
                published_at: str_member(rel, "published_at"),
                body: str_member(rel, "body"),
            },
        );
        k = k + 1;
    }
    Ok(out)
}

/// The cached releases can be shown: the cache is fresh, not empty, and holds
/// the running version when one is given (non-empty once normalized).
pub open spec fn spec_cache_usable(is_stale: bool, cache: Seq<ReleaseEntry>, current: Option<Seq<char>>) -> bool {
    let missing = match current {
        Some(v) => {
            let n = spec_normalize_version(v);
            n.len() > 0 && !(exists|i: int|
                0 <= i < cache.len() && spec_normalize_version((#[trigger] cache[i]).tag@) == n)
        },
        None => false,
    };
    !is_stale && !missing && cache.len() > 0
}

/// Whether the cached releases can be shown without asking GitHub again.
pub fn changelog_cache_usable(is_stale: bool, cache: &Vec<ReleaseEntry>, current_version: Option<&str>) -> (r: bool)
    ensures
        r == spec_cache_usable(is_stale, cache@, match current_version {
            Some(v) => Some(v@),
            None => None,
        }),
{
    let missing = match current_version {
        Some(v) => {
            let n = normalize_version(v);
            if n.as_str().is_empty() {
                false
            } else {
                let mut found = false;
                let mut k: usize = 0;
                while k < cache.len()
                    invariant
                        k <= cache.len(),
                        n@ == spec_normalize_version(v@),
                        found == exists|i: int|
                            0 <= i < k && spec_normalize_version((#[trigger] cache@[i]).tag@) == n@,
                    decreases cache.len() - k,
                {
                    let t = normalize_version(cache[k].tag.as_str());
                    if str_eq(t.as_str(), n.as_str()) {
                        found = true;
                    }
                    k = k + 1;
                }
                !found
            }
        },
        None => false,
    };
    !is_stale && !missing && cache.len() > 0
}

/// The hosts GitHub content may be fetched from.
pub open spec fn spec_is_github_host(host: Seq<char>) -> bool {
    host == "github.com"@ || host == "api.github.com"@ || host == "raw.githubusercontent.com"@
        || is_suffix(".githubusercontent.com"@, host)
}

/// Whether remote text may be fetched from `host`.
pub fn is_github_host(host: &str) -> (r: bool)
    ensures
        r == spec_is_github_host(host@),
{
    str_eq(host, "github.com") || str_eq(host, "api.github.com") || str_eq(host, "raw.githubusercontent.com")
        || ends_with(host, ".githubusercontent.com")
}

/// The proxy address as a URL: kept when it names a scheme, else taken as HTTP.
pub open spec fn spec_proxy_url(addr: Seq<char>) -> Seq<char> {
    if seq_contains(addr, "://"@) {
        addr
    } else {
        "http://"@ + addr
    }
}

/// The URL of the configured proxy.
pub fn proxy_url(addr: &str) -> (r: String)
    ensures
        r@ == spec_proxy_url(addr@),
{
    if contains(addr, "://") {
        owned(addr)
    } else {
        concat2("http://", addr)
    }
}

} // verus!
