//! Upload endpoint URLs and the phase transition that triggers an upload.
use vstd::prelude::*;

use crate::text::{
    chars_of, concat2, contains, ends_with, is_prefix, is_suffix, occurs_at, owned, seq_contains, starts_with,
    str_eq, string_of, sub_vec, trim_end_char, trim_end_char_vec,
};

verus! {

pub open spec fn upload_path() -> Seq<char> {
    "/api/lol/upload"@
}

pub open spec fn batch_upload_path() -> Seq<char> {
    "/api/lol/upload-batch"@
}

/// `url` with `http://` in front unless it already starts with `http://` or `https://`.
pub open spec fn spec_ensure_scheme(url: Seq<char>) -> Seq<char> {
    if is_prefix("http://"@, url) || is_prefix("https://"@, url) {
        url
    } else {
        "http://"@ + url
    }
}

/// The single-match upload URL for a configured base URL.
pub open spec fn spec_build_upload_url(base: Seq<char>) -> Seq<char> {
    let url = spec_ensure_scheme(trim_end_char(base, '/'));
    if seq_contains(url, upload_path()) {
        url
    } else {
        url + upload_path()
    }
}

/// The batch upload URL for a configured base URL.
pub open spec fn spec_build_batch_upload_url(base: Seq<char>) -> Seq<char> {
    let url = spec_ensure_scheme(trim_end_char(base, '/'));
    let stem = if is_suffix(upload_path(), url) {
        url.take(url.len() - upload_path().len())
    } else {
        url
    };
    stem + batch_upload_path()
}

/// Phases in which a finished game is settled.
pub open spec fn is_end_phase(phase: Seq<char>) -> bool {
    phase == "EndOfGame"@ || phase == "Lobby"@ || phase == "None"@
}

/// Phases in which a game is actually running.
pub open spec fn is_in_game_phase(phase: Seq<char>) -> bool {
    phase == "InProgress"@ || phase == "GameStart"@ || phase == "PreEndOfGame"@ || phase
        == "Reconnect"@
}

/// Makes sure the URL carries a scheme, defaulting to `http://`.
pub fn ensure_scheme(url: &str) -> (r: String)
    ensures
        r@ == spec_ensure_scheme(url@),
{
    if starts_with(url, "http://") || starts_with(url, "https://") {
        owned(url)
    } else {
        concat2("http://", url)
    }
}

fn trimmed_with_scheme(base_url: &str) -> (r: String)
    ensures
        r@ == spec_ensure_scheme(trim_end_char(base_url@, '/')),
{
    let chars = chars_of(base_url);
    let trimmed = string_of(trim_end_char_vec(chars.as_slice(), '/').as_slice());
    ensure_scheme(trimmed.as_str())
}

/// The single-match upload URL: the base without trailing slashes, with a scheme,
/// and with `/api/lol/upload` appended unless it already holds that path.
pub fn build_upload_url(base_url: &str) -> (r: String)
    ensures
        r@ == spec_build_upload_url(base_url@),
{
    let url = trimmed_with_scheme(base_url);
    if !contains(url.as_str(), "/api/lol/upload") {
        concat2(url.as_str(), "/api/lol/upload")
    } else {
        url
    }
}

/// The batch upload URL: a trailing `/api/lol/upload` is replaced by
/// `/api/lol/upload-batch`, which is otherwise appended.
pub fn build_batch_upload_url(base_url: &str) -> (r: String)
    ensures
        r@ == spec_build_batch_upload_url(base_url@),
{
    let url = trimmed_with_scheme(base_url);
    let stem = if ends_with(url.as_str(), "/api/lol/upload") {
        let chars = chars_of(url.as_str());
        proof {
            reveal_strlit("/api/lol/upload");
        }
        string_of(sub_vec(chars.as_slice(), 0, chars.len() - 15).as_slice())
    } else {
        url
    };
    concat2(stem.as_str(), "/api/lol/upload-batch")
}

/// A game is uploaded when the client moves from a running game into a settled phase;
/// leaving champion select or a declined ready check does not count.
pub fn should_trigger_upload_on_phase(phase: &str, prev: &str) -> (r: bool)
    ensures
        r == (is_end_phase(phase@) && is_in_game_phase(prev@)),
{
    let is_end_phase = str_eq(phase, "EndOfGame") || str_eq(phase, "Lobby") || str_eq(
        phase,
        "None",
    );
    let was_in_game = str_eq(prev, "InProgress") || str_eq(prev, "GameStart") || str_eq(
        prev,
        "PreEndOfGame",
    ) || str_eq(prev, "Reconnect");
    is_end_phase && was_in_game
}

proof fn lemma_trim_end_char_last(s: Seq<char>, c: char)
    ensures
        trim_end_char(s, c).len() == 0 || trim_end_char(s, c).last() != c,
        trim_end_char(s, c).len() <= s.len(),
    decreases s.len(),
{
    if s.len() > 0 && s.last() == c {
        lemma_trim_end_char_last(s.drop_last(), c);
    }
}

proof fn lemma_trim_end_noop(s: Seq<char>, c: char)
    requires
        s.len() > 0,
        s.last() != c,
    ensures
        trim_end_char(s, c) == s,
{
}

proof fn lemma_prefix_append(p: Seq<char>, s: Seq<char>, t: Seq<char>)
    requires
        is_prefix(p, s),
    ensures
        is_prefix(p, s + t),
{
    assert((s + t).subrange(0, p.len() as int) =~= s.subrange(0, p.len() as int));
}

proof fn lemma_ensure_scheme_has_scheme(u: Seq<char>)
    ensures
        is_prefix("http://"@, spec_ensure_scheme(u)) || is_prefix("https://"@, spec_ensure_scheme(u)),
        u.len() > 0 ==> spec_ensure_scheme(u).last() == u.last(),
        spec_ensure_scheme(u).len() >= 7,
{
    reveal_strlit("http://");
    reveal_strlit("https://");
    if !(is_prefix("http://"@, u) || is_prefix("https://"@, u)) {
        assert(("http://"@ + u).subrange(0, 7) =~= "http://"@);
    }
}

proof fn lemma_suffix_contains(s: Seq<char>, p: Seq<char>)
    requires
        is_suffix(p, s),
    ensures
        seq_contains(s, p),
{
    assert(occurs_at(s, p, s.len() - p.len()));
}

/// Applying the scheme default twice changes nothing.
pub proof fn law_ensure_scheme_idempotent(url: Seq<char>)
    ensures
        spec_ensure_scheme(spec_ensure_scheme(url)) == spec_ensure_scheme(url),
{
    lemma_ensure_scheme_has_scheme(url);
}

/// The upload URL always holds the upload path.
pub proof fn law_upload_url_holds_path(base: Seq<char>)
    ensures
        seq_contains(spec_build_upload_url(base), upload_path()),
{
    let url = spec_ensure_scheme(trim_end_char(base, '/'));
    if !seq_contains(url, upload_path()) {
        assert(occurs_at(url + upload_path(), upload_path(), url.len() as int)) by {
            assert((url + upload_path()).subrange(url.len() as int, (url.len() + upload_path().len()) as int) =~= upload_path());
        }
    }
}

/// An upload URL is never empty, does not end with `/`, and starts with
/// `http://` or `https://`.
pub proof fn law_upload_url_shape(base: Seq<char>)
    ensures
        ({
            let r = spec_build_upload_url(base);
            &&& r.len() > 0
            &&& r.last() != '/'
            &&& is_prefix("http://"@, r) || is_prefix("https://"@, r)
        }),
{
    reveal_strlit("/api/lol/upload");
    reveal_strlit("http://");
    let t = trim_end_char(base, '/');
    let url = spec_ensure_scheme(t);
    lemma_trim_end_char_last(base, '/');
    lemma_ensure_scheme_has_scheme(t);
    if seq_contains(url, upload_path()) {
        if t.len() == 0 {
            assert(url =~= "http://"@);
            let i = choose|i: int| occurs_at(url, upload_path(), i);
            assert(false);
        }
    } else {
        if is_prefix("http://"@, url) {
            lemma_prefix_append("http://"@, url, upload_path());
        } else {
            lemma_prefix_append("https://"@, url, upload_path());
        }
    }
}

/// Building the upload URL a second time changes nothing.
pub proof fn law_build_upload_url_idempotent(base: Seq<char>)
    ensures
        spec_build_upload_url(spec_build_upload_url(base)) == spec_build_upload_url(base),
{
    let r = spec_build_upload_url(base);
    law_upload_url_shape(base);
    lemma_trim_end_noop(r, '/');
    law_upload_url_holds_path(base);
}

/// The batch URL of an upload URL is the batch URL of the base it was built from.
pub proof fn law_batch_of_upload_url(base: Seq<char>)
    ensures
        spec_build_batch_upload_url(spec_build_upload_url(base)) == spec_build_batch_upload_url(base),
{
    reveal_strlit("/api/lol/upload");
    let r = spec_build_upload_url(base);
    let url = spec_ensure_scheme(trim_end_char(base, '/'));
    law_upload_url_shape(base);
    lemma_trim_end_noop(r, '/');
    if seq_contains(url, upload_path()) {
    } else {
        assert(is_suffix(upload_path(), r)) by {
            assert(r.subrange(r.len() - upload_path().len(), r.len() as int) =~= upload_path());
        }
        assert(r.take(r.len() - upload_path().len()) =~= url);
        if is_suffix(upload_path(), url) {
            lemma_suffix_contains(url, upload_path());
        }
    }
}

} // verus!
