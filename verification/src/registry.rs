//! Reading install locations out of `reg query` output and registry values.
use vstd::prelude::*;

use crate::tft_augments::{char_pos, lemma_char_pos};
use crate::text::{
    chars_of, contains, first_occurrence, lemma_first_occurrence_from, replace_all, replace_vec,
    seq_contains, string_of, sub_vec, to_lowercase, to_uppercase, trim_end_char, trim_end_char_vec,
    trim_start_char, trim_start_char_vec, trim_vec, trim_ws, unicode_lowercase, unicode_uppercase,
    find_from, str_eq,
};

verus! {

/// A line without the carriage return that ended it.
pub open spec fn strip_cr(l: Seq<char>) -> Seq<char> {
    if l.len() > 0 && l.last() == '\r' {
        l.drop_last()
    } else {
        l
    }
}

/// The lines of `s` as `str::lines` gives them: split at `\n` (a `\r` before it
/// dropped), with no empty line after a final `\n`.
pub open spec fn lines_of(s: Seq<char>) -> Seq<Seq<char>>
    decreases s.len(),
{
    if s.len() == 0 {
        Seq::empty()
    } else {
        match char_pos(s, '\n') {
            None => seq![s],
            Some(i) => {
                proof {
                    lemma_char_pos(s, '\n');
                }
                seq![strip_cr(s.take(i))] + lines_of(s.skip(i + 1))
            },
        }
    }
}

/// The value a `reg query` line gives for `name`: the line mentions `name` and
/// `REG_SZ`, and the trimmed text after the first `REG_SZ` is not empty;
/// backslashes become slashes.
pub open spec fn line_value(line: Seq<char>, name: Seq<char>) -> Option<Seq<char>> {
    if seq_contains(line, name) {
        match first_occurrence(line, "REG_SZ"@) {
            Some(pos) => {
                let raw = trim_ws(line.skip(pos + 6));
                if raw.len() > 0 {
                    Some(replace_all(raw, seq!['\\'], seq!['/']))
                } else {
                    None
                }
            },
            None => None,
        }
    } else {
        None
    }
}

/// The value of the first line that gives one.
pub open spec fn first_line_value(lines: Seq<Seq<char>>, name: Seq<char>) -> Option<Seq<char>>
    decreases lines.len(),
{
    if lines.len() == 0 {
        None
    } else {
        match line_value(lines[0], name) {
            Some(v) => Some(v),
            None => first_line_value(lines.drop_first(), name),
        }
    }
}

/// The value of one line.
fn value_of_line(line: &Vec<char>, name: &str) -> (r: Option<String>)
    ensures
        match r {
            Some(v) => line_value(line@, name@) == Some(v@),
            None => line_value(line@, name@) is None,
        },
{
    let text = string_of(line.as_slice());
    if !contains(text.as_str(), name) {
        return None;
    }
    let pat = chars_of("REG_SZ");
    match find_from(line.as_slice(), pat.as_slice(), 0) {
        Some(pos) => {
            proof {
                reveal_strlit("REG_SZ");
                lemma_first_occurrence_from(line@, "REG_SZ"@, 0);
                assert("REG_SZ"@.len() == 6);
            }
            assert(pos + 6 <= line.len());
            let rest = sub_vec(line.as_slice(), pos + 6, line.len());
            assert(rest@ =~= line@.skip(pos + 6));
            let raw = trim_vec(rest.as_slice());
            if raw.len() == 0 {
                return None;
            }
            let mut from: Vec<char> = Vec::new();
            from.push('\\');
            let mut to: Vec<char> = Vec::new();
            to.push('/');
            assert(from@ =~= seq!['\\']);
            assert(to@ =~= seq!['/']);
            Some(string_of(replace_vec(raw.as_slice(), from.as_slice(), to.as_slice()).as_slice()))
        },
        None => None,
    }
}

/// The value of `name` in the output of `reg query`: that of the first line
/// giving one.
pub fn reg_string_from_output(output: &str, name: &str) -> (r: Option<String>)
    ensures
        match r {
            Some(v) => first_line_value(lines_of(output@), name@) == Some(v@),
            None => first_line_value(lines_of(output@), name@) is None,
        },
{
    let s = chars_of(output);
    let mut pos: usize = 0;
    assert(s@.skip(0) =~= s@);
    while pos < s.len()
        invariant
            pos <= s.len(),
            s@ == output@,
            first_line_value(lines_of(output@), name@) == first_line_value(lines_of(s@.skip(pos as int)), name@),
        decreases s.len() - pos,
    {
        let ghost rest = s@.skip(pos as int);
        let end = match find_char_from(&s, pos, '\n') {
            Some(e) => e,
            None => s.len(),
        };
        let mut stop = end;
        let has_newline = end < s.len();
        if has_newline && stop > pos && s[stop - 1] == '\r' {
            stop = stop - 1;
        }
        let line = sub_vec(s.as_slice(), pos, stop);
        proof {
            lemma_char_pos(rest, '\n');
            if has_newline {
                assert(line@ =~= strip_cr(rest.take(end - pos)));
                assert(lines_of(rest) =~= seq![line@] + lines_of(rest.skip(end - pos + 1)));
                assert(rest.skip(end - pos + 1) =~= s@.skip(end + 1));
            } else {
                assert(line@ =~= rest);
                assert(lines_of(rest) =~= seq![line@]);
            }
        }
        match value_of_line(&line, name) {
            Some(v) => {
                return Some(v);
            },
            None => {},
        }
        if has_newline {
            assert((seq![line@] + lines_of(s@.skip(end + 1))).drop_first() =~= lines_of(s@.skip(end + 1)));
            pos = end + 1;
        } else {
            assert(seq![line@].drop_first() =~= Seq::<Seq<char>>::empty());
            assert(s@.skip(s.len() as int) =~= Seq::<char>::empty());
            pos = s.len();
        }
    }
    assert(s@.skip(pos as int) =~= Seq::<char>::empty());
    None
}

/// The first position of `c` at or after `from`.
fn find_char_from(s: &Vec<char>, from: usize, c: char) -> (r: Option<usize>)
    requires
        from <= s.len(),
    ensures
        match r {
            Some(i) => from <= i < s.len() && char_pos(s@.skip(from as int), c) == Some(i - from),
            None => char_pos(s@.skip(from as int), c) is None,
        },
{
    let mut k = from;
    while k < s.len()
        invariant
            from <= k <= s.len(),
            forall|j: int| from <= j < k ==> s@[j] != c,
        decreases s.len() - k,
    {
        if s[k] == c {
            proof {
                let t = s@.skip(from as int);
                lemma_char_pos(t, c);
                match char_pos(t, c) {
                    Some(i) => {
                        if i < k - from {
                            assert(t[i] == s@[from + i]);
                        }
                        if i > k - from {
                            assert(t[k - from] == s@[k as int]);
                        }
                    },
                    None => {
                        assert(t[k - from] == s@[k as int]);
                    },
                }
            }
            return Some(k);
        }
        k = k + 1;
    }
    proof {
        let t = s@.skip(from as int);
        lemma_char_pos(t, c);
        match char_pos(t, c) {
            Some(i) => {
                assert(t[i] == s@[from + i]);
            },
            None => {},
        }
    }
    None
}

/// A Windows path as kept: slashes for backslashes, and an upper-case drive
/// letter when the path starts with a one-byte letter and `:`.
pub open spec fn spec_normalize_install_path(raw: Seq<char>) -> Seq<char> {
    let p = replace_all(raw, seq!['\\'], seq!['/']);
    if p.len() >= 2 && (p[0] as u32) < 128 && p[1] == ':' {
        unicode_uppercase(seq![p[0]]) + p.skip(1)
    } else {
        p
    }
}

/// Normalizes an install path read from the registry.
pub fn normalize_install_path(raw: &str) -> (r: String)
    ensures
        r@ == spec_normalize_install_path(raw@),
{
    let cs = chars_of(raw);
    let mut from: Vec<char> = Vec::new();
    from.push('\\');
    let mut to: Vec<char> = Vec::new();
    to.push('/');
    assert(from@ =~= seq!['\\']);
    assert(to@ =~= seq!['/']);
    let p = replace_vec(cs.as_slice(), from.as_slice(), to.as_slice());
    if p.len() >= 2 && (p[0] as u32) < 128 && p[1] == ':' {
        let mut first: Vec<char> = Vec::new();
        first.push(p[0]);
        let drive = to_uppercase(string_of(first.as_slice()).as_str());
        let rest = string_of(sub_vec(p.as_slice(), 1, p.len()).as_slice());
        assert(first@ =~= seq![p@[0]]);
        crate::text::concat2(drive.as_str(), rest.as_str())
    } else {
        string_of(p.as_slice())
    }
}

/// The program path of a `DisplayIcon` value: the part before the first comma,
/// trimmed, without surrounding double quotes.
pub open spec fn spec_clean_display_icon(icon: Seq<char>) -> Seq<char> {
    let head = match char_pos(icon, ',') {
        Some(i) => icon.take(i),
        None => icon,
    };
    trim_end_char(trim_start_char(trim_ws(head), '"'), '"')
}

/// Cleans a `DisplayIcon` value.
pub fn clean_display_icon(icon: &str) -> (r: String)
    ensures
        r@ == spec_clean_display_icon(icon@),
{
    let cs = chars_of(icon);
    let head = match find_char_from(&cs, 0, ',') {
        Some(i) => {
            assert(cs@.skip(0) =~= cs@);
            sub_vec(cs.as_slice(), 0, i)
        },
        None => {
            assert(cs@.skip(0) =~= cs@);
            sub_vec(cs.as_slice(), 0, cs.len())
        },
    };
    assert(cs@.subrange(0, cs.len() as int) =~= cs@);
    let t = trim_vec(head.as_slice());
    let a = trim_start_char_vec(t.as_slice(), '"');
    let b = trim_end_char_vec(a.as_slice(), '"');
    string_of(b.as_slice())
}

/// An uninstall entry belongs to WeGame when its display name mentions it.
pub fn mentions_wegame(display_name: &str) -> (r: bool)
    ensures
        r == seq_contains(unicode_lowercase(display_name@), "wegame"@),
{
    let l = to_lowercase(display_name);
    contains(l.as_str(), "wegame")
}

/// A running process is WeGame by its lower-cased name.
pub fn is_wegame_process(name: &str) -> (r: bool)
    ensures
        r == (unicode_lowercase(name@) == "wegame.exe"@ || unicode_lowercase(name@) == "wegame"@),
{
    let l = to_lowercase(name);
    str_eq(l.as_str(), "wegame.exe") || str_eq(l.as_str(), "wegame")
}

} // verus!
