//! Starting the game client: recognising it, choosing how to start it, and
//! asking for elevation when the system refuses.
use vstd::prelude::*;

use crate::text::{
    ascii_lower_seq, chars_of, concat2, concat3, contains, eq_ignore_ascii_case, replace_all,
    replace_vec, seq_contains, string_of, to_lowercase, unicode_lowercase,
};

verus! {

/// The running client is recognised by its process name.
pub fn is_league_client_process(name: &str) -> (r: bool)
    ensures
        r == (ascii_lower_seq(name@) == ascii_lower_seq("leagueclientux.exe"@)),
{
    eq_ignore_ascii_case(name, "leagueclientux.exe")
}

/// A client found as `LeagueClient.exe` is started through the Riot services
/// when those are installed beside it.
pub fn is_league_client_exe(file_name: &str) -> (r: bool)
    ensures
        r == (unicode_lowercase(file_name@) == "leagueclient.exe"@),
{
    let lower = to_lowercase(file_name);
    crate::text::str_eq(lower.as_str(), "leagueclient.exe")
}

/// The arguments given to the Riot services: the League product, on the PBE
/// patch line when the client's path mentions it, else the live one.
pub open spec fn spec_riot_launch_args(exe_path: Seq<char>) -> Seq<Seq<char>> {
    let line = if seq_contains(unicode_lowercase(exe_path), "pbe"@) {
        "pbe"@
    } else {
        "live"@
    };
    seq!["--launch-product=league_of_legends"@, "--launch-patchline="@ + line]
}

/// The arguments given to the Riot services for the client at `exe_path`.
pub fn riot_launch_args(exe_path: &str) -> (r: Vec<String>)
    ensures
        r@.map_values(|s: String| s@) == spec_riot_launch_args(exe_path@),
{
    let lower = to_lowercase(exe_path);
    let line = if contains(lower.as_str(), "pbe") {
        "pbe"
    } else {
        "live"
    };
    let mut v: Vec<String> = Vec::new();
    v.push("--launch-product=league_of_legends".to_string());
    v.push(concat2("--launch-patchline=", line));
    assert(v@.map_values(|s: String| s@) =~= spec_riot_launch_args(exe_path@));
    v
}

/// Starting again with elevation is tried after "elevation required" (740) or
/// "access denied" (5).
pub fn needs_elevation(os_error: Option<i32>) -> (r: bool)
    ensures
        r == (os_error == Some(740i32) || os_error == Some(5i32)),
{
    match os_error {
        Some(c) => c == 740 || c == 5,
        None => false,
    }
}

/// A string quoted for PowerShell: each `'` doubled.
pub open spec fn ps_escape(s: Seq<char>) -> Seq<char> {
    replace_all(s, seq!['\''], seq!['\'', '\''])
}

/// The arguments as a PowerShell list: each quoted, separated by `, `.
pub open spec fn ps_arg_list(args: Seq<String>) -> Seq<char>
    decreases args.len(),
{
    if args.len() == 0 {
        Seq::empty()
    } else if args.len() == 1 {
        "'"@ + ps_escape(args[0]@) + "'"@
    } else {
        ps_arg_list(args.drop_last()) + ", '"@ + ps_escape(args.last()@) + "'"@
    }
}

/// The PowerShell command that starts `exe` elevated in `working_dir`.
pub open spec fn spec_elevated_start(exe: Seq<char>, working_dir: Seq<char>, args: Seq<String>) -> Seq<char> {
    if args.len() == 0 {
        "Start-Process -FilePath '"@ + ps_escape(exe) + "' -WorkingDirectory '"@ + ps_escape(working_dir)
            + "' -Verb RunAs"@
    } else {
        "Start-Process -FilePath '"@ + ps_escape(exe) + "' -ArgumentList "@ + ps_arg_list(args)
            + " -WorkingDirectory '"@ + ps_escape(working_dir) + "' -Verb RunAs"@
    }
}

/// A string quoted for PowerShell.
fn escape_ps(s: &str) -> (r: String)
    ensures
        r@ == ps_escape(s@),
{
    let cs = chars_of(s);
    let mut from: Vec<char> = Vec::new();
    from.push('\'');
    let mut to: Vec<char> = Vec::new();
    to.push('\'');
    to.push('\'');
    assert(from@ =~= seq!['\'']);
    assert(to@ =~= seq!['\'', '\'']);
    string_of(replace_vec(cs.as_slice(), from.as_slice(), to.as_slice()).as_slice())
}

/// The PowerShell command that starts `exe` elevated, in `working_dir`, with `args`.
pub fn elevated_start_command(exe: &str, working_dir: &str, args: &Vec<String>) -> (r: String)
    ensures
        r@ == spec_elevated_start(exe@, working_dir@, args@),
{
    let e = escape_ps(exe);
    let w = escape_ps(working_dir);
    if args.len() == 0 {
        let a = concat3("Start-Process -FilePath '", e.as_str(), "' -WorkingDirectory '");
        return concat3(a.as_str(), w.as_str(), "' -Verb RunAs");
    }
    let mut list = String::new();
    let mut k: usize = 0;
    while k < args.len()
        invariant
            k <= args.len(),
            list@ == ps_arg_list(args@.take(k as int)),
        decreases args.len() - k,
    {
        assert(args@.take(k + 1).drop_last() =~= args@.take(k as int));
        assert(args@.take(k + 1).last() == args@[k as int]);
        let q = escape_ps(args[k].as_str());
        if k == 0 {
            assert(args@.take(k + 1).len() == 1);
            assert(args@.take(k + 1)[0] == args@[0]);
            list = concat3("'", q.as_str(), "'");
        } else {
            let head = concat3(list.as_str(), ", '", q.as_str());
            list = concat2(head.as_str(), "'");
        }
        k = k + 1;
    }
    assert(args@.take(args.len() as int) =~= args@);
    let a = concat3("Start-Process -FilePath '", e.as_str(), "' -ArgumentList ");
    let b = concat3(a.as_str(), list.as_str(), " -WorkingDirectory '");
    concat3(b.as_str(), w.as_str(), "' -Verb RunAs")
}

} // verus!
