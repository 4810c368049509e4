//! The players the summoner met or marked: the records kept about them, and the
//! rules that page, filter and update those records.
use vstd::prelude::*;

use crate::current_game::non_empty;
use crate::json::{i64_field, str_field, unwrap_or, wrap_i32, Json};
use crate::text::{concat2, owned, str_eq};

verus! {

/// A request to save (or update) a player record.
pub struct SaveSavedPlayerInput {
    pub puuid: String,
    pub self_puuid: String,
    pub rso_platform_id: String,
    pub region: String,
    /// `None` keeps the stored tag.
    pub tag: Option<String>,
    pub summoner_name: String,
    pub profile_icon_id: i32,
    /// The player was met in a game just now.
    pub encountered: bool,
    pub champion_id: i32,
}

/// The short mark of a saved player shown beside his name.
pub struct SavedPlayerMarker {
    pub tag: Option<String>,
    pub encounter_count: i32,
    pub auto_tag: Option<String>,
    pub last_relation: Option<String>,
    pub last_met_at: Option<i64>,
    /// Empty, `black` or `white`.
    pub list_kind: String,
    pub list_reason: Option<String>,
}

/// One game in which a saved player was met.
pub struct EncounteredGameDto {
    pub id: i64,
    pub game_id: i64,
    pub puuid: String,
    pub self_puuid: String,
    pub region: String,
    pub rso_platform_id: String,
    pub queue_type: String,
    pub update_at: i64,
}

/// One page of results and the total count.
pub struct PageResult<T> {
    pub data: Vec<T>,
    pub count: i64,
}

/// Default and largest page size of the saved-player list.
pub const SAVED_PLAYERS_PAGE_SIZE: i64 = 50;

pub const SAVED_PLAYERS_PAGE_MAX: i64 = 200;

/// Default and largest page size of a player's encounter list.
pub const ENCOUNTERS_PAGE_SIZE: i64 = 20;

pub const ENCOUNTERS_PAGE_MAX: i64 = 100;

/// The requested page, at least 1 (1 when absent).
pub open spec fn page_number(page: Option<i64>) -> int {
    let p = unwrap_or(page, 1i64);
    if p < 1 {
        1
    } else {
        p as int
    }
}

/// The requested page size clamped to `1..=max` (`default` when absent).
pub open spec fn page_size_of(size: Option<i64>, default: i64, max: i64) -> int {
    let s = unwrap_or(size, default);
    if s < 1 {
        1
    } else if s > max {
        max as int
    } else {
        s as int
    }
}

/// The limit and offset of the requested page.
pub fn page_window(page: Option<i64>, page_size: Option<i64>, default: i64, max: i64) -> (r: (i64, i64))
    requires
        1 <= max,
        (page_number(page) - 1) * page_size_of(page_size, default, max) <= i64::MAX,
    ensures
        r.0 == page_size_of(page_size, default, max),
        r.1 == (page_number(page) - 1) * page_size_of(page_size, default, max),
{
    let p = match page {
        Some(p) => p,
        None => 1,
    };
    let p = if p < 1 {
        1
    } else {
        p
    };
    let s = match page_size {
        Some(s) => s,
        None => default,
    };
    let s = if s < 1 {
        1
    } else if s > max {
        max
    } else {
        s
    };
    (s, (p - 1) * s)
}

/// The condition that narrows the saved-player list for a filter.
pub open spec fn spec_filter_clause(filter: Option<Seq<char>>) -> Seq<char> {
    match filter {
        Some(f) => if f == "tagged"@ {
            " AND ((tag IS NOT NULL AND tag != '') OR (auto_tag IS NOT NULL AND auto_tag != '') OR list_kind IN ('black', 'white'))"@
        } else if f == "black"@ {
            " AND list_kind = 'black'"@
        } else if f == "white"@ {
            " AND list_kind = 'white'"@
        } else if f == "multiple"@ {
            " AND (SELECT COUNT(*) FROM encountered_games eg WHERE eg.puuid = saved_players.puuid AND eg.self_puuid = saved_players.self_puuid) >= 2"@
        } else {
            ""@
        },
        None => ""@,
    }
}

/// The condition that narrows the saved-player list: `tagged` (tagged, auto-tagged
/// or listed), `black`, `white`, `multiple` (met at least twice); anything else
/// lists all.
pub fn saved_players_filter_clause(filter: Option<&str>) -> (r: &'static str)
    ensures
        r@ == spec_filter_clause(match filter {
            Some(f) => Some(f@),
            None => None,
        }),
{
    match filter {
        Some(f) => if str_eq(f, "tagged") {
            " AND ((tag IS NOT NULL AND tag != '') OR (auto_tag IS NOT NULL AND auto_tag != '') OR list_kind IN ('black', 'white'))"
        } else if str_eq(f, "black") {
            " AND list_kind = 'black'"
        } else if str_eq(f, "white") {
            " AND list_kind = 'white'"
        } else if str_eq(f, "multiple") {
            " AND (SELECT COUNT(*) FROM encountered_games eg WHERE eg.puuid = saved_players.puuid AND eg.self_puuid = saved_players.self_puuid) >= 2"
        } else {
            ""
        },
        None => "",
    }
}

/// A list kind is empty (no list), `black` or `white`.
pub open spec fn is_list_kind(kind: Seq<char>) -> bool {
    kind == "black"@ || kind == "white"@ || kind == ""@
}

/// Accepts a list kind, or names the invalid one.
pub fn validate_list_kind(kind: &str) -> (r: Result<(), String>)
    ensures
        is_list_kind(kind@) ==> r is Ok,
        !is_list_kind(kind@) ==> (r matches Err(e) && e@ == "无效名单类型: "@ + kind@),
{
    if str_eq(kind, "black") || str_eq(kind, "white") || str_eq(kind, "") {
        Ok(())
    } else {
        Err(concat2("无效名单类型: ", kind))
    }
}

/// The identity read from a summoner record to fill a saved player: tag line,
/// name (display name, else game name) and a positive icon id; `None` when all
/// three are missing.
pub open spec fn spec_identity(info: Json) -> Option<(Seq<char>, Seq<char>, i32)> {
    let tag_line = unwrap_or(str_field(info, "tagLine"@), Seq::empty());
    let name = match non_empty(info, "displayName"@) {
        Some(n) => n,
        None => unwrap_or(non_empty(info, "gameName"@), Seq::empty()),
    };
    let icon = match i64_field(info, "profileIconId"@) {
        Some(n) => if n > 0 {
            wrap_i32(n)
        } else {
            0
        },
        None => 0,
    };
    if tag_line.len() == 0 && name.len() == 0 && icon == 0 {
        None
    } else {
        Some((tag_line, name, icon))
    }
}

/// The identity to fill into a saved player from his summoner record.
pub fn identity_from_summoner(info: &Json) -> (r: Option<(String, String, i32)>)
    ensures
        match r {
            Some(t) => spec_identity(*info) == Some((t.0@, t.1@, t.2)),
            None => spec_identity(*info) is None,
        },
{
    let tag_line = match info.str_at("tagLine") {
        Some(s) => owned(s),
        None => String::new(),
    };
    let name = match info.str_at("displayName") {
        Some(n) if !n.is_empty() => owned(n),
        _ => match info.str_at("gameName") {
            Some(n) if !n.is_empty() => owned(n),
            _ => String::new(),
        },
    };
    let icon: i32 = match info.i64_at("profileIconId") {
        Some(n) => if n > 0 {
            n as i32
        } else {
            0
        },
        None => 0,
    };
    if tag_line.as_str().is_empty() && name.as_str().is_empty() && icon == 0 {
        None
    } else {
        Some((tag_line, name, icon))
    }
}

/// The index of the first entry whose key is `key`.
pub open spec fn stat_index(stats: Seq<(String, i32)>, key: Seq<char>) -> Option<int>
    decreases stats.len(),
{
    if stats.len() == 0 {
        None
    } else {
        match stat_index(stats.drop_last(), key) {
            Some(i) => Some(i),
            None => if stats.last().0@ == key {
                Some(stats.len() - 1)
            } else {
                None
            },
        }
    }
}

proof fn lemma_stat_index(stats: Seq<(String, i32)>, key: Seq<char>)
    ensures
        match stat_index(stats, key) {
            Some(i) => 0 <= i < stats.len() && stats[i].0@ == key && forall|j: int|
                0 <= j < i ==> (#[trigger] stats[j]).0@ != key,
            None => forall|j: int| 0 <= j < stats.len() ==> (#[trigger] stats[j]).0@ != key,
        },
    decreases stats.len(),
{
    if stats.len() > 0 {
        lemma_stat_index(stats.drop_last(), key);
        assert forall|j: int| 0 <= j < stats.len() - 1 implies stats.drop_last()[j] == stats[j] by {}
    }
}

/// Counts one more `key` tag in a player's tag history (a list of tag keys and
/// counts): the count of the first entry with that key grows by one, or the key
/// is added with count 1.
pub fn bump_tag_stat(stats: &mut Vec<(String, i32)>, key: &str)
    requires
        match stat_index(old(stats)@, key@) {
            Some(i) => 0 <= i < old(stats)@.len() ==> old(stats)@[i].1 < i32::MAX,
            None => true,
        },
    ensures
        match stat_index(old(stats)@, key@) {
            Some(i) => {
                &&& final(stats)@.len() == old(stats)@.len()
                &&& final(stats)@[i].0@ == key@
                &&& final(stats)@[i].1 == old(stats)@[i].1 + 1
                &&& forall|j: int|
                    0 <= j < old(stats)@.len() && j != i ==> #[trigger] final(stats)@[j] == old(stats)@[j]
            },
            None => {
                &&& final(stats)@.len() == old(stats)@.len() + 1
                &&& final(stats)@[old(stats)@.len() as int].0@ == key@
                &&& final(stats)@[old(stats)@.len() as int].1 == 1
                &&& forall|j: int| 0 <= j < old(stats)@.len() ==> #[trigger] final(stats)@[j] == old(stats)@[j]
            },
        },
{
    let mut k: usize = 0;
    while k < stats.len()
        invariant
            k <= stats.len(),
            stats@ == old(stats)@,
            match stat_index(old(stats)@, key@) {
                Some(i) => 0 <= i < old(stats)@.len() ==> old(stats)@[i].1 < i32::MAX,
                None => true,
            },
            forall|j: int| 0 <= j < k ==> (#[trigger] stats@[j]).0@ != key@,
        decreases stats.len() - k,
    {
        if str_eq(stats[k].0.as_str(), key) {
            proof {
                lemma_stat_index(stats@, key@);
                match stat_index(stats@, key@) {
                    Some(i) => {
                        if i < k {
                            assert(stats@[i].0@ != key@);
                        }
                        if i > k {
                            assert(stats@[k as int].0@ != key@);
                        }
                    },
                    None => {
                        assert(stats@[k as int].0@ != key@);
                    },
                }
            }
            let count = stats[k].1;
            let name = owned(key);
            stats.set(k, (name, count + 1));
            return;
        }
        k = k + 1;
    }
    proof {
        lemma_stat_index(stats@, key@);
    }
    stats.push((owned(key), 1));
}

} // verus!
