//! The small decisions behind the client commands: rune pages, skins, practice
//! lobbies, ARAM swaps, the client's install paths and the catalogue proxy.
use vstd::prelude::*;

use crate::json::{bool_field, i64_field, unwrap_or, Json};
use crate::text::{
    concat2, concat3, i64_to_decimal, int_to_decimal, is_prefix, owned, starts_with, str_eq, trim,
    trim_ws,
};

verus! {

/// A rune page to apply.
pub struct RunePageParams {
    pub name: String,
    pub primary_style_id: i32,
    pub sub_style_id: i32,
    pub selected_perk_ids: Vec<i32>,
}

/// The current rune page may be deleted to make room: it says it is deletable
/// and has a positive id.
pub open spec fn spec_deletable_page(page: Option<Json>) -> Option<i64> {
    match page {
        Some(p) => match (bool_field(p, "isDeletable"@), i64_field(p, "id"@)) {
            (Some(d), Some(id)) => if d && id > 0 {
                Some(id)
            } else {
                None
            },
            _ => None,
        },
        None => None,
    }
}

/// The id of the current rune page when it may be replaced (`page` is `None`
/// when it could not be read).
pub fn deletable_page_id(page: Option<&Json>) -> (r: Option<i64>)
    ensures
        r == spec_deletable_page(crate::tft::deref_json(page)),
{
    match page {
        Some(p) => match (p.bool_at("isDeletable"), p.i64_at("id")) {
            (Some(d), Some(id)) => if d && id > 0 {
                Some(id)
            } else {
                None
            },
            _ => None,
        },
        None => None,
    }
}

/// One skin of a champion.
pub struct SkinEntry {
    pub id: i32,
    pub name: String,
    pub load_screen_path: String,
}

/// The loading-screen path used when a skin gives none.
pub open spec fn default_load_screen(champion_id: i32, skin_id: i32) -> Seq<char> {
    "/lol-game-data/assets/v1/champion-loadscreens/"@ + int_to_decimal(champion_id as int) + "/"@
        + int_to_decimal(skin_id as int) + ".jpg"@
}

/// The entry of a skin of champion `champion_id`.
pub fn skin_entry(champion_id: i32, id: i32, name: String, load_screen_path: Option<String>) -> (r: SkinEntry)
    ensures
        r.id == id,
        r.name@ == name@,
        r.load_screen_path@ == match load_screen_path {
            Some(p) => p@,
            None => default_load_screen(champion_id, id),
        },
{
    let path = match load_screen_path {
        Some(p) => p,
        None => {
            let c = i64_to_decimal(champion_id as i64);
            let s = i64_to_decimal(id as i64);
            let head = concat3("/lol-game-data/assets/v1/champion-loadscreens/", c.as_str(), "/");
            concat3(head.as_str(), s.as_str(), ".jpg")
        },
    };
    SkinEntry { id, name, load_screen_path: path }
}

/// A custom practice lobby to create.
pub struct CreateLobbyParams {
    pub lobby_name: String,
    pub password: Option<String>,
}

/// The champion to swap back to after an ARAM reroll: the one selected, which
/// must exist.
pub fn swap_back_champion(selection: &Json) -> (r: Result<i64, String>)
    ensures
        unwrap_or(i64_field(*selection, "championId"@), 0i64) == 0 ==> (r matches Err(e) && e@
            == "未选择英雄，无法摇号换回"@),
        unwrap_or(i64_field(*selection, "championId"@), 0i64) != 0 ==> r == Ok::<i64, String>(
            unwrap_or(i64_field(*selection, "championId"@), 0i64),
        ),
{
    let c = match selection.i64_at("championId") {
        Some(c) => c,
        None => 0,
    };
    if c == 0 {
        Err("未选择英雄，无法摇号换回".to_string())
    } else {
        Ok(c)
    }
}

/// The message after a successful swap back.
pub fn swap_back_message(champion_id: i64) -> (r: String)
    ensures
        r@ == "摇号换回成功 (原英雄: "@ + int_to_decimal(champion_id as int) + ")"@,
{
    let c = i64_to_decimal(champion_id);
    concat3("摇号换回成功 (原英雄: ", c.as_str(), ")")
}

/// The first configured client path that is not the WeGame marker.
pub open spec fn first_client_path(paths: Seq<String>, marker: Seq<char>) -> Option<int>
    decreases paths.len(),
{
    if paths.len() == 0 {
        None
    } else if paths[0]@ != marker {
        Some(0)
    } else {
        match first_client_path(paths.drop_first(), marker) {
            Some(i) => Some(i + 1),
            None => None,
        }
    }
}

/// The first configured client path that is not `marker` (the entry that stands
/// for launching through WeGame).
pub fn real_client_path<'a>(paths: &'a Vec<String>, marker: &str) -> (r: Option<&'a String>)
    ensures
        match first_client_path(paths@, marker@) {
            Some(i) => r matches Some(p) && p@ == paths@[i]@,
            None => r is None,
        },
{
    let mut k: usize = 0;
    assert(paths@.skip(0) =~= paths@);
    while k < paths.len()
        invariant
            k <= paths.len(),
            forall|j: int| 0 <= j < k ==> (#[trigger] paths@[j])@ == marker@,
            first_client_path(paths@, marker@) == match first_client_path(paths@.skip(k as int), marker@) {
                Some(i) => Some(i + k),
                None => None,
            },
        decreases paths.len() - k,
    {
        let ghost rest = paths@.skip(k as int);
        assert(rest[0] == paths@[k as int]);
        assert(rest.drop_first() =~= paths@.skip(k + 1));
        if !str_eq(paths[k].as_str(), marker) {
            return Some(&paths[k]);
        }
        k = k + 1;
    }
    assert(paths@.skip(k as int) =~= Seq::<String>::empty());
    None
}

/// The configured WeGame location to try first: the trimmed setting, when not empty.
pub fn configured_wegame_path(configured: Option<&str>) -> (r: Option<String>)
    ensures
        match configured {
            Some(p) => if trim_ws(p@).len() > 0 {
                r matches Some(t) && t@ == trim_ws(p@)
            } else {
                r is None
            },
            None => r is None,
        },
{
    match configured {
        Some(p) => {
            let t = trim(p);
            if t.as_str().is_empty() {
                None
            } else {
                Some(t)
            }
        },
        None => None,
    }
}

/// The proxy for the TFT catalogue download: kept when it names an HTTP, HTTPS
/// or SOCKS5 scheme, else taken as HTTP.
pub open spec fn spec_catalogue_proxy(addr: Seq<char>) -> Seq<char> {
    if !is_prefix("http://"@, addr) && !is_prefix("https://"@, addr) && !is_prefix("socks5://"@, addr) {
        "http://"@ + addr
    } else {
        addr
    }
}

/// The URL of the proxy used for the TFT catalogue download.
pub fn catalogue_proxy_url(addr: &str) -> (r: String)
    ensures
        r@ == spec_catalogue_proxy(addr@),
{
    if !starts_with(addr, "http://") && !starts_with(addr, "https://") && !starts_with(addr, "socks5://") {
        concat2("http://", addr)
    } else {
        owned(addr)
    }
}

} // verus!
