//! Requests to OP.GG: the champion data address, and the deck list inside a
//! tool-call reply.
use vstd::prelude::*;

use crate::json::{as_array, as_str, field, Json};
use crate::text::{concat2, concat3, i64_to_decimal, int_to_decimal, str_eq};

verus! {

/// The champion data address for a region and mode: a champion's page (its
/// position, `none` when not given, except in arena) or the mode's list.
pub open spec fn spec_opgg_url(region: Seq<char>, mode: Seq<char>, champion_id: Option<i32>, position: Option<Seq<char>>) -> Seq<char> {
    let base = "https://lol-api-champion.op.gg/api/"@ + region + "/champions/"@;
    match champion_id {
        Some(id) => if mode == "arena"@ {
            base + int_to_decimal(id as int)
        } else {
            let pos = match position {
                Some(p) => p,
                None => "none"@,
            };
            base + mode + "/"@ + int_to_decimal(id as int) + "/"@ + pos
        },
        None => base + mode,
    }
}

/// The OP.GG champion data address.
pub fn opgg_url(region: &str, mode: &str, champion_id: Option<i32>, position: Option<&str>) -> (r: String)
    ensures
        r@ == spec_opgg_url(region@, mode@, champion_id, match position {
            Some(p) => Some(p@),
            None => None,
        }),
{
    let base = concat3("https://lol-api-champion.op.gg/api/", region, "/champions/");
    match champion_id {
        Some(id) => {
            let digits = i64_to_decimal(id as i64);
            if str_eq(mode, "arena") {
                concat2(base.as_str(), digits.as_str())
            } else {
                let pos = match position {
                    Some(p) => p,
                    None => "none",
                };
                let a = concat3(base.as_str(), mode, "/");
                let b = concat3(a.as_str(), digits.as_str(), "/");
                concat2(b.as_str(), pos)
            }
        },
        None => concat2(base.as_str(), mode),
    }
}

/// `j[key]` as serde indexes it: the member, or `null` when absent.
pub open spec fn index(j: Json, key: Seq<char>) -> Json {
    match field(j, key) {
        Some(v) => v,
        None => Json::Null,
    }
}

/// The text of the first content item of a tool-call reply.
pub open spec fn reply_text(raw: Json) -> Option<Seq<char>> {
    match as_array(index(index(raw, "result"@), "content"@)) {
        Some(arr) => if arr.len() > 0 {
            as_str(index(arr[0], "text"@))
        } else {
            None
        },
        None => None,
    }
}

/// The deck text of a tool-call reply: fails with the reply's error message, or
/// when the reply has no `result.content[0].text`.
pub fn mcp_content_text(raw: &Json) -> (r: Result<&str, String>)
    ensures
        match field(*raw, "error"@) {
            Some(err) => r matches Err(e) && e@ == "OP.GG MCP 返回错误: "@ + match as_str(index(err, "message"@)) {
                Some(m) => m,
                None => "未知 MCP 错误"@,
            },
            None => match reply_text(*raw) {
                Some(t) => r matches Ok(s) && s@ == t,
                None => r matches Err(e) && e@ == "OP.GG MCP 响应格式异常: 缺少 result.content[].text"@,
            },
        },
{
    match raw.get("error") {
        Some(err) => {
            let msg = match err.get("message") {
                Some(m) => match m.as_str() {
                    Some(s) => s,
                    None => "未知 MCP 错误",
                },
                None => "未知 MCP 错误",
            };
            return Err(concat2("OP.GG MCP 返回错误: ", msg));
        },
        None => {},
    }
    let missing = "OP.GG MCP 响应格式异常: 缺少 result.content[].text";
    let result = match raw.get("result") {
        Some(r) => r,
        None => return Err(missing.to_string()),
    };
    let content = match result.get("content") {
        Some(c) => c,
        None => return Err(missing.to_string()),
    };
    let arr = match content.as_array() {
        Some(a) => a,
        None => return Err(missing.to_string()),
    };
    if arr.len() == 0 {
        return Err(missing.to_string());
    }
    match arr[0].get("text") {
        Some(t) => match t.as_str() {
            Some(s) => Ok(s),
            None => Err(missing.to_string()),
        },
        None => Err(missing.to_string()),
    }
}

} // verus!
