//! Reading participants out of a match detail document.
use vstd::prelude::*;

use crate::json::{i64_field, or_else, str_field, unwrap_or, Json};
use crate::text::owned;

verus! {

/// The participant's puuid when present and non-empty.
pub open spec fn spec_extract_puuid(participant: Json) -> Option<Seq<char>> {
    match str_field(participant, "puuid"@) {
        Some(s) => if s.len() > 0 {
            Some(s)
        } else {
            None
        },
        None => None,
    }
}

/// The team a participant belongs to: the subteam placement in arena (absent when
/// missing), otherwise `teamId` of the participant or of its stats, 0 when missing.
pub open spec fn spec_resolve_team_id(participant: Json, stats: Json, is_arena: bool) -> Option<
    i32,
> {
    if is_arena {
        match i64_field(stats, "subteamPlacement"@) {
            Some(v) => Some(v as i32),
            None => None,
        }
    } else {
        Some(
            unwrap_or(
                or_else(i64_field(participant, "teamId"@), i64_field(stats, "teamId"@)),
                0i64,
            ) as i32,
        )
    }
}

/// The non-empty puuid of a participant.
pub fn extract_puuid(participant: &Json) -> (r: Option<String>)
    ensures
        r matches Some(s) ==> spec_extract_puuid(*participant) == Some(s@),
        r is None ==> spec_extract_puuid(*participant) is None,
{
    match participant.str_at("puuid") {
        Some(s) => if !s.is_empty() {
            Some(owned(s))
        } else {
            None
        },
        None => None,
    }
}

/// The team a participant belongs to.
pub fn resolve_team_id(participant: &Json, stats: &Json, is_arena: bool) -> (r: Option<i32>)
    ensures
        r == spec_resolve_team_id(*participant, *stats, is_arena),
{
    if is_arena {
        return match stats.i64_at("subteamPlacement") {
            Some(v) => Some(v as i32),
            None => None,
        };
    }
    let team = match participant.i64_at("teamId") {
        Some(v) => v,
        None => match stats.i64_at("teamId") {
            Some(v) => v,
            None => 0,
        },
    };
    Some(team as i32)
}

} // verus!
