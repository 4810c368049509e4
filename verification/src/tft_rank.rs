//! TFT ranked standing, read from the LCU ranked statistics.
use vstd::prelude::*;

use crate::json::{array_field, field, i64_field, str_field, unwrap_or, wrap_i32, Json};
use crate::text::{owned, str_eq};

verus! {

/// The player's TFT standing in the three ranked queues.
pub struct TftRankDisplay {
    pub solo_tier: String,
    pub solo_division: String,
    pub solo_lp: i32,
    pub solo_wins: i32,
    pub solo_losses: i32,
    pub turbo_tier: String,
    pub turbo_rating: i32,
    pub turbo_wins: i32,
    pub double_tier: String,
    pub double_division: String,
    pub double_lp: i32,
    pub double_wins: i32,
    pub double_losses: i32,
}

/// The last queue record of type `ty`.
pub open spec fn last_queue(qs: Seq<Json>, ty: Seq<char>) -> Option<Json>
    decreases qs.len(),
{
    if qs.len() == 0 {
        None
    } else if unwrap_or(str_field(qs.last(), "queueType"@), Seq::empty()) == ty {
        Some(qs.last())
    } else {
        last_queue(qs.drop_last(), ty)
    }
}

/// A string member of the queue, else `d`; `d` without the queue.
pub open spec fn q_str(q: Option<Json>, key: Seq<char>, d: Seq<char>) -> Seq<char> {
    match q {
        Some(q) => unwrap_or(str_field(q, key), d),
        None => d,
    }
}

/// The division of the queue (`division`, else `rank`), else `NA`.
pub open spec fn q_division(q: Option<Json>) -> Seq<char> {
    match q {
        Some(q) => unwrap_or(
            crate::json::opt_str(crate::json::or_else(field(q, "division"@), field(q, "rank"@))),
            "NA"@,
        ),
        None => "NA"@,
    }
}

/// An integer member of the queue cast to `i32`, else 0.
pub open spec fn q_int(q: Option<Json>, key: Seq<char>) -> i32 {
    match q {
        Some(q) => wrap_i32(unwrap_or(i64_field(q, key), 0)),
        None => 0,
    }
}

/// The standing read from the ranked statistics: for each of `RANKED_TFT`,
/// `RANKED_TFT_TURBO` and `RANKED_TFT_DOUBLE_UP`, the last record of that queue.
pub open spec fn rank_is(r: TftRankDisplay, stats: Json) -> bool {
    let qs = unwrap_or(array_field(stats, "queues"@), Seq::empty());
    let solo = last_queue(qs, "RANKED_TFT"@);
    let turbo = last_queue(qs, "RANKED_TFT_TURBO"@);
    let double = last_queue(qs, "RANKED_TFT_DOUBLE_UP"@);
    &&& r.solo_tier@ == q_str(solo, "tier"@, "UNRANKED"@)
    &&& r.solo_division@ == q_division(solo)
    &&& r.solo_lp == q_int(solo, "leaguePoints"@)
    &&& r.solo_wins == q_int(solo, "wins"@)
    &&& r.solo_losses == q_int(solo, "losses"@)
    &&& r.turbo_tier@ == q_str(turbo, "ratedTier"@, "NONE"@)
    &&& r.turbo_rating == q_int(turbo, "ratedRating"@)
    &&& r.turbo_wins == q_int(turbo, "wins"@)
    &&& r.double_tier@ == q_str(double, "tier"@, "UNRANKED"@)
    &&& r.double_division@ == q_division(double)
    &&& r.double_lp == q_int(double, "leaguePoints"@)
    &&& r.double_wins == q_int(double, "wins"@)
    &&& r.double_losses == q_int(double, "losses"@)
}

/// The queue records of the ranked statistics.
pub open spec fn queue_records(stats: Json) -> Seq<Json> {
    unwrap_or(array_field(stats, "queues"@), Seq::empty())
}

/// Record `k` of `qs` is of queue type `ty` and no later record is.
pub open spec fn is_last_of_type(qs: Seq<Json>, k: int, ty: Seq<char>) -> bool {
    &&& 0 <= k < qs.len()
    &&& str_field(qs[k], "queueType"@) == Some(ty)
    &&& forall|j: int| k < j < qs.len() ==> str_field(#[trigger] qs[j], "queueType"@) != Some(ty)
}

/// No record of `qs` is of queue type `ty`.
pub open spec fn no_record_of_type(qs: Seq<Json>, ty: Seq<char>) -> bool {
    forall|j: int| 0 <= j < qs.len() ==> str_field(#[trigger] qs[j], "queueType"@) != Some(ty)
}

/// The division of a queue record: its `division` member, else its `rank`
/// member, where that member is a string; else `NA`.
pub open spec fn division_of(q: Json) -> Seq<char> {
    match field(q, "division"@) {
        Some(d) => unwrap_or(crate::json::as_str(d), "NA"@),
        None => unwrap_or(str_field(q, "rank"@), "NA"@),
    }
}

/// An integer member read into the standing: the member where it is an
/// integer in `i32` range.
pub open spec fn reads_int(v: i32, q: Json, key: Seq<char>) -> bool {
    match i64_field(q, key) {
        Some(n) => i32::MIN <= n <= i32::MAX ==> v == n,
        None => v == 0,
    }
}

proof fn lemma_last_queue_found(qs: Seq<Json>, k: int, ty: Seq<char>)
    requires
        ty.len() > 0,
        is_last_of_type(qs, k, ty),
    ensures
        last_queue(qs, ty) == Some(qs[k]),
    decreases qs.len(),
{
    if k < qs.len() - 1 {
        let t = qs.drop_last();
        assert(str_field(qs[qs.len() - 1], "queueType"@) != Some(ty));
        assert(is_last_of_type(t, k, ty)) by {
            assert forall|j: int| k < j < t.len() implies str_field(#[trigger] t[j], "queueType"@) != Some(ty) by {
                assert(t[j] == qs[j]);
            }
        }
        lemma_last_queue_found(t, k, ty);
    }
}

proof fn lemma_last_queue_absent(qs: Seq<Json>, ty: Seq<char>)
    requires
        ty.len() > 0,
        no_record_of_type(qs, ty),
    ensures
        last_queue(qs, ty) is None,
    decreases qs.len(),
{
    if qs.len() > 0 {
        let t = qs.drop_last();
        assert(str_field(qs[qs.len() - 1], "queueType"@) != Some(ty));
        assert(no_record_of_type(t, ty)) by {
            assert forall|j: int| 0 <= j < t.len() implies str_field(#[trigger] t[j], "queueType"@) != Some(ty) by {
                assert(t[j] == qs[j]);
            }
        }
        lemma_last_queue_absent(t, ty);
    }
}

/// The ranked (solo) standing is read from the last `RANKED_TFT` record: its
/// `tier` (else `UNRANKED`), its `division` (else `rank`, else `NA`), and its
/// `leaguePoints`, `wins` and `losses`.
pub proof fn law_solo_standing(r: TftRankDisplay, stats: Json, k: int)
    requires
        rank_is(r, stats),
        is_last_of_type(queue_records(stats), k, "RANKED_TFT"@),
    ensures
        r.solo_tier@ == unwrap_or(str_field(queue_records(stats)[k], "tier"@), "UNRANKED"@),
        r.solo_division@ == division_of(queue_records(stats)[k]),
        reads_int(r.solo_lp, queue_records(stats)[k], "leaguePoints"@),
        reads_int(r.solo_wins, queue_records(stats)[k], "wins"@),
        reads_int(r.solo_losses, queue_records(stats)[k], "losses"@),
{
    reveal_strlit("RANKED_TFT");
    lemma_last_queue_found(queue_records(stats), k, "RANKED_TFT"@);
}

/// The Hyper Roll standing is read from the last `RANKED_TFT_TURBO` record:
/// its `ratedTier` (else `NONE`), `ratedRating` and `wins`.
pub proof fn law_turbo_standing(r: TftRankDisplay, stats: Json, k: int)
    requires
        rank_is(r, stats),
        is_last_of_type(queue_records(stats), k, "RANKED_TFT_TURBO"@),
    ensures
        r.turbo_tier@ == unwrap_or(str_field(queue_records(stats)[k], "ratedTier"@), "NONE"@),
        reads_int(r.turbo_rating, queue_records(stats)[k], "ratedRating"@),
        reads_int(r.turbo_wins, queue_records(stats)[k], "wins"@),
{
    reveal_strlit("RANKED_TFT_TURBO");
    lemma_last_queue_found(queue_records(stats), k, "RANKED_TFT_TURBO"@);
}

/// The Double Up standing is read from the last `RANKED_TFT_DOUBLE_UP` record:
/// its `tier` (else `UNRANKED`), `leaguePoints`, `wins` and `losses`.
pub proof fn law_double_standing(r: TftRankDisplay, stats: Json, k: int)
    requires
        rank_is(r, stats),
        is_last_of_type(queue_records(stats), k, "RANKED_TFT_DOUBLE_UP"@),
    ensures
        r.double_tier@ == unwrap_or(str_field(queue_records(stats)[k], "tier"@), "UNRANKED"@),
        r.double_division@ == division_of(queue_records(stats)[k]),
        reads_int(r.double_lp, queue_records(stats)[k], "leaguePoints"@),
        reads_int(r.double_wins, queue_records(stats)[k], "wins"@),
        reads_int(r.double_losses, queue_records(stats)[k], "losses"@),
{
    reveal_strlit("RANKED_TFT_DOUBLE_UP");
    lemma_last_queue_found(queue_records(stats), k, "RANKED_TFT_DOUBLE_UP"@);
}

/// Without a `RANKED_TFT` record the player is unranked there: tier
/// `UNRANKED`, division `NA`, no points, wins or losses.
pub proof fn law_solo_unranked(r: TftRankDisplay, stats: Json)
    requires
        rank_is(r, stats),
        no_record_of_type(queue_records(stats), "RANKED_TFT"@),
    ensures
        r.solo_tier@ == "UNRANKED"@,
        r.solo_division@ == "NA"@,
        r.solo_lp == 0 && r.solo_wins == 0 && r.solo_losses == 0,
{
    reveal_strlit("RANKED_TFT");
    lemma_last_queue_absent(queue_records(stats), "RANKED_TFT"@);
}

/// Without a `RANKED_TFT_TURBO` record the Hyper Roll standing is empty:
/// tier `NONE`, no rating, no wins.
pub proof fn law_turbo_unrated(r: TftRankDisplay, stats: Json)
    requires
        rank_is(r, stats),
        no_record_of_type(queue_records(stats), "RANKED_TFT_TURBO"@),
    ensures
        r.turbo_tier@ == "NONE"@,
        r.turbo_rating == 0 && r.turbo_wins == 0,
{
    reveal_strlit("RANKED_TFT_TURBO");
    lemma_last_queue_absent(queue_records(stats), "RANKED_TFT_TURBO"@);
}

/// Without a `RANKED_TFT_DOUBLE_UP` record the player is unranked there: tier
/// `UNRANKED`, division `NA`, no points, wins or losses.
pub proof fn law_double_unranked(r: TftRankDisplay, stats: Json)
    requires
        rank_is(r, stats),
        no_record_of_type(queue_records(stats), "RANKED_TFT_DOUBLE_UP"@),
    ensures
        r.double_tier@ == "UNRANKED"@,
        r.double_division@ == "NA"@,
        r.double_lp == 0 && r.double_wins == 0 && r.double_losses == 0,
{
    reveal_strlit("RANKED_TFT_DOUBLE_UP");
    lemma_last_queue_absent(queue_records(stats), "RANKED_TFT_DOUBLE_UP"@);
}

fn last_queue_exec<'a>(qs: &'a Vec<Json>, ty: &str) -> (r: Option<&'a Json>)
    ensures
        crate::tft::deref_json(r) == last_queue(qs@, ty@),
{
    let mut k: usize = qs.len();
    assert(qs@.take(qs.len() as int) =~= qs@);
    while k > 0
        invariant
            k <= qs.len(),
            last_queue(qs@, ty@) == last_queue(qs@.take(k as int), ty@),
        decreases k,
    {
        assert(qs@.take(k as int).drop_last() =~= qs@.take(k - 1));
        assert(qs@.take(k as int).last() == qs@[k - 1]);
        let t = match qs[k - 1].str_at("queueType") {
            Some(s) => s,
            None => "",
        };
        proof {
            reveal_strlit("");
            assert(""@ =~= Seq::<char>::empty());
        }
        if str_eq(t, ty) {
            return Some(&qs[k - 1]);
        }
        k = k - 1;
    }
    None
}

fn q_str_exec(q: Option<&Json>, key: &str, d: &str) -> (r: String)
    ensures
        r@ == q_str(crate::tft::deref_json(q), key@, d@),
{
    match q {
        Some(q) => match q.str_at(key) {
            Some(s) => owned(s),
            None => owned(d),
        },
        None => owned(d),
    }
}

fn q_division_exec(q: Option<&Json>) -> (r: String)
    ensures
        r@ == q_division(crate::tft::deref_json(q)),
{
    match q {
        Some(q) => match crate::tft::opt_as_str(crate::tft::or_field(q.get("division"), q, "rank")) {
            Some(s) => owned(s),
            None => owned("NA"),
        },
        None => owned("NA"),
    }
}

fn q_int_exec(q: Option<&Json>, key: &str) -> (r: i32)
    ensures
        r == q_int(crate::tft::deref_json(q), key@),
{
    match q {
        Some(q) => match q.i64_at(key) {
            Some(n) => n as i32,
            None => 0,
        },
        None => 0,
    }
}

/// Reads the TFT standing from the LCU ranked statistics.
pub fn tft_rank_from_stats(stats: &Json) -> (r: TftRankDisplay)
    ensures
        rank_is(r, *stats),
{
    let empty: Vec<Json> = Vec::new();
    let qs = match stats.array_at("queues") {
        Some(a) => a,
        None => &empty,
    };
    let solo = last_queue_exec(qs, "RANKED_TFT");
    let turbo = last_queue_exec(qs, "RANKED_TFT_TURBO");
    let double = last_queue_exec(qs, "RANKED_TFT_DOUBLE_UP");
    TftRankDisplay {
        solo_tier: q_str_exec(solo, "tier", "UNRANKED"),
        solo_division: q_division_exec(solo),
        solo_lp: q_int_exec(solo, "leaguePoints"),
        solo_wins: q_int_exec(solo, "wins"),
        solo_losses: q_int_exec(solo, "losses"),
        turbo_tier: q_str_exec(turbo, "ratedTier", "NONE"),
        turbo_rating: q_int_exec(turbo, "ratedRating"),
        turbo_wins: q_int_exec(turbo, "wins"),
        double_tier: q_str_exec(double, "tier", "UNRANKED"),
        double_division: q_division_exec(double),
        double_lp: q_int_exec(double, "leaguePoints"),
        double_wins: q_int_exec(double, "wins"),
        double_losses: q_int_exec(double, "losses"),
    }
}

} // verus!
