//! A short-lived cache of match detail records, shared by the consumers that
//! read the same game right after it ends. Times are milliseconds of a
//! monotonic clock, handed in by the caller.
use vstd::prelude::*;

use crate::json::Json;
use crate::tft::deref_json;

verus! {

/// A record is served for this long after it was fetched.
pub const DETAIL_TTL_MS: u64 = 45_000;

/// At most this many records are kept.
pub const DETAIL_MAX_ENTRIES: usize = 24;

/// One cached record: game id, record, fetch time.
pub struct DetailEntry {
    pub game_id: u64,
    pub value: Json,
    pub fetched_at: u64,
}

/// The cache: at most one record per game, at most `DETAIL_MAX_ENTRIES` records.
pub struct MatchDetailCache {
    pub entries: Vec<DetailEntry>,
}

/// The time elapsed since `then`, as a monotonic clock reports it (never negative).
pub open spec fn elapsed(now: u64, then: u64) -> int {
    if now >= then {
        now - then
    } else {
        0
    }
}

/// A record fetched at `then` is still fresh at `now`.
pub open spec fn fresh(now: u64, then: u64) -> bool {
    elapsed(now, then) < DETAIL_TTL_MS
}

/// The index of the entry of `game_id`.
pub open spec fn entry_index(es: Seq<DetailEntry>, game_id: u64) -> Option<int>
    decreases es.len(),
{
    if es.len() == 0 {
        None
    } else {
        match entry_index(es.drop_last(), game_id) {
            Some(i) => Some(i),
            None => if es.last().game_id == game_id {
                Some(es.len() - 1)
            } else {
                None
            },
        }
    }
}

impl MatchDetailCache {
    /// At most one record per game, at most `DETAIL_MAX_ENTRIES` records.
    pub open spec fn wf(&self) -> bool {
        &&& self.entries.len() <= DETAIL_MAX_ENTRIES
        &&& distinct_games(self.entries@)
    }

    /// The record served for `game_id` at `now`.
    pub open spec fn served(&self, game_id: u64, now: u64) -> Option<Json> {
        served_in(self.entries@, game_id, now)
    }

    /// An empty cache.
    pub fn new() -> (r: MatchDetailCache)
        ensures
            r.wf(),
            r.entries@.len() == 0,
    {
        MatchDetailCache { entries: Vec::new() }
    }

    /// The record of `game_id` when it is cached and fresh at `now`.
    pub fn get(&self, game_id: u64, now: u64) -> (r: Option<&Json>)
        ensures
            deref_json(r) == self.served(game_id, now),
    {
        let mut i: usize = 0;
        while i < self.entries.len()
            invariant
                i <= self.entries.len(),
                forall|k: int| 0 <= k < i ==> (#[trigger] self.entries@[k]).game_id != game_id,
            decreases self.entries.len() - i,
        {
            if self.entries[i].game_id == game_id {
                proof {
                    lemma_entry_index_first(self.entries@, game_id, i as int);
                }
                let e = &self.entries[i];
                let fresh_now = if now >= e.fetched_at {
                    now - e.fetched_at < DETAIL_TTL_MS
                } else {
                    true
                };
                if fresh_now {
                    return Some(&e.value);
                } else {
                    return None;
                }
            }
            i = i + 1;
        }
        proof {
            lemma_entry_index_first(self.entries@, game_id, i as int);
        }
        None
    }

    /// Caches the record of `game_id` fetched at `now`: stale records are
    /// dropped, then the oldest record when the cache is full, and the record
    /// replaces any earlier one of the same game.
    pub fn put(&mut self, game_id: u64, value: Json, now: u64)
        requires
            old(self).wf(),
        ensures
            final(self).wf(),
            final(self).entries@ == upsert_entry(
                evict_if_full(keep_fresh(old(self).entries@, now)),
                DetailEntry { game_id, value, fetched_at: now },
            ),
            final(self).served(game_id, now) == Some(value),
    {
        let ghost start = self.entries@;
        // Drop the stale records.
        let mut kept: Vec<DetailEntry> = Vec::new();
        let mut rest: Vec<DetailEntry> = Vec::new();
        std::mem::swap(&mut rest, &mut self.entries);
        let ghost orig = rest@;
        let ghost n = orig.len();
        while rest.len() > 0
            invariant
                rest.len() <= n,
                n == orig.len(),
                rest@ =~= orig.skip(n - rest.len()),
                kept@ == keep_fresh(orig.take(n - rest.len()), now),
            decreases rest.len(),
        {
            let ghost done = n - rest.len();
            let e = rest.remove(0);
            assert(e == orig[done]) by {
                assert(orig.skip(done)[0] == orig[done]);
            }
            assert(orig.take(done + 1).drop_last() =~= orig.take(done));
            assert(orig.take(done + 1).last() == e);
            let stale = if now >= e.fetched_at {
                now - e.fetched_at >= DETAIL_TTL_MS
            } else {
                false
            };
            if !stale {
                kept.push(e);
            }
            assert(rest@ =~= orig.skip(n - rest.len()));
        }
        assert(orig.take(n as int) =~= orig);
        proof {
            lemma_keep_fresh(orig, now);
        }
        // Evict the oldest record when full.
        if kept.len() >= DETAIL_MAX_ENTRIES {
            let mut oldest: usize = 0;
            let mut k: usize = 1;
            assert(kept@.take(1).len() == 1);
            while k < kept.len()
                invariant
                    1 <= k <= kept.len(),
                    oldest < k,
                    oldest as int == oldest_index(kept@.take(k as int)),
                decreases kept.len() - k,
            {
                assert(kept@.take(k + 1).drop_last() =~= kept@.take(k as int));
                assert(kept@.take(k + 1).last() == kept@[k as int]);
                assert(kept@.take(k as int)[oldest as int] == kept@[oldest as int]);
                if kept[k].fetched_at < kept[oldest].fetched_at {
                    oldest = k;
                }
                k = k + 1;
            }
            assert(kept@.take(kept.len() as int) =~= kept@);
            kept.remove(oldest);
        }
        let ghost evicted = kept@;
        assert(evicted == evict_if_full(keep_fresh(orig, now)));
        proof {
            lemma_evict(keep_fresh(orig, now));
        }
        // Replace or add the record.
        let mut i: usize = 0;
        while i < kept.len()
            invariant
                i <= kept.len(),
                forall|k: int| 0 <= k < i ==> (#[trigger] kept@[k]).game_id != game_id,
            ensures
                i <= kept.len(),
                forall|k: int| 0 <= k < i ==> (#[trigger] kept@[k]).game_id != game_id,
                i < kept.len() ==> kept@[i as int].game_id == game_id,
            decreases kept.len() - i,
        {
            if kept[i].game_id == game_id {
                break;
            }
            i = i + 1;
        }
        proof {
            lemma_entry_index_first(kept@, game_id, i as int);
        }
        let entry = DetailEntry { game_id, value, fetched_at: now };
        if i < kept.len() {
            kept.set(i, entry);
        } else {
            kept.push(entry);
        }
        self.entries = kept;
        proof {
            lemma_upsert_entry(evicted, DetailEntry { game_id, value, fetched_at: now });
        }
    }
}

/// The record of `game_id` in `es` when it is fresh at `now`.
pub open spec fn served_in(es: Seq<DetailEntry>, game_id: u64, now: u64) -> Option<Json> {
    match entry_index(es, game_id) {
        Some(i) => if fresh(now, es[i].fetched_at) {
            Some(es[i].value)
        } else {
            None
        },
        None => None,
    }
}

/// A record cached at `t` is served, unchanged, at any later time while it is fresh.
pub proof fn law_read_after_write(
    es: Seq<DetailEntry>,
    game_id: u64,
    value: Json,
    t: u64,
    later: u64,
)
    requires
        distinct_games(es),
        fresh(later, t),
    ensures
        served_in(
            upsert_entry(
                evict_if_full(keep_fresh(es, t)),
                DetailEntry { game_id, value, fetched_at: t },
            ),
            game_id,
            later,
        ) == Some(value),
{
    lemma_keep_fresh(es, t);
    lemma_evict(keep_fresh(es, t));
    lemma_upsert_entry(evict_if_full(keep_fresh(es, t)), DetailEntry { game_id, value, fetched_at: t });
}

/// The first index of the earliest fetch time (0 for a list of at most one).
pub open spec fn oldest_index(es: Seq<DetailEntry>) -> int
    decreases es.len(),
{
    if es.len() <= 1 {
        0
    } else {
        let i = oldest_index(es.drop_last());
        if es.last().fetched_at < es[i].fetched_at {
            es.len() - 1
        } else {
            i
        }
    }
}

/// A full list without its oldest record; a list with room unchanged.
pub open spec fn evict_if_full(es: Seq<DetailEntry>) -> Seq<DetailEntry> {
    if es.len() >= DETAIL_MAX_ENTRIES {
        es.remove(oldest_index(es))
    } else {
        es
    }
}

/// `es` with `e` in place of the record of its game, or added at the end.
pub open spec fn upsert_entry(es: Seq<DetailEntry>, e: DetailEntry) -> Seq<DetailEntry> {
    match entry_index(es, e.game_id) {
        Some(i) => es.update(i, e),
        None => es.push(e),
    }
}

/// No two records of one game.
pub open spec fn distinct_games(es: Seq<DetailEntry>) -> bool {
    forall|i: int, j: int| 0 <= i < j < es.len() ==> (#[trigger] es[i]).game_id != (#[trigger] es[j]).game_id
}

proof fn lemma_oldest_in_range(es: Seq<DetailEntry>)
    ensures
        es.len() > 0 ==> 0 <= oldest_index(es) < es.len(),
    decreases es.len(),
{
    if es.len() > 1 {
        lemma_oldest_in_range(es.drop_last());
    }
}

proof fn lemma_keep_fresh(es: Seq<DetailEntry>, now: u64)
    ensures
        keep_fresh(es, now).len() <= es.len(),
        forall|k: int| 0 <= k < keep_fresh(es, now).len() ==> es.contains(#[trigger] keep_fresh(es, now)[k]),
        distinct_games(es) ==> distinct_games(keep_fresh(es, now)),
    decreases es.len(),
{
    if es.len() > 0 {
        let t = es.drop_last();
        lemma_keep_fresh(t, now);
        let kt = keep_fresh(t, now);
        assert forall|k: int| 0 <= k < keep_fresh(es, now).len() implies es.contains(#[trigger] keep_fresh(es, now)[k]) by {
            if k < kt.len() {
                let m = choose|m: int| 0 <= m < t.len() && t[m] == kt[k];
                assert(es[m] == t[m]);
            } else {
                assert(es[es.len() - 1] == es.last());
            }
        }
        if distinct_games(es) {
            assert(distinct_games(t)) by {
                assert forall|i: int, j: int| 0 <= i < j < t.len() implies (#[trigger] t[i]).game_id != (#[trigger] t[j]).game_id by {
                    assert(es[i] == t[i] && es[j] == t[j]);
                }
            }
            assert forall|k: int| 0 <= k < kt.len() implies (#[trigger] kt[k]).game_id != es.last().game_id by {
                let m = choose|m: int| 0 <= m < t.len() && t[m] == kt[k];
                assert(es[m] == t[m]);
                assert(es[es.len() - 1] == es.last());
            }
        }
    }
}

proof fn lemma_evict(es: Seq<DetailEntry>)
    ensures
        es.len() >= DETAIL_MAX_ENTRIES ==> evict_if_full(es).len() == es.len() - 1,
        distinct_games(es) ==> distinct_games(evict_if_full(es)),
{
    lemma_oldest_in_range(es);
    if es.len() >= DETAIL_MAX_ENTRIES && distinct_games(es) {
        let i = oldest_index(es);
        let r = es.remove(i);
        assert forall|a: int, b: int| 0 <= a < b < r.len() implies (#[trigger] r[a]).game_id != (#[trigger] r[b]).game_id by {
            let aa = if a < i {
                a
            } else {
                a + 1
            };
            let bb = if b < i {
                b
            } else {
                b + 1
            };
            assert(r[a] == es[aa] && r[b] == es[bb]);
        }
    }
}

proof fn lemma_upsert_entry(es: Seq<DetailEntry>, e: DetailEntry)
    requires
        distinct_games(es),
    ensures
        distinct_games(upsert_entry(es, e)),
        upsert_entry(es, e).len() <= es.len() + 1,
        entry_index(es, e.game_id) is Some ==> upsert_entry(es, e).len() == es.len(),
        entry_index(upsert_entry(es, e), e.game_id) matches Some(i) && upsert_entry(es, e)[i] == e,
{
    lemma_entry_index_range(es, e.game_id);
    let r = upsert_entry(es, e);
    match entry_index(es, e.game_id) {
        Some(i) => {
            assert forall|k: int| 0 <= k < i implies (#[trigger] r[k]).game_id != e.game_id by {
                assert(r[k] == es[k]);
            }
            lemma_entry_index_first(r, e.game_id, i);
        },
        None => {
            assert forall|k: int| 0 <= k < es.len() implies (#[trigger] r[k]).game_id != e.game_id by {
                assert(r[k] == es[k]);
            }
            lemma_entry_index_first(r, e.game_id, es.len() as int);
        },
    }
}

proof fn lemma_entry_index_range(es: Seq<DetailEntry>, game_id: u64)
    ensures
        entry_index(es, game_id) matches Some(i) ==> 0 <= i < es.len() && es[i].game_id == game_id,
        entry_index(es, game_id) is None ==> forall|k: int| 0 <= k < es.len() ==> (#[trigger] es[k]).game_id != game_id,
    decreases es.len(),
{
    if es.len() > 0 {
        lemma_entry_index_range(es.drop_last(), game_id);
        assert forall|k: int| 0 <= k < es.len() - 1 implies es[k] == es.drop_last()[k] by {}
    }
}

/// The records still fresh at `now`, in order.
pub open spec fn keep_fresh(es: Seq<DetailEntry>, now: u64) -> Seq<DetailEntry>
    decreases es.len(),
{
    if es.len() == 0 {
        Seq::empty()
    } else {
        let rest = keep_fresh(es.drop_last(), now);
        if fresh(now, es.last().fetched_at) {
            rest.push(es.last())
        } else {
            rest
        }
    }
}


proof fn lemma_entry_index_first(es: Seq<DetailEntry>, game_id: u64, i: int)
    requires
        0 <= i <= es.len(),
        forall|k: int| 0 <= k < i ==> (#[trigger] es[k]).game_id != game_id,
    ensures
        i < es.len() && es[i].game_id == game_id ==> entry_index(es, game_id) == Some(i),
        i == es.len() ==> entry_index(es, game_id) is None,
    decreases es.len(),
{
    if es.len() > 0 {
        if i == es.len() {
            lemma_entry_index_first(es.drop_last(), game_id, i - 1);
        } else {
            lemma_entry_index_first(es.drop_last(), game_id, i);
        }
    }
}

} // verus!
