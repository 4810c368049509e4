//! Pipeline counters for diagnostics: plain event counts kept by the process.
use vstd::prelude::*;

verus! {

/// Event counters. Each counter wraps around at `u64::MAX`, as an atomic `fetch_add` does.
pub struct PipelineStats {
    /// champ-select session events dropped by throttling
    pub champ_select_throttled: u64,
    /// pick/ban frames dropped because the channel was full
    pub bp_channel_dropped: u64,
    /// gameflow frames dropped because the channel was full
    pub match_channel_dropped: u64,
    /// websocket events emitted to the front end
    pub ws_events_emitted: u64,
    /// match detail cache hits
    pub match_detail_cache_hits: u64,
    /// match detail cache misses (real requests)
    pub match_detail_cache_misses: u64,
    /// uploads enqueued
    pub upload_enqueued: u64,
    /// uploads that succeeded
    pub upload_success: u64,
    /// uploads that failed
    pub upload_failed: u64,
}

/// A copy of the counters for display.
pub struct PipelineStatsSnapshot {
    pub champ_select_throttled: u64,
    pub bp_channel_dropped: u64,
    pub match_channel_dropped: u64,
    pub ws_events_emitted: u64,
    pub match_detail_cache_hits: u64,
    pub match_detail_cache_misses: u64,
    pub upload_enqueued: u64,
    pub upload_success: u64,
    pub upload_failed: u64,
}

/// One more event on a counter.
pub open spec fn bump(x: u64) -> u64 {
    vstd::wrapping::u64_specs::wrapping_add(x, 1)
}

impl PipelineStats {
    /// The counters in declaration order.
    pub open spec fn counters(self) -> Seq<u64> {
        seq![
            self.champ_select_throttled,
            self.bp_channel_dropped,
            self.match_channel_dropped,
            self.ws_events_emitted,
            self.match_detail_cache_hits,
            self.match_detail_cache_misses,
            self.upload_enqueued,
            self.upload_success,
            self.upload_failed,
        ]
    }

    /// All counters at zero.
    pub fn new() -> (r: Self)
        ensures
            r.counters() == seq![0u64, 0, 0, 0, 0, 0, 0, 0, 0],
    {
        PipelineStats {
            champ_select_throttled: 0,
            bp_channel_dropped: 0,
            match_channel_dropped: 0,
            ws_events_emitted: 0,
            match_detail_cache_hits: 0,
            match_detail_cache_misses: 0,
            upload_enqueued: 0,
            upload_success: 0,
            upload_failed: 0,
        }
    }

    /// The current values of all counters.
    pub fn snapshot(&self) -> (r: PipelineStatsSnapshot)
        ensures
            r.counters() == self.counters(),
    {
        PipelineStatsSnapshot {
            champ_select_throttled: self.champ_select_throttled,
            bp_channel_dropped: self.bp_channel_dropped,
            match_channel_dropped: self.match_channel_dropped,
            ws_events_emitted: self.ws_events_emitted,
            match_detail_cache_hits: self.match_detail_cache_hits,
            match_detail_cache_misses: self.match_detail_cache_misses,
            upload_enqueued: self.upload_enqueued,
            upload_success: self.upload_success,
            upload_failed: self.upload_failed,
        }
    }
}

impl PipelineStatsSnapshot {
    /// The counters in declaration order.
    pub open spec fn counters(self) -> Seq<u64> {
        seq![
            self.champ_select_throttled,
            self.bp_channel_dropped,
            self.match_channel_dropped,
            self.ws_events_emitted,
            self.match_detail_cache_hits,
            self.match_detail_cache_misses,
            self.upload_enqueued,
            self.upload_success,
            self.upload_failed,
        ]
    }
}

/// Counting an event changes that counter by one and no other.
pub open spec fn counted(before: PipelineStats, after: PipelineStats, k: int) -> bool {
    after.counters() == before.counters().update(k, bump(before.counters()[k]))
}

pub fn incr_champ_select_throttled(stats: &mut PipelineStats)
    ensures
        counted(*old(stats), *final(stats), 0),
{
    stats.champ_select_throttled = stats.champ_select_throttled.wrapping_add(1);
    assert(final(stats).counters() =~= old(stats).counters().update(0, bump(old(stats).counters()[0])));
}

pub fn incr_bp_channel_dropped(stats: &mut PipelineStats)
    ensures
        counted(*old(stats), *final(stats), 1),
{
    stats.bp_channel_dropped = stats.bp_channel_dropped.wrapping_add(1);
    assert(final(stats).counters() =~= old(stats).counters().update(1, bump(old(stats).counters()[1])));
}

pub fn incr_match_channel_dropped(stats: &mut PipelineStats)
    ensures
        counted(*old(stats), *final(stats), 2),
{
    stats.match_channel_dropped = stats.match_channel_dropped.wrapping_add(1);
    assert(final(stats).counters() =~= old(stats).counters().update(2, bump(old(stats).counters()[2])));
}

pub fn incr_ws_events_emitted(stats: &mut PipelineStats)
    ensures
        counted(*old(stats), *final(stats), 3),
{
    stats.ws_events_emitted = stats.ws_events_emitted.wrapping_add(1);
    assert(final(stats).counters() =~= old(stats).counters().update(3, bump(old(stats).counters()[3])));
}

pub fn incr_match_detail_cache_hit(stats: &mut PipelineStats)
    ensures
        counted(*old(stats), *final(stats), 4),
{
    stats.match_detail_cache_hits = stats.match_detail_cache_hits.wrapping_add(1);
    assert(final(stats).counters() =~= old(stats).counters().update(4, bump(old(stats).counters()[4])));
}

pub fn incr_match_detail_cache_miss(stats: &mut PipelineStats)
    ensures
        counted(*old(stats), *final(stats), 5),
{
    stats.match_detail_cache_misses = stats.match_detail_cache_misses.wrapping_add(1);
    assert(final(stats).counters() =~= old(stats).counters().update(5, bump(old(stats).counters()[5])));
}

pub fn incr_upload_enqueued(stats: &mut PipelineStats)
    ensures
        counted(*old(stats), *final(stats), 6),
{
    stats.upload_enqueued = stats.upload_enqueued.wrapping_add(1);
    assert(final(stats).counters() =~= old(stats).counters().update(6, bump(old(stats).counters()[6])));
}

pub fn incr_upload_success(stats: &mut PipelineStats)
    ensures
        counted(*old(stats), *final(stats), 7),
{
    stats.upload_success = stats.upload_success.wrapping_add(1);
    assert(final(stats).counters() =~= old(stats).counters().update(7, bump(old(stats).counters()[7])));
}

pub fn incr_upload_failed(stats: &mut PipelineStats)
    ensures
        counted(*old(stats), *final(stats), 8),
{
    stats.upload_failed = stats.upload_failed.wrapping_add(1);
    assert(final(stats).counters() =~= old(stats).counters().update(8, bump(old(stats).counters()[8])));
}

/// Counting on two different counters gives the same result in either order.
pub proof fn law_counting_commutes(s: PipelineStats, a: PipelineStats, b: PipelineStats, c: PipelineStats, d: PipelineStats, i: int, j: int)
    requires
        0 <= i < 9,
        0 <= j < 9,
        counted(s, a, i),
        counted(a, b, j),
        counted(s, c, j),
        counted(c, d, i),
    ensures
        b.counters() == d.counters(),
{
    assert(b.counters() =~= d.counters());
}

} // verus!
