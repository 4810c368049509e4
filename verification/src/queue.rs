//! Queue identifiers: game modes, display names and duration text.
use vstd::prelude::*;

use crate::text::{concat3, decimal_pad2, i64_to_decimal, int_to_decimal, owned, str_eq, u64_to_decimal_pad2};

verus! {

/// The arena queues (normal 1700, ranked 1710), whose teams are given by subteam placement.
pub open spec fn spec_is_arena_queue(queue_id: i64) -> bool {
    queue_id == 1700 || queue_id == 1710
}

/// Whether a queue is an arena queue.
pub fn is_arena_queue(queue_id: i64) -> (r: bool)
    ensures
        r == spec_is_arena_queue(queue_id),
{
    queue_id == 1700 || queue_id == 1710
}

/// One entry of the queue table: the queue id as written in the table, its
/// display name and its map.
pub struct QueueEntry {
    pub key: String,
    pub name: String,
    pub map: String,
}

/// The shared queue table: the Teamfight Tactics queue ids, and the name and
/// map of each known queue, keyed by the queue id's decimal text.
pub struct QueueTable {
    pub tft_queue_ids: Vec<i32>,
    pub queues: Vec<QueueEntry>,
}

/// Whether the table lists `queue_id` among the Teamfight Tactics queues.
pub open spec fn spec_is_tft_queue(table: QueueTable, queue_id: i32) -> bool {
    table.tft_queue_ids@.contains(queue_id)
}

/// Whether a queue is a Teamfight Tactics queue.
pub fn is_tft_queue(table: &QueueTable, queue_id: i32) -> (r: bool)
    ensures
        r == spec_is_tft_queue(*table, queue_id),
{
    let mut k: usize = 0;
    while k < table.tft_queue_ids.len()
        invariant
            k <= table.tft_queue_ids.len(),
            forall|i: int| 0 <= i < k ==> table.tft_queue_ids@[i] != queue_id,
        decreases table.tft_queue_ids.len() - k,
    {
        if table.tft_queue_ids[k] == queue_id {
            assert(table.tft_queue_ids@[k as int] == queue_id);
            return true;
        }
        k = k + 1;
    }
    false
}

/// The OP.GG game mode of a queue; `None` for unknown and custom queues.
pub open spec fn spec_opgg_mode(queue_id: i32) -> Option<Seq<char>> {
    if queue_id == 450 || queue_id == 2400 || queue_id == 2450 {
        Some("aram"@)
    } else if queue_id == 1700 || queue_id == 1710 {
        Some("arena"@)
    } else if queue_id == 1300 {
        Some("nexus_blitz"@)
    } else if queue_id == 900 || queue_id == 1900 {
        Some("urf"@)
    } else if queue_id == 400 || queue_id == 420 || queue_id == 430 || queue_id == 440 || queue_id
        == 480 || queue_id == 490 || queue_id == 800 || queue_id == 810 || queue_id == 830
        || queue_id == 840 || queue_id == 850 {
        Some("ranked"@)
    } else {
        None
    }
}

/// Maps a queue to the game mode OP.GG uses.
pub fn queue_id_to_opgg_mode(queue_id: i32) -> (r: Option<&'static str>)
    ensures
        r matches Some(s) ==> spec_opgg_mode(queue_id) == Some(s@),
        r is None ==> spec_opgg_mode(queue_id) is None,
{
    if queue_id == 450 || queue_id == 2400 || queue_id == 2450 {
        Some("aram")
    } else if queue_id == 1700 || queue_id == 1710 {
        Some("arena")
    } else if queue_id == 1300 {
        Some("nexus_blitz")
    } else if queue_id == 900 || queue_id == 1900 {
        Some("urf")
    } else if queue_id == 400 || queue_id == 420 || queue_id == 430 || queue_id == 440 || queue_id
        == 480 || queue_id == 490 || queue_id == 800 || queue_id == 810 || queue_id == 830
        || queue_id == 840 || queue_id == 850 {
        Some("ranked")
    } else {
        None
    }
}

/// Display name and map of a queue.
pub struct QueueInfo {
    pub name: String,
    pub map: String,
}

/// The first entry of `entries` whose key is `key`.
pub open spec fn queue_entry(entries: Seq<QueueEntry>, key: Seq<char>) -> Option<QueueEntry>
    decreases entries.len(),
{
    if entries.len() == 0 {
        None
    } else if entries[0].key@ == key {
        Some(entries[0])
    } else {
        queue_entry(entries.drop_first(), key)
    }
}

/// The name and map shown for a queue: its entry in the table, looked up by
/// the queue id's decimal text; unknown queues are custom.
pub open spec fn spec_queue_info(table: QueueTable, queue_id: i32) -> (Seq<char>, Seq<char>) {
    match queue_entry(table.queues@, int_to_decimal(queue_id as int)) {
        Some(e) => (e.name@, e.map@),
        None => ("自定义模式"@, "自定义"@),
    }
}

/// Looks a queue up in the queue table.
pub fn get_queue_info(table: &QueueTable, queue_id: i32) -> (r: QueueInfo)
    ensures
        (r.name@, r.map@) == spec_queue_info(*table, queue_id),
{
    let key = i64_to_decimal(queue_id as i64);
    let mut k: usize = 0;
    assert(table.queues@.skip(0) =~= table.queues@);
    while k < table.queues.len()
        invariant
            k <= table.queues.len(),
            key@ == int_to_decimal(queue_id as int),
            queue_entry(table.queues@, key@) == queue_entry(table.queues@.skip(k as int), key@),
        decreases table.queues.len() - k,
    {
        assert(table.queues@.skip(k as int).drop_first() =~= table.queues@.skip(k + 1));
        assert(table.queues@.skip(k as int)[0] == table.queues@[k as int]);
        if str_eq(table.queues[k].key.as_str(), key.as_str()) {
            return QueueInfo { name: table.queues[k].name.clone(), map: table.queues[k].map.clone() };
        }
        k = k + 1;
    }
    QueueInfo { name: owned("自定义模式"), map: owned("自定义") }
}

/// `mm:ss` text of a duration in seconds: minutes are not folded into hours.
pub open spec fn spec_secs_to_str(total_secs: u64) -> Seq<char> {
    decimal_pad2((total_secs / 60) as nat) + ":"@ + decimal_pad2((total_secs % 60) as nat)
}

/// Formats a duration in seconds as `mm:ss`.
pub fn secs_to_str(total_secs: u64) -> (r: String)
    ensures
        r@ == spec_secs_to_str(total_secs),
{
    let mins = u64_to_decimal_pad2(total_secs / 60);
    let secs = u64_to_decimal_pad2(total_secs % 60);
    concat3(mins.as_str(), ":", secs.as_str())
}

} // verus!
