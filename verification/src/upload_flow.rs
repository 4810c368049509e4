//! The decisions of the upload pipeline: which games are queued, when an upload
//! starts, how a reply is read, and how a batch is tallied.
use vstd::prelude::*;

use std::collections::HashSet;

use crate::json::{bool_field, field, str_field, u64_field, unwrap_or, Json};
use crate::text::{concat2, concat3, owned, str_eq, u64_to_decimal, nat_to_decimal};
use crate::upload_payload::UploadPayload;
use crate::upload_url::{is_end_phase, is_in_game_phase, should_trigger_upload_on_phase};

verus! {

/// An upload kept on disk after a failed attempt.
pub struct PendingUploadItem {
    pub game_id: u64,
    pub payload: UploadPayload,
    pub retry_count: u32,
    pub last_error: String,
    pub created_at: String,
}

/// A queued upload: a game id whose record is still to be fetched, or a kept upload.
pub enum UploadTask {
    GameId(u64),
    Pending(Box<PendingUploadItem>),
}

impl UploadTask {
    pub open spec fn spec_game_id(&self) -> u64 {
        match self {
            UploadTask::GameId(id) => *id,
            UploadTask::Pending(item) => item.game_id,
        }
    }

    /// The game the task uploads.
    pub fn game_id(&self) -> (r: u64)
        ensures
            r == self.spec_game_id(),
    {
        match self {
            UploadTask::GameId(id) => *id,
            UploadTask::Pending(item) => item.game_id,
        }
    }
}

/// Kept uploads are retried automatically until they have been tried this often.
pub const MAX_UPLOAD_RETRY_COUNT: u32 = 10;

/// The queue takes the game `game_id` when `queued` are the games queued and
/// `uploaded` those already uploaded: a real id that is neither.
pub open spec fn queue_admits(queued: Set<u64>, uploaded: Set<u64>, game_id: u64) -> bool {
    game_id != 0 && !queued.contains(game_id) && !uploaded.contains(game_id)
}

/// The games queued for upload and not yet finished, and the games uploaded.
pub struct UploadQueueState {
    pub enqueued: HashSet<u64>,
    pub uploaded: HashSet<u64>,
}

impl UploadQueueState {
    /// An empty queue that has uploaded nothing.
    pub fn new() -> (r: UploadQueueState)
        ensures
            r.enqueued@ == Set::<u64>::empty(),
            r.uploaded@ == Set::<u64>::empty(),
    {
        UploadQueueState { enqueued: HashSet::new(), uploaded: HashSet::new() }
    }

    /// A game is queued unless its id is 0, or it is queued or uploaded already.
    pub fn should_enqueue(&self, game_id: u64) -> (r: bool)
        ensures
            r == queue_admits(self.enqueued@, self.uploaded@, game_id),
    {
        broadcast use vstd::std_specs::hash::group_hash_axioms;

        game_id != 0 && !self.enqueued.contains(&game_id) && !self.uploaded.contains(&game_id)
    }

    /// A kept upload is retried when it has been tried fewer than
    /// `MAX_UPLOAD_RETRY_COUNT` times and is neither queued nor uploaded.
    pub fn should_retry(&self, item: &PendingUploadItem) -> (r: bool)
        ensures
            r == (item.retry_count < MAX_UPLOAD_RETRY_COUNT && !self.enqueued@.contains(item.game_id)
                && !self.uploaded@.contains(item.game_id)),
    {
        broadcast use vstd::std_specs::hash::group_hash_axioms;

        item.retry_count < MAX_UPLOAD_RETRY_COUNT && !self.enqueued.contains(&item.game_id)
            && !self.uploaded.contains(&item.game_id)
    }

    /// Records a game handed to the worker.
    pub fn record_enqueued(&mut self, game_id: u64)
        ensures
            final(self).enqueued@ == old(self).enqueued@.insert(game_id),
            final(self).uploaded@ == old(self).uploaded@,
    {
        broadcast use vstd::std_specs::hash::group_hash_axioms;

        self.enqueued.insert(game_id);
    }

    /// Records a game whose upload ended: it leaves the queue, and is kept as
    /// uploaded when `uploaded` tells the upload succeeded (a failed, timed out
    /// or skipped upload may be queued again).
    pub fn finish(&mut self, game_id: u64, uploaded: bool)
        ensures
            final(self).enqueued@ == old(self).enqueued@.remove(game_id),
            final(self).uploaded@ == (if uploaded {
                old(self).uploaded@.insert(game_id)
            } else {
                old(self).uploaded@
            }),
    {
        broadcast use vstd::std_specs::hash::group_hash_axioms;

        self.enqueued.remove(&game_id);
        if uploaded {
            self.uploaded.insert(game_id);
        }
    }
}

/// A game handed to the worker is not queued again while its upload runs; once
/// uploaded it is never queued again, and after a failed upload it may be.
pub proof fn law_queue_dedupes(queued: Set<u64>, uploaded: Set<u64>, game_id: u64)
    requires
        game_id != 0,
        !uploaded.contains(game_id),
    ensures
        !queue_admits(queued.insert(game_id), uploaded, game_id),
        !queue_admits(queued.insert(game_id).remove(game_id), uploaded.insert(game_id), game_id),
        queue_admits(queued.insert(game_id).remove(game_id), uploaded, game_id),
{
}

/// The game id of a gameflow session (`gameData.gameId`), when it is positive.
pub open spec fn spec_gameflow_game_id(data: Json) -> Option<u64> {
    match field(data, "gameData"@) {
        Some(gd) => match u64_field(gd, "gameId"@) {
            Some(id) => if id > 0 {
                Some(id)
            } else {
                None
            },
            None => None,
        },
        None => None,
    }
}

/// Reads the game id of a gameflow session.
pub fn extract_gameflow_game_id(data: &Json) -> (r: Option<u64>)
    ensures
        r == spec_gameflow_game_id(*data),
{
    match data.get("gameData") {
        Some(gd) => match gd.u64_at("gameId") {
            Some(id) => if id > 0 {
                Some(id)
            } else {
                None
            },
            None => None,
        },
        None => None,
    }
}

/// What the upload trigger asks for after a phase change.
pub enum TriggerAction {
    /// Nothing to do.
    Nothing,
    /// A game runs: read its id from the gameflow session.
    FetchCurrentGameId,
    /// A game ended: resolve its id and queue it.
    StartUpload,
}

/// The upload trigger: the previous phase, the running game, and whether the
/// current game's upload is done or under way.
pub struct UploadTriggerState {
    pub prev_phase: String,
    pub current_game_id: Option<u64>,
    pub upload_completed: bool,
    pub last_game_id: u64,
}

/// How the trigger takes the phase `phase`: from `before` to `after`, asking for
/// `r`. Champion select and ready check forget the running game; a running game
/// clears the done mark and asks for its id; a move from a running game to a
/// settled phase starts one upload, unless the current game's upload is done or
/// under way.
pub open spec fn phase_taken(
    before: UploadTriggerState,
    phase: Seq<char>,
    after: UploadTriggerState,
    r: TriggerAction,
) -> bool {
    &&& after.prev_phase@ == phase
    &&& after.last_game_id == before.last_game_id
    &&& after.current_game_id == (if phase == "ChampSelect"@ || phase == "ReadyCheck"@ {
        None
    } else {
        before.current_game_id
    })
    &&& (phase == "GameStart"@ || phase == "InProgress"@ ==> r is FetchCurrentGameId
        && !after.upload_completed)
    &&& (!(phase == "GameStart"@ || phase == "InProgress"@) ==> {
        let fires = is_end_phase(phase) && is_in_game_phase(before.prev_phase@);
        &&& (r is StartUpload <==> fires && !before.upload_completed)
        &&& (r is Nothing <==> !(fires && !before.upload_completed))
        &&& after.upload_completed == (before.upload_completed || fires)
    })
}

/// After an upload has started, no later phase starts another until a game
/// runs again (`GameStart` or `InProgress`) or the upload is given back.
pub proof fn law_one_upload_per_game(
    s0: UploadTriggerState,
    s1: UploadTriggerState,
    s2: UploadTriggerState,
    p1: Seq<char>,
    p2: Seq<char>,
    r1: TriggerAction,
    r2: TriggerAction,
)
    requires
        phase_taken(s0, p1, s1, r1),
        r1 is StartUpload,
        phase_taken(s1, p2, s2, r2),
        !(p2 == "GameStart"@ || p2 == "InProgress"@),
    ensures
        !(r2 is StartUpload),
        s2.upload_completed,
{
}

impl UploadTriggerState {
    /// The trigger before any phase: previous phase `None`, nothing recorded.
    pub fn new() -> (r: UploadTriggerState)
        ensures
            r.prev_phase@ == "None"@,
            r.current_game_id is None,
            !r.upload_completed,
            r.last_game_id == 0,
    {
        UploadTriggerState {
            prev_phase: owned("None"),
            current_game_id: None,
            upload_completed: false,
            last_game_id: 0,
        }
    }

    /// Takes a phase change. Champion select and ready check forget the running
    /// game; a running game clears the done mark and asks for its id; a move
    /// from a running game to a settled phase starts one upload, unless the
    /// current game's upload is done or under way.
    pub fn on_phase_change(&mut self, phase: &str) -> (r: TriggerAction)
        ensures
            phase_taken(*old(self), phase@, *final(self), r),
    {
        let prev = self.prev_phase.clone();
        self.prev_phase = owned(phase);
        if str_eq(phase, "ChampSelect") || str_eq(phase, "ReadyCheck") {
            self.current_game_id = None;
        }
        if str_eq(phase, "GameStart") || str_eq(phase, "InProgress") {
            self.upload_completed = false;
            return TriggerAction::FetchCurrentGameId;
        }
        if !should_trigger_upload_on_phase(phase, prev.as_str()) {
            return TriggerAction::Nothing;
        }
        if self.upload_completed {
            return TriggerAction::Nothing;
        }
        self.upload_completed = true;
        TriggerAction::StartUpload
    }

    /// Records the id read from the gameflow session while a game runs.
    pub fn on_current_game_id(&mut self, game_id: Option<u64>)
        ensures
            final(self).current_game_id == (match game_id {
                Some(id) => Some(id),
                None => old(self).current_game_id,
            }),
            final(self).prev_phase == old(self).prev_phase,
            final(self).upload_completed == old(self).upload_completed,
            final(self).last_game_id == old(self).last_game_id,
    {
        match game_id {
            Some(id) => {
                self.current_game_id = Some(id);
            },
            None => {},
        }
    }

    /// An upload that could not resolve its player or game gives the game back:
    /// the next end of game may start it again.
    pub fn on_upload_abandoned(&mut self)
        ensures
            !final(self).upload_completed,
            final(self).prev_phase == old(self).prev_phase,
            final(self).current_game_id == old(self).current_game_id,
            final(self).last_game_id == old(self).last_game_id,
    {
        self.upload_completed = false;
    }

    /// Takes the resolved id of the ended game; returns whether to queue it.
    /// The game last queued is not queued again; either way the running game is
    /// forgotten.
    pub fn on_game_resolved(&mut self, game_id: u64) -> (r: bool)
        ensures
            (r, final(self).last_game_id) == spec_resolve(old(self).last_game_id, game_id),
            final(self).current_game_id is None,
            final(self).prev_phase == old(self).prev_phase,
            final(self).upload_completed == old(self).upload_completed,
    {
        self.current_game_id = None;
        if game_id == self.last_game_id {
            return false;
        }
        self.last_game_id = game_id;
        true
    }
}

/// Resolving the ended game `game_id` after `last` was queued: whether to queue
/// it, and the game then last queued.
pub open spec fn spec_resolve(last: u64, game_id: u64) -> (bool, u64) {
    (game_id != last, game_id)
}

/// A game resolved twice in a row is queued at most once.
pub proof fn law_trigger_queues_a_game_once(last: u64, game_id: u64)
    ensures
        !spec_resolve(spec_resolve(last, game_id).1, game_id).0,
{
}

/// How one upload attempt ended, as the worker saw it.
pub enum ReplyOutcome {
    /// A success status whose body parsed as JSON.
    Parsed(Json),
    /// A success status whose body did not parse.
    Unparsed,
    /// A client error status (4xx), with its status text.
    ClientError(String),
    /// Another error status, with its status text.
    OtherStatus(String),
    /// The request itself failed, with the error text.
    RequestFailed(String),
}

/// What follows an upload attempt.
pub enum AttemptVerdict {
    /// Uploaded: `new`, or `exists` when the server had the match already.
    Done(String),
    /// Refused for good; no retry.
    Fatal(String),
    /// Failed; retry, remembering this error.
    Retry(String),
}

/// The kind of a verdict.
pub enum VerdictKind {
    Done,
    Fatal,
    Retry,
}

/// An upload is attempted this many times at most.
pub const UPLOAD_ATTEMPTS: u32 = 6;

/// The verdict on an upload attempt of game `game_id`.
pub open spec fn spec_judge_upload_reply(game_id: u64, outcome: ReplyOutcome) -> (VerdictKind, Seq<
    char,
>) {
    match outcome {
        ReplyOutcome::Parsed(json) => if unwrap_or(bool_field(json, "success"@), false) {
            let is_new = match field(json, "data"@) {
                Some(d) => unwrap_or(bool_field(d, "isNewMatch"@), false),
                None => false,
            };
            (VerdictKind::Done, if is_new {
                "new"@
            } else {
                "exists"@
            })
        } else {
            (
                VerdictKind::Retry,
                "服务器处理失败: "@ + unwrap_or(str_field(json, "message"@), "未知错误"@),
            )
        },
        ReplyOutcome::Unparsed => (VerdictKind::Retry, "解析响应失败"@),
        ReplyOutcome::ClientError(status) => (
            VerdictKind::Fatal,
            "对局 "@ + nat_to_decimal(game_id as nat) + " 上传失败: HTTP "@ + status@
                + " (客户端错误不重试)"@,
        ),
        ReplyOutcome::OtherStatus(status) => (VerdictKind::Retry, "HTTP "@ + status@),
        ReplyOutcome::RequestFailed(e) => (VerdictKind::Retry, "请求失败: "@ + e@),
    }
}

/// The kind of a verdict and its text agree with the statement.
pub open spec fn verdict_is(v: AttemptVerdict, expected: (VerdictKind, Seq<char>)) -> bool {
    match v {
        AttemptVerdict::Done(t) => expected.0 is Done && t@ == expected.1,
        AttemptVerdict::Fatal(t) => expected.0 is Fatal && t@ == expected.1,
        AttemptVerdict::Retry(t) => expected.0 is Retry && t@ == expected.1,
    }
}

/// Judges an upload attempt: a success reply is `new` or `exists`, a refusal
/// of the server is retried, a client error ends the upload.
pub fn judge_upload_reply(game_id: u64, outcome: &ReplyOutcome) -> (r: AttemptVerdict)
    ensures
        verdict_is(r, spec_judge_upload_reply(game_id, *outcome)),
{
    match outcome {
        ReplyOutcome::Parsed(json) => {
            let ok = match json.bool_at("success") {
                Some(b) => b,
                None => false,
            };
            if ok {
                let is_new = match json.get("data") {
                    Some(d) => match d.bool_at("isNewMatch") {
                        Some(b) => b,
                        None => false,
                    },
                    None => false,
                };
                AttemptVerdict::Done(owned(if is_new {
                    "new"
                } else {
                    "exists"
                }))
            } else {
                let msg = match json.str_at("message") {
                    Some(m) => m,
                    None => "未知错误",
                };
                AttemptVerdict::Retry(concat2("服务器处理失败: ", msg))
            }
        },
        ReplyOutcome::Unparsed => AttemptVerdict::Retry(owned("解析响应失败")),
        ReplyOutcome::ClientError(status) => {
            let head = concat3("对局 ", u64_to_decimal(game_id).as_str(), " 上传失败: HTTP ");
            AttemptVerdict::Fatal(concat3(head.as_str(), status.as_str(), " (客户端错误不重试)"))
        },
        ReplyOutcome::OtherStatus(status) => AttemptVerdict::Retry(concat2("HTTP ", status.as_str())),
        ReplyOutcome::RequestFailed(e) => AttemptVerdict::Retry(concat2("请求失败: ", e.as_str())),
    }
}

/// The error of an upload that used all its attempts.
pub fn upload_gave_up(game_id: u64, last_error: &str) -> (r: String)
    ensures
        r@ == "对局 "@ + nat_to_decimal(game_id as nat) + " 上传失败: "@ + last_error@,
{
    let head = concat3("对局 ", u64_to_decimal(game_id).as_str(), " 上传失败: ");
    concat2(head.as_str(), last_error)
}

/// The outcome of a batch upload.
pub struct BatchUploadResult {
    pub success_count: u32,
    pub failed_count: u32,
    pub error: Option<String>,
}

/// A batch is sent in chunks of this many matches.
pub const BATCH_CHUNK: usize = 10;

/// How the upload of one chunk ended.
pub enum ChunkReply {
    /// A success status whose body parsed as JSON.
    Parsed(Json),
    /// A success status whose body did not parse: status text and parse error.
    Unparsed(String, String),
    /// An error status: status text and body.
    HttpError(String, String),
    /// The connection failed: error text. Later chunks are not sent.
    ConnectFailed(String),
}

/// `n as u32`.
pub open spec fn as_u32(n: u64) -> u32 {
    n as u32
}

/// The counts and error after a chunk of `len` matches, starting from `(s, f, e)`.
pub open spec fn spec_record_chunk(
    s: u32,
    f: u32,
    e: Option<Seq<char>>,
    len: u32,
    reply: ChunkReply,
) -> (u32, u32, Option<Seq<char>>) {
    match reply {
        ChunkReply::Parsed(json) => if unwrap_or(bool_field(json, "success"@), false) {
            let data = field(json, "data"@);
            let ok = match data {
                Some(d) => match or_success(d) {
                    Some(n) => as_u32(n),
                    None => len,
                },
                None => len,
            };
            let bad = match data {
                Some(d) => as_u32(unwrap_or(u64_field(d, "failedCount"@), 0)),
                None => 0,
            };
            (vstd::wrapping::u32_specs::wrapping_add(s, ok), vstd::wrapping::u32_specs::wrapping_add(f, bad), e)
        } else {
            (
                s,
                vstd::wrapping::u32_specs::wrapping_add(f, len),
                Some("服务器处理失败: "@ + unwrap_or(str_field(json, "message"@), "未知错误"@)),
            )
        },
        ChunkReply::Unparsed(status, err) => (
            s,
            vstd::wrapping::u32_specs::wrapping_add(f, len),
            Some("解析响应 JSON 失败 (HTTP "@ + status@ + "): "@ + err@),
        ),
        ChunkReply::HttpError(status, body) => (
            s,
            vstd::wrapping::u32_specs::wrapping_add(f, len),
            Some("HTTP "@ + status@ + ": "@ + body@.take(if body@.len() < 200 {
                body@.len() as int
            } else {
                200
            })),
        ),
        ChunkReply::ConnectFailed(err) => (s, vstd::wrapping::u32_specs::wrapping_add(f, len), Some("连接失败: "@ + err@)),
    }
}

/// The reply accepted the chunk: a JSON body whose `success` member is true.
pub open spec fn chunk_accepted(reply: ChunkReply) -> bool {
    reply matches ChunkReply::Parsed(json) && bool_field(json, "success"@) == Some(true)
}

/// `f` after `len` more failures, counted modulo 2^32.
pub open spec fn failures_after(f: u32, len: u32) -> int {
    (f + len) % 0x1_0000_0000
}

/// A chunk that was not accepted counts every one of its matches as failed:
/// the failure count grows by the chunk's length (modulo 2^32), the success
/// count stays, and the reason is recorded. An accepted chunk records no new
/// reason, and one whose reply carries no `data` counts the whole chunk as
/// uploaded.
pub proof fn law_refused_chunk_fails_whole(s: u32, f: u32, e: Option<Seq<char>>, len: u32, reply: ChunkReply)
    ensures
        !chunk_accepted(reply) ==> {
            let out = spec_record_chunk(s, f, e, len, reply);
            &&& out.0 == s
            &&& out.1 == failures_after(f, len)
            &&& out.2 is Some
        },
        chunk_accepted(reply) ==> spec_record_chunk(s, f, e, len, reply).2 == e,
        reply matches ChunkReply::Parsed(json) ==> (bool_field(json, "success"@) == Some(true) && field(
            json,
            "data"@,
        ) is None ==> spec_record_chunk(s, f, e, len, reply).0 == (s + len) % 0x1_0000_0000
            && spec_record_chunk(s, f, e, len, reply).1 == f),
{
    assert(f + len < 0x2_0000_0000);
    assert(s + len < 0x2_0000_0000);
}

/// An accepted chunk is counted as the server reports it: the uploads by
/// `successCount` (else `newMatches`; the whole chunk where neither is there),
/// the failures by `failedCount` (none where it is not there), modulo 2^32.
pub proof fn law_accepted_chunk_counts_report(s: u32, f: u32, e: Option<Seq<char>>, len: u32, json: Json, d: Json)
    requires
        bool_field(json, "success"@) == Some(true),
        field(json, "data"@) == Some(d),
    ensures
        u64_field(d, "successCount"@) matches Some(n) ==> (n < 0x1_0000_0000 ==> spec_record_chunk(
            s, f, e, len, ChunkReply::Parsed(json)).0 == (s + n) % 0x1_0000_0000),
        field(d, "successCount"@) is None ==> (u64_field(d, "newMatches"@) matches Some(n) ==> (n
            < 0x1_0000_0000 ==> spec_record_chunk(s, f, e, len, ChunkReply::Parsed(json)).0 == (s + n)
            % 0x1_0000_0000)),
        field(d, "successCount"@) is None ==> (field(d, "newMatches"@) is None ==> spec_record_chunk(
            s, f, e, len, ChunkReply::Parsed(json)).0 == (s + len) % 0x1_0000_0000),
        u64_field(d, "failedCount"@) matches Some(m) ==> (m < 0x1_0000_0000 ==> spec_record_chunk(
            s, f, e, len, ChunkReply::Parsed(json)).1 == (f + m) % 0x1_0000_0000),
        field(d, "failedCount"@) is None ==> spec_record_chunk(s, f, e, len, ChunkReply::Parsed(json)).1 == f,
{
    assert(f + len < 0x2_0000_0000);
    assert(s + len < 0x2_0000_0000);
}

/// The successes a chunk reply reports: `successCount`, else `newMatches`
/// (the first present member, read as an unsigned integer).
pub open spec fn or_success(d: Json) -> Option<u64> {
    crate::json::opt_u64(crate::json::or_else(field(d, "successCount"@), field(d, "newMatches"@)))
}

pub open spec fn opt_view(o: Option<String>) -> Option<Seq<char>> {
    match o {
        Some(s) => Some(s@),
        None => None,
    }
}

fn first_chars(s: &str, n: usize) -> (r: String)
    ensures
        r@ == s@.take(if s@.len() < n {
            s@.len() as int
        } else {
            n as int
        }),
{
    let v = crate::text::chars_of(s);
    let end = if v.len() < n {
        v.len()
    } else {
        n
    };
    crate::text::string_of(crate::text::sub_vec(v.as_slice(), 0, end).as_slice())
}

impl BatchUploadResult {
    /// Nothing uploaded, nothing failed.
    pub fn empty() -> (r: BatchUploadResult)
        ensures
            r.success_count == 0,
            r.failed_count == 0,
            r.error is None,
    {
        BatchUploadResult { success_count: 0, failed_count: 0, error: None }
    }

    /// Every one of `n` matches failed, for the reason `why`.
    pub fn all_failed(n: usize, why: String) -> (r: BatchUploadResult)
        ensures
            r.success_count == 0,
            r.failed_count == n as u32,
            opt_view(r.error) == Some(why@),
    {
        BatchUploadResult { success_count: 0, failed_count: n as u32, error: Some(why) }
    }

    /// Tallies the reply to a chunk of `len` matches; returns whether to send the
    /// next chunk (not after a connection failure). Counts wrap around `u32`.
    pub fn record_chunk(&mut self, len: u32, reply: &ChunkReply) -> (go_on: bool)
        ensures
            (final(self).success_count, final(self).failed_count, opt_view(final(self).error))
                == spec_record_chunk(
                old(self).success_count,
                old(self).failed_count,
                opt_view(old(self).error),
                len,
                *reply,
            ),
            go_on == !(reply is ConnectFailed),
            !chunk_accepted(*reply) ==> final(self).failed_count == failures_after(old(self).failed_count, len)
                && final(self).success_count == old(self).success_count && final(self).error is Some,
    {
        proof {
            law_refused_chunk_fails_whole(
                self.success_count,
                self.failed_count,
                opt_view(self.error),
                len,
                *reply,
            );
        }
        match reply {
            ChunkReply::Parsed(json) => {
                let ok = match json.bool_at("success") {
                    Some(b) => b,
                    None => false,
                };
                if ok {
                    let (good, bad) = match json.get("data") {
                        Some(d) => {
                            let first = match d.get("successCount") {
                                Some(v) => Some(v),
                                None => d.get("newMatches"),
                            };
                            let good = match first {
                                Some(v) => match v.as_u64() {
                                    Some(n) => n as u32,
                                    None => len,
                                },
                                None => len,
                            };
                            let bad = match d.u64_at("failedCount") {
                                Some(n) => n as u32,
                                None => 0,
                            };
                            (good, bad)
                        },
                        None => (len, 0),
                    };
                    self.success_count = self.success_count.wrapping_add(good);
                    self.failed_count = self.failed_count.wrapping_add(bad);
                } else {
                    let msg = match json.str_at("message") {
                        Some(m) => m,
                        None => "未知错误",
                    };
                    self.failed_count = self.failed_count.wrapping_add(len);
                    self.error = Some(concat2("服务器处理失败: ", msg));
                }
                true
            },
            ChunkReply::Unparsed(status, err) => {
                self.failed_count = self.failed_count.wrapping_add(len);
                let head = concat3("解析响应 JSON 失败 (HTTP ", status.as_str(), "): ");
                self.error = Some(concat2(head.as_str(), err.as_str()));
                true
            },
            ChunkReply::HttpError(status, body) => {
                self.failed_count = self.failed_count.wrapping_add(len);
                let preview = first_chars(body.as_str(), 200);
                let head = concat3("HTTP ", status.as_str(), ": ");
                self.error = Some(concat2(head.as_str(), preview.as_str()));
                true
            },
            ChunkReply::ConnectFailed(err) => {
                self.failed_count = self.failed_count.wrapping_add(len);
                self.error = Some(concat2("连接失败: ", err.as_str()));
                false
            },
        }
    }
}

/// The chunks of a batch of `n` matches: `[10k, min(10k + 10, n))` in order.
pub fn chunk_ranges(n: usize) -> (r: Vec<(usize, usize)>)
    ensures
        r.len() == (n + 9) / 10,
        forall|i: int|
            0 <= i < r.len() ==> #[trigger] r@[i] == ((10 * i) as usize, (if 10 * i + 10 < n {
                10 * i + 10
            } else {
                n as int
            }) as usize),
{
    let mut out: Vec<(usize, usize)> = Vec::new();
    let mut start: usize = 0;
    while start < n
        invariant
            start <= n,
            start == 10 * out.len() || start == n,
            out.len() == (start + 9) / 10,
            forall|i: int|
                0 <= i < out.len() ==> #[trigger] out@[i] == ((10 * i) as usize, (if 10 * i + 10 < n {
                    10 * i + 10
                } else {
                    n as int
                }) as usize),
        decreases n - start,
    {
        let ghost k = out.len();
        assert(start == 10 * k);
        let end = if n - start > 10 {
            start + 10
        } else {
            n
        };
        out.push((start, end));
        assert((end + 9) / 10 == k + 1) by (nonlinear_arith)
            requires
                start == 10 * k,
                end == start + 10 || (end == n && start < n && n <= start + 10),
        ;
        start = end;
    }
    out
}

/// The newest game of a match list (`games.games[0].gameId`), or why there is none.
pub open spec fn spec_latest_game_id(data: Json) -> Result<u64, Seq<char>> {
    let games = match field(data, "games"@) {
        Some(g) => crate::json::array_field(g, "games"@),
        None => None,
    };
    match games {
        Some(a) => if a.len() > 0 {
            match u64_field(a[0], "gameId"@) {
                Some(id) => Ok(id),
                None => Err("最近对局条目缺少 gameId 字段"@),
            }
        } else {
            Err("最近对局列表为空"@)
        },
        None => Err("最近对局列表为空"@),
    }
}

/// Reads the newest game id of a match list.
pub fn latest_game_id(data: &Json) -> (r: Result<u64, String>)
    ensures
        match r {
            Ok(id) => spec_latest_game_id(*data) == Ok::<u64, Seq<char>>(id),
            Err(e) => spec_latest_game_id(*data) == Err::<u64, Seq<char>>(e@),
        },
{
    let games = match data.get("games") {
        Some(g) => g.array_at("games"),
        None => None,
    };
    match games {
        Some(a) => if a.len() > 0 {
            match a[0].u64_at("gameId") {
                Some(id) => Ok(id),
                None => Err(owned("最近对局条目缺少 gameId 字段")),
            }
        } else {
            Err(owned("最近对局列表为空"))
        },
        None => Err(owned("最近对局列表为空")),
    }
}

/// The puuid of the current summoner, or why it is missing.
pub fn summoner_puuid(data: &Json) -> (r: Result<String, String>)
    ensures
        match r {
            Ok(p) => str_field(*data, "puuid"@) == Some(p@),
            Err(e) => str_field(*data, "puuid"@) is None && e@ == "当前召唤师信息中缺少 puuid 字段"@,
        },
{
    match data.str_at("puuid") {
        Some(p) => Ok(owned(p)),
        None => Err(owned("当前召唤师信息中缺少 puuid 字段")),
    }
}

/// The `(gameName, puuid)` of the current summoner, when both are present.
pub fn summoner_identity(data: &Json) -> (r: Option<(String, String)>)
    ensures
        match r {
            Some((n, p)) => str_field(*data, "gameName"@) == Some(n@) && str_field(*data, "puuid"@)
                == Some(p@),
            None => str_field(*data, "gameName"@) is None || str_field(*data, "puuid"@) is None,
        },
{
    let puuid = data.str_at("puuid")?;
    let name = data.str_at("gameName")?;
    Some((owned(name), owned(puuid)))
}

} // verus!
