//! The decisions inside the agent's background flows: whom to honor, which
//! invitations to accept, whether a delayed ready-check accept still applies,
//! how default-lobby creation retries, and what the team-side announcement says.
use vstd::prelude::*;

use vstd::arithmetic::power2::{lemma2_to64, pow2};

use crate::agent::{is_ready_check_already_responded, is_responded, HonorBallot, HonorEligiblePlayer, ReceivedInvitation};
use crate::json::{field, i64_field, str_field, unwrap_or, Json};
use crate::live_game::spec_pin_drop_side;
use crate::text::{concat2, contains, owned, seq_contains, str_eq, to_lowercase, unicode_lowercase};

verus! {

/// The puuids of the allies that may be honored: humans with a puuid, in order.
pub open spec fn honorable(allies: Seq<HonorEligiblePlayer>) -> Seq<String>
    decreases allies.len(),
{
    if allies.len() == 0 {
        Seq::empty()
    } else {
        let rest = honorable(allies.drop_last());
        let p = allies.last();
        match p.puuid {
            Some(id) => if !p.bot_player {
                rest.push(id)
            } else {
                rest
            },
            None => rest,
        }
    }
}

/// The number of votes of the ballot: its pool's votes, at least one.
pub open spec fn ballot_votes(ballot: HonorBallot) -> int {
    let v = match ballot.vote_pool {
        Some(p) => p.votes as int,
        None => 1,
    };
    if v < 1 {
        1
    } else {
        v
    }
}

/// The allies to honor: the first `votes` honorable allies.
pub fn honor_recipients(ballot: &HonorBallot) -> (r: Vec<String>)
    ensures
        ({
            let h = honorable(ballot.eligible_allies@);
            let n = if h.len() < ballot_votes(*ballot) {
                h.len() as int
            } else {
                ballot_votes(*ballot)
            };
            &&& r.len() == n
            &&& forall|i: int| 0 <= i < n ==> (#[trigger] r@[i])@ == h[i]@
        }),
{
    let votes: i32 = match &ballot.vote_pool {
        Some(p) => p.votes,
        None => 1,
    };
    let votes: i32 = if votes < 1 {
        1
    } else {
        votes
    };
    let allies = &ballot.eligible_allies;
    let mut out: Vec<String> = Vec::new();
    let mut k: usize = 0;
    while k < allies.len()
        invariant
            k <= allies.len(),
            1 <= votes,
            votes as int == ballot_votes(*ballot),
            allies@ == ballot.eligible_allies@,
            out.len() <= votes,
            out.len() == if honorable(allies@.take(k as int)).len() < votes {
                honorable(allies@.take(k as int)).len() as int
            } else {
                votes as int
            },
            forall|i: int| 0 <= i < out.len() ==> (#[trigger] out@[i])@ == honorable(allies@.take(k as int))[i]@,
        decreases allies.len() - k,
    {
        assert(allies@.take(k + 1).drop_last() =~= allies@.take(k as int));
        assert(allies@.take(k + 1).last() == allies@[k as int]);
        let p = &allies[k];
        if !p.bot_player {
            match &p.puuid {
                Some(id) => {
                    if (out.len() as u64) < (votes as u64) {
                        out.push(id.clone());
                    }
                },
                None => {},
            }
        }
        k = k + 1;
    }
    assert(allies@.take(allies.len() as int) =~= allies@);
    out
}

/// The invitations to accept: pending, acceptable, and with an id.
pub open spec fn acceptable_ids(invs: Seq<ReceivedInvitation>) -> Seq<Seq<char>>
    decreases invs.len(),
{
    if invs.len() == 0 {
        Seq::empty()
    } else {
        let rest = acceptable_ids(invs.drop_last());
        let inv = invs.last();
        let pending = inv.state matches Some(s) && s@ == "Pending"@;
        let can = inv.can_accept_invitation == Some(true);
        match inv.invitation_id {
            Some(id) => if pending && can {
                rest.push(id@)
            } else {
                rest
            },
            None => rest,
        }
    }
}

/// The ids of the invitations to accept, in order.
pub fn invitations_to_accept(invs: &Vec<ReceivedInvitation>) -> (r: Vec<String>)
    ensures
        r.len() == acceptable_ids(invs@).len(),
        forall|i: int| 0 <= i < r.len() ==> (#[trigger] r@[i])@ == acceptable_ids(invs@)[i],
{
    let mut out: Vec<String> = Vec::new();
    let mut k: usize = 0;
    while k < invs.len()
        invariant
            k <= invs.len(),
            out.len() == acceptable_ids(invs@.take(k as int)).len(),
            forall|i: int|
                0 <= i < out.len() ==> (#[trigger] out@[i])@ == acceptable_ids(invs@.take(k as int))[i],
        decreases invs.len() - k,
    {
        assert(invs@.take(k + 1).drop_last() =~= invs@.take(k as int));
        assert(invs@.take(k + 1).last() == invs@[k as int]);
        let inv = &invs[k];
        let pending = match &inv.state {
            Some(s) => str_eq(s.as_str(), "Pending"),
            None => false,
        };
        let can = match inv.can_accept_invitation {
            Some(b) => b,
            None => false,
        };
        match &inv.invitation_id {
            Some(id) => {
                if pending && can {
                    out.push(id.clone());
                }
            },
            None => {},
        }
        k = k + 1;
    }
    assert(invs@.take(invs.len() as int) =~= invs@);
    out
}

/// The ready-check state read again after the accept delay.
pub struct ReadyCheckStatus {
    pub player_response: Option<String>,
    pub error_code: Option<String>,
}

/// After the delay the ready check is still accepted only when the phase is still
/// `ReadyCheck`, its state could be read, the player has not answered, and it
/// reports no error.
pub fn accept_after_delay(phase: Option<&str>, status: Option<&ReadyCheckStatus>) -> (r: bool)
    ensures
        r == match (phase, status) {
            (Some(p), Some(st)) => p@ == "ReadyCheck"@ && !(match st.player_response {
                Some(s) => is_responded(s@),
                None => false,
            }) && st.error_code is None,
            _ => false,
        },
{
    match phase {
        Some(p) => if !str_eq(p, "ReadyCheck") {
            return false;
        },
        None => return false,
    }
    match status {
        Some(st) => {
            let responded = match &st.player_response {
                Some(s) => is_ready_check_already_responded(Some(s.as_str())),
                None => false,
            };
            !responded && st.error_code.is_none()
        },
        None => false,
    }
}

/// How many times creating the default lobby is tried.
pub const LOBBY_CREATE_ATTEMPTS: u32 = 30;

/// A lobby may be created while the phase is idle: `None`, empty, or the end of a
/// game; an unknown phase does not stop it.
pub open spec fn lobby_phase_allows(phase: Option<Seq<char>>) -> bool {
    match phase {
        Some(p) => p == "None"@ || p == ""@ || p == "WaitingForStats"@ || p == "PreEndOfGame"@,
        None => true,
    }
}

/// What a reply to a lobby-creation request means.
#[derive(PartialEq, Eq, Structural, Clone, Copy)]
pub enum LobbyReply {
    /// The lobby was created.
    Created,
    /// The client answered 409: the player is already in a lobby.
    Conflict,
    /// Another failure; it is tried again.
    Failed,
}

/// The meaning of a reply: success, a 409 conflict, or another failure.
pub open spec fn spec_lobby_reply(error: Option<Seq<char>>) -> LobbyReply {
    match error {
        None => LobbyReply::Created,
        Some(e) => if seq_contains(e, "409"@) {
            LobbyReply::Conflict
        } else {
            LobbyReply::Failed
        },
    }
}

/// Reads a reply to a lobby-creation request (`None` for success, else the error text).
pub fn lobby_reply(error: Option<&str>) -> (r: LobbyReply)
    ensures
        r == spec_lobby_reply(match error {
            Some(e) => Some(e@),
            None => None,
        }),
{
    match error {
        None => LobbyReply::Created,
        Some(e) => if contains(e, "409") {
            LobbyReply::Conflict
        } else {
            LobbyReply::Failed
        },
    }
}

/// Whether the phase allows creating a lobby (`None`: the phase could not be read).
pub fn lobby_phase_allows_create(phase: Option<&str>) -> (r: bool)
    ensures
        r == lobby_phase_allows(match phase {
            Some(p) => Some(p@),
            None => None,
        }),
{
    match phase {
        Some(p) => str_eq(p, "None") || str_eq(p, "") || str_eq(p, "WaitingForStats") || str_eq(
            p,
            "PreEndOfGame",
        ),
        None => true,
    }
}

/// The retries of one default-lobby creation.
pub struct LobbyCreation {
    /// Requests made so far.
    pub attempts: u32,
    /// Creation has ended: created, conflicting, stopped or given up.
    pub finished: bool,
}

impl LobbyCreation {
    /// Never more requests than the attempt limit.
    pub open spec fn wf(self) -> bool {
        self.attempts <= LOBBY_CREATE_ATTEMPTS
    }

    /// No request made yet.
    pub fn new() -> (r: Self)
        ensures
            r.attempts == 0,
            !r.finished,
            r.wf(),
    {
        LobbyCreation { attempts: 0, finished: false }
    }

    /// Decides whether to send the next request, given whether the client is still
    /// connected and the current phase (`None` when it could not be read); when
    /// not, creation is finished.
    pub fn before_attempt(&mut self, connected: bool, phase: Option<&str>) -> (go: bool)
        requires
            old(self).wf(),
        ensures
            go == (!old(self).finished && old(self).attempts < LOBBY_CREATE_ATTEMPTS && connected
                && lobby_phase_allows(match phase {
                Some(p) => Some(p@),
                None => None,
            })),
            final(self).attempts == old(self).attempts,
            final(self).finished == (old(self).finished || !go),
            final(self).wf(),
    {
        let go = !self.finished && self.attempts < LOBBY_CREATE_ATTEMPTS && connected
            && lobby_phase_allows_create(phase);
        if !go {
            self.finished = true;
        }
        go
    }

    /// Records the reply to a request; creation ends on success, on a conflict, or
    /// when the attempts are spent.
    pub fn after_reply(&mut self, error: Option<&str>) -> (r: LobbyReply)
        requires
            old(self).wf(),
            old(self).attempts < LOBBY_CREATE_ATTEMPTS,
        ensures
            r == spec_lobby_reply(match error {
                Some(e) => Some(e@),
                None => None,
            }),
            final(self).attempts == old(self).attempts + 1,
            final(self).finished == (old(self).finished || r != LobbyReply::Failed
                || final(self).attempts == LOBBY_CREATE_ATTEMPTS),
            final(self).wf(),
    {
        let r = lobby_reply(error);
        self.attempts = self.attempts + 1;
        if r != LobbyReply::Failed || self.attempts == LOBBY_CREATE_ATTEMPTS {
            self.finished = true;
        }
        r
    }
}

/// The side of the summoner's team in champion select: the pin-drop `mapSide`
/// lower-cased when present, else inferred from the local cell (0 to 4 blue).
pub open spec fn spec_team_side(pin_drop: Option<Json>, session: Json) -> Seq<char> {
    let by_cell = if unwrap_or(i64_field(session, "localPlayerCellId"@), 0i64) < 5 {
        "blue"@
    } else {
        "red"@
    };
    match pin_drop {
        Some(d) => match spec_pin_drop_side(d) {
            Some(s) => unicode_lowercase(s),
            None => by_cell,
        },
        None => by_cell,
    }
}

/// The side of the summoner's team; `pin_drop` is the pin-drop notification, if
/// it could be read.
pub fn team_side(pin_drop: Option<&Json>, session: &Json) -> (r: String)
    ensures
        r@ == spec_team_side(crate::tft::deref_json(pin_drop), *session),
{
    match pin_drop {
        Some(d) => match d.str_at("mapSide") {
            Some(s) => if !s.is_empty() {
                return to_lowercase(s);
            },
            None => {},
        },
        None => {},
    }
    let cell = match session.i64_at("localPlayerCellId") {
        Some(c) => c,
        None => 0,
    };
    if cell < 5 {
        "blue".to_string()
    } else {
        "red".to_string()
    }
}

/// The announcement of the team side: its text, and the message type (`chat`
/// when teammates are to see it, else the private `celebration`).
pub open spec fn spec_team_side_message(side: Seq<char>, visible_to_team: bool) -> (Seq<char>, Seq<char>) {
    let name = if side == "blue"@ {
        "蓝色方"@
    } else {
        "红色方"@
    };
    ("[rustyuumi] 本局我方在"@ + name, if visible_to_team {
        "chat"@
    } else {
        "celebration"@
    })
}

/// The announcement of the team side.
pub fn team_side_message(side: &str, visible_to_team: bool) -> (r: (String, String))
    ensures
        (r.0@, r.1@) == spec_team_side_message(side@, visible_to_team),
{
    let name = if str_eq(side, "blue") {
        "蓝色方"
    } else {
        "红色方"
    };
    let body = concat2("[rustyuumi] 本局我方在", name);
    let kind = if visible_to_team {
        "chat"
    } else {
        "celebration"
    };
    (body, owned(kind))
}

/// The chat room named by the champion-select session: its chat room name, else
/// its multi-user chat id.
pub open spec fn spec_room_hint(session: Json) -> Option<Seq<char>> {
    match field(session, "chatDetails"@) {
        Some(d) => match str_field(d, "chatRoomName"@) {
            Some(n) => Some(n),
            None => str_field(d, "multiUserChatId"@),
        },
        None => None,
    }
}

/// The chat room named by the champion-select session.
pub fn room_hint(session: &Json) -> (r: Option<&str>)
    ensures
        match r {
            Some(h) => spec_room_hint(*session) == Some(h@),
            None => spec_room_hint(*session) is None,
        },
{
    match session.get("chatDetails") {
        Some(d) => match d.str_at("chatRoomName") {
            Some(n) => Some(n),
            None => d.str_at("multiUserChatId"),
        },
        None => None,
    }
}

/// A string member of a conversation, empty when missing.
pub open spec fn conv_str(c: Json, key: Seq<char>) -> Seq<char> {
    unwrap_or(str_field(c, key), Seq::empty())
}

/// The conversation matches the room hint: its id contains it or its name is it.
pub open spec fn matches_hint(c: Json, hint: Seq<char>) -> bool {
    seq_contains(conv_str(c, "id"@), hint) || conv_str(c, "name"@) == hint
}

/// The conversation is a champion-select (or custom game) chat.
pub open spec fn is_select_chat(c: Json) -> bool {
    let t = conv_str(c, "type"@);
    let id = conv_str(c, "id"@);
    t == "championSelect"@ || t == "customGame"@ || seq_contains(id, "champ-select"@)
        || seq_contains(id, "champSelect"@)
}

/// The first conversation matching the hint.
pub open spec fn first_hint_match(convs: Seq<Json>, hint: Seq<char>) -> Option<Json>
    decreases convs.len(),
{
    if convs.len() == 0 {
        None
    } else if matches_hint(convs[0], hint) {
        Some(convs[0])
    } else {
        first_hint_match(convs.drop_first(), hint)
    }
}

/// The first champion-select conversation.
pub open spec fn first_select_chat(convs: Seq<Json>) -> Option<Json>
    decreases convs.len(),
{
    if convs.len() == 0 {
        None
    } else if is_select_chat(convs[0]) {
        Some(convs[0])
    } else {
        first_select_chat(convs.drop_first())
    }
}

/// The id of the champion-select conversation among `convs`: the first one
/// matching a non-empty room hint, else the first champion-select chat.
pub open spec fn spec_select_conversation(convs: Seq<Json>, hint: Option<Seq<char>>) -> Option<Seq<char>> {
    let by_hint = match hint {
        Some(h) => if h.len() > 0 {
            match first_hint_match(convs, h) {
                Some(c) => str_field(c, "id"@),
                None => None,
            }
        } else {
            None
        },
        None => None,
    };
    match by_hint {
        Some(id) => Some(id),
        None => match first_select_chat(convs) {
            Some(c) => str_field(c, "id"@),
            None => None,
        },
    }
}

/// A string member of a conversation, empty when missing.
fn conv_str_exec<'a>(c: &'a Json, key: &str) -> (r: &'a str)
    ensures
        r@ == conv_str(*c, key@),
{
    crate::json::str_or_empty(c.str_at(key))
}

/// The first conversation matching the hint.
fn find_hint_match<'a>(convs: &'a Vec<Json>, hint: &str) -> (r: Option<&'a Json>)
    ensures
        crate::tft::deref_json(r) == first_hint_match(convs@, hint@),
{
    let mut k: usize = 0;
    assert(convs@.subrange(0, convs.len() as int) =~= convs@);
    while k < convs.len()
        invariant
            k <= convs.len(),
            first_hint_match(convs@.subrange(k as int, convs.len() as int), hint@)
                == first_hint_match(convs@, hint@),
        decreases convs.len() - k,
    {
        let ghost rest = convs@.subrange(k as int, convs.len() as int);
        assert(rest[0] == convs@[k as int]);
        assert(rest.drop_first() =~= convs@.subrange(k + 1, convs.len() as int));
        let c = &convs[k];
        if contains(conv_str_exec(c, "id"), hint) || str_eq(conv_str_exec(c, "name"), hint) {
            return Some(c);
        }
        k = k + 1;
    }
    None
}

/// The first champion-select conversation.
fn find_select_chat(convs: &Vec<Json>) -> (r: Option<&Json>)
    ensures
        crate::tft::deref_json(r) == first_select_chat(convs@),
{
    let mut k: usize = 0;
    assert(convs@.subrange(0, convs.len() as int) =~= convs@);
    while k < convs.len()
        invariant
            k <= convs.len(),
            first_select_chat(convs@.subrange(k as int, convs.len() as int)) == first_select_chat(
                convs@,
            ),
        decreases convs.len() - k,
    {
        let ghost rest = convs@.subrange(k as int, convs.len() as int);
        assert(rest[0] == convs@[k as int]);
        assert(rest.drop_first() =~= convs@.subrange(k + 1, convs.len() as int));
        let c = &convs[k];
        let t = conv_str_exec(c, "type");
        let id = conv_str_exec(c, "id");
        if str_eq(t, "championSelect") || str_eq(t, "customGame") || contains(id, "champ-select")
            || contains(id, "champSelect") {
            return Some(c);
        }
        k = k + 1;
    }
    None
}

/// The id of the champion-select conversation in the client's conversation list
/// `convs` (`None` when it is not a list or has none).
pub fn select_conversation(convs: &Json, hint: Option<&str>) -> (r: Option<String>)
    ensures
        match crate::json::as_array(*convs) {
            None => r is None,
            Some(arr) => match r {
                Some(id) => spec_select_conversation(arr, match hint {
                    Some(h) => Some(h@),
                    None => None,
                }) == Some(id@),
                None => spec_select_conversation(arr, match hint {
                    Some(h) => Some(h@),
                    None => None,
                }) is None,
            },
        },
{
    let arr = match convs.as_array() {
        Some(a) => a,
        None => return None,
    };
    match hint {
        Some(h) => if !h.is_empty() {
            match find_hint_match(arr, h) {
                Some(c) => match c.str_at("id") {
                    Some(id) => return Some(owned(id)),
                    None => {},
                },
                None => {},
            }
        },
        None => {},
    }
    match find_select_chat(arr) {
        Some(c) => match c.str_at("id") {
            Some(id) => Some(owned(id)),
            None => None,
        },
        None => None,
    }
}

/// How many times reconnecting to a running game is tried.
pub const RECONNECT_ATTEMPTS: u32 = 5;

/// The pause after failed reconnection attempt `attempt` (counted from 1):
/// 500 ms doubled after each failure, none after the last attempt.
pub open spec fn spec_reconnect_delay(attempt: u32) -> Option<u64> {
    if 1 <= attempt && attempt < RECONNECT_ATTEMPTS {
        Some((500 * pow2((attempt - 1) as nat)) as u64)
    } else {
        None
    }
}

/// The pause before the next reconnection attempt, in milliseconds.
pub fn reconnect_delay_ms(attempt: u32) -> (r: Option<u64>)
    ensures
        r == spec_reconnect_delay(attempt),
{
    proof {
        lemma2_to64();
    }
    if attempt == 1 {
        Some(500)
    } else if attempt == 2 {
        Some(1000)
    } else if attempt == 3 {
        Some(2000)
    } else if attempt == 4 {
        Some(4000)
    } else {
        None
    }
}

} // verus!
