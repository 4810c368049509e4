//! Gameflow automation: the decisions the match agent takes on each client event.
use vstd::prelude::*;

use crate::text::{owned, str_eq};

verus! {

/// Events pushed to the gameflow agent.
pub enum GameflowEvent {
    PhaseChanged(String),
    ReadyCheck(ReadyCheckData),
    ResetLobbyState,
    /// End-of-game honor ballot.
    HonorBallot(HonorBallot),
    /// The invitations the player currently holds.
    ReceivedInvitations(Vec<ReceivedInvitation>),
}

/// The ready-check state as the client reports it.
pub struct ReadyCheckData {
    pub state: Option<String>,
    pub player_response: Option<String>,
}

/// The honor ballot offered after a game.
pub struct HonorBallot {
    pub eligible_allies: Vec<HonorEligiblePlayer>,
    pub eligible_opponents: Vec<HonorEligiblePlayer>,
    pub vote_pool: Option<HonorVotePool>,
}

pub struct HonorEligiblePlayer {
    pub bot_player: bool,
    pub puuid: Option<String>,
}

pub struct HonorVotePool {
    pub votes: i32,
}

/// A game invitation the player received.
pub struct ReceivedInvitation {
    pub invitation_id: Option<String>,
    pub state: Option<String>,
    pub can_accept_invitation: Option<bool>,
}

/// The automation switches the agent reads.
pub struct AgentConfig {
    pub enable_auto_accept_matching: bool,
    pub auto_accept_matching_delay: u32,
    pub enable_auto_create_lobby: bool,
    pub default_game_mode: i32,
    pub enable_auto_honor: bool,
    pub enable_auto_handle_invite: bool,
    pub enable_auto_reconnect: bool,
    pub enable_auto_play_again: bool,
    pub enable_auto_aram_team_side: bool,
    pub aram_team_side_visible_to_team: bool,
    pub enable_auto_tag_reminder: bool,
}

/// What the agent remembers between events.
pub struct AgentState {
    pub last_phase: String,
    /// The ready check of the current queue pop has been handled.
    pub ready_check_accepted: bool,
    /// The current game has been honored.
    pub honored: bool,
    /// A default lobby has been created (or is being created).
    pub lobby_created: bool,
}

/// Work the agent hands to the runtime.
pub enum AgentAction {
    /// Start or stop in-game screenshot listening.
    SetInGame(bool),
    /// Cache the players of the game that just started.
    CacheCurrentGame,
    /// Tell the pick/ban agent to reset.
    ResetPickBan,
    /// Create the default lobby for the queue.
    CreateLobby(i32),
    /// Try to reconnect to the running game.
    Reconnect,
    /// Press "play again" after the delay.
    PlayAgain(u64),
    /// Record the players met in the finished game.
    RecordEncounters,
    /// Announce the team side in champion select.
    AnnounceTeamSide(bool),
    /// Remind the team of tagged players.
    TagReminder,
    /// Look for known players in champion select.
    RadarCheck,
    /// Hand the phase change to the upload trigger.
    UploadPhaseChange,
    /// Accept the ready check after the delay in seconds.
    AutoAccept(u32),
    /// Honor teammates from the ballot.
    AutoHonor,
    /// Accept the pending invitations.
    HandleInvitations,
}

pub open spec fn is_responded(response: Seq<char>) -> bool {
    response == "Accepted"@ || response == "Declined"@
}

/// The player has already answered the ready check (accepted or declined), so it
/// is not accepted automatically.
pub fn is_ready_check_already_responded(player_response: Option<&str>) -> (r: bool)
    ensures
        r == (player_response matches Some(s) && is_responded(s@)),
{
    match player_response {
        Some(s) => str_eq(s, "Accepted") || str_eq(s, "Declined"),
        None => false,
    }
}

pub open spec fn spec_play_again_delay_ms(phase: Seq<char>) -> Option<u64> {
    if phase == "WaitingForStats"@ {
        Some(10000)
    } else if phase == "PreEndOfGame"@ {
        Some(3250)
    } else if phase == "EndOfGame"@ {
        Some(1575)
    } else {
        None
    }
}

/// Delay before pressing "play again" in each post-game phase; `None` outside them.
pub fn play_again_delay_ms(phase: &str) -> (r: Option<u64>)
    ensures
        r == spec_play_again_delay_ms(phase@),
{
    if str_eq(phase, "WaitingForStats") {
        Some(10000)
    } else if str_eq(phase, "PreEndOfGame") {
        Some(3250)
    } else if str_eq(phase, "EndOfGame") {
        Some(1575)
    } else {
        None
    }
}

/// Entering `None` resets the lobby flag unless it happens within the flicker window
/// that follows creating a lobby.
pub fn should_reset_lobby_on_none(within_flicker_window: bool) -> (r: bool)
    ensures
        r == !within_flicker_window,
{
    !within_flicker_window
}

/// Auto-accept starts when the phase becomes `ReadyCheck`, the feature is on, and
/// this ready check has not been handled yet.
pub fn should_spawn_auto_accept_on_phase(phase: &str, enabled: bool, already_accepted: bool) -> (r:
    bool)
    ensures
        r == (phase@ == "ReadyCheck"@ && enabled && !already_accepted),
{
    str_eq(phase, "ReadyCheck") && enabled && !already_accepted
}

/// `s` followed by `a` when `c` holds.
pub open spec fn push_if(s: Seq<AgentAction>, c: bool, a: AgentAction) -> Seq<AgentAction> {
    if c {
        s.push(a)
    } else {
        s
    }
}

/// The work started when the phase changes to `phase`, in order; `create_lobby`
/// tells whether a default lobby is to be created.
pub open spec fn phase_actions(
    phase: Seq<char>,
    cfg: AgentConfig,
    create_lobby: bool,
) -> Seq<AgentAction> {
    let in_progress = phase == "InProgress"@;
    let champ_select = phase == "ChampSelect"@;
    let s0 = seq![AgentAction::SetInGame(in_progress)];
    let s1 = push_if(s0, in_progress, AgentAction::CacheCurrentGame).push(AgentAction::ResetPickBan);
    let s2 = push_if(s1, create_lobby, AgentAction::CreateLobby(cfg.default_game_mode));
    let s3 = push_if(s2, in_progress && cfg.enable_auto_reconnect, AgentAction::Reconnect);
    let s4 = push_if(
        s3,
        cfg.enable_auto_play_again && spec_play_again_delay_ms(phase) is Some,
        AgentAction::PlayAgain(spec_play_again_delay_ms(phase)->0),
    );
    let s5 = push_if(
        s4,
        phase == "EndOfGame"@ || phase == "PreEndOfGame"@,
        AgentAction::RecordEncounters,
    );
    let s6 = push_if(
        s5,
        champ_select && cfg.enable_auto_aram_team_side,
        AgentAction::AnnounceTeamSide(cfg.aram_team_side_visible_to_team),
    );
    let s7 = push_if(s6, champ_select && cfg.enable_auto_tag_reminder, AgentAction::TagReminder);
    push_if(s7, champ_select, AgentAction::RadarCheck).push(AgentAction::UploadPhaseChange)
}

/// The work started on a phase change, without the auto-accept decision.
pub fn phase_change_actions(phase: &str, cfg: &AgentConfig, create_lobby: bool) -> (r: Vec<
    AgentAction,
>)
    ensures
        r@ == phase_actions(phase@, *cfg, create_lobby),
{
    let in_progress = str_eq(phase, "InProgress");
    let champ_select = str_eq(phase, "ChampSelect");
    let mut actions: Vec<AgentAction> = Vec::new();
    actions.push(AgentAction::SetInGame(in_progress));
    if in_progress {
        actions.push(AgentAction::CacheCurrentGame);
    }
    actions.push(AgentAction::ResetPickBan);
    if create_lobby {
        actions.push(AgentAction::CreateLobby(cfg.default_game_mode));
    }
    if in_progress && cfg.enable_auto_reconnect {
        actions.push(AgentAction::Reconnect);
    }
    if cfg.enable_auto_play_again {
        match play_again_delay_ms(phase) {
            Some(delay) => actions.push(AgentAction::PlayAgain(delay)),
            None => {},
        }
    }
    if str_eq(phase, "EndOfGame") || str_eq(phase, "PreEndOfGame") {
        actions.push(AgentAction::RecordEncounters);
    }
    if champ_select && cfg.enable_auto_aram_team_side {
        actions.push(AgentAction::AnnounceTeamSide(cfg.aram_team_side_visible_to_team));
    }
    if champ_select && cfg.enable_auto_tag_reminder {
        actions.push(AgentAction::TagReminder);
    }
    if champ_select {
        actions.push(AgentAction::RadarCheck);
    }
    actions.push(AgentAction::UploadPhaseChange);
    actions
}

/// How the agent takes `event`: its memory goes from `before` to `after`, and
/// it starts `actions`, in order. `within_flicker_window` tells whether a lobby
/// was created less than the flicker window ago.
pub open spec fn event_handled(
    before: AgentState,
    cfg: AgentConfig,
    event: GameflowEvent,
    within_flicker_window: bool,
    after: AgentState,
    actions: Seq<AgentAction>,
) -> bool {
    match event {
        GameflowEvent::PhaseChanged(p) => {
            let phase = p@;
            let accepted0 = before.ready_check_accepted && phase == "ReadyCheck"@;
            let reset = phase == "None"@ && !within_flicker_window;
            let created0 = before.lobby_created && !reset;
            let create = phase == "None"@ && cfg.enable_auto_create_lobby && !created0;
            let accept = phase == "ReadyCheck"@ && cfg.enable_auto_accept_matching
                && !accepted0;
            &&& after.last_phase@ == phase
            &&& after.honored == (before.honored && phase != "InProgress"@)
            &&& after.lobby_created == (created0 || create)
            &&& after.ready_check_accepted == (accepted0 || accept)
            &&& actions == push_if(phase_actions(phase, cfg, create), accept, AgentAction::AutoAccept(cfg.auto_accept_matching_delay))
        },
        GameflowEvent::ReadyCheck(data) => {
            let handle = before.last_phase@ == "ReadyCheck"@
                && cfg.enable_auto_accept_matching && !before.ready_check_accepted;
            let responded = data.player_response matches Some(s) && is_responded(s@);
            &&& after.last_phase == before.last_phase
            &&& after.honored == before.honored
            &&& after.lobby_created == before.lobby_created
            &&& after.ready_check_accepted == (before.ready_check_accepted || handle)
            &&& actions == (if handle && !responded {
                seq![AgentAction::AutoAccept(cfg.auto_accept_matching_delay)]
            } else {
                seq![]
            })
        },
        GameflowEvent::ResetLobbyState => {
            let create = before.last_phase@ == "None"@ && cfg.enable_auto_create_lobby;
            &&& after.last_phase == before.last_phase
            &&& after.honored == before.honored
            &&& after.ready_check_accepted == before.ready_check_accepted
            &&& after.lobby_created == create
            &&& actions == (if create {
                seq![AgentAction::CreateLobby(cfg.default_game_mode)]
            } else {
                seq![]
            })
        },
        GameflowEvent::HonorBallot(_) => {
            let honor = cfg.enable_auto_honor && !before.honored;
            &&& after.last_phase == before.last_phase
            &&& after.lobby_created == before.lobby_created
            &&& after.ready_check_accepted == before.ready_check_accepted
            &&& after.honored == (before.honored || honor)
            &&& actions == (if honor { seq![AgentAction::AutoHonor] } else { seq![] })
        },
        GameflowEvent::ReceivedInvitations(_) => {
            &&& after.last_phase == before.last_phase
            &&& after.lobby_created == before.lobby_created
            &&& after.ready_check_accepted == before.ready_check_accepted
            &&& after.honored == before.honored
            &&& actions == (if cfg.enable_auto_handle_invite {
                seq![AgentAction::HandleInvitations]
            } else {
                seq![]
            })
        },
    }
}

/// No work started on a phase change accepts a ready check, honors or accepts
/// invitations; none creates a lobby unless `create_lobby` says so.
proof fn lemma_phase_action_kinds(phase: Seq<char>, cfg: AgentConfig, create_lobby: bool)
    ensures
        forall|i: int|
            0 <= i < phase_actions(phase, cfg, create_lobby).len() ==> {
                let a = #[trigger] phase_actions(phase, cfg, create_lobby)[i];
                &&& !(a is AutoAccept)
                &&& !(a is AutoHonor)
                &&& !(a is HandleInvitations)
                &&& (!create_lobby ==> !(a is CreateLobby))
            },
{
}

/// Once the agent has started accepting a ready check, news of it (the
/// ready-check state, or the phase reported again as `ReadyCheck`) starts no
/// second acceptance.
pub proof fn law_ready_check_accepted_once(
    s0: AgentState,
    s1: AgentState,
    s2: AgentState,
    cfg: AgentConfig,
    e1: GameflowEvent,
    e2: GameflowEvent,
    w1: bool,
    w2: bool,
    a1: Seq<AgentAction>,
    a2: Seq<AgentAction>,
    delay: u32,
)
    requires
        event_handled(s0, cfg, e1, w1, s1, a1),
        a1.contains(AgentAction::AutoAccept(delay)),
        event_handled(s1, cfg, e2, w2, s2, a2),
        e2 is ReadyCheck || (e2 matches GameflowEvent::PhaseChanged(p) && p@ == "ReadyCheck"@),
    ensures
        forall|i: int| 0 <= i < a2.len() ==> !(#[trigger] a2[i] is AutoAccept),
{
    match e1 {
        GameflowEvent::PhaseChanged(p) => {
            let phase = p@;
            let accepted0 = s0.ready_check_accepted && phase == "ReadyCheck"@;
            let reset = phase == "None"@ && !w1;
            let created0 = s0.lobby_created && !reset;
            let create = phase == "None"@ && cfg.enable_auto_create_lobby && !created0;
            lemma_phase_action_kinds(phase, cfg, create);
            let k = choose|k: int| 0 <= k < a1.len() && a1[k] == AgentAction::AutoAccept(delay);
            assert(s1.ready_check_accepted);
        },
        _ => {},
    }
    match e2 {
        GameflowEvent::PhaseChanged(p) => {
            let phase = p@;
            let reset = phase == "None"@ && !w2;
            let created0 = s1.lobby_created && !reset;
            let create = phase == "None"@ && cfg.enable_auto_create_lobby && !created0;
            lemma_phase_action_kinds(phase, cfg, create);
        },
        _ => {},
    }
}

/// A game is honored once: a second ballot before the next game starts no
/// second vote.
pub proof fn law_honor_once(
    s0: AgentState,
    s1: AgentState,
    s2: AgentState,
    cfg: AgentConfig,
    e1: GameflowEvent,
    e2: GameflowEvent,
    w1: bool,
    w2: bool,
    a1: Seq<AgentAction>,
    a2: Seq<AgentAction>,
)
    requires
        e1 is HonorBallot,
        event_handled(s0, cfg, e1, w1, s1, a1),
        a1.contains(AgentAction::AutoHonor),
        e2 is HonorBallot,
        event_handled(s1, cfg, e2, w2, s2, a2),
    ensures
        !a2.contains(AgentAction::AutoHonor),
{
}

/// A lobby just created is not created again when the phase flickers back to
/// `None` within the flicker window.
pub proof fn law_no_second_lobby_in_flicker(
    s0: AgentState,
    s1: AgentState,
    s2: AgentState,
    cfg: AgentConfig,
    e1: GameflowEvent,
    e2: GameflowEvent,
    w1: bool,
    a1: Seq<AgentAction>,
    a2: Seq<AgentAction>,
    queue_id: i32,
)
    requires
        event_handled(s0, cfg, e1, w1, s1, a1),
        a1.contains(AgentAction::CreateLobby(queue_id)),
        e2 matches GameflowEvent::PhaseChanged(p) && p@ == "None"@,
        event_handled(s1, cfg, e2, true, s2, a2),
    ensures
        forall|i: int| 0 <= i < a2.len() ==> !(#[trigger] a2[i] is CreateLobby),
{
    match e1 {
        GameflowEvent::PhaseChanged(p) => {
            let phase = p@;
            let reset = phase == "None"@ && !w1;
            let created0 = s0.lobby_created && !reset;
            let create = phase == "None"@ && cfg.enable_auto_create_lobby && !created0;
            lemma_phase_action_kinds(phase, cfg, create);
            let k = choose|k: int| 0 <= k < a1.len() && a1[k] == AgentAction::CreateLobby(queue_id);
            assert(s1.lobby_created);
        },
        _ => {},
    }
    match e2 {
        GameflowEvent::PhaseChanged(p) => {
            lemma_phase_action_kinds(p@, cfg, false);
        },
        _ => {},
    }
}

impl AgentState {
    /// The state before any event.
    pub fn new(initial_phase: String) -> (r: Self)
        ensures
            r.last_phase@ == initial_phase@,
            !r.ready_check_accepted,
            !r.honored,
            !r.lobby_created,
    {
        AgentState {
            last_phase: initial_phase,
            ready_check_accepted: false,
            honored: false,
            lobby_created: false,
        }
    }

    /// Handles a phase change.
    pub fn on_phase_changed(&mut self, cfg: &AgentConfig, phase: &str, within_flicker_window: bool) -> (actions: Vec<AgentAction>)
        ensures
            ({
                let accepted0 = old(self).ready_check_accepted && phase@ == "ReadyCheck"@;
                let reset = phase@ == "None"@ && !within_flicker_window;
                let created0 = old(self).lobby_created && !reset;
                let create = phase@ == "None"@ && cfg.enable_auto_create_lobby && !created0;
                let accept = phase@ == "ReadyCheck"@ && cfg.enable_auto_accept_matching && !accepted0;
                &&& final(self).last_phase@ == phase@
                &&& final(self).honored == (old(self).honored && phase@ != "InProgress"@)
                &&& final(self).lobby_created == (created0 || create)
                &&& final(self).ready_check_accepted == (accepted0 || accept)
                &&& actions@ == push_if(phase_actions(phase@, *cfg, create), accept, AgentAction::AutoAccept(cfg.auto_accept_matching_delay))
            }),
    {
        if !str_eq(phase, "ReadyCheck") {
            self.ready_check_accepted = false;
        }
        if str_eq(phase, "InProgress") {
            self.honored = false;
        }
        let is_none = str_eq(phase, "None");
        if is_none && should_reset_lobby_on_none(within_flicker_window) {
            self.lobby_created = false;
        }
        self.last_phase = owned(phase);
        let create = is_none && cfg.enable_auto_create_lobby && !self.lobby_created;
        if create {
            self.lobby_created = true;
        }
        let mut actions = phase_change_actions(phase, cfg, create);
        if should_spawn_auto_accept_on_phase(phase, cfg.enable_auto_accept_matching, self.ready_check_accepted) {
            self.ready_check_accepted = true;
            actions.push(AgentAction::AutoAccept(cfg.auto_accept_matching_delay));
        }
        actions
    }

    /// Handles one gameflow event and returns the work to start, in order.
    /// `within_flicker_window` tells whether a lobby was created less than the
    /// flicker window ago (it matters only when the phase becomes `None`).
    pub fn on_event(
        &mut self,
        cfg: &AgentConfig,
        event: &GameflowEvent,
        within_flicker_window: bool,
    ) -> (actions: Vec<AgentAction>)
        ensures
            event_handled(*old(self), *cfg, *event, within_flicker_window, *final(self), actions@),
    {
        let mut actions: Vec<AgentAction> = Vec::new();
        match event {
            GameflowEvent::PhaseChanged(phase) => {
                actions = self.on_phase_changed(cfg, phase.as_str(), within_flicker_window);
            },
            GameflowEvent::ReadyCheck(data) => {
                if str_eq(self.last_phase.as_str(), "ReadyCheck") && cfg.enable_auto_accept_matching
                    && !self.ready_check_accepted {
                    let responded = match &data.player_response {
                        Some(s) => is_ready_check_already_responded(Some(s.as_str())),
                        None => is_ready_check_already_responded(None),
                    };
                    self.ready_check_accepted = true;
                    if !responded {
                        actions.push(AgentAction::AutoAccept(cfg.auto_accept_matching_delay));
                    }
                }
            },
            GameflowEvent::ResetLobbyState => {
                self.lobby_created = false;
                if str_eq(self.last_phase.as_str(), "None") && cfg.enable_auto_create_lobby {
                    self.lobby_created = true;
                    actions.push(AgentAction::CreateLobby(cfg.default_game_mode));
                }
            },
            GameflowEvent::HonorBallot(_) => {
                if cfg.enable_auto_honor && !self.honored {
                    self.honored = true;
                    actions.push(AgentAction::AutoHonor);
                }
            },
            GameflowEvent::ReceivedInvitations(_) => {
                if cfg.enable_auto_handle_invite {
                    actions.push(AgentAction::HandleInvitations);
                }
            },
        }
        actions
    }
}

} // verus!
