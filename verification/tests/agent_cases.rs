use yuumi::agent::{
    AgentAction, AgentConfig, AgentState, GameflowEvent, HonorBallot, HonorEligiblePlayer, ReadyCheckData,
    ReceivedInvitation,
};
use yuumi::upload_flow::{TriggerAction, UploadQueueState, UploadTriggerState};

fn all_on() -> AgentConfig {
    AgentConfig {
        enable_auto_accept_matching: true,
        auto_accept_matching_delay: 3,
        enable_auto_create_lobby: true,
        default_game_mode: 450,
        enable_auto_honor: true,
        enable_auto_handle_invite: true,
        enable_auto_reconnect: true,
        enable_auto_play_again: true,
        enable_auto_aram_team_side: true,
        aram_team_side_visible_to_team: true,
        enable_auto_tag_reminder: true,
    }
}

fn phase(p: &str) -> GameflowEvent {
    GameflowEvent::PhaseChanged(p.to_string())
}

fn accepts(a: &[AgentAction]) -> usize {
    a.iter().filter(|x| matches!(x, AgentAction::AutoAccept(_))).count()
}

fn creates(a: &[AgentAction]) -> usize {
    a.iter().filter(|x| matches!(x, AgentAction::CreateLobby(_))).count()
}

fn honors(a: &[AgentAction]) -> usize {
    a.iter().filter(|x| matches!(x, AgentAction::AutoHonor)).count()
}

fn ballot() -> GameflowEvent {
    GameflowEvent::HonorBallot(HonorBallot {
        eligible_allies: vec![HonorEligiblePlayer { bot_player: false, puuid: Some("A".to_string()) }],
        eligible_opponents: vec![],
        vote_pool: None,
    })
}

#[test]
fn ready_check_phase_starts_one_acceptance() {
    let cfg = all_on();
    let mut s = AgentState::new("Matchmaking".to_string());
    let a1 = s.on_event(&cfg, &phase("ReadyCheck"), false);
    assert_eq!(accepts(&a1), 1);
    assert!(matches!(a1.last(), Some(AgentAction::AutoAccept(3))));
    let news = GameflowEvent::ReadyCheck(ReadyCheckData {
        state: Some("InProgress".to_string()),
        player_response: Some("None".to_string()),
    });
    let a2 = s.on_event(&cfg, &news, false);
    assert_eq!(accepts(&a2), 0);
    let a3 = s.on_event(&cfg, &phase("ReadyCheck"), false);
    assert_eq!(accepts(&a3), 0);
}

#[test]
fn ready_check_news_accepts_unless_answered() {
    let cfg = all_on();
    let mut s = AgentState::new("ReadyCheck".to_string());
    let answered = GameflowEvent::ReadyCheck(ReadyCheckData {
        state: Some("InProgress".to_string()),
        player_response: Some("Accepted".to_string()),
    });
    assert_eq!(accepts(&s.on_event(&cfg, &answered, false)), 0);
    assert!(s.ready_check_accepted);

    let mut t = AgentState::new("ReadyCheck".to_string());
    let open = GameflowEvent::ReadyCheck(ReadyCheckData { state: None, player_response: None });
    assert_eq!(accepts(&t.on_event(&cfg, &open, false)), 1);
    assert_eq!(accepts(&t.on_event(&cfg, &open, false)), 0);
}

#[test]
fn honor_once_per_game() {
    let cfg = all_on();
    let mut s = AgentState::new("PreEndOfGame".to_string());
    assert_eq!(honors(&s.on_event(&cfg, &ballot(), false)), 1);
    assert_eq!(honors(&s.on_event(&cfg, &ballot(), false)), 0);
    s.on_event(&cfg, &phase("InProgress"), false);
    assert_eq!(honors(&s.on_event(&cfg, &ballot(), false)), 1);
}

#[test]
fn lobby_not_recreated_in_flicker_window() {
    let cfg = all_on();
    let mut s = AgentState::new("EndOfGame".to_string());
    let a1 = s.on_event(&cfg, &phase("None"), false);
    assert_eq!(creates(&a1), 1);
    assert!(a1.iter().any(|x| matches!(x, AgentAction::CreateLobby(450))));
    s.on_event(&cfg, &phase("Lobby"), false);
    assert_eq!(creates(&s.on_event(&cfg, &phase("None"), true)), 0);
    assert_eq!(creates(&s.on_event(&cfg, &phase("None"), false)), 1);
}

#[test]
fn reset_lobby_state_creates_only_when_idle() {
    let cfg = all_on();
    let mut idle = AgentState::new("None".to_string());
    assert_eq!(creates(&idle.on_event(&cfg, &GameflowEvent::ResetLobbyState, false)), 1);
    let mut busy = AgentState::new("Lobby".to_string());
    assert_eq!(creates(&busy.on_event(&cfg, &GameflowEvent::ResetLobbyState, false)), 0);
    assert!(!busy.lobby_created);
}

#[test]
fn champ_select_work_in_order() {
    let cfg = all_on();
    let mut s = AgentState::new("Lobby".to_string());
    let a = s.on_event(&cfg, &phase("ChampSelect"), false);
    assert_eq!(a.len(), 6);
    assert!(matches!(a[0], AgentAction::SetInGame(false)));
    assert!(matches!(a[1], AgentAction::ResetPickBan));
    assert!(matches!(a[2], AgentAction::AnnounceTeamSide(true)));
    assert!(matches!(a[3], AgentAction::TagReminder));
    assert!(matches!(a[4], AgentAction::RadarCheck));
    assert!(matches!(a[5], AgentAction::UploadPhaseChange));
}

#[test]
fn game_start_and_end_work() {
    let cfg = all_on();
    let mut s = AgentState::new("GameStart".to_string());
    let a = s.on_event(&cfg, &phase("InProgress"), false);
    assert!(matches!(a[0], AgentAction::SetInGame(true)));
    assert!(matches!(a[1], AgentAction::CacheCurrentGame));
    assert!(a.iter().any(|x| matches!(x, AgentAction::Reconnect)));
    let e = s.on_event(&cfg, &phase("EndOfGame"), false);
    assert!(e.iter().any(|x| matches!(x, AgentAction::PlayAgain(1575))));
    assert!(e.iter().any(|x| matches!(x, AgentAction::RecordEncounters)));
}

#[test]
fn invitations_handled_only_when_enabled() {
    let mut cfg = all_on();
    let invs = GameflowEvent::ReceivedInvitations(vec![ReceivedInvitation {
        invitation_id: Some("i1".to_string()),
        state: Some("Pending".to_string()),
        can_accept_invitation: Some(true),
    }]);
    let mut s = AgentState::new("None".to_string());
    let a = s.on_event(&cfg, &invs, false);
    assert_eq!(a.len(), 1);
    assert!(matches!(a[0], AgentAction::HandleInvitations));
    cfg.enable_auto_handle_invite = false;
    assert!(s.on_event(&cfg, &invs, false).is_empty());
}


#[test]
fn upload_trigger_fetches_id_while_in_game() {
    let mut t = UploadTriggerState::new();
    assert!(matches!(t.on_phase_change("ChampSelect"), TriggerAction::Nothing));
    assert!(matches!(t.on_phase_change("InProgress"), TriggerAction::FetchCurrentGameId));
    t.on_current_game_id(Some(42));
    assert_eq!(t.current_game_id, Some(42));
    t.on_current_game_id(None);
    assert_eq!(t.current_game_id, Some(42));
}

#[test]
fn upload_trigger_starts_one_upload_per_game() {
    let mut t = UploadTriggerState::new();
    t.on_phase_change("InProgress");
    assert!(matches!(t.on_phase_change("EndOfGame"), TriggerAction::StartUpload));
    assert!(matches!(t.on_phase_change("Lobby"), TriggerAction::Nothing));
    assert!(matches!(t.on_phase_change("None"), TriggerAction::Nothing));
    t.on_phase_change("GameStart");
    assert!(matches!(t.on_phase_change("PreEndOfGame"), TriggerAction::Nothing));
    assert!(matches!(t.on_phase_change("EndOfGame"), TriggerAction::StartUpload));
}

#[test]
fn upload_trigger_retries_after_abandon_and_dedupes_games() {
    let mut t = UploadTriggerState::new();
    t.on_phase_change("InProgress");
    assert!(matches!(t.on_phase_change("EndOfGame"), TriggerAction::StartUpload));
    t.on_upload_abandoned();
    t.on_phase_change("Reconnect");
    assert!(matches!(t.on_phase_change("Lobby"), TriggerAction::StartUpload));
    assert!(t.on_game_resolved(7));
    assert_eq!(t.last_game_id, 7);
    assert!(!t.on_game_resolved(7));
    assert_eq!(t.current_game_id, None);
}


#[test]
fn upload_queue_skips_queued_and_uploaded_games() {
    let mut q = UploadQueueState::new();
    assert!(!q.should_enqueue(0));
    assert!(q.should_enqueue(9));
    q.record_enqueued(9);
    assert!(!q.should_enqueue(9));
    assert!(q.should_enqueue(10));
    q.finish(9, false);
    assert!(q.should_enqueue(9));
    q.record_enqueued(9);
    q.finish(9, true);
    assert!(!q.should_enqueue(9));
    q.record_enqueued(10);
    q.finish(10, true);
    assert!(!q.should_enqueue(10));
    assert!(q.should_enqueue(11));
}
