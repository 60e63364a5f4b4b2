use fix_session::session::ConnectedNotLoggedOn;
use fix_session::session::Event;
use fix_session::session::InSession;
use fix_session::session::LatentState;
use fix_session::session::LogonState;
use fix_session::session::LogoutState;
use fix_session::session::Message;
use fix_session::session::MessageKind;
use fix_session::session::NotSessionTime;
use fix_session::session::Session;
use fix_session::session::SessionSettings;
use fix_session::session::SessionState;
use fix_session::store::MemoryStore;
use fix_session::store::MessageStore;

fn fresh_session() -> Session {
    Session::new(MemoryStore::default(), SessionSettings::default())
}

fn logout_state() -> SessionState {
    SessionState::Logout(LogoutState::default())
}

#[test]
fn logout_state_preliminary_queries() {
    let state = logout_state();
    assert!(!state.is_logged_on());
    assert!(state.is_connected());
    assert!(state.is_session_time());
    let bare = LogoutState::default();
    assert!(bare.is_connected());
    assert!(bare.is_session_time());
    assert!(!bare.is_logged_on());
    assert_eq!(bare.to_string(), "Logout State");
}

#[test]
fn logout_timeout_reverts_to_latent_and_logs() {
    let mut session = fresh_session();
    let next = logout_state().timeout(&mut session, Event::LogoutTimeout);
    assert!(matches!(next, SessionState::Latent(_)));
    assert_eq!(session.log.entries, vec![
        "Timed out waiting for logout response".to_string()
    ]);
}

#[test]
fn other_events_leave_the_logout_state_unchanged() {
    for event in [Event::PeerTimeout, Event::NeedHeartbeat, Event::LogonTimeout] {
        let mut session = fresh_session();
        let next = logout_state().timeout(&mut session, event);
        assert!(matches!(next, SessionState::Logout(_)));
        assert!(session.log.entries.is_empty());
    }
}

#[test]
fn stop_on_logout_state_stays_in_logout_state() {
    let mut session = fresh_session();
    let next = logout_state().stop(&mut session);
    assert!(matches!(next, SessionState::Logout(_)));
}

#[test]
fn stop_transitions_follow_the_state_table() {
    let mut session = fresh_session();
    let from_in_session = SessionState::InSession(InSession::default()).stop(&mut session);
    assert!(matches!(from_in_session, SessionState::Logout(_)));
    let from_latent = SessionState::Latent(LatentState::default()).stop(&mut session);
    assert!(matches!(from_latent, SessionState::Latent(_)));
    let from_logon = SessionState::Logon(LogonState::default()).stop(&mut session);
    assert!(matches!(from_logon, SessionState::Logon(_)));
    let from_nst = SessionState::NotSessionTime(NotSessionTime::default()).stop(&mut session);
    assert!(matches!(from_nst, SessionState::NotSessionTime(_)));
}

#[test]
fn logout_in_logout_state_confirms_and_advances_target_seq() {
    let mut session = fresh_session();
    let msg = Message { kind: MessageKind::Logout };
    let next = logout_state().fix_msg_in(&mut session, &msg);
    assert!(matches!(next, SessionState::Latent(_)));
    assert_eq!(session.store.next_target_msg_seq_num(), 2);
    assert_eq!(session.store.next_sender_msg_seq_num(), 1);
}

#[test]
fn application_message_in_logout_state_is_delegated_and_state_kept() {
    let mut session = fresh_session();
    let msg = Message { kind: MessageKind::Application };
    let next = logout_state().fix_msg_in(&mut session, &msg);
    assert!(matches!(next, SessionState::Logout(_)));
    assert_eq!(session.store.next_target_msg_seq_num(), 2);
}

#[test]
fn in_session_routes_logout_to_logout_state() {
    let mut session = fresh_session();
    let logout = Message { kind: MessageKind::Logout };
    let next = SessionState::InSession(InSession::default()).fix_msg_in(&mut session, &logout);
    assert!(matches!(next, SessionState::Logout(_)));
    assert_eq!(session.store.next_target_msg_seq_num(), 2);
    let app = Message { kind: MessageKind::Application };
    let stays = SessionState::InSession(InSession::default()).fix_msg_in(&mut session, &app);
    assert!(matches!(stays, SessionState::InSession(_)));
    assert_eq!(session.store.next_target_msg_seq_num(), 3);
}

#[test]
fn latent_and_logon_transitions_follow_the_state_table() {
    let mut session = fresh_session();
    let logon = Message { kind: MessageKind::Logon };
    let app = Message { kind: MessageKind::Application };
    let logout = Message { kind: MessageKind::Logout };

    let to_logon = SessionState::Latent(LatentState::default()).fix_msg_in(&mut session, &logon);
    assert!(matches!(to_logon, SessionState::Logon(_)));
    let ignored = SessionState::Latent(LatentState::default()).fix_msg_in(&mut session, &app);
    assert!(matches!(ignored, SessionState::Latent(_)));

    let to_in_session = to_logon.fix_msg_in(&mut session, &logon);
    assert!(matches!(to_in_session, SessionState::InSession(_)));
    let abandoned = SessionState::Logon(LogonState::default()).fix_msg_in(&mut session, &logout);
    assert!(matches!(abandoned, SessionState::Latent(_)));
    let buffered = SessionState::Logon(LogonState::default()).fix_msg_in(&mut session, &app);
    assert!(matches!(buffered, SessionState::Logon(_)));

    // none of these phases touches the stores counters
    assert_eq!(session.store.next_target_msg_seq_num(), 1);
}

#[test]
fn connectivity_queries_per_state() {
    assert!(!SessionState::Latent(LatentState::default()).is_connected());
    assert!(SessionState::Latent(LatentState::default()).is_session_time());
    assert!(SessionState::Logon(LogonState::default()).is_connected());
    assert!(!SessionState::Logon(LogonState::default()).is_logged_on());
    assert!(SessionState::InSession(InSession::default()).is_logged_on());
    assert!(SessionState::InSession(InSession::default()).is_connected());
    assert!(!SessionState::NotSessionTime(NotSessionTime::default()).is_session_time());
    assert!(!SessionState::NotSessionTime(NotSessionTime::default()).is_connected());
    let shared = ConnectedNotLoggedOn;
    assert!(shared.is_connected());
    assert!(shared.is_session_time());
    assert!(!shared.is_logged_on());
}

#[test]
fn state_names_render_for_diagnostics() {
    assert_eq!(LatentState.to_string(), "Latent State");
    assert_eq!(LogonState::default().to_string(), "Logon State");
    assert_eq!(InSession.to_string(), "In Session");
    assert_eq!(NotSessionTime.to_string(), "Not session time");
}
