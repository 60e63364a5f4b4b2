//! Session state machine and per-connection context.
//!
//! A session is in exactly one protocol phase at a time. Transition
//! functions consume the current state value and return the next one, so a
//! superseded state can never be consulted again.

use vstd::prelude::*;

use vstd::string::StringExecFns;

use crate::store::MemoryStore;
use crate::store::MessageStore;

verus! {

/// Immutable identity of a session: protocol version and counterparty pair.
#[derive(Clone, Debug, Hash, PartialEq, Eq)]
pub struct SessionID {
    pub begin_string: String,
    pub sender_comp_id: String,
    pub target_comp_id: String,
    pub qualifier: String,
}

/// Timer-driven protocol signal, consumed by the active state's `timeout`
/// entry point.
#[derive(Clone, Copy, Debug, PartialEq, Eq, Structural)]
pub enum Event {
    LogonTimeout,
    LogoutTimeout,
    NeedHeartbeat,
    PeerTimeout,
}

/// Routing tag of an inbound message, as the session layer sees it; wire
/// framing and field parsing happen outside this crate.
#[derive(Clone, Copy, Debug, PartialEq, Eq, Structural)]
pub enum MessageKind {
    Logon,
    Logout,
    Application,
}

/// An inbound message already framed and parsed by the transport layer.
pub struct Message {
    pub kind: MessageKind,
}

/// In-memory log sink: records diagnostic event texts in order.
pub struct Log {
    pub entries: Vec<String>,
}

impl Log {
    /// The logged event texts, oldest first.
    pub open spec fn events(&self) -> Seq<Seq<char>> {
        self.entries@.map_values(|s: String| s@)
    }

    /// An empty log.
    pub fn new() -> (l: Log)
        ensures
            l.events() == Seq::<Seq<char>>::empty(),
    {
        let l = Log { entries: Vec::new() };
        proof {
            assert(l.events() =~= Seq::<Seq<char>>::empty());
        }
        l
    }

    /// Fire-and-forget diagnostic emission: appends the text to the log.
    pub fn on_event(&mut self, text: &str)
        ensures
            final(self).events() == old(self).events().push(text@),
    {
        let entry = String::from_str(text);
        self.entries.push(entry);
        proof {
            assert(self.events() =~= old(self).events().push(text@));
        }
    }
}

/// Session configuration, settled when the session is created. The reset
/// policies and the heartbeat interval are consulted by the message-dispatch
/// and timer collaborators around this core.
#[derive(Clone, Copy, Debug, PartialEq, Eq, Structural)]
pub struct SessionSettings {
    /// Heartbeat interval, in seconds.
    pub heartbeat_interval_secs: u64,
    pub reset_on_logon: bool,
    pub reset_on_logout: bool,
    pub reset_on_disconnect: bool,
}

impl Default for SessionSettings {
    /// Thirty-second heartbeats and no reset policy.
    fn default() -> (s: SessionSettings)
        ensures
            s == (SessionSettings {
                heartbeat_interval_secs: 30u64,
                reset_on_logon: false,
                reset_on_logout: false,
                reset_on_disconnect: false,
            }),
    {
        SessionSettings {
            heartbeat_interval_secs: 30,
            reset_on_logon: false,
            reset_on_logout: false,
            reset_on_disconnect: false,
        }
    }
}

/// Per-connection context: configuration, the log sink and the message
/// store the states consult for sequence and resend bookkeeping.
pub struct Session {
    pub settings: SessionSettings,
    pub log: Log,
    pub store: MemoryStore,
}

impl Session {
    /// A session over the given store, with an empty log.
    pub fn new(store: MemoryStore, settings: SessionSettings) -> (s: Session)
        ensures
            s.store == store,
            s.settings == settings,
            s.log.events() == Seq::<Seq<char>>::empty(),
    {
        Session { settings, log: Log::new(), store }
    }
}

/// Shared default answers for states that are connected but not logged on.
#[derive(Clone, Copy, Debug, PartialEq, Eq, Structural)]
pub struct ConnectedNotLoggedOn;

impl ConnectedNotLoggedOn {
    pub fn is_connected(&self) -> (r: bool)
        ensures
            r,
    {
        true
    }

    pub fn is_session_time(&self) -> (r: bool)
        ensures
            r,
    {
        true
    }

    pub fn is_logged_on(&self) -> (r: bool)
        ensures
            !r,
    {
        false
    }

    /// Immediate-teardown hook; transport shutdown happens outside this
    /// crate, so the default does nothing to the session.
    pub fn shutdown_now(&self, _session: &Session) {
    }
}

/// No active connection and no logon attempted.
#[derive(Clone, Copy, Debug, PartialEq, Eq, Structural)]
pub struct LatentState;

/// Logon sent or received, awaiting confirmation.
#[derive(Clone, Copy, Debug, PartialEq, Eq, Structural)]
pub struct LogonState {
    pub connected_not_logged_on: ConnectedNotLoggedOn,
}

/// Logon completed: normal message flow.
#[derive(Clone, Copy, Debug, PartialEq, Eq, Structural)]
pub struct InSession;

/// Logout requested, awaiting the peer's acknowledgment or a timeout.
#[derive(Clone, Copy, Debug, PartialEq, Eq, Structural)]
pub struct LogoutState {
    pub connected_not_logged_on: ConnectedNotLoggedOn,
}

/// Outside the configured trading-session window.
#[derive(Clone, Copy, Debug, PartialEq, Eq, Structural)]
pub struct NotSessionTime;

impl Default for LogonState {
    fn default() -> (s: LogonState)
        ensures
            s == (LogonState { connected_not_logged_on: ConnectedNotLoggedOn }),
    {
        LogonState { connected_not_logged_on: ConnectedNotLoggedOn }
    }
}

impl Default for LogoutState {
    fn default() -> (s: LogoutState)
        ensures
            s == (LogoutState { connected_not_logged_on: ConnectedNotLoggedOn }),
    {
        LogoutState { connected_not_logged_on: ConnectedNotLoggedOn }
    }
}

impl Default for LatentState {
    fn default() -> (s: LatentState)
        ensures
            s == LatentState,
    {
        LatentState
    }
}

impl Default for InSession {
    fn default() -> (s: InSession)
        ensures
            s == InSession,
    {
        InSession
    }
}

impl Default for NotSessionTime {
    fn default() -> (s: NotSessionTime)
        ensures
            s == NotSessionTime,
    {
        NotSessionTime
    }
}

/// The session's protocol phase: exactly one variant is active per session
/// at any instant.
#[derive(Clone, Copy, Debug, PartialEq, Eq, Structural)]
pub enum SessionState {
    Latent(LatentState),
    Logon(LogonState),
    InSession(InSession),
    Logout(LogoutState),
    NotSessionTime(NotSessionTime),
}

impl SessionState {
    /// Connected in every phase except latent and out-of-session-time.
    pub open spec fn spec_is_connected(self) -> bool {
        !(self is Latent || self is NotSessionTime)
    }

    /// Logged on only during normal message flow.
    pub open spec fn spec_is_logged_on(self) -> bool {
        self is InSession
    }

    /// Within the trading-session window in every phase but one.
    pub open spec fn spec_is_session_time(self) -> bool {
        !(self is NotSessionTime)
    }

    /// The state reached when a message with the given routing tag arrives.
    pub open spec fn msg_transition(self, kind: MessageKind) -> SessionState {
        match self {
            SessionState::Latent(_) => if kind is Logon {
                SessionState::Logon(LogonState { connected_not_logged_on: ConnectedNotLoggedOn })
            } else {
                self
            },
            SessionState::Logon(_) => match kind {
                MessageKind::Logon => SessionState::InSession(InSession),
                MessageKind::Logout => SessionState::Latent(LatentState),
                MessageKind::Application => self,
            },
            SessionState::InSession(_) => if kind is Logout {
                SessionState::Logout(LogoutState { connected_not_logged_on: ConnectedNotLoggedOn })
            } else {
                self
            },
            SessionState::Logout(_) => if kind is Logout {
                SessionState::Latent(LatentState)
            } else {
                self
            },
            SessionState::NotSessionTime(_) => self,
        }
    }

    /// Whether an arriving message is accepted into normal handling, so that
    /// the target sequence counter advances.
    pub open spec fn consumes_seq_num(self) -> bool {
        self is InSession || self is Logout
    }

    /// The state reached when the given timer event fires.
    pub open spec fn timeout_transition(self, event: Event) -> SessionState {
        if self is Logout && event == Event::LogoutTimeout {
            SessionState::Latent(LatentState)
        } else {
            self
        }
    }

    /// The state reached on an explicit shutdown request.
    pub open spec fn stop_transition(self) -> SessionState {
        if self is InSession {
            SessionState::Logout(LogoutState { connected_not_logged_on: ConnectedNotLoggedOn })
        } else {
            self
        }
    }

    pub fn is_connected(&self) -> (r: bool)
        ensures
            r == self.spec_is_connected(),
    {
        match self {
            SessionState::Latent(_) => false,
            SessionState::Logon(s) => s.is_connected(),
            SessionState::InSession(_) => true,
            SessionState::Logout(s) => s.is_connected(),
            SessionState::NotSessionTime(_) => false,
        }
    }

    pub fn is_logged_on(&self) -> (r: bool)
        ensures
            r == self.spec_is_logged_on(),
    {
        match self {
            SessionState::Latent(_) => false,
            SessionState::Logon(s) => s.is_logged_on(),
            SessionState::InSession(_) => true,
            SessionState::Logout(s) => s.is_logged_on(),
            SessionState::NotSessionTime(_) => false,
        }
    }

    pub fn is_session_time(&self) -> (r: bool)
        ensures
            r == self.spec_is_session_time(),
    {
        match self {
            SessionState::Latent(_) => true,
            SessionState::Logon(s) => s.is_session_time(),
            SessionState::InSession(_) => true,
            SessionState::Logout(s) => s.is_session_time(),
            SessionState::NotSessionTime(_) => false,
        }
    }

    /// Immediate-teardown hook: the connected states delegate to the shared
    /// connectivity object's default.
    pub fn shutdown_now(&self, session: &Session) {
        match self {
            SessionState::Latent(_) => {},
            SessionState::Logon(s) => s.shutdown_now(session),
            SessionState::InSession(_) => {},
            SessionState::Logout(s) => s.shutdown_now(session),
            SessionState::NotSessionTime(_) => {},
        }
    }

    /// Dispatches an inbound message to the active state, consuming it and
    /// returning the state to transition to.
    pub fn fix_msg_in(self, session: &mut Session, msg: &Message) -> (next: SessionState)
        requires
            old(session).store.inv(),
            self.consumes_seq_num() ==> old(session).store.target_seq() < isize::MAX as int,
        ensures
            next == self.msg_transition(msg.kind),
            final(session).store.inv(),
            final(session).log == old(session).log,
            final(session).settings == old(session).settings,
            self.consumes_seq_num() ==> final(session).store.target_seq() == old(session).store.target_seq() + 1
                && final(session).store.sender_seq() == old(session).store.sender_seq()
                && final(session).store.stored() == old(session).store.stored()
                && final(session).store.created() == old(session).store.created(),
            !self.consumes_seq_num() ==> *final(session) == *old(session),
    {
        match self {
            SessionState::Latent(s) => s.fix_msg_in(session, msg),
            SessionState::Logon(s) => s.fix_msg_in(session, msg),
            SessionState::InSession(s) => s.fix_msg_in(session, msg),
            SessionState::Logout(s) => s.fix_msg_in(session, msg),
            SessionState::NotSessionTime(s) => s.fix_msg_in(session, msg),
        }
    }

    /// Dispatches a timer event to the active state, consuming it and
    /// returning the state to transition to.
    pub fn timeout(self, session: &mut Session, event: Event) -> (next: SessionState)
        ensures
            next == self.timeout_transition(event),
            final(session).store == old(session).store,
            final(session).settings == old(session).settings,
            (self is Logout && event == Event::LogoutTimeout) ==> final(session).log.events()
                == old(session).log.events().push("Timed out waiting for logout response"@),
            !(self is Logout && event == Event::LogoutTimeout) ==> *final(session) == *old(session),
    {
        match self {
            SessionState::Latent(s) => s.timeout(session, event),
            SessionState::Logon(s) => s.timeout(session, event),
            SessionState::InSession(s) => s.timeout(session, event),
            SessionState::Logout(s) => s.timeout(session, event),
            SessionState::NotSessionTime(s) => s.timeout(session, event),
        }
    }

    /// Consumes the state on an explicit shutdown request; a session in
    /// normal flow initiates a graceful logout, every other phase stays put.
    pub fn stop(self, session: &mut Session) -> (next: SessionState)
        ensures
            next == self.stop_transition(),
            *final(session) == *old(session),
    {
        match self {
            SessionState::Latent(s) => s.stop(session),
            SessionState::Logon(s) => s.stop(session),
            SessionState::InSession(s) => s.stop(session),
            SessionState::Logout(s) => s.stop(session),
            SessionState::NotSessionTime(s) => s.stop(session),
        }
    }
}

impl LatentState {
    pub fn to_string(&self) -> (r: String)
        ensures
            r@ == "Latent State"@,
    {
        String::from_str("Latent State")
    }

    pub fn is_connected(&self) -> (r: bool)
        ensures
            !r,
    {
        false
    }

    pub fn is_session_time(&self) -> (r: bool)
        ensures
            r,
    {
        true
    }

    pub fn is_logged_on(&self) -> (r: bool)
        ensures
            !r,
    {
        false
    }

    /// A valid logon attempt opens the logon phase; anything else is ignored
    /// while no connection is active.
    pub fn fix_msg_in(self, session: &mut Session, msg: &Message) -> (next: SessionState)
        ensures
            *final(session) == *old(session),
            msg.kind is Logon ==> next == SessionState::Logon(
                LogonState { connected_not_logged_on: ConnectedNotLoggedOn },
            ),
            !(msg.kind is Logon) ==> next == SessionState::Latent(self),
    {
        if matches!(msg.kind, MessageKind::Logon) {
            SessionState::Logon(LogonState::default())
        } else {
            SessionState::Latent(self)
        }
    }

    /// No timer event is significant while latent.
    pub fn timeout(self, session: &mut Session, _event: Event) -> (next: SessionState)
        ensures
            *final(session) == *old(session),
            next == SessionState::Latent(self),
    {
        SessionState::Latent(self)
    }

    pub fn stop(self, session: &mut Session) -> (next: SessionState)
        ensures
            *final(session) == *old(session),
            next == SessionState::Latent(self),
    {
        SessionState::Latent(self)
    }
}

impl LogonState {
    pub fn to_string(&self) -> (r: String)
        ensures
            r@ == "Logon State"@,
    {
        String::from_str("Logon State")
    }

    pub fn is_connected(&self) -> (r: bool)
        ensures
            r,
    {
        self.connected_not_logged_on.is_connected()
    }

    pub fn is_session_time(&self) -> (r: bool)
        ensures
            r,
    {
        self.connected_not_logged_on.is_session_time()
    }

    pub fn is_logged_on(&self) -> (r: bool)
        ensures
            !r,
    {
        self.connected_not_logged_on.is_logged_on()
    }

    pub fn shutdown_now(&self, session: &Session) {
        self.connected_not_logged_on.shutdown_now(session)
    }

    /// A confirming logon completes the handshake; a logout abandons it;
    /// anything else waits until the logon completes.
    pub fn fix_msg_in(self, session: &mut Session, msg: &Message) -> (next: SessionState)
        ensures
            *final(session) == *old(session),
            msg.kind is Logon ==> next == SessionState::InSession(InSession),
            msg.kind is Logout ==> next == SessionState::Latent(LatentState),
            msg.kind is Application ==> next == SessionState::Logon(self),
    {
        match msg.kind {
            MessageKind::Logon => SessionState::InSession(InSession::default()),
            MessageKind::Logout => SessionState::Latent(LatentState::default()),
            MessageKind::Application => SessionState::Logon(self),
        }
    }

    /// No timer event forces a transition while awaiting logon confirmation.
    pub fn timeout(self, session: &mut Session, _event: Event) -> (next: SessionState)
        ensures
            *final(session) == *old(session),
            next == SessionState::Logon(self),
    {
        SessionState::Logon(self)
    }

    /// A stop during logon stays graceful: the handshake phase is kept.
    pub fn stop(self, session: &mut Session) -> (next: SessionState)
        ensures
            *final(session) == *old(session),
            next == SessionState::Logon(self),
    {
        SessionState::Logon(self)
    }
}

impl InSession {
    pub fn to_string(&self) -> (r: String)
        ensures
            r@ == "In Session"@,
    {
        String::from_str("In Session")
    }

    pub fn is_connected(&self) -> (r: bool)
        ensures
            r,
    {
        true
    }

    pub fn is_session_time(&self) -> (r: bool)
        ensures
            r,
    {
        true
    }

    pub fn is_logged_on(&self) -> (r: bool)
        ensures
            r,
    {
        true
    }

    /// Normal flow: the message is accepted, so the target sequence counter
    /// advances; a logout request moves the session into the logout phase.
    pub fn fix_msg_in(self, session: &mut Session, msg: &Message) -> (next: SessionState)
        requires
            old(session).store.inv(),
            old(session).store.target_seq() < isize::MAX as int,
        ensures
            final(session).store.inv(),
            final(session).store.target_seq() == old(session).store.target_seq() + 1,
            final(session).store.sender_seq() == old(session).store.sender_seq(),
            final(session).store.stored() == old(session).store.stored(),
            final(session).store.created() == old(session).store.created(),
            final(session).log == old(session).log,
            final(session).settings == old(session).settings,
            msg.kind is Logout ==> next == SessionState::Logout(
                LogoutState { connected_not_logged_on: ConnectedNotLoggedOn },
            ),
            !(msg.kind is Logout) ==> next == SessionState::InSession(self),
    {
        let _ = session.store.incr_next_target_msg_seq_num();
        if matches!(msg.kind, MessageKind::Logout) {
            SessionState::Logout(LogoutState::default())
        } else {
            SessionState::InSession(self)
        }
    }

    /// Heartbeat and peer-timeout liveness signals are handled outside this
    /// core and force no transition here.
    pub fn timeout(self, session: &mut Session, _event: Event) -> (next: SessionState)
        ensures
            *final(session) == *old(session),
            next == SessionState::InSession(self),
    {
        SessionState::InSession(self)
    }

    /// An explicit stop initiates a graceful logout.
    pub fn stop(self, session: &mut Session) -> (next: SessionState)
        ensures
            *final(session) == *old(session),
            next == SessionState::Logout(
                LogoutState { connected_not_logged_on: ConnectedNotLoggedOn },
            ),
    {
        SessionState::Logout(LogoutState::default())
    }
}

impl LogoutState {
    pub fn to_string(&self) -> (r: String)
        ensures
            r@ == "Logout State"@,
    {
        String::from_str("Logout State")
    }

    pub fn is_connected(&self) -> (r: bool)
        ensures
            r,
    {
        self.connected_not_logged_on.is_connected()
    }

    pub fn is_session_time(&self) -> (r: bool)
        ensures
            r,
    {
        self.connected_not_logged_on.is_session_time()
    }

    pub fn is_logged_on(&self) -> (r: bool)
        ensures
            !r,
    {
        self.connected_not_logged_on.is_logged_on()
    }

    pub fn shutdown_now(&self, session: &Session) {
        self.connected_not_logged_on.shutdown_now(session)
    }

    /// A logout from the peer confirms the pending logout and reverts to
    /// latent. Anything else is delegated to normal in-session handling; a
    /// reversion to latent produced there is honored, otherwise the logout
    /// phase is kept.
    pub fn fix_msg_in(self, session: &mut Session, msg: &Message) -> (next: SessionState)
        requires
            old(session).store.inv(),
            old(session).store.target_seq() < isize::MAX as int,
        ensures
            final(session).store.inv(),
            final(session).store.target_seq() == old(session).store.target_seq() + 1,
            final(session).store.sender_seq() == old(session).store.sender_seq(),
            final(session).store.stored() == old(session).store.stored(),
            final(session).store.created() == old(session).store.created(),
            final(session).log == old(session).log,
            final(session).settings == old(session).settings,
            msg.kind is Logout ==> next == SessionState::Latent(LatentState),
            !(msg.kind is Logout) ==> next == SessionState::Logout(self),
    {
        let delegated = InSession::default().fix_msg_in(session, msg);
        if matches!(msg.kind, MessageKind::Logout) {
            SessionState::Latent(LatentState::default())
        } else if matches!(delegated, SessionState::Latent(_)) {
            delegated
        } else {
            SessionState::Logout(self)
        }
    }

    /// Only a logout timeout is significant: the peer is treated as
    /// unresponsive and the session reverts to latent.
    pub fn timeout(self, session: &mut Session, event: Event) -> (next: SessionState)
        ensures
            final(session).store == old(session).store,
            final(session).settings == old(session).settings,
            event == Event::LogoutTimeout ==> next == SessionState::Latent(LatentState)
                && final(session).log.events() == old(session).log.events().push(
                "Timed out waiting for logout response"@,
            ),
            event != Event::LogoutTimeout ==> next == SessionState::Logout(self) && *final(session)
                == *old(session),
    {
        if event == Event::LogoutTimeout {
            session.log.on_event("Timed out waiting for logout response");
            return SessionState::Latent(LatentState::default());
        }
        SessionState::Logout(self)
    }

    /// A stop while already terminating changes nothing.
    pub fn stop(self, session: &mut Session) -> (next: SessionState)
        ensures
            *final(session) == *old(session),
            next == SessionState::Logout(self),
    {
        SessionState::Logout(self)
    }
}

impl NotSessionTime {
    pub fn to_string(&self) -> (r: String)
        ensures
            r@ == "Not session time"@,
    {
        String::from_str("Not session time")
    }

    pub fn is_connected(&self) -> (r: bool)
        ensures
            !r,
    {
        false
    }

    pub fn is_session_time(&self) -> (r: bool)
        ensures
            !r,
    {
        false
    }

    pub fn is_logged_on(&self) -> (r: bool)
        ensures
            !r,
    {
        false
    }

    /// Outside the session window every message is ignored; reconnection is
    /// disallowed until the window opens again.
    pub fn fix_msg_in(self, session: &mut Session, _msg: &Message) -> (next: SessionState)
        ensures
            *final(session) == *old(session),
            next == SessionState::NotSessionTime(self),
    {
        SessionState::NotSessionTime(self)
    }

    pub fn timeout(self, session: &mut Session, _event: Event) -> (next: SessionState)
        ensures
            *final(session) == *old(session),
            next == SessionState::NotSessionTime(self),
    {
        SessionState::NotSessionTime(self)
    }

    pub fn stop(self, session: &mut Session) -> (next: SessionState)
        ensures
            *final(session) == *old(session),
            next == SessionState::NotSessionTime(self),
    {
        SessionState::NotSessionTime(self)
    }
}

} // verus!
