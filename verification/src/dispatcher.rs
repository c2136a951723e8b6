//! The dispatcher's decisions: whom to admit, when to drain, when to stop.
//!
//! The dispatcher owns the listener. It admits connections until shutdown is
//! triggered, then waits for the sessions to leave, checking at a fixed
//! interval, until nobody is left or the global timeout has passed. The
//! waiting itself (accepting, sleeping, reading the clock) is the caller's;
//! what to do next is decided here.

use vstd::prelude::*;

verus! {

/// How many messages the broadcast bus holds for a slow receiver.
pub const CHANNEL_CAP: usize = 100;

/// How long the dispatcher waits for the sessions to leave, in milliseconds.
pub const GLOBAL_SHUTDOWN_TIMEOUT_MS: u64 = 5000;

/// By how much a session's own close timeout stays under the global one.
pub const CLIENT_DISCONNECT_MARGIN_MS: u64 = 1000;

/// How long a session waits for its peer to close, in milliseconds.
pub const CLIENT_DISCONNECT_TIMEOUT_MS: u64 = 4000;

/// The pause between two looks at the population while draining.
pub const DRAIN_POLL_INTERVAL_MS: u64 = 100;

/// Where the dispatcher stands.
#[derive(Debug, Clone, Copy, PartialEq, Eq, Structural)]
pub enum ServerPhase {
    /// Connections are admitted.
    Accepting,
    /// Shutdown was triggered; the sessions are leaving.
    Draining,
    /// Nothing more to wait for.
    Stopped,
}

/// What became of the shutdown notification.
#[derive(Debug, Clone, Copy, PartialEq, Eq, Structural)]
pub enum ShutdownReport {
    /// This many sessions were told; the dispatcher drains.
    Notified(usize),
    /// Nobody listened and nobody is registered; the dispatcher stops.
    NobodyOnline,
    /// Nobody listened although this many users are registered; the
    /// dispatcher stops, and the caller should report the fault.
    Unreachable(usize),
    /// Shutdown had been triggered before; nothing changed.
    AlreadyTriggered,
}

/// What a look at the population during the drain came to.
#[derive(Debug, Clone, Copy, PartialEq, Eq, Structural)]
pub enum DrainStep {
    /// Somebody is still there and time is left: look again after this many
    /// milliseconds.
    Wait(u64),
    /// Everybody has left; the dispatcher has stopped.
    Drained,
    /// The global timeout has passed with this many registered users and
    /// this many sessions still there; the dispatcher has stopped.
    TimedOut { users: usize, sessions: usize },
    /// The dispatcher is not draining; nothing changed.
    NotDraining,
}

/// The mathematical value of a [`Dispatcher`].
pub struct DispatcherState {
    pub phase: ServerPhase,
    /// Sessions that were admitted and have not ended, named or not.
    pub sessions: nat,
}

impl DispatcherState {
    /// A dispatcher that has just bound its listener.
    pub open spec fn initial() -> Self {
        DispatcherState { phase: ServerPhase::Accepting, sessions: 0 }
    }

    /// Whether a connection that arrives now is admitted.
    pub open spec fn admits(self) -> bool {
        self.phase == ServerPhase::Accepting && self.sessions < usize::MAX
    }

    /// The state after a connection has arrived.
    pub open spec fn after_connection(self) -> Self {
        if self.admits() {
            DispatcherState { sessions: self.sessions + 1, ..self }
        } else {
            self
        }
    }

    /// The state after one session has ended.
    pub open spec fn after_session_end(self) -> Self {
        if self.sessions > 0 {
            DispatcherState { sessions: (self.sessions - 1) as nat, ..self }
        } else {
            self
        }
    }

    /// What is reported when shutdown is triggered and the notification
    /// reached `receivers` sessions (`None`: nobody listened) while
    /// `users_online` users were registered.
    pub open spec fn shutdown_report(self, receivers: Option<usize>, users_online: usize)
        -> ShutdownReport {
        if self.phase != ServerPhase::Accepting {
            ShutdownReport::AlreadyTriggered
        } else {
            match receivers {
                Some(n) => ShutdownReport::Notified(n),
                None => if users_online == 0 {
                    ShutdownReport::NobodyOnline
                } else {
                    ShutdownReport::Unreachable(users_online)
                },
            }
        }
    }

    /// The state after shutdown was triggered.
    pub open spec fn after_shutdown(self, receivers: Option<usize>) -> Self {
        if self.phase != ServerPhase::Accepting {
            self
        } else if receivers is Some {
            DispatcherState { phase: ServerPhase::Draining, ..self }
        } else {
            DispatcherState { phase: ServerPhase::Stopped, ..self }
        }
    }

    /// Whether anybody is still there: a registered user, or a session that
    /// may not have chosen its name yet.
    pub open spec fn populated(self, users_online: usize) -> bool {
        users_online > 0 || self.sessions > 0
    }

    /// What a look at the population comes to, `elapsed_ms` after shutdown
    /// was triggered.
    pub open spec fn drain_step(self, elapsed_ms: u64, users_online: usize) -> DrainStep {
        if self.phase != ServerPhase::Draining {
            DrainStep::NotDraining
        } else if !self.populated(users_online) {
            DrainStep::Drained
        } else if elapsed_ms >= GLOBAL_SHUTDOWN_TIMEOUT_MS {
            DrainStep::TimedOut { users: users_online, sessions: self.sessions as usize }
        } else {
            DrainStep::Wait(DRAIN_POLL_INTERVAL_MS)
        }
    }

    /// The state after a look at the population.
    pub open spec fn after_poll(self, elapsed_ms: u64, users_online: usize) -> Self {
        match self.drain_step(elapsed_ms, users_online) {
            DrainStep::Drained | DrainStep::TimedOut { .. } => DispatcherState {
                phase: ServerPhase::Stopped,
                ..self
            },
            _ => self,
        }
    }
}

/// The sending side of tokio's broadcast channel, as an opaque value.
#[verifier::external_type_specification]
#[verifier::external_body]
#[verifier::reject_recursive_types(T)]
pub struct ExSender<T>(tokio::sync::broadcast::Sender<T>);

/// `tokio::sync::broadcast::Sender::send`, on the channel that carries the
/// shutdown signal: the signal is handed to every receiver that is
/// subscribed, and their number comes back; where nobody is subscribed
/// nothing is sent and nothing comes back. All that is claimed is that a
/// number that comes back is not zero. Believed, not proved.
#[verifier::external_body]
fn send_signal(signal: &tokio::sync::broadcast::Sender<()>) -> (receivers: Option<usize>)
    ensures
        receivers matches Some(n) ==> n >= 1,
{
    signal.send(()).ok()
}

/// The dispatcher's own state: its phase and the number of live sessions.
#[derive(Debug)]
pub struct Dispatcher {
    phase: ServerPhase,
    sessions: usize,
}

impl View for Dispatcher {
    type V = DispatcherState;

    closed spec fn view(&self) -> DispatcherState {
        DispatcherState { phase: self.phase, sessions: self.sessions as nat }
    }
}

impl Dispatcher {
    /// A dispatcher that admits connections and has no session yet.
    pub fn new() -> (dispatcher: Self)
        ensures
            dispatcher@ == DispatcherState::initial(),
    {
        Dispatcher { phase: ServerPhase::Accepting, sessions: 0 }
    }

    /// The current phase.
    pub fn phase(&self) -> (phase: ServerPhase)
        ensures
            phase == self@.phase,
    {
        self.phase
    }

    /// The number of sessions that were admitted and have not ended.
    pub fn sessions(&self) -> (sessions: usize)
        ensures
            sessions == self@.sessions,
    {
        self.sessions
    }

    /// A connection has arrived. It is admitted, and counted as a session,
    /// only while the dispatcher is accepting; after shutdown was triggered it
    /// is turned away and nothing changes.
    pub fn on_connection(&mut self) -> (admitted: bool)
        ensures
            admitted == old(self)@.admits(),
            final(self)@ == old(self)@.after_connection(),
    {
        match self.phase {
            ServerPhase::Accepting => {
                if self.sessions < usize::MAX {
                    self.sessions = self.sessions + 1;
                    true
                } else {
                    false
                }
            },
            _ => false,
        }
    }

    /// A session has ended, by handshake failure, by error or in good order.
    pub fn on_session_end(&mut self)
        ensures
            final(self)@ == old(self)@.after_session_end(),
    {
        if self.sessions > 0 {
            self.sessions = self.sessions - 1;
        }
    }

    /// Shutdown was triggered and the notification was sent out. `receivers`
    /// is the number of sessions it reached, `None` where nobody listened;
    /// `users_online` is the number of registered users at that moment.
    ///
    /// Where the notification reached somebody the dispatcher starts to
    /// drain; where it reached nobody there is nobody to wait for and the
    /// dispatcher stops.
    pub fn on_shutdown(
        &mut self,
        receivers: Option<usize>,
        users_online: usize,
    ) -> (report: ShutdownReport)
        ensures
            report == old(self)@.shutdown_report(receivers, users_online),
            final(self)@ == old(self)@.after_shutdown(receivers),
    {
        match self.phase {
            ServerPhase::Accepting => match receivers {
                Some(n) => {
                    self.phase = ServerPhase::Draining;
                    ShutdownReport::Notified(n)
                },
                None => {
                    self.phase = ServerPhase::Stopped;
                    if users_online == 0 {
                        ShutdownReport::NobodyOnline
                    } else {
                        ShutdownReport::Unreachable(users_online)
                    }
                },
            },
            _ => ShutdownReport::AlreadyTriggered,
        }
    }

    /// Shutdown is triggered: sends the signal to the sessions, over the
    /// channel that they subscribed to when they were spawned, and decides by
    /// what became of it. How many sessions the signal reaches is not in the
    /// dispatcher's hand; whatever the number, the dispatcher reports and
    /// moves on as [`Dispatcher::on_shutdown`] says for it.
    pub fn signal_shutdown(
        &mut self,
        signal: &tokio::sync::broadcast::Sender<()>,
        users_online: usize,
    ) -> (report: ShutdownReport)
        ensures
            exists|receivers: Option<usize>|
                {
                    &&& receivers != Some(0usize)
                    &&& report == #[trigger] old(self)@.shutdown_report(receivers, users_online)
                    &&& final(self)@ == old(self)@.after_shutdown(receivers)
                },
            !final(self)@.admits(),
    {
        match self.phase {
            ServerPhase::Accepting => {
                let receivers = send_signal(signal);
                let report = self.on_shutdown(receivers, users_online);
                assert(report == old(self)@.shutdown_report(receivers, users_online));
                report
            },
            _ => {
                assert(ShutdownReport::AlreadyTriggered == old(self)@.shutdown_report(
                    None,
                    users_online,
                ));
                ShutdownReport::AlreadyTriggered
            },
        }
    }

    /// One look at the population while draining, `elapsed_ms` after shutdown
    /// was triggered, with `users_online` users registered.
    ///
    /// The drain ends as soon as nobody is left, and at the latest when the
    /// global timeout has passed; until then the caller is told to wait one
    /// interval and look again.
    pub fn poll_drain(&mut self, elapsed_ms: u64, users_online: usize) -> (step: DrainStep)
        ensures
            step == old(self)@.drain_step(elapsed_ms, users_online),
            final(self)@ == old(self)@.after_poll(elapsed_ms, users_online),
    {
        match self.phase {
            ServerPhase::Draining => {
                if users_online == 0 && self.sessions == 0 {
                    self.phase = ServerPhase::Stopped;
                    DrainStep::Drained
                } else if elapsed_ms >= GLOBAL_SHUTDOWN_TIMEOUT_MS {
                    self.phase = ServerPhase::Stopped;
                    DrainStep::TimedOut { users: users_online, sessions: self.sessions }
                } else {
                    DrainStep::Wait(DRAIN_POLL_INTERVAL_MS)
                }
            },
            _ => DrainStep::NotDraining,
        }
    }
}

/// Anything that can happen to the dispatcher.
pub enum ServerEvent {
    /// A connection has arrived.
    Connection,
    /// A session has ended.
    SessionEnd,
    /// Shutdown was triggered.
    Shutdown { receivers: Option<usize>, users_online: usize },
    /// The population was looked at.
    Poll { elapsed_ms: u64, users_online: usize },
}

impl DispatcherState {
    /// The state after an event, whichever it is.
    pub open spec fn after(self, event: ServerEvent) -> Self {
        match event {
            ServerEvent::Connection => self.after_connection(),
            ServerEvent::SessionEnd => self.after_session_end(),
            ServerEvent::Shutdown { receivers, users_online } => self.after_shutdown(receivers),
            ServerEvent::Poll { elapsed_ms, users_online } => self.after_poll(
                elapsed_ms,
                users_online,
            ),
        }
    }

    /// The state after a run of events.
    pub open spec fn after_all(self, events: Seq<ServerEvent>) -> Self
        decreases events.len(),
    {
        if events.len() == 0 {
            self
        } else {
            self.after_all(events.drop_last()).after(events.last())
        }
    }
}

/// Once shutdown was triggered the dispatcher never accepts again: whatever
/// happens afterwards, a connection that arrives is turned away and changes
/// nothing, so it can neither restart nor cut short the drain.
pub proof fn lemma_no_admission_after_shutdown(state: DispatcherState, events: Seq<ServerEvent>)
    requires
        state.phase != ServerPhase::Accepting,
    ensures
        state.after_all(events).phase != ServerPhase::Accepting,
        !state.after_all(events).admits(),
        state.after_all(events).after_connection() == state.after_all(events),
    decreases events.len(),
{
    if events.len() > 0 {
        lemma_no_admission_after_shutdown(state, events.drop_last());
    }
}

/// Triggering shutdown ends the accepting for good, whatever the notification
/// reached.
pub proof fn lemma_shutdown_stops_accepting(
    state: DispatcherState,
    receivers: Option<usize>,
    events: Seq<ServerEvent>,
)
    ensures
        !state.after_shutdown(receivers).after_all(events).admits(),
{
    lemma_no_admission_after_shutdown(state.after_shutdown(receivers), events);
}

/// While the dispatcher drains, one look at the population either ends the
/// drain or asks for another look one interval later: it ends at once when
/// nobody is left, however little time has passed; it ends when the global
/// timeout has passed, whoever is left; and in between it waits and nothing
/// changes.
pub proof fn lemma_drain_step(state: DispatcherState, elapsed_ms: u64, users_online: usize)
    requires
        state.phase == ServerPhase::Draining,
    ensures
        !state.populated(users_online) ==> state.drain_step(elapsed_ms, users_online)
            == DrainStep::Drained,
        state.populated(users_online) && elapsed_ms < GLOBAL_SHUTDOWN_TIMEOUT_MS ==> {
            &&& state.drain_step(elapsed_ms, users_online) == DrainStep::Wait(
                DRAIN_POLL_INTERVAL_MS,
            )
            &&& state.after_poll(elapsed_ms, users_online) == state
        },
        state.populated(users_online) && elapsed_ms >= GLOBAL_SHUTDOWN_TIMEOUT_MS
            ==> state.drain_step(elapsed_ms, users_online) is TimedOut,
        state.drain_step(elapsed_ms, users_online) is Wait <==> state.after_poll(
            elapsed_ms,
            users_online,
        ).phase == ServerPhase::Draining,
        !(state.drain_step(elapsed_ms, users_online) is Wait) ==> state.after_poll(
            elapsed_ms,
            users_online,
        ).phase == ServerPhase::Stopped,
{
}

/// A session gives up on its peer before the dispatcher gives up on the
/// sessions. The per-client timeout is the global one less the margin, and a
/// session that has left by then is seen to be gone at the next look, which
/// still comes before the global timeout: the drain then ends because nobody
/// is left, not because time has run out.
pub proof fn lemma_client_timeout_comes_first(
    state: DispatcherState,
    left_at_ms: u64,
    polled_at_ms: u64,
)
    requires
        state.phase == ServerPhase::Draining,
        state.sessions == 0,
        left_at_ms <= CLIENT_DISCONNECT_TIMEOUT_MS,
        left_at_ms <= polled_at_ms <= left_at_ms + DRAIN_POLL_INTERVAL_MS,
    ensures
        CLIENT_DISCONNECT_TIMEOUT_MS + CLIENT_DISCONNECT_MARGIN_MS == GLOBAL_SHUTDOWN_TIMEOUT_MS,
        CLIENT_DISCONNECT_TIMEOUT_MS < GLOBAL_SHUTDOWN_TIMEOUT_MS,
        polled_at_ms < GLOBAL_SHUTDOWN_TIMEOUT_MS,
        state.drain_step(polled_at_ms, 0) == DrainStep::Drained,
{
}

/// Until the last session has left, and while the global timeout has not
/// passed, the dispatcher keeps draining: every look tells it to wait.
pub proof fn lemma_drain_waits_for_sessions(
    state: DispatcherState,
    elapsed_ms: u64,
    users_online: usize,
)
    requires
        state.phase == ServerPhase::Draining,
        state.sessions > 0,
        elapsed_ms < GLOBAL_SHUTDOWN_TIMEOUT_MS,
    ensures
        state.drain_step(elapsed_ms, users_online) == DrainStep::Wait(DRAIN_POLL_INTERVAL_MS),
        state.after_poll(elapsed_ms, users_online) == state,
{
}

} // verus!
