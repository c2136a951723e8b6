//! What a hub is, as a mathematical value, and what each event makes of it.

use vstd::prelude::*;
use crate::dispatcher::{DispatcherState, ServerPhase, CHANNEL_CAP};
use crate::session::model::{EffectText, SessionState, Step};
use crate::session::{BusFault, Phase};
use crate::wire::USERNAME_PROMPT;

verus! {

/// The mathematical value of one client of the hub.
pub struct ClientState {
    pub session: SessionState,
    /// How many lines had been published when the client connected.
    pub subscribed_at: nat,
    /// The place, among all lines ever published, of the line that the
    /// client is handed next.
    pub next: nat,
    /// The lines that were published for this client and not handed over yet.
    pub pending: Seq<Seq<char>>,
    /// How many lines were dropped from `pending` since the last turn.
    pub missed: u64,
    /// Everything that was written to the client and not taken away, in
    /// order.
    pub output: Seq<Seq<char>>,
    /// Whether the write half was shut down.
    pub write_closed: bool,
}

impl ClientState {
    /// A client that has just connected, after `published` lines: it has
    /// been asked for its name and has heard nothing yet.
    pub open spec fn fresh(published: nat) -> Self {
        ClientState {
            session: SessionState::initial(),
            subscribed_at: published,
            next: published,
            pending: Seq::empty(),
            missed: 0,
            output: seq![USERNAME_PROMPT@],
            write_closed: false,
        }
    }

    /// Whether the session is still there, and so subscribed to the bus.
    pub open spec fn live(self) -> bool {
        self.session.phase != Phase::Terminated
    }

    /// The client after `line` was published: a live client has it queued,
    /// and where the queue was full the oldest line has made room for it.
    pub open spec fn receive(self, line: Seq<char>) -> Self {
        if !self.live() {
            self
        } else if self.pending.len() < CHANNEL_CAP {
            ClientState { pending: self.pending.push(line), ..self }
        } else {
            ClientState {
                pending: self.pending.drop_first().push(line),
                next: self.next + 1,
                missed: if self.missed < u64::MAX {
                    (self.missed + 1) as u64
                } else {
                    self.missed
                },
                ..self
            }
        }
    }

    /// The client after its own part of `effect` was done. Publishing is
    /// not the client's part.
    pub open spec fn perform(self, effect: EffectText) -> Self {
        match effect {
            EffectText::Write(text) => ClientState { output: self.output.push(text), ..self },
            EffectText::Publish(_) => self,
            EffectText::CloseWrite => ClientState { write_closed: true, ..self },
        }
    }

    /// The client after its own part of each of `effects` was done, in order.
    pub open spec fn perform_all(self, effects: Seq<EffectText>) -> Self
        decreases effects.len(),
    {
        if effects.len() == 0 {
            self
        } else {
            self.perform_all(effects.drop_last()).perform(effects.last())
        }
    }

    /// The client after the shutdown signal has reached its session.
    pub open spec fn notified(self) -> Self {
        ClientState { session: self.session.on_shutdown().session, ..self }.perform_all(
            self.session.on_shutdown().effects,
        )
    }

    /// The client after the oldest line that is queued for it was taken out.
    pub open spec fn handed(self) -> Self {
        ClientState { pending: self.pending.drop_first(), next: self.next + 1, ..self }
    }

    /// What the client has queued is a stretch of what was published, in the
    /// order of publication, that starts no earlier than the client's
    /// subscription and, while the client is live, reaches up to the newest
    /// line.
    pub open spec fn follows(self, published: Seq<Seq<char>>) -> bool {
        &&& self.subscribed_at <= self.next
        &&& self.next + self.pending.len() <= published.len()
        &&& self.pending == published.subrange(
            self.next as int,
            (self.next + self.pending.len()) as int,
        )
        &&& self.live() ==> self.next + self.pending.len() == published.len()
    }
}

/// How many of `clients` are live.
pub open spec fn live_count(clients: Seq<ClientState>) -> nat
    decreases clients.len(),
{
    if clients.len() == 0 {
        0
    } else {
        live_count(clients.drop_last()) + if clients.last().live() {
            1nat
        } else {
            0nat
        }
    }
}

/// Anything that can happen to a hub: one call of one of its operations.
pub enum HubEvent {
    Connect,
    Line { id: int, line: Seq<char> },
    EndOfStream { id: int },
    CloseTimeout { id: int },
    TransportFailure { id: int },
    Deliver { id: int },
    Shutdown,
    Poll { elapsed_ms: u64 },
    TakeOutput { id: int },
}

/// The mathematical value of a hub.
pub struct HubState {
    pub dispatcher: DispatcherState,
    pub users: Seq<Seq<char>>,
    /// Every line that was ever published on the bus, in order.
    pub published: Seq<Seq<char>>,
    /// Every client that was ever admitted, by its number.
    pub clients: Seq<ClientState>,
}

impl HubState {
    /// A hub that nobody has connected to.
    pub open spec fn initial() -> Self {
        HubState {
            dispatcher: DispatcherState::initial(),
            users: Seq::empty(),
            published: Seq::empty(),
            clients: Seq::empty(),
        }
    }

    /// Whether `id` is the number of a client.
    pub open spec fn has(self, id: int) -> bool {
        0 <= id < self.clients.len()
    }

    /// Whether client `id` holds the name `name` in the directory.
    pub open spec fn holds(self, id: int, name: Seq<char>) -> bool {
        self.has(id) && self.clients[id].session.registered() && self.clients[id].session.name
            == Some(name)
    }

    /// The directory and the sessions agree: the names in the directory are
    /// the names of the sessions that have claimed one and have not
    /// terminated, each held by one session.
    pub open spec fn names_wf(self) -> bool {
        &&& self.users.no_duplicates()
        &&& forall|i: int| self.has(i) ==> (#[trigger] self.clients[i]).session.wf()
        &&& forall|i: int|
            self.has(i) && (#[trigger] self.clients[i]).session.registered()
                ==> self.users.contains(self.clients[i].session.name->0)
        &&& forall|i: int, j: int, name: Seq<char>|
            #[trigger] self.holds(i, name) && #[trigger] self.holds(j, name) ==> i == j
        &&& forall|name: Seq<char>| #[trigger]
            self.users.contains(name) ==> exists|i: int| #[trigger] self.holds(i, name)
    }

    /// The bus and the queues agree: no queue is longer than its bound, and
    /// each holds a stretch of what was published.
    pub open spec fn bus_wf(self) -> bool {
        forall|i: int|
            self.has(i) ==> (#[trigger] self.clients[i]).pending.len() <= CHANNEL_CAP
                && self.clients[i].follows(self.published)
    }

    /// What holds of every hub.
    pub open spec fn wf(self) -> bool {
        &&& self.names_wf()
        &&& self.bus_wf()
        &&& self.dispatcher.sessions == live_count(self.clients)
    }

    /// The hub after `line` was published: it is the newest line on the
    /// bus, and every live client has it queued.
    pub open spec fn publish(self, line: Seq<char>) -> Self {
        HubState {
            published: self.published.push(line),
            clients: Seq::new(self.clients.len(), |i: int| self.clients[i].receive(line)),
            ..self
        }
    }

    /// The hub after client `id` had `effect` done.
    pub open spec fn perform(self, id: int, effect: EffectText) -> Self {
        match effect {
            EffectText::Publish(line) => self.publish(line),
            _ => HubState {
                clients: self.clients.update(id, self.clients[id].perform(effect)),
                ..self
            },
        }
    }

    /// The hub after client `id` had each of `effects` done, in order.
    pub open spec fn perform_all(self, id: int, effects: Seq<EffectText>) -> Self
        decreases effects.len(),
    {
        if effects.len() == 0 {
            self
        } else {
            self.perform_all(id, effects.drop_last()).perform(id, effects.last())
        }
    }

    /// The hub with the session of client `id` replaced.
    pub open spec fn with_session(self, id: int, session: SessionState) -> Self {
        HubState {
            clients: self.clients.update(id, ClientState { session, ..self.clients[id] }),
            ..self
        }
    }

    /// The hub after the session of client `id` has taken `step`: the
    /// directory and the session are as the step left them, a session that
    /// has ended is counted out, and what the session asked for is done.
    pub open spec fn advance(self, id: int, step: Step) -> Self {
        HubState {
            dispatcher: if self.clients[id].live() && step.session.phase == Phase::Terminated {
                self.dispatcher.after_session_end()
            } else {
                self.dispatcher
            },
            users: step.users,
            ..self.with_session(id, step.session)
        }.perform_all(id, step.effects)
    }

    /// The hub after a connection has arrived.
    pub open spec fn after_connect(self) -> Self {
        if self.dispatcher.admits() {
            HubState {
                dispatcher: self.dispatcher.after_connection(),
                clients: self.clients.push(ClientState::fresh(self.published.len())),
                ..self
            }
        } else {
            self
        }
    }

    /// The hub after client `id` has sent `line`. The empty line stands for
    /// the end of the stream.
    pub open spec fn after_line(self, id: int, line: Seq<char>) -> Self {
        if self.has(id) {
            self.advance(id, self.clients[id].session.on_line(self.users, line))
        } else {
            self
        }
    }

    /// The hub after client `id` has closed its side of the connection. A
    /// session that is closing has waited for just that; any other session
    /// reads the end of the stream.
    pub open spec fn after_end_of_stream(self, id: int) -> Self {
        if !self.has(id) {
            self
        } else if self.clients[id].session.phase == Phase::Disconnecting {
            self.advance(id, self.clients[id].session.on_closed(self.users))
        } else {
            self.advance(id, self.clients[id].session.on_line(self.users, Seq::empty()))
        }
    }

    /// The hub after session `id` has waited long enough for its peer to
    /// close.
    pub open spec fn after_close_timeout(self, id: int) -> Self {
        if self.has(id) {
            self.advance(id, self.clients[id].session.on_closed(self.users))
        } else {
            self
        }
    }

    /// The hub after the transport of client `id` has failed.
    pub open spec fn after_transport_failure(self, id: int) -> Self {
        if self.has(id) {
            self.advance(id, self.clients[id].session.on_io_error(self.users))
        } else {
            self
        }
    }

    /// Whether client `id` has something to take from the bus: it is active
    /// and a line is queued for it, or was dropped.
    pub open spec fn can_deliver(self, id: int) -> bool {
        &&& self.has(id)
        &&& self.clients[id].session.phase == Phase::Active
        &&& (self.clients[id].missed > 0 || self.clients[id].pending.len() > 0)
    }

    /// The hub after client `id` has had its turn at the bus. Where lines
    /// were dropped the session learns that it has lagged; otherwise the
    /// oldest line that is queued is handed to it.
    pub open spec fn after_delivery(self, id: int) -> Self {
        if !self.can_deliver(id) {
            self
        } else {
            let client = self.clients[id];
            if client.missed > 0 {
                HubState {
                    clients: self.clients.update(id, ClientState { missed: 0, ..client }),
                    ..self
                }.advance(
                    id,
                    client.session.on_bus_fault(self.users, BusFault::Lagged(client.missed)),
                )
            } else {
                HubState { clients: self.clients.update(id, client.handed()), ..self }.advance(
                    id,
                    Step {
                        session: client.session.on_broadcast(client.pending.first()).session,
                        users: self.users,
                        effects: client.session.on_broadcast(client.pending.first()).effects,
                    },
                )
            }
        }
    }

    /// How many sessions the shutdown signal reaches: all that the
    /// dispatcher counts as live, or nobody.
    pub open spec fn shutdown_receivers(self) -> Option<usize> {
        if self.dispatcher.sessions > 0 {
            Some(self.dispatcher.sessions as usize)
        } else {
            None
        }
    }

    /// The hub after shutdown was triggered: the dispatcher accepts no more,
    /// and every session has been told.
    pub open spec fn after_shutdown(self) -> Self {
        if self.dispatcher.phase != ServerPhase::Accepting {
            self
        } else {
            HubState {
                dispatcher: self.dispatcher.after_shutdown(self.shutdown_receivers()),
                clients: Seq::new(self.clients.len(), |i: int| self.clients[i].notified()),
                ..self
            }
        }
    }

    /// The hub after the dispatcher has looked at the population.
    pub open spec fn after_poll(self, elapsed_ms: u64) -> Self {
        HubState {
            dispatcher: self.dispatcher.after_poll(elapsed_ms, self.users.len() as usize),
            ..self
        }
    }

    /// The hub after what was written to client `id` was taken away.
    pub open spec fn after_output_taken(self, id: int) -> Self {
        if self.has(id) {
            HubState {
                clients: self.clients.update(
                    id,
                    ClientState { output: Seq::empty(), ..self.clients[id] },
                ),
                ..self
            }
        } else {
            self
        }
    }

    /// The hub after an event, whichever it is.
    pub open spec fn after(self, event: HubEvent) -> Self {
        match event {
            HubEvent::Connect => self.after_connect(),
            HubEvent::Line { id, line } => self.after_line(id, line),
            HubEvent::EndOfStream { id } => self.after_end_of_stream(id),
            HubEvent::CloseTimeout { id } => self.after_close_timeout(id),
            HubEvent::TransportFailure { id } => self.after_transport_failure(id),
            HubEvent::Deliver { id } => self.after_delivery(id),
            HubEvent::Shutdown => self.after_shutdown(),
            HubEvent::Poll { elapsed_ms } => self.after_poll(elapsed_ms),
            HubEvent::TakeOutput { id } => self.after_output_taken(id),
        }
    }

    /// The hub after a run of events.
    pub open spec fn after_all(self, events: Seq<HubEvent>) -> Self
        decreases events.len(),
    {
        if events.len() == 0 {
            self
        } else {
            self.after_all(events.drop_last()).after(events.last())
        }
    }
}

} // verus!
