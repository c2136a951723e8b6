//! A whole server in one place, driven one event at a time.
//!
//! The hub wires the dispatcher, the user directory and the sessions
//! together over a bus that lives in memory: every line that is published is
//! queued for each session that is subscribed at that moment, and handed to
//! it when its turn comes. Nothing here waits or runs in parallel; each call
//! is one event of the concurrent server, taken alone. That is enough to say
//! what the sessions owe each other, and to try a conversation without a
//! network.
//!
//! A session is subscribed from the moment it is connected until it has
//! terminated. A queue holds `CHANNEL_CAP` lines; a session that lets more
//! pile up loses the oldest, and learns so at its next turn.

use vstd::prelude::*;
use std::collections::VecDeque;
use crate::directory::UserDirectory;
use crate::dispatcher::{Dispatcher, DrainStep, ServerPhase, ShutdownReport, CHANNEL_CAP};
use crate::hub::laws::{lemma_perform_all_frame, lemma_step_keeps_wf};
use crate::hub::model::{ClientState, HubEvent, HubState};
use crate::session::model::EffectText;
use crate::session::{effect_texts, BusFault, Effect, Exit, Phase, Session};
use crate::wire::USERNAME_PROMPT;

pub mod laws;
pub mod model;

verus! {

/// One client of the hub: its session, its queue on the bus and what was
/// written to it.
struct Client {
    session: Session,
    subscribed_at: Ghost<nat>,
    next: Ghost<nat>,
    inbox: VecDeque<String>,
    missed: u64,
    output: Vec<String>,
    write_closed: bool,
}

impl View for Client {
    type V = ClientState;

    closed spec fn view(&self) -> ClientState {
        ClientState {
            session: self.session@,
            subscribed_at: self.subscribed_at@,
            next: self.next@,
            pending: self.inbox.deep_view(),
            missed: self.missed,
            output: self.output.deep_view(),
            write_closed: self.write_closed,
        }
    }
}

/// A dispatcher, a directory, a bus and the sessions, in one thread.
pub struct Hub {
    dispatcher: Dispatcher,
    users: UserDirectory,
    published: Ghost<Seq<Seq<char>>>,
    clients: Vec<Client>,
}

impl View for Hub {
    type V = HubState;

    closed spec fn view(&self) -> HubState {
        HubState {
            dispatcher: self.dispatcher@,
            users: self.users@,
            published: self.published@,
            clients: self.clients@.map_values(|client: Client| client@),
        }
    }
}

impl Client {
    /// Queues a line that was published, if the session is subscribed.
    fn receive(&mut self, line: &str)
        ensures
            final(self)@ == old(self)@.receive(line@),
    {
        match self.session.phase() {
            Phase::Terminated => {},
            _ => {
                let ghost queued = self.inbox.deep_view();
                if self.inbox.len() >= CHANNEL_CAP {
                    self.inbox.pop_front();
                    assert(self.inbox.deep_view() =~= queued.drop_first());
                    self.next = Ghost(self.next@ + 1);
                    if self.missed < u64::MAX {
                        self.missed = self.missed + 1;
                    }
                }
                let ghost kept = self.inbox.deep_view();
                self.inbox.push_back(line.to_owned());
                assert(self.inbox.deep_view() =~= kept.push(line@));
            },
        }
    }

    /// Does the client's own part of an effect.
    fn perform(&mut self, effect: &Effect)
        ensures
            final(self)@ == old(self)@.perform(effect@),
    {
        match effect {
            Effect::Write(text) => {
                let ghost written = self.output.deep_view();
                self.output.push(text.clone());
                assert(self.output.deep_view() =~= written.push(text@));
            },
            Effect::Publish(_) => {},
            Effect::CloseWrite => {
                self.write_closed = true;
            },
        }
    }

    /// Tells the session that the server shuts down and does what it asks
    /// for: a notice to the client, and the close of the write half.
    fn notify(&mut self)
        ensures
            final(self)@ == old(self)@.notified(),
    {
        let ghost before = self@;
        let effects = self.session.on_shutdown();
        let ghost told = self@;
        let ghost texts = effect_texts(effects@);
        assert(told == ClientState { session: before.session.on_shutdown().session, ..before });
        assert(texts.take(0) =~= Seq::<EffectText>::empty());
        let mut k: usize = 0;
        while k < effects.len()
            invariant
                k <= effects.len(),
                texts == effect_texts(effects@),
                self@ == told.perform_all(texts.take(k as int)),
            decreases effects.len() - k,
        {
            proof {
                assert(texts.take(k + 1).drop_last() =~= texts.take(k as int));
                assert(texts.take(k + 1).last() == effects[k as int]@);
            }
            self.perform(&effects[k]);
            k = k + 1;
        }
        assert(texts.take(effects.len() as int) =~= texts);
    }
}

impl Hub {
    /// What holds of every hub.
    pub open spec fn wf(&self) -> bool {
        self@.wf()
    }

    /// A hub that nobody has connected to.
    pub fn new() -> (hub: Self)
        ensures
            hub@ == HubState::initial(),
            hub.wf(),
    {
        let hub = Hub {
            dispatcher: Dispatcher::new(),
            users: UserDirectory::new(),
            published: Ghost(Seq::empty()),
            clients: Vec::new(),
        };
        assert(hub@.clients =~= Seq::<ClientState>::empty());
        hub
    }

    /// A connection has arrived. While the dispatcher accepts, a session is
    /// spawned for it, subscribed to the bus from now on, and asked for a
    /// username; its number comes back. After shutdown nothing happens.
    pub fn connect(&mut self) -> (id: Option<usize>)
        ensures
            final(self)@ == old(self)@.after_connect(),
            id == if old(self)@.dispatcher.admits() {
                Some(old(self)@.clients.len() as usize)
            } else {
                None
            },
            old(self).wf() ==> final(self).wf(),
    {
        if self.dispatcher.on_connection() {
            let mut output: Vec<String> = Vec::new();
            output.push(USERNAME_PROMPT.to_owned());
            let client = Client {
                session: Session::new(),
                subscribed_at: Ghost(self.published@.len()),
                next: Ghost(self.published@.len()),
                inbox: VecDeque::new(),
                missed: 0,
                output,
                write_closed: false,
            };
            assert(client@.pending =~= Seq::<Seq<char>>::empty());
            assert(client@.output =~= seq![USERNAME_PROMPT@]);
            let id = self.clients.len();
            self.clients.push(client);
            proof {
                let before = old(self)@;
                assert(self@.clients =~= before.clients.push(
                    ClientState::fresh(before.published.len()),
                ));
                if before.wf() {
                    lemma_step_keeps_wf(before, HubEvent::Connect);
                }
            }
            Some(id)
        } else {
            None
        }
    }

    /// Queues `line` for every client that is subscribed.
    fn publish(&mut self, line: &str)
        ensures
            final(self)@ == old(self)@.publish(line@),
    {
        let ghost before = self@;
        self.published = Ghost(self.published@.push(line@));
        let mut i: usize = 0;
        while i < self.clients.len()
            invariant
                i <= self.clients.len(),
                self.clients.len() == before.clients.len(),
                self@.dispatcher == before.dispatcher,
                self@.users == before.users,
                self@.published == before.published.push(line@),
                forall|j: int|
                    0 <= j < i ==> (#[trigger] self@.clients[j]) == before.clients[j].receive(
                        line@,
                    ),
                forall|j: int|
                    i <= j < self.clients.len() ==> (#[trigger] self@.clients[j])
                        == before.clients[j],
            decreases self.clients.len() - i,
        {
            let ghost here = self@;
            assert(here.clients[i as int] == before.clients[i as int]);
            assert(self.clients[i as int]@ == here.clients[i as int]);
            self.clients[i].receive(line);
            assert forall|j: int| 0 <= j < i + 1 implies (#[trigger] self@.clients[j])
                == before.clients[j].receive(line@) by {
                if j < i {
                    assert(self@.clients[j] == here.clients[j]);
                }
            }
            assert forall|j: int| i + 1 <= j < self.clients.len() implies (
            #[trigger] self@.clients[j]) == before.clients[j] by {
                assert(self@.clients[j] == here.clients[j]);
            }
            i = i + 1;
        }
        assert(self@.clients =~= before.publish(line@).clients);
    }

    /// Does what the session of client `id` asked for, in order.
    fn perform_all(&mut self, id: usize, effects: &Vec<Effect>)
        requires
            id < old(self).clients.len(),
        ensures
            final(self)@ == old(self)@.perform_all(id as int, effect_texts(effects@)),
    {
        let ghost before = self@;
        let ghost texts = effect_texts(effects@);
        let mut k: usize = 0;
        assert(texts.take(0) =~= Seq::<EffectText>::empty());
        while k < effects.len()
            invariant
                k <= effects.len(),
                id < self.clients.len(),
                before.has(id as int),
                texts == effect_texts(effects@),
                self@ == before.perform_all(id as int, texts.take(k as int)),
            decreases effects.len() - k,
        {
            let ghost here = self@;
            proof {
                lemma_perform_all_frame(before, id as int, texts.take(k as int));
                assert(texts.take(k + 1).drop_last() =~= texts.take(k as int));
                assert(texts.take(k + 1).last() == effects[k as int]@);
            }
            match &effects[k] {
                Effect::Publish(line) => {
                    self.publish(line.as_str());
                },
                effect => {
                    self.clients[id].perform(effect);
                    assert(self@.clients =~= here.clients.update(
                        id as int,
                        here.clients[id as int].perform(effect@),
                    ));
                },
            }
            assert(self@ == here.perform(id as int, effects[k as int]@));
            assert(self.clients@.len() == self@.clients.len());
            k = k + 1;
        }
        assert(texts.take(effects.len() as int) =~= texts);
    }

    /// Counts the session of client `id` out if it has just ended, then does
    /// what it asked for.
    fn settle(&mut self, id: usize, was_live: bool, effects: &Vec<Effect>)
        requires
            id < old(self).clients.len(),
        ensures
            final(self)@ == (HubState {
                dispatcher: if was_live && old(self)@.clients[id as int].session.phase
                    == Phase::Terminated {
                    old(self)@.dispatcher.after_session_end()
                } else {
                    old(self)@.dispatcher
                },
                ..old(self)@
            }).perform_all(id as int, effect_texts(effects@)),
    {
        let ended = match self.clients[id].session.phase() {
            Phase::Terminated => was_live,
            _ => false,
        };
        if ended {
            self.dispatcher.on_session_end();
        }
        self.perform_all(id, effects);
    }

    /// Whether the session of client `id` has not terminated.
    fn is_live(&self, id: usize) -> (live: bool)
        requires
            id < self.clients.len(),
        ensures
            live == self@.clients[id as int].live(),
    {
        match self.clients[id].session.phase() {
            Phase::Terminated => false,
            _ => true,
        }
    }

    /// Client `id` has sent `line`, newline included; the empty line stands
    /// for the end of the stream. Its session reads the line, and what the
    /// session asks for is done: writes reach the client, and what is
    /// published is queued for every session that is subscribed. A number
    /// that no client has does nothing.
    pub fn client_line(&mut self, id: usize, line: &str)
        ensures
            final(self)@ == old(self)@.after_line(id as int, line@),
            old(self).wf() ==> final(self).wf(),
    {
        if id < self.clients.len() {
            let ghost before = self@;
            let was_live = self.is_live(id);
            let effects = self.clients[id].session.on_line(line, &mut self.users);
            proof {
                let step = before.clients[id as int].session.on_line(before.users, line@);
                assert(self@.clients =~= before.with_session(id as int, step.session).clients);
            }
            self.settle(id, was_live, &effects);
            proof {
                if before.wf() {
                    lemma_step_keeps_wf(before, HubEvent::Line { id: id as int, line: line@ });
                }
            }
        }
    }

    /// Client `id` has closed its side of the connection. A session that is
    /// closing has waited for just that and is over; any other session reads
    /// the end of the stream.
    pub fn end_of_stream(&mut self, id: usize)
        ensures
            final(self)@ == old(self)@.after_end_of_stream(id as int),
            old(self).wf() ==> final(self).wf(),
    {
        if id < self.clients.len() {
            match self.clients[id].session.phase() {
                Phase::Disconnecting => self.close_timeout(id),
                _ => {
                    proof {
                        reveal_strlit("");
                        assert(""@ =~= Seq::<char>::empty());
                    }
                    self.client_line(id, "")
                },
            }
        }
    }

    /// Session `id` has waited for its peer to close for as long as the
    /// per-client timeout allows. If it was closing it is over now, as if the
    /// peer had closed.
    pub fn close_timeout(&mut self, id: usize)
        ensures
            final(self)@ == old(self)@.after_close_timeout(id as int),
            old(self).wf() ==> final(self).wf(),
    {
        if id < self.clients.len() {
            let ghost before = self@;
            let was_live = self.is_live(id);
            let effects = self.clients[id].session.on_closed(&mut self.users);
            proof {
                let step = before.clients[id as int].session.on_closed(before.users);
                assert(self@.clients =~= before.with_session(id as int, step.session).clients);
            }
            self.settle(id, was_live, &effects);
            proof {
                if before.wf() {
                    lemma_step_keeps_wf(before, HubEvent::CloseTimeout { id: id as int });
                }
            }
        }
    }

    /// The transport of client `id` has failed. Its session ends at once,
    /// unless it is closing already: then the close goes on.
    pub fn transport_failure(&mut self, id: usize)
        ensures
            final(self)@ == old(self)@.after_transport_failure(id as int),
            old(self).wf() ==> final(self).wf(),
    {
        if id < self.clients.len() {
            let ghost before = self@;
            let was_live = self.is_live(id);
            let effects = self.clients[id].session.on_io_error(&mut self.users);
            proof {
                let step = before.clients[id as int].session.on_io_error(before.users);
                assert(self@.clients =~= before.with_session(id as int, step.session).clients);
            }
            self.settle(id, was_live, &effects);
            proof {
                if before.wf() {
                    lemma_step_keeps_wf(before, HubEvent::TransportFailure { id: id as int });
                }
            }
        }
    }

    /// Client `id` has its turn at the bus. An active session that has lost
    /// lines learns that it has lagged, and ends; otherwise it is handed the
    /// oldest line that is queued for it and writes it to its client.
    /// Returns whether there was anything to take.
    pub fn deliver(&mut self, id: usize) -> (delivered: bool)
        ensures
            delivered == old(self)@.can_deliver(id as int),
            final(self)@ == old(self)@.after_delivery(id as int),
            old(self).wf() ==> final(self).wf(),
    {
        if id >= self.clients.len() {
            return false;
        }
        match self.clients[id].session.phase() {
            Phase::Active => {},
            _ => {
                return false;
            },
        }
        let ghost before = self@;
        let ghost client = before.clients[id as int];
        proof {
            if before.wf() {
                lemma_step_keeps_wf(before, HubEvent::Deliver { id: id as int });
            }
        }
        let missed = self.clients[id].missed;
        if missed > 0 {
            self.clients[id].missed = 0;
            let ghost taken = HubState {
                clients: before.clients.update(id as int, ClientState { missed: 0, ..client }),
                ..before
            };
            assert(self@.clients =~= taken.clients);
            let effects = self.clients[id].session.on_bus_fault(
                BusFault::Lagged(missed),
                &mut self.users,
            );
            proof {
                let step = client.session.on_bus_fault(before.users, BusFault::Lagged(missed));
                assert(self@.clients =~= taken.with_session(id as int, step.session).clients);
            }
            self.settle(id, true, &effects);
            true
        } else {
            let ghost queued = self.clients[id as int].inbox.deep_view();
            match self.clients[id].inbox.pop_front() {
                Some(message) => {
                    self.clients[id].next = Ghost(self.clients[id as int].next@ + 1);
                    let ghost taken = HubState {
                        clients: before.clients.update(id as int, client.handed()),
                        ..before
                    };
                    assert(self.clients[id as int].inbox.deep_view() =~= queued.drop_first());
                    assert(message@ == client.pending.first());
                    assert(self@.clients =~= taken.clients);
                    let effects = self.clients[id].session.on_broadcast(message);
                    proof {
                        assert(self@.clients =~= taken.clients);
                        assert(taken.with_session(
                            id as int,
                            client.session.on_broadcast(message@).session,
                        ).clients =~= taken.clients);
                    }
                    self.settle(id, true, &effects);
                    true
                },
                None => {
                    assert(self@.clients =~= before.clients);
                    false
                },
            }
        }
    }

    /// Shutdown is triggered. The dispatcher accepts no more, and every
    /// session that negotiates or is active tells its client and starts to
    /// close. Where no session is left the dispatcher stops at once. A
    /// second trigger does nothing.
    pub fn shutdown(&mut self) -> (report: ShutdownReport)
        ensures
            report == old(self)@.dispatcher.shutdown_report(
                old(self)@.shutdown_receivers(),
                old(self)@.users.len() as usize,
            ),
            final(self)@ == old(self)@.after_shutdown(),
            old(self).wf() ==> final(self).wf(),
    {
        let ghost before = self@;
        let live = self.dispatcher.sessions();
        let receivers = if live > 0 {
            Some(live)
        } else {
            None
        };
        let accepting = match self.dispatcher.phase() {
            ServerPhase::Accepting => true,
            _ => false,
        };
        let report = self.dispatcher.on_shutdown(receivers, self.users.count());
        if accepting {
            let mut i: usize = 0;
            while i < self.clients.len()
                invariant
                    i <= self.clients.len(),
                    self.clients.len() == before.clients.len(),
                    self@.dispatcher == before.dispatcher.after_shutdown(
                        before.shutdown_receivers(),
                    ),
                    self@.users == before.users,
                    self@.published == before.published,
                    forall|j: int|
                        0 <= j < i ==> (#[trigger] self@.clients[j])
                            == before.clients[j].notified(),
                    forall|j: int|
                        i <= j < self.clients.len() ==> (#[trigger] self@.clients[j])
                            == before.clients[j],
                decreases self.clients.len() - i,
            {
                let ghost here = self@;
                assert(here.clients[i as int] == before.clients[i as int]);
                assert(self.clients[i as int]@ == here.clients[i as int]);
                self.clients[i].notify();
                assert forall|j: int| 0 <= j < i + 1 implies (#[trigger] self@.clients[j])
                    == before.clients[j].notified() by {
                    if j < i {
                        assert(self@.clients[j] == here.clients[j]);
                    }
                }
                assert forall|j: int| i + 1 <= j < self.clients.len() implies (
                #[trigger] self@.clients[j]) == before.clients[j] by {
                    assert(self@.clients[j] == here.clients[j]);
                }
                i = i + 1;
            }
            assert(self@.clients =~= before.after_shutdown().clients);
        }
        proof {
            if before.wf() {
                lemma_step_keeps_wf(before, HubEvent::Shutdown);
            }
        }
        report
    }

    /// The dispatcher looks at the population, `elapsed_ms` after shutdown
    /// was triggered: at the users that are registered and at the sessions
    /// that are live.
    pub fn poll_drain(&mut self, elapsed_ms: u64) -> (step: DrainStep)
        ensures
            step == old(self)@.dispatcher.drain_step(elapsed_ms, old(self)@.users.len() as usize),
            final(self)@ == old(self)@.after_poll(elapsed_ms),
            old(self).wf() ==> final(self).wf(),
    {
        let step = self.dispatcher.poll_drain(elapsed_ms, self.users.count());
        proof {
            let before = old(self)@;
            assert(self@.clients == before.clients);
            if before.wf() {
                lemma_step_keeps_wf(before, HubEvent::Poll { elapsed_ms });
            }
        }
        step
    }

    /// How many clients were ever admitted. Their numbers run from zero.
    pub fn client_count(&self) -> (count: usize)
        ensures
            count == self@.clients.len(),
    {
        self.clients.len()
    }

    /// Where the dispatcher stands.
    pub fn server_phase(&self) -> (phase: ServerPhase)
        ensures
            phase == self@.dispatcher.phase,
    {
        self.dispatcher.phase()
    }

    /// How many sessions the dispatcher counts as live.
    pub fn live_sessions(&self) -> (sessions: usize)
        ensures
            sessions == self@.dispatcher.sessions,
    {
        self.dispatcher.sessions()
    }

    /// The names that are registered, in the order in which they were
    /// claimed.
    pub fn users(&self) -> (names: Vec<String>)
        ensures
            names.deep_view() == self@.users,
    {
        self.users.snapshot()
    }

    /// The phase of session `id`, if there is such a client.
    pub fn phase(&self, id: usize) -> (phase: Option<Phase>)
        ensures
            phase == if self@.has(id as int) {
                Some(self@.clients[id as int].session.phase)
            } else {
                None
            },
    {
        if id < self.clients.len() {
            Some(self.clients[id].session.phase())
        } else {
            None
        }
    }

    /// Why session `id` is leaving, once it is.
    pub fn exit(&self, id: usize) -> (exit: Option<Exit>)
        ensures
            exit == if self@.has(id as int) {
                self@.clients[id as int].session.exit
            } else {
                None
            },
    {
        if id < self.clients.len() {
            self.clients[id].session.exit()
        } else {
            None
        }
    }

    /// The username of client `id`, once it has claimed one.
    pub fn name(&self, id: usize) -> (name: Option<&str>)
        ensures
            match name {
                Some(text) => self@.has(id as int) && self@.clients[id as int].session.name == Some(
                    text@,
                ),
                None => !self@.has(id as int) || self@.clients[id as int].session.name is None,
            },
    {
        if id < self.clients.len() {
            self.clients[id].session.name()
        } else {
            None
        }
    }

    /// How many lines are queued on the bus for client `id`.
    pub fn pending(&self, id: usize) -> (pending: usize)
        ensures
            pending == if self@.has(id as int) {
                self@.clients[id as int].pending.len()
            } else {
                0
            },
    {
        if id < self.clients.len() {
            self.clients[id].inbox.len()
        } else {
            0
        }
    }

    /// Whether the write half of client `id` was shut down.
    pub fn is_write_closed(&self, id: usize) -> (closed: bool)
        ensures
            closed == (self@.has(id as int) && self@.clients[id as int].write_closed),
    {
        if id < self.clients.len() {
            self.clients[id].write_closed
        } else {
            false
        }
    }

    /// Takes what was written to client `id` since it was last taken, in
    /// order. Nothing else changes.
    pub fn take_output(&mut self, id: usize) -> (output: Vec<String>)
        ensures
            output.deep_view() == if old(self)@.has(id as int) {
                old(self)@.clients[id as int].output
            } else {
                Seq::empty()
            },
            final(self)@ == old(self)@.after_output_taken(id as int),
            old(self).wf() ==> final(self).wf(),
    {
        let mut output: Vec<String> = Vec::new();
        assert(output.deep_view() =~= Seq::<Seq<char>>::empty());
        if id < self.clients.len() {
            let ghost before = self@;
            std::mem::swap(&mut output, &mut self.clients[id].output);
            proof {
                assert(self@.clients =~= before.after_output_taken(id as int).clients);
                if before.wf() {
                    lemma_step_keeps_wf(before, HubEvent::TakeOutput { id: id as int });
                }
            }
        }
        output
    }
}

} // verus!
