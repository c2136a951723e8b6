//! What holds of every hub, and what the sessions of a hub owe each other.

use vstd::prelude::*;
use crate::command::{parse_text, trim, CommandText, COMMAND_HELP};
use crate::directory::lemma_without;
use crate::dispatcher::{DrainStep, ServerPhase, CHANNEL_CAP, GLOBAL_SHUTDOWN_TIMEOUT_MS};
use crate::hub::model::{live_count, ClientState, HubEvent, HubState};
use crate::session::laws::{lemma_session_keeps_directory, lemma_session_moves_forward};
use crate::session::model::{EffectText, Event, SessionState, Step};
use crate::session::{BusFault, Exit, Phase};
use crate::wire::{
    action_text, chat_text, join_text, welcome_text, who_text, SHUTDOWN_NOTICE,
    SHUTDOWN_NOTICE_AT_PROMPT, USERNAME_PROMPT,
};

verus! {

/// Replacing one client changes the number of live clients by that client
/// alone.
pub proof fn lemma_live_count_update(clients: Seq<ClientState>, id: int, client: ClientState)
    requires
        0 <= id < clients.len(),
    ensures
        live_count(clients.update(id, client)) + (if clients[id].live() {
            1nat
        } else {
            0nat
        }) == live_count(clients) + (if client.live() {
            1nat
        } else {
            0nat
        }),
    decreases clients.len(),
{
    let changed = clients.update(id, client);
    if id == clients.len() - 1 {
        assert(changed.drop_last() =~= clients.drop_last());
    } else {
        assert(changed.drop_last() =~= clients.drop_last().update(id, client));
        lemma_live_count_update(clients.drop_last(), id, client);
    }
}

/// The number of live clients depends on which clients are live, on nothing
/// else, and is at most the number of clients.
pub proof fn lemma_live_count_same(a: Seq<ClientState>, b: Seq<ClientState>)
    requires
        a.len() == b.len(),
        forall|i: int| 0 <= i < a.len() ==> a[i].live() == b[i].live(),
    ensures
        live_count(a) == live_count(b),
        live_count(a) <= a.len(),
    decreases a.len(),
{
    if a.len() > 0 {
        lemma_live_count_same(a.drop_last(), b.drop_last());
    }
}

/// A live client is counted.
pub proof fn lemma_live_count_positive(clients: Seq<ClientState>, id: int)
    requires
        0 <= id < clients.len(),
        clients[id].live(),
    ensures
        live_count(clients) > 0,
    decreases clients.len(),
{
    if id < clients.len() - 1 {
        lemma_live_count_positive(clients.drop_last(), id);
    }
}

/// Where no client is live the count of live clients is zero.
pub proof fn lemma_none_live(clients: Seq<ClientState>)
    requires
        forall|i: int| 0 <= i < clients.len() ==> !(#[trigger] clients[i]).live(),
    ensures
        live_count(clients) == 0,
    decreases clients.len(),
{
    if clients.len() > 0 {
        let rest = clients.drop_last();
        assert forall|i: int| 0 <= i < rest.len() implies !(#[trigger] rest[i]).live() by {
            assert(rest[i] == clients[i]);
        }
        lemma_none_live(rest);
        assert(!clients[clients.len() - 1].live());
    }
}

/// Doing a client's own part of some effects changes what was written to
/// it and whether its write half is closed, nothing else.
pub proof fn lemma_client_perform_all_frame(client: ClientState, effects: Seq<EffectText>)
    ensures
        client.perform_all(effects).session == client.session,
        client.perform_all(effects).subscribed_at == client.subscribed_at,
        client.perform_all(effects).next == client.next,
        client.perform_all(effects).pending == client.pending,
        client.perform_all(effects).missed == client.missed,
    decreases effects.len(),
{
    if effects.len() > 0 {
        lemma_client_perform_all_frame(client, effects.drop_last());
    }
}

/// Publishing a line keeps the queues in step with the bus: the line is the
/// newest on the bus and the newest in the queue of every live client, and
/// every queue is still a stretch of what was published, within its bound.
pub proof fn lemma_publish_keeps_bus(hub: HubState, line: Seq<char>)
    requires
        hub.bus_wf(),
    ensures
        hub.publish(line).bus_wf(),
        hub.publish(line).published == hub.published.push(line),
        forall|i: int|
            hub.has(i) && (#[trigger] hub.clients[i]).live() ==> {
                &&& hub.publish(line).clients[i].pending.len() > 0
                &&& hub.publish(line).clients[i].pending.last() == line
            },
{
    let next = hub.publish(line);
    assert forall|i: int| next.has(i) implies (#[trigger] next.clients[i]).pending.len()
        <= CHANNEL_CAP && next.clients[i].follows(next.published) by {
        let before = hub.clients[i];
        let after = next.clients[i];
        assert(before.pending.len() <= CHANNEL_CAP && before.follows(hub.published));
        assert(after == before.receive(line));
        assert(after.pending =~= next.published.subrange(
            after.next as int,
            (after.next + after.pending.len()) as int,
        ));
    }
}

/// Doing what a session asked for changes queues and outputs only: the
/// dispatcher, the directory and every session stay as they are, what was
/// published is still there, and the queues stay in step with the bus.
pub proof fn lemma_perform_all_frame(hub: HubState, id: int, effects: Seq<EffectText>)
    requires
        hub.has(id),
    ensures
        ({
            let next = hub.perform_all(id, effects);
            &&& next.dispatcher == hub.dispatcher
            &&& next.users == hub.users
            &&& next.clients.len() == hub.clients.len()
            &&& hub.published.is_prefix_of(next.published)
            &&& forall|i: int|
                hub.has(i) ==> (#[trigger] next.clients[i]).session == hub.clients[i].session
            &&& hub.bus_wf() ==> next.bus_wf()
        }),
    decreases effects.len(),
{
    if effects.len() > 0 {
        lemma_perform_all_frame(hub, id, effects.drop_last());
        let mid = hub.perform_all(id, effects.drop_last());
        let next = mid.perform(id, effects.last());
        assert(next == hub.perform_all(id, effects));
        assert forall|i: int| hub.has(i) implies (#[trigger] next.clients[i]).session
            == hub.clients[i].session by {
            assert(mid.clients[i].session == hub.clients[i].session);
        }
        if hub.bus_wf() {
            match effects.last() {
                EffectText::Publish(line) => {
                    lemma_publish_keeps_bus(mid, line);
                },
                _ => {
                    assert forall|i: int| next.has(i) implies (
                    #[trigger] next.clients[i]).pending.len() <= CHANNEL_CAP
                        && next.clients[i].follows(next.published) by {
                        assert(mid.clients[i].pending.len() <= CHANNEL_CAP
                            && mid.clients[i].follows(mid.published));
                    }
                },
            }
        }
    }
}

/// Two hubs with the same directory and the same sessions agree on whether
/// directory and sessions fit together, and on how many sessions are live.
pub proof fn lemma_same_sessions(a: HubState, b: HubState)
    requires
        a.users == b.users,
        a.clients.len() == b.clients.len(),
        forall|i: int| a.has(i) ==> (#[trigger] b.clients[i]).session == a.clients[i].session,
        a.names_wf(),
    ensures
        b.names_wf(),
        live_count(a.clients) == live_count(b.clients),
{
    assert forall|i: int| 0 <= i < a.clients.len() implies a.clients[i].live()
        == b.clients[i].live() by {
        assert(b.clients[i].session == a.clients[i].session);
    }
    lemma_live_count_same(a.clients, b.clients);
    assert forall|i: int| b.has(i) implies (#[trigger] b.clients[i]).session.wf() by {
        assert(a.clients[i].session.wf());
    }
    assert forall|i: int| b.has(i) && (#[trigger] b.clients[i]).session.registered()
        implies b.users.contains(b.clients[i].session.name->0) by {
        assert(a.clients[i].session.registered());
    }
    assert forall|i: int, j: int, name: Seq<char>|
        #[trigger] b.holds(i, name) && #[trigger] b.holds(j, name) implies i == j by {
        assert(b.clients[i].session == a.clients[i].session);
        assert(b.clients[j].session == a.clients[j].session);
        assert(a.holds(i, name) && a.holds(j, name));
    }
    assert forall|name: Seq<char>| #[trigger] b.users.contains(name) implies exists|i: int|
        #[trigger] b.holds(i, name) by {
        let i = choose|i: int| #[trigger] a.holds(i, name);
        assert(b.clients[i].session == a.clients[i].session);
        assert(b.holds(i, name));
    }
}

/// Admitting a client leaves a well-formed hub well formed.
pub proof fn lemma_connect_keeps_wf(hub: HubState)
    requires
        hub.wf(),
    ensures
        hub.after_connect().wf(),
{
    if hub.dispatcher.admits() {
        let after = hub.after_connect();
        assert(after.clients.drop_last() =~= hub.clients);
        assert forall|i: int, j: int, name: Seq<char>|
            #[trigger] after.holds(i, name) && #[trigger] after.holds(j, name) implies i == j by {
            assert(hub.holds(i, name));
            assert(hub.holds(j, name));
        }
        assert forall|name: Seq<char>| #[trigger] after.users.contains(name) implies exists|i: int|
            #[trigger] after.holds(i, name) by {
            let i = choose|i: int| #[trigger] hub.holds(i, name);
            assert(after.holds(i, name));
        }
        assert forall|i: int| after.has(i) implies (#[trigger] after.clients[i]).pending.len()
            <= CHANNEL_CAP && after.clients[i].follows(after.published) by {
            if i < hub.clients.len() {
                assert(hub.clients[i].pending.len() <= CHANNEL_CAP && hub.clients[i].follows(
                    hub.published,
                ));
            } else {
                assert(after.clients[i].pending =~= after.published.subrange(
                    after.clients[i].next as int,
                    after.clients[i].next as int,
                ));
            }
        }
    }
}

/// Whatever happens to one session of a well-formed hub, the hub stays well
/// formed: the directory still holds the names of the sessions that are
/// registered, each once, the queues are still in step with the bus, and the
/// dispatcher still counts the sessions that are live.
pub proof fn lemma_advance_keeps_wf(hub: HubState, id: int, event: Event)
    requires
        hub.wf(),
        hub.has(id),
    ensures
        hub.advance(id, hub.clients[id].session.on_event(hub.users, event)).wf(),
{
    let session = hub.clients[id].session;
    let step = session.on_event(hub.users, event);
    let moved = ClientState { session: step.session, ..hub.clients[id] };
    let mid = HubState {
        dispatcher: if hub.clients[id].live() && step.session.phase == Phase::Terminated {
            hub.dispatcher.after_session_end()
        } else {
            hub.dispatcher
        },
        users: step.users,
        ..hub.with_session(id, step.session)
    };
    assert(session.wf());
    lemma_session_moves_forward(session, hub.users, event);
    lemma_session_keeps_directory(session, hub.users, event);
    lemma_live_count_update(hub.clients, id, moved);
    if hub.clients[id].live() {
        lemma_live_count_positive(hub.clients, id);
    }
    assert(mid.dispatcher.sessions == live_count(mid.clients));

    // A name that the session has claimed in this step was free before.
    assert(session.name is None && step.session.name is Some ==> !hub.users.contains(
        step.session.name->0,
    ));

    assert forall|i: int| mid.has(i) implies (#[trigger] mid.clients[i]).session.wf() by {
        if i != id {
            assert(hub.clients[i].session.wf());
        }
    }
    assert forall|i: int| mid.has(i) && (#[trigger] mid.clients[i]).session.registered()
        implies mid.users.contains(mid.clients[i].session.name->0) by {
        if i != id {
            let name = hub.clients[i].session.name->0;
            assert(hub.clients[i].session.registered());
            assert(hub.users.contains(name));
            assert(hub.holds(i, name));
            if step.session.name == Some(name) {
                if session.name is Some {
                    if session.registered() {
                        assert(hub.holds(id, name));
                    } else {
                        assert(step == session.stay(hub.users));
                    }
                }
            }
        }
    }
    assert forall|i: int, j: int, name: Seq<char>|
        #[trigger] mid.holds(i, name) && #[trigger] mid.holds(j, name) implies i == j by {
        if i != j {
            if i != id && j != id {
                assert(hub.holds(i, name) && hub.holds(j, name));
            } else {
                let other = if i == id {
                    j
                } else {
                    i
                };
                assert(hub.holds(other, name));
                assert(hub.clients[other].session.registered());
                assert(hub.users.contains(name));
                if session.name is Some {
                    assert(session.registered());
                    assert(hub.holds(id, name));
                }
            }
        }
    }
    assert forall|name: Seq<char>| #[trigger] mid.users.contains(name) implies exists|i: int|
        #[trigger] mid.holds(i, name) by {
        if step.session.name == Some(name) {
            if step.session.registered() {
                assert(mid.holds(id, name));
            } else {
                if session.registered() {
                    assert(false);
                } else {
                    assert(hub.users.contains(name));
                    let i = choose|i: int| #[trigger] hub.holds(i, name);
                    assert(i != id);
                    assert(mid.holds(i, name));
                }
            }
        } else {
            assert(hub.users.contains(name));
            let i = choose|i: int| #[trigger] hub.holds(i, name);
            if i == id {
                assert(session.name == Some(name));
                assert(false);
            }
            assert(mid.holds(i, name));
        }
    }
    assert(mid.names_wf());
    assert forall|i: int| mid.has(i) implies (#[trigger] mid.clients[i]).pending.len()
        <= CHANNEL_CAP && mid.clients[i].follows(mid.published) by {
        assert(hub.clients[i].pending.len() <= CHANNEL_CAP && hub.clients[i].follows(
            hub.published,
        ));
    }
    lemma_perform_all_frame(mid, id, step.effects);
    let next = mid.perform_all(id, step.effects);
    lemma_same_sessions(mid, next);
    assert(next == hub.advance(id, step));
}

/// A turn at the bus leaves a well-formed hub well formed.
pub proof fn lemma_delivery_keeps_wf(hub: HubState, id: int)
    requires
        hub.wf(),
    ensures
        hub.after_delivery(id).wf(),
{
    if hub.can_deliver(id) {
        let client = hub.clients[id];
        let taken = if client.missed > 0 {
            HubState { clients: hub.clients.update(id, ClientState { missed: 0, ..client }), ..hub }
        } else {
            HubState { clients: hub.clients.update(id, client.handed()), ..hub }
        };
        lemma_same_sessions(hub, taken);
        assert forall|i: int| taken.has(i) implies (#[trigger] taken.clients[i]).pending.len()
            <= CHANNEL_CAP && taken.clients[i].follows(taken.published) by {
            assert(hub.clients[i].pending.len() <= CHANNEL_CAP && hub.clients[i].follows(
                hub.published,
            ));
            if i == id && client.missed == 0 {
                assert(client.handed().pending =~= hub.published.subrange(
                    client.handed().next as int,
                    (client.handed().next + client.handed().pending.len()) as int,
                ));
            }
        }
        if client.missed > 0 {
            lemma_advance_keeps_wf(taken, id, Event::BusFault(BusFault::Lagged(client.missed)));
        } else {
            lemma_advance_keeps_wf(taken, id, Event::Broadcast(client.pending.first()));
        }
    }
}

/// Telling every session of a well-formed hub that the server shuts down
/// leaves the hub well formed: no session ends by that alone, and each keeps
/// its name.
pub proof fn lemma_shutdown_keeps_wf(hub: HubState)
    requires
        hub.wf(),
    ensures
        hub.after_shutdown().wf(),
{
    let next = hub.after_shutdown();
    if hub.dispatcher.phase == ServerPhase::Accepting {
        assert forall|i: int| hub.has(i) implies {
            let before = hub.clients[i];
            let after = #[trigger] next.clients[i];
            &&& after.session.wf()
            &&& after.session.registered() == before.session.registered()
            &&& after.session.name == before.session.name
            &&& after.live() == before.live()
            &&& after.pending == before.pending
            &&& after.next == before.next
            &&& after.subscribed_at == before.subscribed_at
        } by {
            let before = hub.clients[i];
            assert(before.session.wf());
            lemma_client_perform_all_frame(
                ClientState { session: before.session.on_shutdown().session, ..before },
                before.session.on_shutdown().effects,
            );
        }
        assert forall|i: int| 0 <= i < hub.clients.len() implies hub.clients[i].live()
            == next.clients[i].live() by {
            assert(next.clients[i].live() == hub.clients[i].live());
        }
        lemma_live_count_same(hub.clients, next.clients);
        assert forall|i: int| next.has(i) && (#[trigger] next.clients[i]).session.registered()
            implies next.users.contains(next.clients[i].session.name->0) by {
            assert(hub.clients[i].session.registered());
        }
        assert forall|i: int, j: int, name: Seq<char>|
            #[trigger] next.holds(i, name) && #[trigger] next.holds(j, name) implies i == j by {
            assert(next.clients[i].session.name == hub.clients[i].session.name);
            assert(next.clients[j].session.name == hub.clients[j].session.name);
            assert(hub.holds(i, name) && hub.holds(j, name));
        }
        assert forall|name: Seq<char>| #[trigger] next.users.contains(name) implies exists|i: int|
            #[trigger] next.holds(i, name) by {
            let i = choose|i: int| #[trigger] hub.holds(i, name);
            assert(next.clients[i].session.name == hub.clients[i].session.name);
            assert(next.holds(i, name));
        }
        assert forall|i: int| next.has(i) implies (#[trigger] next.clients[i]).pending.len()
            <= CHANNEL_CAP && next.clients[i].follows(next.published) by {
            assert(hub.clients[i].pending.len() <= CHANNEL_CAP && hub.clients[i].follows(
                hub.published,
            ));
        }
    }
}

/// Whatever happens to a well-formed hub, it stays well formed.
pub proof fn lemma_step_keeps_wf(hub: HubState, event: HubEvent)
    requires
        hub.wf(),
    ensures
        hub.after(event).wf(),
{
    match event {
        HubEvent::Connect => lemma_connect_keeps_wf(hub),
        HubEvent::Line { id, line } => {
            if hub.has(id) {
                lemma_advance_keeps_wf(hub, id, Event::Line(line));
            }
        },
        HubEvent::EndOfStream { id } => {
            if hub.has(id) {
                lemma_advance_keeps_wf(hub, id, Event::Closed);
                lemma_advance_keeps_wf(hub, id, Event::Line(Seq::empty()));
            }
        },
        HubEvent::CloseTimeout { id } => {
            if hub.has(id) {
                lemma_advance_keeps_wf(hub, id, Event::Closed);
            }
        },
        HubEvent::TransportFailure { id } => {
            if hub.has(id) {
                lemma_advance_keeps_wf(hub, id, Event::IoError);
            }
        },
        HubEvent::Deliver { id } => lemma_delivery_keeps_wf(hub, id),
        HubEvent::Shutdown => lemma_shutdown_keeps_wf(hub),
        HubEvent::Poll { elapsed_ms } => {
            lemma_same_sessions(hub, hub.after_poll(elapsed_ms));
        },
        HubEvent::TakeOutput { id } => {
            let next = hub.after_output_taken(id);
            lemma_same_sessions(hub, next);
            assert forall|i: int| next.has(i) implies (#[trigger] next.clients[i]).pending.len()
                <= CHANNEL_CAP && next.clients[i].follows(next.published) by {
                assert(hub.clients[i].pending.len() <= CHANNEL_CAP && hub.clients[i].follows(
                    hub.published,
                ));
            }
        },
    }
}

/// Every state that a hub can get into is well formed: whatever the clients
/// and the clock do, in whatever order, no two sessions hold the same name,
/// the directory lists the names of the sessions that are registered and no
/// others, every queue holds a stretch of what was published within its
/// bound, and the dispatcher counts the sessions that are live.
pub proof fn lemma_reachable_is_wf(events: Seq<HubEvent>)
    ensures
        HubState::initial().after_all(events).wf(),
    decreases events.len(),
{
    if events.len() == 0 {
        let hub = HubState::initial();
        assert(hub.clients =~= Seq::<ClientState>::empty());
    } else {
        lemma_reachable_is_wf(events.drop_last());
        lemma_step_keeps_wf(HubState::initial().after_all(events.drop_last()), events.last());
    }
}

/// Doing one effect.
pub proof fn lemma_perform_one(hub: HubState, id: int, effect: EffectText)
    ensures
        hub.perform_all(id, seq![effect]) == hub.perform(id, effect),
{
    let effects = seq![effect];
    assert(effects.drop_last() =~= Seq::<EffectText>::empty());
    assert(hub.perform_all(id, effects.drop_last()) == hub);
}

/// Doing two effects.
pub proof fn lemma_perform_two(hub: HubState, id: int, first: EffectText, second: EffectText)
    ensures
        hub.perform_all(id, seq![first, second]) == hub.perform(id, first).perform(id, second),
{
    let effects = seq![first, second];
    assert(effects.drop_last() =~= seq![first]);
    lemma_perform_one(hub, id, first);
}

/// In a well-formed hub no two live sessions hold the same name, and the
/// directory lists exactly the names that live sessions hold.
pub proof fn lemma_names_are_unique(hub: HubState)
    requires
        hub.wf(),
    ensures
        hub.users.no_duplicates(),
        forall|i: int, j: int|
            hub.has(i) && hub.has(j) && i != j && (#[trigger] hub.clients[i]).session.registered()
                && (#[trigger] hub.clients[j]).session.registered()
                ==> hub.clients[i].session.name != hub.clients[j].session.name,
        forall|name: Seq<char>| #[trigger]
            hub.users.contains(name) <==> exists|i: int| #[trigger] hub.holds(i, name),
{
    assert forall|i: int, j: int|
        hub.has(i) && hub.has(j) && i != j && (#[trigger] hub.clients[i]).session.registered() && (
        #[trigger] hub.clients[j]).session.registered() implies hub.clients[i].session.name
        != hub.clients[j].session.name by {
        let name = hub.clients[i].session.name->0;
        if hub.clients[j].session.name == Some(name) {
            assert(hub.holds(i, name) && hub.holds(j, name));
        }
    }
    assert forall|name: Seq<char>| (exists|i: int| #[trigger] hub.holds(i, name))
        implies #[trigger] hub.users.contains(name) by {
        let i = choose|i: int| #[trigger] hub.holds(i, name);
        assert(hub.clients[i].session.registered());
    }
}

/// However the clients' events interleave, at no time do two sessions hold
/// the same name.
pub proof fn lemma_names_stay_unique(events: Seq<HubEvent>, i: int, j: int)
    requires
        i != j,
        HubState::initial().after_all(events).has(i),
        HubState::initial().after_all(events).has(j),
        HubState::initial().after_all(events).clients[i].session.registered(),
        HubState::initial().after_all(events).clients[j].session.registered(),
    ensures
        HubState::initial().after_all(events).clients[i].session.name
            != HubState::initial().after_all(events).clients[j].session.name,
{
    lemma_reachable_is_wf(events);
    lemma_names_are_unique(HubState::initial().after_all(events));
}

/// A client that connects has heard nothing: its subscription starts behind
/// everything that was published before, its queue is empty, and all it has
/// been sent is the prompt. Nobody else notices.
pub proof fn lemma_newcomer_hears_no_history(hub: HubState)
    requires
        hub.dispatcher.admits(),
    ensures
        ({
            let next = hub.after_connect();
            let id = hub.clients.len() as int;
            &&& next.clients.len() == hub.clients.len() + 1
            &&& next.clients[id].subscribed_at == hub.published.len()
            &&& next.clients[id].next == hub.published.len()
            &&& next.clients[id].pending == Seq::<Seq<char>>::empty()
            &&& next.clients[id].missed == 0
            &&& next.clients[id].output == seq![USERNAME_PROMPT@]
            &&& next.clients[id].session == SessionState::initial()
            &&& next.users == hub.users
            &&& next.published == hub.published
            &&& forall|i: int| hub.has(i) ==> #[trigger] next.clients[i] == hub.clients[i]
        }),
{
}

/// A client only ever hears what was published after it connected, in the
/// order in which it was published: each line in its queue is a line of the
/// bus, at a place behind the client's subscription, and the lines stand in
/// the queue as they stand on the bus.
pub proof fn lemma_hears_only_later_lines(hub: HubState, id: int, k: int)
    requires
        hub.wf(),
        hub.has(id),
        0 <= k < hub.clients[id].pending.len(),
    ensures
        hub.clients[id].subscribed_at <= hub.clients[id].next + k < hub.published.len(),
        hub.clients[id].pending[k] == hub.published[hub.clients[id].next + k],
{
    assert(hub.clients[id].follows(hub.published));
}

/// No state that a hub can get into has a client with a line in its queue
/// that was published before the client connected.
pub proof fn lemma_never_hears_history(events: Seq<HubEvent>, id: int, k: int)
    requires
        HubState::initial().after_all(events).has(id),
        0 <= k < HubState::initial().after_all(events).clients[id].pending.len(),
    ensures
        ({
            let hub = HubState::initial().after_all(events);
            let client = hub.clients[id];
            &&& client.subscribed_at <= client.next + k < hub.published.len()
            &&& client.pending[k] == hub.published[client.next + k]
        }),
{
    lemma_reachable_is_wf(events);
    lemma_hears_only_later_lines(HubState::initial().after_all(events), id, k);
}

/// When a client claims a free name, it is welcomed, and its arrival is
/// announced on the bus: the announcement is the newest line on the bus and
/// in the queue of every session that is subscribed at that moment, the
/// newcomer's own included. It is written to a client when that client has
/// its turn.
pub proof fn lemma_join_is_heard(hub: HubState, joiner: int, line: Seq<char>, listener: int)
    requires
        hub.wf(),
        hub.has(joiner),
        hub.has(listener),
        hub.clients[joiner].session.phase == Phase::Negotiating,
        hub.clients[listener].live(),
        trim(line).len() > 0,
        !hub.users.contains(trim(line)),
    ensures
        ({
            let name = trim(line);
            let next = hub.after_line(joiner, line);
            let heard = hub.clients[listener].pending;
            &&& next.users == hub.users.push(name)
            &&& next.published == hub.published.push(join_text(name))
            &&& next.clients[joiner].session.phase == Phase::Active
            &&& next.clients[joiner].session.name == Some(name)
            &&& next.clients[joiner].output == hub.clients[joiner].output.push(welcome_text(name))
            &&& listener != joiner ==> next.clients[listener].output == hub.clients[listener].output
            &&& next.clients[listener].pending.len() > 0
            &&& next.clients[listener].pending.last() == join_text(name)
            &&& heard.len() < CHANNEL_CAP ==> next.clients[listener].pending == heard.push(
                join_text(name),
            )
        }),
{
    let name = trim(line);
    let step = hub.clients[joiner].session.on_line(hub.users, line);
    let moved = HubState { users: step.users, ..hub.with_session(joiner, step.session) };
    lemma_perform_two(
        moved,
        joiner,
        EffectText::Write(welcome_text(name)),
        EffectText::Publish(join_text(name)),
    );
    assert(step.effects =~= seq![
        EffectText::Write(welcome_text(name)),
        EffectText::Publish(join_text(name)),
    ]);
}

/// A turn at the bus hands over the oldest line that is queued: an active
/// client that has lost nothing gets that line written, as it was published,
/// and the line leaves the queue. It is a line that was published after the
/// client connected. Nobody else is touched.
pub proof fn lemma_delivery_writes_oldest(hub: HubState, id: int)
    requires
        hub.wf(),
        hub.can_deliver(id),
        hub.clients[id].missed == 0,
    ensures
        ({
            let next = hub.after_delivery(id);
            let client = hub.clients[id];
            &&& next.clients[id].output == client.output.push(client.pending.first())
            &&& next.clients[id].pending == client.pending.drop_first()
            &&& next.clients[id].session == client.session
            &&& client.pending.first() == hub.published[client.next as int]
            &&& client.subscribed_at <= client.next
            &&& next.clients[id].next == client.next + 1
            &&& next.users == hub.users
            &&& next.published == hub.published
            &&& next.dispatcher == hub.dispatcher
            &&& next.clients.len() == hub.clients.len()
            &&& forall|i: int|
                hub.has(i) && i != id ==> #[trigger] next.clients[i] == hub.clients[i]
        }),
{
    let client = hub.clients[id];
    let taken = HubState { clients: hub.clients.update(id, client.handed()), ..hub };
    let reaction = client.session.on_broadcast(client.pending.first());
    let moved = HubState { users: hub.users, ..taken.with_session(id, reaction.session) };
    assert(reaction.effects =~= seq![EffectText::Write(client.pending.first())]);
    lemma_perform_one(moved, id, EffectText::Write(client.pending.first()));
    lemma_hears_only_later_lines(hub, id, 0);
}

/// A session that has fallen behind the bus ends at its next turn: it is
/// told nothing more, its exit says by how much it lagged, its name is free
/// again and its departure is announced to the others.
pub proof fn lemma_lagging_session_ends(hub: HubState, id: int)
    requires
        hub.wf(),
        hub.can_deliver(id),
        hub.clients[id].missed > 0,
    ensures
        ({
            let next = hub.after_delivery(id);
            let client = hub.clients[id];
            &&& next.clients[id].session.phase == Phase::Terminated
            &&& next.clients[id].session.exit == Some(Exit::Lagged(client.missed))
            &&& next.clients[id].output == client.output
            &&& !next.users.contains(client.session.name->0)
        }),
{
    let client = hub.clients[id];
    let name = client.session.name->0;
    let taken = HubState {
        clients: hub.clients.update(id, ClientState { missed: 0, ..client }),
        ..hub
    };
    let step = client.session.on_bus_fault(hub.users, BusFault::Lagged(client.missed));
    let moved = HubState {
        dispatcher: taken.dispatcher.after_session_end(),
        users: step.users,
        ..taken.with_session(id, step.session)
    };
    assert(client.session.wf());
    lemma_without(hub.users, name);
    lemma_perform_all_frame(moved, id, step.effects);
    lemma_perform_one(moved, id, step.effects[0]);
    assert(step.effects =~= seq![step.effects[0]]);
}

/// The answers to `/who` and `/help` reach the client that asked and nobody
/// else: one text is written to the asker, and no other client, no queue,
/// no name and nothing on the bus changes.
pub proof fn lemma_replies_reach_only_the_asker(hub: HubState, id: int, line: Seq<char>)
    requires
        hub.wf(),
        hub.has(id),
        hub.clients[id].session.phase == Phase::Active,
        parse_text(line) is Who || parse_text(line) is Help,
    ensures
        ({
            let next = hub.after_line(id, line);
            let reply = if parse_text(line) is Who {
                who_text(hub.users)
            } else {
                COMMAND_HELP@
            };
            &&& next.clients[id] == ClientState {
                output: hub.clients[id].output.push(reply),
                ..hub.clients[id]
            }
            &&& next.users == hub.users
            &&& next.published == hub.published
            &&& next.dispatcher == hub.dispatcher
            &&& next.clients.len() == hub.clients.len()
            &&& forall|i: int|
                hub.has(i) && i != id ==> #[trigger] next.clients[i] == hub.clients[i]
        }),
{
    crate::command::lemma_trim_is_tight(line);
    let reply = if parse_text(line) is Who {
        who_text(hub.users)
    } else {
        COMMAND_HELP@
    };
    let step = hub.clients[id].session.on_line(hub.users, line);
    let moved = HubState { users: step.users, ..hub.with_session(id, step.session) };
    assert(moved.clients =~= hub.clients);
    assert(step.effects =~= seq![EffectText::Write(reply)]);
    lemma_perform_one(moved, id, EffectText::Write(reply));
}

/// What `/who` shows is the directory, and the directory holds the names of
/// the sessions that are live, no others: a client that has left is not
/// listed, unless somebody has claimed its name since.
pub proof fn lemma_who_lists_the_live(hub: HubState, id: int, line: Seq<char>, name: Seq<char>)
    requires
        hub.wf(),
        hub.has(id),
        hub.clients[id].session.phase == Phase::Active,
        parse_text(line) is Who,
        forall|i: int|
            hub.has(i) && hub.clients[i].live() ==> (#[trigger] hub.clients[i]).session.name
                != Some(name),
    ensures
        hub.after_line(id, line).clients[id].output == hub.clients[id].output.push(
            who_text(hub.users),
        ),
        !hub.users.contains(name),
{
    lemma_replies_reach_only_the_asker(hub, id, line);
    if hub.users.contains(name) {
        let i = choose|i: int| #[trigger] hub.holds(i, name);
        assert(hub.clients[i].live());
    }
}

/// When the session of a client ends, whatever ends it, its name leaves the
/// directory in the same step: from then on `/who` does not show it.
pub proof fn lemma_leaving_frees_the_name(hub: HubState, id: int, event: Event)
    requires
        hub.wf(),
        hub.has(id),
        hub.clients[id].session.registered(),
        hub.clients[id].session.on_event(hub.users, event).session.phase == Phase::Terminated,
    ensures
        ({
            let step = hub.clients[id].session.on_event(hub.users, event);
            let next = hub.advance(id, step);
            &&& !next.users.contains(hub.clients[id].session.name->0)
            &&& next.users == crate::directory::without(
                hub.users,
                hub.clients[id].session.name->0,
            )
            &&& !next.clients[id].live()
        }),
{
    let session = hub.clients[id].session;
    let step = session.on_event(hub.users, event);
    assert(session.wf());
    lemma_without(hub.users, session.name->0);
    let mid = HubState {
        dispatcher: hub.dispatcher.after_session_end(),
        users: step.users,
        ..hub.with_session(id, step.session)
    };
    lemma_perform_all_frame(mid, id, step.effects);
}

/// What an active client says or does is queued, as one line under its
/// name, for every session that is subscribed, the sender's own included;
/// nothing is written to anybody before their turn.
pub proof fn lemma_chat_reaches_everyone(hub: HubState, id: int, line: Seq<char>, listener: int)
    requires
        hub.wf(),
        hub.has(id),
        hub.has(listener),
        hub.clients[id].session.phase == Phase::Active,
        hub.clients[listener].live(),
        parse_text(line) is Msg || parse_text(line) is Action,
    ensures
        ({
            let next = hub.after_line(id, line);
            let name = hub.clients[id].session.name->0;
            let said = match parse_text(line) {
                CommandText::Action(text) => action_text(name, text),
                CommandText::Msg(text) => chat_text(name, text),
                _ => Seq::empty(),
            };
            &&& next.published == hub.published.push(said)
            &&& next.clients[listener] == hub.clients[listener].receive(said)
            &&& next.clients[listener].pending.len() > 0
            &&& next.clients[listener].pending.last() == said
            &&& next.clients[listener].output == hub.clients[listener].output
            &&& next.users == hub.users
        }),
{
    crate::command::lemma_trim_is_tight(line);
    let name = hub.clients[id].session.name->0;
    let said = match parse_text(line) {
        CommandText::Action(text) => action_text(name, text),
        CommandText::Msg(text) => chat_text(name, text),
        _ => Seq::empty(),
    };
    let step = hub.clients[id].session.on_line(hub.users, line);
    let moved = HubState { users: step.users, ..hub.with_session(id, step.session) };
    assert(moved.clients =~= hub.clients);
    assert(step.effects =~= seq![EffectText::Publish(said)]);
    lemma_perform_one(moved, id, EffectText::Publish(said));
}

/// An empty line is not chat: nothing is written, nothing is published,
/// and the hub is exactly as it was.
pub proof fn lemma_empty_line_is_ignored(hub: HubState, id: int, line: Seq<char>)
    requires
        hub.wf(),
        hub.has(id),
        hub.clients[id].session.phase == Phase::Active,
        line.len() > 0,
        parse_text(line) is Empty,
    ensures
        hub.after_line(id, line) == hub,
{
    let step = hub.clients[id].session.on_line(hub.users, line);
    assert(hub.with_session(id, step.session).clients =~= hub.clients);
}

/// When shutdown is triggered, every client whose session negotiates or is
/// active is told that the server is shutting down, and its write half is
/// closed; no session ends by that alone, and from then on the dispatcher
/// admits nobody.
pub proof fn lemma_shutdown_reaches_everyone(hub: HubState, id: int)
    requires
        hub.wf(),
        hub.dispatcher.phase == ServerPhase::Accepting,
        hub.has(id),
        hub.clients[id].session.phase == Phase::Negotiating || hub.clients[id].session.phase
            == Phase::Active,
    ensures
        ({
            let next = hub.after_shutdown();
            let notice = if hub.clients[id].session.phase == Phase::Active {
                SHUTDOWN_NOTICE@
            } else {
                SHUTDOWN_NOTICE_AT_PROMPT@
            };
            &&& next.clients[id].output == hub.clients[id].output.push(notice)
            &&& next.clients[id].write_closed
            &&& next.clients[id].session.phase == Phase::Disconnecting
            &&& next.clients[id].session.exit == Some(Exit::Shutdown)
            &&& next.clients[id].session.name == hub.clients[id].session.name
            &&& next.users == hub.users
            &&& next.dispatcher.phase == ServerPhase::Draining
            &&& !next.dispatcher.admits()
            &&& next.after_connect() == next
        }),
{
    let client = hub.clients[id];
    let reaction = client.session.on_shutdown();
    let told = ClientState { session: reaction.session, ..client };
    let first = reaction.effects[0];
    let second = reaction.effects[1];
    assert(reaction.effects =~= seq![first, second]);
    assert(reaction.effects.drop_last() =~= seq![first]);
    assert(seq![first].drop_last() =~= Seq::<EffectText>::empty());
    assert(told.perform_all(Seq::<EffectText>::empty()) == told);
    assert(told.perform_all(seq![first]) == told.perform(first));
    assert(told.perform_all(reaction.effects) == told.perform(first).perform(second));
    lemma_live_count_positive(hub.clients, id);
}

/// Once shutdown was triggered a connection that arrives is turned away and
/// leaves the hub exactly as it was, and so does a second trigger.
pub proof fn lemma_no_connection_after_shutdown(hub: HubState)
    requires
        hub.dispatcher.phase != ServerPhase::Accepting,
    ensures
        hub.after_connect() == hub,
        hub.after_shutdown() == hub,
{
}

/// Once shutdown was triggered nobody is admitted any more, whatever
/// happens afterwards.
pub proof fn lemma_accepting_never_resumes(hub: HubState, events: Seq<HubEvent>)
    requires
        hub.dispatcher.phase != ServerPhase::Accepting,
    ensures
        hub.after_all(events).dispatcher.phase != ServerPhase::Accepting,
        hub.after_all(events).clients.len() == hub.clients.len(),
        hub.after_all(events).after_connect() == hub.after_all(events),
    decreases events.len(),
{
    if events.len() > 0 {
        let before = hub.after_all(events.drop_last());
        lemma_accepting_never_resumes(hub, events.drop_last());
        lemma_step_keeps_phase(before, events.last());
    }
}

/// No event brings a dispatcher back to accepting, and no event but an
/// admission adds a client.
pub proof fn lemma_step_keeps_phase(hub: HubState, event: HubEvent)
    requires
        hub.dispatcher.phase != ServerPhase::Accepting,
    ensures
        hub.after(event).dispatcher.phase != ServerPhase::Accepting,
        hub.after(event).clients.len() == hub.clients.len(),
{
    match event {
        HubEvent::Line { id, line } => {
            if hub.has(id) {
                lemma_advance_frame(hub, id, hub.clients[id].session.on_line(hub.users, line));
            }
        },
        HubEvent::EndOfStream { id } => {
            if hub.has(id) {
                lemma_advance_frame(hub, id, hub.clients[id].session.on_closed(hub.users));
                lemma_advance_frame(
                    hub,
                    id,
                    hub.clients[id].session.on_line(hub.users, Seq::empty()),
                );
            }
        },
        HubEvent::CloseTimeout { id } => {
            if hub.has(id) {
                lemma_advance_frame(hub, id, hub.clients[id].session.on_closed(hub.users));
            }
        },
        HubEvent::TransportFailure { id } => {
            if hub.has(id) {
                lemma_advance_frame(hub, id, hub.clients[id].session.on_io_error(hub.users));
            }
        },
        HubEvent::Deliver { id } => {
            if hub.can_deliver(id) {
                let client = hub.clients[id];
                if client.missed > 0 {
                    let taken = HubState {
                        clients: hub.clients.update(id, ClientState { missed: 0, ..client }),
                        ..hub
                    };
                    lemma_advance_frame(
                        taken,
                        id,
                        client.session.on_bus_fault(hub.users, BusFault::Lagged(client.missed)),
                    );
                } else {
                    let taken = HubState {
                        clients: hub.clients.update(id, client.handed()),
                        ..hub
                    };
                    lemma_advance_frame(
                        taken,
                        id,
                        Step {
                            session: client.session.on_broadcast(client.pending.first()).session,
                            users: hub.users,
                            effects: client.session.on_broadcast(client.pending.first()).effects,
                        },
                    );
                }
            }
        },
        _ => {},
    }
}

/// A step of a session changes the dispatcher's count at most, not its
/// phase, and adds no client.
pub proof fn lemma_advance_frame(hub: HubState, id: int, step: Step)
    requires
        hub.has(id),
    ensures
        hub.advance(id, step).dispatcher.phase == hub.dispatcher.phase,
        hub.advance(id, step).clients.len() == hub.clients.len(),
{
    let mid = HubState {
        dispatcher: if hub.clients[id].live() && step.session.phase == Phase::Terminated {
            hub.dispatcher.after_session_end()
        } else {
            hub.dispatcher
        },
        users: step.users,
        ..hub.with_session(id, step.session)
    };
    lemma_perform_all_frame(mid, id, step.effects);
}

/// Where no session is live when shutdown is triggered, because nobody ever
/// came or because everybody has left, there is nothing to drain: the
/// dispatcher stops in the same step, and nobody is registered. Where a
/// session is live the dispatcher drains.
pub proof fn lemma_shutdown_without_sessions_stops(hub: HubState)
    requires
        hub.wf(),
        hub.dispatcher.phase == ServerPhase::Accepting,
    ensures
        ({
            let someone = exists|i: int| hub.has(i) && (#[trigger] hub.clients[i]).live();
            &&& !someone ==> hub.after_shutdown().dispatcher.phase == ServerPhase::Stopped
                && hub.users.len() == 0
            &&& someone ==> hub.after_shutdown().dispatcher.phase == ServerPhase::Draining
        }),
{
    let someone = exists|i: int| hub.has(i) && (#[trigger] hub.clients[i]).live();
    if someone {
        let i = choose|i: int| hub.has(i) && (#[trigger] hub.clients[i]).live();
        lemma_live_count_positive(hub.clients, i);
    } else {
        lemma_none_live(hub.clients);
        if hub.users.len() > 0 {
            let name = hub.users[0];
            assert(hub.users.contains(name));
            let i = choose|i: int| #[trigger] hub.holds(i, name);
            assert(hub.clients[i].live());
        }
    }
}

/// The drain is over exactly when the last session has terminated, or when
/// the global timeout has passed: while a session is live and time is left
/// the dispatcher waits, and as soon as none is live it stops, with nobody
/// left in the directory either.
pub proof fn lemma_drain_waits_for_the_live(hub: HubState, elapsed_ms: u64)
    requires
        hub.wf(),
        hub.dispatcher.phase == ServerPhase::Draining,
        hub.users.len() <= usize::MAX,
    ensures
        ({
            let step = hub.dispatcher.drain_step(elapsed_ms, hub.users.len() as usize);
            let someone = exists|i: int| hub.has(i) && (#[trigger] hub.clients[i]).live();
            &&& !someone ==> step == DrainStep::Drained && hub.users.len() == 0
            &&& someone && elapsed_ms < GLOBAL_SHUTDOWN_TIMEOUT_MS ==> step is Wait
                && hub.after_poll(elapsed_ms) == hub
            &&& someone && elapsed_ms >= GLOBAL_SHUTDOWN_TIMEOUT_MS ==> step is TimedOut
        }),
{
    let someone = exists|i: int| hub.has(i) && (#[trigger] hub.clients[i]).live();
    if someone {
        let i = choose|i: int| hub.has(i) && (#[trigger] hub.clients[i]).live();
        lemma_live_count_positive(hub.clients, i);
    } else {
        lemma_none_live(hub.clients);
        if hub.users.len() > 0 {
            let name = hub.users[0];
            assert(hub.users.contains(name));
            let i = choose|i: int| #[trigger] hub.holds(i, name);
            assert(hub.clients[i].live());
        }
    }
}

} // verus!
