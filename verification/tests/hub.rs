use prattle::dispatcher::{DrainStep, ServerPhase, ShutdownReport, CHANNEL_CAP};
use prattle::hub::Hub;
use prattle::session::{Exit, Phase};

/// Connects a client and has it claim `name`. What it was sent is taken.
fn join(hub: &mut Hub, name: &str) -> usize {
    let id = hub.connect().expect("the hub accepts");
    hub.client_line(id, &format!("{name}\n"));
    assert_eq!(hub.phase(id), Some(Phase::Active));
    while hub.deliver(id) {}
    hub.take_output(id);
    id
}

#[test]
fn a_new_hub_is_empty_and_accepts() {
    let hub = Hub::new();
    assert_eq!(hub.client_count(), 0);
    assert_eq!(hub.live_sessions(), 0);
    assert_eq!(hub.server_phase(), ServerPhase::Accepting);
    assert!(hub.users().is_empty());
    assert_eq!(hub.phase(0), None);
    assert_eq!(hub.name(0), None);
    assert_eq!(hub.exit(0), None);
    assert_eq!(hub.pending(0), 0);
    assert!(!hub.is_write_closed(0));
}

#[test]
fn clients_are_numbered_from_zero() {
    let mut hub = Hub::new();
    assert_eq!(hub.connect(), Some(0));
    assert_eq!(hub.connect(), Some(1));
    assert_eq!(hub.connect(), Some(2));
    assert_eq!(hub.client_count(), 3);
    assert_eq!(hub.live_sessions(), 3);
    for id in 0..3 {
        assert_eq!(hub.phase(id), Some(Phase::Negotiating));
        assert_eq!(hub.take_output(id), vec!["Choose a username: "]);
        assert_eq!(hub.take_output(id), Vec::<String>::new());
        assert_eq!(hub.pending(id), 0);
    }
}

#[test]
fn events_for_nobody_do_nothing() {
    let mut hub = Hub::new();
    let alice = join(&mut hub, "alice");
    hub.client_line(7, "hello\n");
    hub.end_of_stream(7);
    hub.close_timeout(7);
    hub.transport_failure(7);
    assert!(!hub.deliver(7));
    assert_eq!(hub.take_output(7), Vec::<String>::new());
    assert_eq!(hub.client_count(), 1);
    assert_eq!(hub.pending(alice), 0);
    assert_eq!(hub.users(), vec!["alice"]);
}

#[test]
fn a_join_is_queued_for_everyone_and_written_at_their_turn() {
    let mut hub = Hub::new();
    let alice = join(&mut hub, "alice");
    let carol = hub.connect().expect("the hub accepts");
    hub.take_output(carol);

    let bob = hub.connect().expect("the hub accepts");
    hub.client_line(bob, "bob\n");

    // Bob is greeted at once; the announcement waits on the bus.
    assert_eq!(
        hub.take_output(bob),
        vec!["Choose a username: ", "Hi bob, welcome to Prattle! (Send /help for help)\n"]
    );
    assert_eq!(hub.take_output(alice), Vec::<String>::new());
    assert_eq!(hub.pending(alice), 1);
    assert_eq!(hub.pending(bob), 1);
    assert_eq!(hub.pending(carol), 1);

    assert!(hub.deliver(alice));
    assert!(!hub.deliver(alice));
    assert_eq!(hub.take_output(alice), vec!["* bob joined the server\n"]);
    assert!(hub.deliver(bob));
    assert_eq!(hub.take_output(bob), vec!["* bob joined the server\n"]);

    // Carol has no name yet: her line stays queued.
    assert!(!hub.deliver(carol));
    assert_eq!(hub.pending(carol), 1);
    assert_eq!(hub.take_output(carol), Vec::<String>::new());
}

#[test]
fn lines_are_delivered_in_the_order_of_publication() {
    let mut hub = Hub::new();
    let alice = join(&mut hub, "alice");
    let bob = join(&mut hub, "bob");
    while hub.deliver(alice) {}
    hub.take_output(alice);

    hub.client_line(alice, "one\n");
    hub.client_line(bob, "two\n");
    hub.client_line(alice, "/action three\n");
    hub.client_line(bob, "\n");
    hub.client_line(bob, "four\n");

    for id in [alice, bob] {
        assert_eq!(hub.pending(id), 4);
        while hub.deliver(id) {}
        assert_eq!(
            hub.take_output(id),
            vec!["alice: one\n", "bob: two\n", "* alice three\n", "bob: four\n"]
        );
    }
}

#[test]
fn who_and_help_touch_nobody_else() {
    let mut hub = Hub::new();
    let alice = join(&mut hub, "alice");
    let bob = join(&mut hub, "bob");
    while hub.deliver(alice) {}
    hub.take_output(alice);

    hub.client_line(alice, "/who\n");
    hub.client_line(alice, "/help\n");
    assert_eq!(hub.pending(alice), 0);
    assert_eq!(hub.pending(bob), 0);
    assert_eq!(hub.take_output(bob), Vec::<String>::new());
    let output = hub.take_output(alice);
    assert_eq!(output.len(), 2);
    assert_eq!(output[0], "Currently online: alice, bob\n");
    assert!(output[1].contains("/action <action>"));
}

#[test]
fn who_does_not_list_those_who_left() {
    let mut hub = Hub::new();
    let alice = join(&mut hub, "alice");
    let bob = join(&mut hub, "bob");
    let carol = join(&mut hub, "carol");

    hub.client_line(alice, "/quit\n");
    hub.client_line(bob, "/who\n");
    // Alice is closing, not gone.
    assert_eq!(hub.take_output(bob), vec!["Currently online: alice, bob, carol\n"]);

    hub.end_of_stream(alice);
    hub.end_of_stream(carol);
    hub.client_line(bob, "/who\n");
    assert_eq!(hub.take_output(bob), vec!["Currently online: bob\n"]);
    assert_eq!(hub.users(), vec!["bob"]);
    assert_eq!(hub.phase(alice), Some(Phase::Terminated));
    assert_eq!(hub.exit(alice), Some(Exit::Quit));
    assert_eq!(hub.exit(carol), Some(Exit::EndOfStream));
    assert_eq!(hub.live_sessions(), 1);
}

#[test]
fn a_full_queue_loses_its_oldest_lines() {
    let mut hub = Hub::new();
    let alice = join(&mut hub, "alice");
    let bob = join(&mut hub, "bob");
    while hub.deliver(alice) {}
    hub.take_output(alice);

    // Bob talks and takes his own lines; alice does not take hers.
    for n in 0..CHANNEL_CAP {
        hub.client_line(bob, &format!("line {n}\n"));
        assert!(hub.deliver(bob));
    }
    assert_eq!(hub.pending(alice), CHANNEL_CAP);
    assert_eq!(hub.take_output(bob).len(), CHANNEL_CAP);

    // Nothing is lost yet: the first turn hands over the first line.
    assert!(hub.deliver(alice));
    assert_eq!(hub.take_output(alice), vec!["bob: line 0\n"]);
    assert_eq!(hub.pending(alice), CHANNEL_CAP - 1);

    // Four more lines: the queue fills up, and three lines fall out.
    for n in 0..4 {
        hub.client_line(bob, &format!("more {n}\n"));
        assert!(hub.deliver(bob));
    }
    assert_eq!(hub.pending(alice), CHANNEL_CAP);
    hub.take_output(bob);

    // At her next turn alice learns that she has lagged, and her session ends.
    assert!(hub.deliver(alice));
    assert_eq!(hub.phase(alice), Some(Phase::Terminated));
    assert_eq!(hub.exit(alice), Some(Exit::Lagged(3)));
    assert_eq!(hub.take_output(alice), Vec::<String>::new());
    assert!(!hub.deliver(alice));
    assert_eq!(hub.users(), vec!["bob"]);
    assert_eq!(hub.live_sessions(), 1);

    assert!(hub.deliver(bob));
    assert_eq!(hub.take_output(bob), vec!["* alice left the server\n"]);
}

#[test]
fn a_client_without_a_name_can_lag_too() {
    let mut hub = Hub::new();
    let alice = join(&mut hub, "alice");
    let idle = hub.connect().expect("the hub accepts");
    for n in 0..CHANNEL_CAP + 1 {
        hub.client_line(alice, &format!("line {n}\n"));
        assert!(hub.deliver(alice));
    }
    assert_eq!(hub.pending(idle), CHANNEL_CAP);

    // Nothing is handed over while it negotiates; once it has a name it
    // learns that it has lagged: by the one line too many, and by the one
    // that its own arrival has pushed out.
    assert!(!hub.deliver(idle));
    hub.client_line(idle, "bob\n");
    assert_eq!(hub.phase(idle), Some(Phase::Active));
    assert_eq!(hub.pending(idle), CHANNEL_CAP);
    assert!(hub.deliver(idle));
    assert_eq!(hub.phase(idle), Some(Phase::Terminated));
    assert_eq!(hub.exit(idle), Some(Exit::Lagged(2)));
    assert_eq!(hub.users(), vec!["alice"]);
}

#[test]
fn those_who_left_hear_nothing_more() {
    let mut hub = Hub::new();
    let alice = join(&mut hub, "alice");
    let bob = join(&mut hub, "bob");
    while hub.deliver(alice) {}
    hub.end_of_stream(alice);
    assert_eq!(hub.pending(alice), 0);

    hub.client_line(bob, "anybody?\n");
    assert_eq!(hub.pending(alice), 0);
    assert_eq!(hub.pending(bob), 2);
    assert!(!hub.deliver(alice));
}

#[test]
fn shutdown_tells_everyone_and_closes_every_write_half() {
    let mut hub = Hub::new();
    let alice = join(&mut hub, "alice");
    let bob = join(&mut hub, "bob");
    let idle = hub.connect().expect("the hub accepts");
    let gone = join(&mut hub, "gone");
    hub.end_of_stream(gone);
    for id in [alice, bob, idle, gone] {
        while hub.deliver(id) {}
        hub.take_output(id);
    }

    assert_eq!(hub.shutdown(), ShutdownReport::Notified(3));
    assert_eq!(hub.server_phase(), ServerPhase::Draining);
    assert_eq!(hub.take_output(alice), vec!["Server is shutting down\n"]);
    assert_eq!(hub.take_output(bob), vec!["Server is shutting down\n"]);
    assert_eq!(hub.take_output(idle), vec!["\nServer is shutting down\n"]);
    assert_eq!(hub.take_output(gone), Vec::<String>::new());
    for id in [alice, bob, idle] {
        assert_eq!(hub.phase(id), Some(Phase::Disconnecting));
        assert_eq!(hub.exit(id), Some(Exit::Shutdown));
        assert!(hub.is_write_closed(id));
    }
    assert!(!hub.is_write_closed(gone));
    assert_eq!(hub.users(), vec!["alice", "bob"]);

    // A second trigger changes nothing.
    assert_eq!(hub.shutdown(), ShutdownReport::AlreadyTriggered);
    assert_eq!(hub.take_output(alice), Vec::<String>::new());
}

#[test]
fn nobody_connects_after_shutdown() {
    let mut hub = Hub::new();
    let alice = join(&mut hub, "alice");
    assert_eq!(hub.shutdown(), ShutdownReport::Notified(1));
    assert_eq!(hub.poll_drain(1000), DrainStep::Wait(100));

    assert_eq!(hub.connect(), None);
    assert_eq!(hub.client_count(), 1);
    assert_eq!(hub.live_sessions(), 1);
    assert_eq!(hub.server_phase(), ServerPhase::Draining);
    assert_eq!(hub.poll_drain(1100), DrainStep::Wait(100));

    hub.close_timeout(alice);
    assert_eq!(hub.poll_drain(4000), DrainStep::Drained);
    assert_eq!(hub.connect(), None);
    assert_eq!(hub.server_phase(), ServerPhase::Stopped);
}

#[test]
fn the_drain_ends_when_the_last_session_is_gone() {
    let mut hub = Hub::new();
    let alice = join(&mut hub, "alice");
    let idle = hub.connect().expect("the hub accepts");
    assert_eq!(hub.shutdown(), ShutdownReport::Notified(2));

    assert_eq!(hub.poll_drain(0), DrainStep::Wait(100));
    hub.end_of_stream(alice);
    assert!(hub.users().is_empty());
    // The session without a name is still there.
    assert_eq!(hub.poll_drain(100), DrainStep::Wait(100));
    hub.close_timeout(idle);
    assert_eq!(hub.live_sessions(), 0);
    assert_eq!(hub.poll_drain(200), DrainStep::Drained);
    assert_eq!(hub.server_phase(), ServerPhase::Stopped);
}

#[test]
fn a_hub_without_sessions_stops_at_once() {
    let mut hub = Hub::new();
    assert_eq!(hub.shutdown(), ShutdownReport::NobodyOnline);
    assert_eq!(hub.server_phase(), ServerPhase::Stopped);
    assert_eq!(hub.poll_drain(0), DrainStep::NotDraining);

    let mut hub = Hub::new();
    let alice = join(&mut hub, "alice");
    hub.transport_failure(alice);
    assert_eq!(hub.exit(alice), Some(Exit::Io));
    assert_eq!(hub.shutdown(), ShutdownReport::NobodyOnline);
    assert_eq!(hub.server_phase(), ServerPhase::Stopped);
}

#[test]
fn a_failing_transport_during_the_close_does_not_end_the_session() {
    let mut hub = Hub::new();
    let alice = join(&mut hub, "alice");
    let bob = join(&mut hub, "bob");
    hub.client_line(alice, "/quit\n");
    hub.transport_failure(alice);
    assert_eq!(hub.phase(alice), Some(Phase::Disconnecting));
    assert_eq!(hub.exit(alice), Some(Exit::Io));
    assert!(hub.is_write_closed(alice));
    assert_eq!(hub.users(), vec!["alice", "bob"]);

    hub.close_timeout(alice);
    assert_eq!(hub.phase(alice), Some(Phase::Terminated));
    assert_eq!(hub.users(), vec!["bob"]);
    while hub.deliver(bob) {}
    assert!(hub.take_output(bob).contains(&"* alice left the server\n".to_string()));
}
