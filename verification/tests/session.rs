use prattle::command::COMMAND_HELP;
use prattle::directory::UserDirectory;
use prattle::session::{BusFault, Effect, Exit, Phase, Session};

fn write(text: &str) -> Effect {
    Effect::Write(text.to_string())
}

fn publish(text: &str) -> Effect {
    Effect::Publish(text.to_string())
}

/// A session that has claimed `name`.
fn active(name: &str, users: &mut UserDirectory) -> Session {
    let mut session = Session::new();
    let effects = session.on_line(&format!("{name}\n"), users);
    assert_eq!(effects.len(), 2);
    assert_eq!(session.phase(), Phase::Active);
    session
}

#[test]
fn a_new_session_asks_for_a_name() {
    let session = Session::new();
    assert_eq!(session.phase(), Phase::Negotiating);
    assert_eq!(session.name(), None);
    assert_eq!(session.exit(), None);
    assert_eq!(Session::greeting(), vec![write("Choose a username: ")]);
}

#[test]
fn blank_names_are_refused_and_asked_for_again() {
    let mut users = UserDirectory::new();
    let mut session = Session::new();
    for blank in [" ", "   ", "", "　", "\t", "\n", " \r\n", "\u{a0}\u{2003}\n"] {
        assert_eq!(
            session.on_line(blank, &mut users),
            vec![write("Username cannot be empty\n"), write("Choose a username: ")]
        );
        assert_eq!(session.phase(), Phase::Negotiating);
        assert_eq!(session.name(), None);
        assert!(users.is_empty());
    }

    // A subsequent valid name succeeds.
    assert_eq!(
        session.on_line("alice\n", &mut users),
        vec![
            write("Hi alice, welcome to Prattle! (Send /help for help)\n"),
            publish("* alice joined the server\n"),
        ]
    );
    assert_eq!(session.phase(), Phase::Active);
    assert_eq!(users.snapshot(), vec!["alice"]);
}

#[test]
fn a_name_is_trimmed_before_it_is_claimed() {
    let mut users = UserDirectory::new();
    let mut session = Session::new();
    assert_eq!(
        session.on_line("  \talice smith \r\n", &mut users),
        vec![
            write("Hi alice smith, welcome to Prattle! (Send /help for help)\n"),
            publish("* alice smith joined the server\n"),
        ]
    );
    assert_eq!(session.name(), Some("alice smith"));
    assert_eq!(users.snapshot(), vec!["alice smith"]);
}

#[test]
fn a_taken_name_goes_to_one_session_only() {
    let mut users = UserDirectory::new();
    let first = active("alice", &mut users);

    let mut second = Session::new();
    let mut third = Session::new();
    for session in [&mut second, &mut third] {
        assert_eq!(
            session.on_line(" alice \n", &mut users),
            vec![write("Username taken\n"), write("Choose a username: ")]
        );
        assert_eq!(session.phase(), Phase::Negotiating);
        assert_eq!(session.name(), None);
    }
    assert_eq!(users.snapshot(), vec!["alice"]);
    assert_eq!(first.name(), Some("alice"));

    // With another name they get on.
    assert_eq!(second.on_line("bob\n", &mut users).len(), 2);
    assert_eq!(second.phase(), Phase::Active);
    assert_eq!(users.snapshot(), vec!["alice", "bob"]);
}

#[test]
fn names_that_look_like_commands_are_names() {
    let mut users = UserDirectory::new();
    let mut session = Session::new();
    assert_eq!(
        session.on_line("/quit\n", &mut users),
        vec![
            write("Hi /quit, welcome to Prattle! (Send /help for help)\n"),
            publish("* /quit joined the server\n"),
        ]
    );
    assert_eq!(session.phase(), Phase::Active);
}

#[test]
fn the_end_of_the_stream_is_an_empty_name_while_negotiating() {
    let mut users = UserDirectory::new();
    let mut session = Session::new();
    assert_eq!(
        session.on_line("", &mut users),
        vec![write("Username cannot be empty\n"), write("Choose a username: ")]
    );
    assert_eq!(session.phase(), Phase::Negotiating);
}

#[test]
fn chat_goes_out_under_the_name() {
    let mut users = UserDirectory::new();
    let mut session = active("alice", &mut users);
    assert_eq!(
        session.on_line("Hello everyone!\n", &mut users),
        vec![publish("alice: Hello everyone!\n")]
    );
    assert_eq!(
        session.on_line("  spaced   out  \r\n", &mut users),
        vec![publish("alice: spaced   out\n")]
    );
    assert_eq!(session.on_line("/unknown\n", &mut users), vec![publish("alice: /unknown\n")]);
    assert_eq!(session.on_line("/action\n", &mut users), vec![publish("alice: /action\n")]);
    assert_eq!(session.phase(), Phase::Active);
}

#[test]
fn actions_go_out_with_a_star() {
    let mut users = UserDirectory::new();
    let mut session = active("alice", &mut users);
    assert_eq!(
        session.on_line("/action waves hello\n", &mut users),
        vec![publish("* alice waves hello\n")]
    );
    assert_eq!(
        session.on_line(" /action does   something \n", &mut users),
        vec![publish("* alice does   something\n")]
    );
}

#[test]
fn empty_lines_do_nothing() {
    let mut users = UserDirectory::new();
    let mut session = active("alice", &mut users);
    for blank in ["\n", "\r\n", "   \n", "\t\n", "　\n"] {
        assert_eq!(session.on_line(blank, &mut users), vec![]);
        assert_eq!(session.phase(), Phase::Active);
    }
    assert_eq!(
        session.on_line("Real message\n", &mut users),
        vec![publish("alice: Real message\n")]
    );
}

#[test]
fn help_and_who_are_written_not_published() {
    let mut users = UserDirectory::new();
    let mut alice = active("alice", &mut users);
    let _bob = active("bob", &mut users);

    assert_eq!(alice.on_line("/help\n", &mut users), vec![write(COMMAND_HELP)]);
    assert_eq!(
        alice.on_line("/who\n", &mut users),
        vec![write("Currently online: alice, bob\n")]
    );
    assert_eq!(alice.phase(), Phase::Active);
    assert_eq!(users.snapshot(), vec!["alice", "bob"]);
}

#[test]
fn quit_says_goodbye_and_closes() {
    let mut users = UserDirectory::new();
    let mut session = active("alice", &mut users);
    assert_eq!(
        session.on_line("/quit\n", &mut users),
        vec![write("Goodbye for now!\n"), Effect::CloseWrite]
    );
    assert_eq!(session.phase(), Phase::Disconnecting);
    assert_eq!(session.exit(), Some(Exit::Quit));
    // The name stays until the close is over.
    assert_eq!(users.snapshot(), vec!["alice"]);

    // Whatever the peer still sends is not read.
    assert_eq!(session.on_line("too late\n", &mut users), vec![]);
    assert_eq!(session.on_broadcast("bob: hi\n".to_string()), vec![]);
    assert_eq!(session.on_shutdown(), vec![]);

    assert_eq!(session.on_closed(&mut users), vec![publish("* alice left the server\n")]);
    assert_eq!(session.phase(), Phase::Terminated);
    assert_eq!(session.exit(), Some(Exit::Quit));
    assert_eq!(session.name(), Some("alice"));
    assert!(users.is_empty());
}

#[test]
fn the_end_of_the_stream_ends_an_active_session_at_once() {
    let mut users = UserDirectory::new();
    let mut session = active("alice", &mut users);
    assert_eq!(session.on_line("", &mut users), vec![publish("* alice left the server\n")]);
    assert_eq!(session.phase(), Phase::Terminated);
    assert_eq!(session.exit(), Some(Exit::EndOfStream));
    assert!(users.is_empty());
}

#[test]
fn broadcasts_are_written_as_they_are() {
    let mut users = UserDirectory::new();
    let mut session = active("alice", &mut users);
    assert_eq!(session.on_broadcast("bob: hi\n".to_string()), vec![write("bob: hi\n")]);
    assert_eq!(session.on_broadcast(String::new()), vec![write("")]);

    // A session without a name does not listen yet.
    let mut newcomer = Session::new();
    assert_eq!(newcomer.on_broadcast("bob: hi\n".to_string()), vec![]);
    assert_eq!(newcomer.phase(), Phase::Negotiating);
}

#[test]
fn a_lagging_session_ends_and_says_by_how_much() {
    let mut users = UserDirectory::new();
    let mut session = active("alice", &mut users);
    assert_eq!(
        session.on_bus_fault(BusFault::Lagged(7), &mut users),
        vec![publish("* alice left the server\n")]
    );
    assert_eq!(session.phase(), Phase::Terminated);
    assert_eq!(session.exit(), Some(Exit::Lagged(7)));
    assert!(users.is_empty());
}

#[test]
fn a_closed_bus_ends_an_active_session() {
    let mut users = UserDirectory::new();
    let mut session = active("alice", &mut users);
    assert_eq!(
        session.on_bus_fault(BusFault::Closed, &mut users),
        vec![publish("* alice left the server\n")]
    );
    assert_eq!(session.exit(), Some(Exit::BusClosed));

    // A session that does not listen to the bus is left alone.
    let mut newcomer = Session::new();
    assert_eq!(newcomer.on_bus_fault(BusFault::Closed, &mut users), vec![]);
    assert_eq!(newcomer.on_bus_fault(BusFault::Lagged(1), &mut users), vec![]);
    assert_eq!(newcomer.phase(), Phase::Negotiating);
    assert_eq!(newcomer.exit(), None);
}

#[test]
fn shutdown_is_announced_to_an_active_client() {
    let mut users = UserDirectory::new();
    let mut session = active("alice", &mut users);
    assert_eq!(
        session.on_shutdown(),
        vec![write("Server is shutting down\n"), Effect::CloseWrite]
    );
    assert_eq!(session.phase(), Phase::Disconnecting);
    assert_eq!(session.exit(), Some(Exit::Shutdown));
    assert_eq!(users.snapshot(), vec!["alice"]);

    assert_eq!(session.on_closed(&mut users), vec![publish("* alice left the server\n")]);
    assert_eq!(session.phase(), Phase::Terminated);
    assert_eq!(session.exit(), Some(Exit::Shutdown));
    assert!(users.is_empty());
}

#[test]
fn shutdown_reaches_a_client_at_the_prompt() {
    let mut users = UserDirectory::new();
    let mut session = Session::new();
    assert_eq!(
        session.on_shutdown(),
        vec![write("\nServer is shutting down\n"), Effect::CloseWrite]
    );
    assert_eq!(session.phase(), Phase::Disconnecting);
    assert_eq!(session.exit(), Some(Exit::Shutdown));

    // No name is claimed any more, and none is announced as gone.
    assert_eq!(session.on_line("alice\n", &mut users), vec![]);
    assert_eq!(session.on_closed(&mut users), vec![]);
    assert_eq!(session.phase(), Phase::Terminated);
    assert_eq!(session.name(), None);
    assert!(users.is_empty());
}

#[test]
fn a_failing_transport_ends_the_session() {
    let mut users = UserDirectory::new();

    let mut newcomer = Session::new();
    assert_eq!(newcomer.on_io_error(&mut users), vec![]);
    assert_eq!(newcomer.phase(), Phase::Terminated);
    assert_eq!(newcomer.exit(), Some(Exit::Io));

    let mut session = active("alice", &mut users);
    assert_eq!(session.on_io_error(&mut users), vec![publish("* alice left the server\n")]);
    assert_eq!(session.phase(), Phase::Terminated);
    assert_eq!(session.exit(), Some(Exit::Io));
    assert!(users.is_empty());
}

#[test]
fn a_failing_write_does_not_stop_the_close() {
    let mut users = UserDirectory::new();
    let mut session = active("alice", &mut users);
    assert_eq!(session.on_line("/quit\n", &mut users).len(), 2);

    // The goodbye could not be written: the close is still made.
    assert_eq!(session.on_io_error(&mut users), vec![Effect::CloseWrite]);
    assert_eq!(session.phase(), Phase::Disconnecting);
    assert_eq!(session.exit(), Some(Exit::Io));
    assert_eq!(users.snapshot(), vec!["alice"]);

    assert_eq!(session.on_closed(&mut users), vec![publish("* alice left the server\n")]);
    assert_eq!(session.exit(), Some(Exit::Io));
    assert!(users.is_empty());
}

#[test]
fn a_session_that_is_over_does_nothing() {
    let mut users = UserDirectory::new();
    let mut session = active("alice", &mut users);
    assert_eq!(session.on_line("", &mut users).len(), 1);
    assert_eq!(session.phase(), Phase::Terminated);

    // Somebody else holds the name now.
    let other = active("alice", &mut users);

    assert_eq!(session.on_line("hello\n", &mut users), vec![]);
    assert_eq!(session.on_line("", &mut users), vec![]);
    assert_eq!(session.on_broadcast("x\n".to_string()), vec![]);
    assert_eq!(session.on_bus_fault(BusFault::Closed, &mut users), vec![]);
    assert_eq!(session.on_shutdown(), vec![]);
    assert_eq!(session.on_io_error(&mut users), vec![]);
    assert_eq!(session.on_closed(&mut users), vec![]);
    assert_eq!(session.phase(), Phase::Terminated);
    assert_eq!(session.exit(), Some(Exit::EndOfStream));
    assert_eq!(users.snapshot(), vec!["alice"]);
    assert_eq!(other.name(), Some("alice"));
}

#[test]
fn closing_is_only_reported_to_a_session_that_closes() {
    let mut users = UserDirectory::new();
    let mut newcomer = Session::new();
    assert_eq!(newcomer.on_closed(&mut users), vec![]);
    assert_eq!(newcomer.phase(), Phase::Negotiating);

    let mut session = active("alice", &mut users);
    assert_eq!(session.on_closed(&mut users), vec![]);
    assert_eq!(session.phase(), Phase::Active);
    assert_eq!(users.snapshot(), vec!["alice"]);
}
