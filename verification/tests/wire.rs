use prattle::wire::{
    action_line, chat_line, join_notice, leave_notice, welcome_line, who_line, GOODBYE,
    SHUTDOWN_NOTICE, SHUTDOWN_NOTICE_AT_PROMPT, USERNAME_EMPTY, USERNAME_PROMPT, USERNAME_TAKEN,
};

#[test]
fn fixed_texts_are_word_for_word() {
    assert_eq!(USERNAME_PROMPT, "Choose a username: ");
    assert_eq!(USERNAME_EMPTY, "Username cannot be empty\n");
    assert_eq!(USERNAME_TAKEN, "Username taken\n");
    assert_eq!(SHUTDOWN_NOTICE, "Server is shutting down\n");
    assert_eq!(SHUTDOWN_NOTICE_AT_PROMPT, "\nServer is shutting down\n");
    assert_eq!(GOODBYE, "Goodbye for now!\n");
}

#[test]
fn welcome_embeds_the_name() {
    assert_eq!(welcome_line("alice"), "Hi alice, welcome to Prattle! (Send /help for help)\n");
    assert_eq!(welcome_line(""), "Hi , welcome to Prattle! (Send /help for help)\n");
}

#[test]
fn announcements_start_with_a_star() {
    assert_eq!(join_notice("alice"), "* alice joined the server\n");
    assert_eq!(leave_notice("alice"), "* alice left the server\n");
    assert_eq!(join_notice("Zoë Q"), "* Zoë Q joined the server\n");
}

#[test]
fn chat_and_action_lines_carry_name_and_text() {
    assert_eq!(chat_line("alice", "Hello everyone!"), "alice: Hello everyone!\n");
    assert_eq!(action_line("alice", "waves hello"), "* alice waves hello\n");
    assert_eq!(chat_line("bob", "a:  b"), "bob: a:  b\n");
    assert_eq!(action_line("bob", "does   something"), "* bob does   something\n");
}

#[test]
fn who_line_joins_the_names_with_commas() {
    let names = |list: &[&str]| list.iter().map(|name| name.to_string()).collect::<Vec<_>>();
    assert_eq!(who_line(&names(&[])), "Currently online: \n");
    assert_eq!(who_line(&names(&["alice"])), "Currently online: alice\n");
    assert_eq!(who_line(&names(&["alice", "bob"])), "Currently online: alice, bob\n");
    assert_eq!(
        who_line(&names(&["charlie", "alice", "bob"])),
        "Currently online: charlie, alice, bob\n"
    );
    assert_eq!(who_line(&names(&["", ""])), "Currently online: , \n");
}
