//! The texts of the wire protocol.
//!
//! Everything the server says is a line that ends in a newline, but for the
//! prompt, which ends in a space and waits for the answer on the same line.

use vstd::prelude::*;
use vstd::string::StringExecFns;

verus! {

/// Asks for a username. Not a line: no newline follows.
pub const USERNAME_PROMPT: &'static str = "Choose a username: ";

/// Answers a username that is empty once trimmed.
pub const USERNAME_EMPTY: &'static str = "Username cannot be empty\n";

/// Answers a username that somebody else holds.
pub const USERNAME_TAKEN: &'static str = "Username taken\n";

/// Tells an active client that the server is going down.
pub const SHUTDOWN_NOTICE: &'static str = "Server is shutting down\n";

/// Tells a client that has not chosen a name yet that the server is going
/// down. The blank line ends the line of the prompt.
pub const SHUTDOWN_NOTICE_AT_PROMPT: &'static str = "\nServer is shutting down\n";

/// Answers `/quit`.
pub const GOODBYE: &'static str = "Goodbye for now!\n";

/// The line that greets `name`.
pub open spec fn welcome_text(name: Seq<char>) -> Seq<char> {
    "Hi "@ + name + ", welcome to Prattle! (Send /help for help)\n"@
}

/// The announcement that `name` has joined.
pub open spec fn join_text(name: Seq<char>) -> Seq<char> {
    "* "@ + name + " joined the server\n"@
}

/// The announcement that `name` has left.
pub open spec fn leave_text(name: Seq<char>) -> Seq<char> {
    "* "@ + name + " left the server\n"@
}

/// What `name` said.
pub open spec fn chat_text(name: Seq<char>, text: Seq<char>) -> Seq<char> {
    name + ": "@ + text + "\n"@
}

/// What `name` did.
pub open spec fn action_text(name: Seq<char>, text: Seq<char>) -> Seq<char> {
    "* "@ + name + " "@ + text + "\n"@
}

/// The names in their order, with a comma and a space between neighbours.
pub open spec fn listed(names: Seq<Seq<char>>) -> Seq<char>
    decreases names.len(),
{
    if names.len() == 0 {
        Seq::empty()
    } else if names.len() == 1 {
        names.last()
    } else {
        listed(names.drop_last()) + ", "@ + names.last()
    }
}

/// The answer to `/who` when `names` are online.
pub open spec fn who_text(names: Seq<Seq<char>>) -> Seq<char> {
    "Currently online: "@ + listed(names) + "\n"@
}

/// Builds the line that greets `name`.
pub fn welcome_line(name: &str) -> (line: String)
    ensures
        line@ == welcome_text(name@),
{
    let mut line = String::from_str("Hi ");
    line.append(name);
    line.append(", welcome to Prattle! (Send /help for help)\n");
    line
}

/// Builds the announcement that `name` has joined.
pub fn join_notice(name: &str) -> (line: String)
    ensures
        line@ == join_text(name@),
{
    let mut line = String::from_str("* ");
    line.append(name);
    line.append(" joined the server\n");
    line
}

/// Builds the announcement that `name` has left.
pub fn leave_notice(name: &str) -> (line: String)
    ensures
        line@ == leave_text(name@),
{
    let mut line = String::from_str("* ");
    line.append(name);
    line.append(" left the server\n");
    line
}

/// Builds the line that carries what `name` said.
pub fn chat_line(name: &str, text: &str) -> (line: String)
    ensures
        line@ == chat_text(name@, text@),
{
    let mut line = String::from_str(name);
    line.append(": ");
    line.append(text);
    line.append("\n");
    line
}

/// Builds the line that carries what `name` did.
pub fn action_line(name: &str, text: &str) -> (line: String)
    ensures
        line@ == action_text(name@, text@),
{
    let mut line = String::from_str("* ");
    line.append(name);
    line.append(" ");
    line.append(text);
    line.append("\n");
    line
}

/// Builds the answer to `/who` from the names that are online.
pub fn who_line(names: &Vec<String>) -> (line: String)
    ensures
        line@ == who_text(names.deep_view()),
{
    let ghost all = names.deep_view();
    let mut line = String::from_str("Currently online: ");
    let ghost head = line@;
    let mut i: usize = 0;
    while i < names.len()
        invariant
            i <= names.len(),
            all == names.deep_view(),
            head == "Currently online: "@,
            line@ == head + listed(all.take(i as int)),
        decreases names.len() - i,
    {
        let ghost before = all.take(i as int);
        let ghost after = all.take(i + 1);
        assert(after.drop_last() == before);
        assert(after.last() == names[i as int]@);
        if i > 0 {
            line.append(", ");
        }
        line.append(names[i].as_str());
        assert(line@ == head + listed(after));
        i = i + 1;
    }
    assert(all.take(names.len() as int) == all);
    line.append("\n");
    line
}

} // verus!
