//! What holds of every session, whatever happens to it.

use vstd::prelude::*;
use crate::command::{
    is_whitespace, lemma_blank_line, lemma_trim_idempotent, lemma_trim_is_tight, parse_text, trim,
    CommandText, COMMAND_HELP,
};
use crate::directory::lemma_without;
use crate::session::model::{published, rank, EffectText, Event, SessionState};
use crate::session::{Exit, Phase};
use crate::wire::{
    action_text, chat_text, leave_text, who_text, SHUTDOWN_NOTICE, SHUTDOWN_NOTICE_AT_PROMPT,
    USERNAME_EMPTY, USERNAME_PROMPT, USERNAME_TAKEN,
};

verus! {

/// Whatever happens, a session stays well formed and only moves forward; the
/// name it has claimed never changes; and a session that is over does
/// nothing any more.
pub proof fn lemma_session_moves_forward(
    session: SessionState,
    users: Seq<Seq<char>>,
    event: Event,
)
    requires
        session.wf(),
    ensures
        session.on_event(users, event).session.wf(),
        rank(session.on_event(users, event).session.phase) >= rank(session.phase),
        session.name is Some ==> session.on_event(users, event).session.name == session.name,
        session.phase == Phase::Terminated ==> session.on_event(users, event) == session.stay(
            users,
        ),
{
}

/// Whatever happens to a session, no name gets into the directory twice, and
/// the only names that come or go are the session's own: it enters its name
/// when it becomes active and takes it out when it terminates.
pub proof fn lemma_session_keeps_directory(
    session: SessionState,
    users: Seq<Seq<char>>,
    event: Event,
)
    requires
        session.wf(),
        users.no_duplicates(),
        session.registered() ==> users.contains(session.name->0),
    ensures
        ({
            let next = session.on_event(users, event);
            &&& next.users.no_duplicates()
            &&& next.session.registered() ==> next.users.contains(next.session.name->0)
            &&& session.registered() && !next.session.registered() ==> !next.users.contains(
                session.name->0,
            )
            &&& forall|other: Seq<char>|
                Some(other) != next.session.name ==> (#[trigger] next.users.contains(other)
                    <==> users.contains(other))
        }),
{
    let next = session.on_event(users, event);
    if let Some(name) = session.name {
        lemma_without(users, name);
    }
    if session.phase == Phase::Negotiating {
        if let Event::Line(line) = event {
            let name = trim(line);
            if name.len() > 0 && !users.contains(name) {
                let grown = users.push(name);
                assert(grown.last() == name);
                assert forall|other: Seq<char>| Some(other) != next.session.name implies (
                #[trigger] grown.contains(other) <==> users.contains(other)) by {
                    if users.contains(other) {
                        let i = users.index_of(other);
                        assert(grown[i] == other);
                    }
                }
            }
        }
    }
}

/// A username is claimed by one session at most. Of two sessions that ask
/// for the same name one after the other, the first gets it exactly if it
/// was free, and the second is told that it is taken and stays where it was.
pub proof fn lemma_name_claimed_once(
    first: SessionState,
    second: SessionState,
    users: Seq<Seq<char>>,
    first_line: Seq<char>,
    second_line: Seq<char>,
)
    requires
        first.phase == Phase::Negotiating,
        second.phase == Phase::Negotiating,
        trim(first_line).len() > 0,
        trim(first_line) == trim(second_line),
    ensures
        ({
            let name = trim(first_line);
            let one = first.on_line(users, first_line);
            let two = second.on_line(one.users, second_line);
            &&& one.session.phase == Phase::Active <==> !users.contains(name)
            &&& one.users.contains(name)
            &&& two.session == second
            &&& two.users == one.users
            &&& two.effects == seq![
                EffectText::Write(USERNAME_TAKEN@),
                EffectText::Write(USERNAME_PROMPT@),
            ]
        }),
{
    let name = trim(first_line);
    if !users.contains(name) {
        assert(users.push(name).last() == name);
    }
}

/// A username that is claimed is the trimmed line: it is not empty and has
/// no whitespace around it.
pub proof fn lemma_username_is_trimmed(
    session: SessionState,
    users: Seq<Seq<char>>,
    line: Seq<char>,
)
    requires
        session.phase == Phase::Negotiating,
        session.on_line(users, line).session.phase == Phase::Active,
    ensures
        ({
            let name = session.on_line(users, line).session.name->0;
            &&& name == trim(line)
            &&& name.len() > 0
            &&& trim(name) == name
            &&& !users.contains(name)
        }),
{
    lemma_trim_idempotent(line);
}

/// A line that is blank once trimmed is no username: it is refused with the
/// same answer whoever is online, the session goes on negotiating and the
/// directory stays as it is.
pub proof fn lemma_blank_username_refused(
    session: SessionState,
    users: Seq<Seq<char>>,
    line: Seq<char>,
)
    requires
        session.phase == Phase::Negotiating,
        forall|i: int| 0 <= i < line.len() ==> is_whitespace(#[trigger] line[i]),
    ensures
        session.on_line(users, line).session == session,
        session.on_line(users, line).users == users,
        session.on_line(users, line).effects == seq![
            EffectText::Write(USERNAME_EMPTY@),
            EffectText::Write(USERNAME_PROMPT@),
        ],
{
    lemma_blank_line(line);
}

/// The answers to `/who` and `/help` go to the client that asked and to
/// nobody else: each is one write, nothing is published, and neither the
/// session nor the directory changes. The same holds of the empty line,
/// which is not even answered.
pub proof fn lemma_replies_stay_private(
    session: SessionState,
    users: Seq<Seq<char>>,
    line: Seq<char>,
)
    requires
        session.wf(),
        session.phase == Phase::Active,
        line.len() > 0,
        parse_text(line) is Who || parse_text(line) is Help || parse_text(line) is Empty,
    ensures
        ({
            let next = session.on_line(users, line);
            &&& next.session == session
            &&& next.users == users
            &&& published(next.effects) == Seq::<Seq<char>>::empty()
            &&& parse_text(line) is Who ==> next.effects == seq![EffectText::Write(who_text(users))]
            &&& parse_text(line) is Help ==> next.effects == seq![
                EffectText::Write(COMMAND_HELP@),
            ]
            &&& parse_text(line) is Empty ==> next.effects == Seq::<EffectText>::empty()
        }),
{
    let next = session.on_line(users, line);
    if next.effects.len() == 1 {
        assert(next.effects.drop_last() =~= Seq::<EffectText>::empty());
        assert(published(next.effects.drop_last()) == Seq::<Seq<char>>::empty());
    }
}

/// What an active client says or does goes out on the bus under its name,
/// as one line, and is not written to the client directly: the client sees
/// it when the bus hands it back.
pub proof fn lemma_chat_goes_to_bus(
    session: SessionState,
    users: Seq<Seq<char>>,
    line: Seq<char>,
)
    requires
        session.wf(),
        session.phase == Phase::Active,
        parse_text(line) is Msg || parse_text(line) is Action,
    ensures
        ({
            let next = session.on_line(users, line);
            let name = session.name->0;
            &&& line.len() > 0
            &&& next.session == session
            &&& next.users == users
            &&& parse_text(line) matches CommandText::Msg(text) ==> next.effects == seq![
                EffectText::Publish(chat_text(name, text)),
            ]
            &&& parse_text(line) matches CommandText::Action(text) ==> next.effects == seq![
                EffectText::Publish(action_text(name, text)),
            ]
        }),
{
    lemma_trim_is_tight(line);
}

/// Once a session has terminated its name is not in the directory, so no
/// listing made from then on shows it, until somebody claims the name anew.
pub proof fn lemma_departed_not_listed(
    session: SessionState,
    users: Seq<Seq<char>>,
    event: Event,
)
    requires
        session.wf(),
        users.no_duplicates(),
        session.name is Some,
        session.on_event(users, event).session.phase == Phase::Terminated,
        session.phase != Phase::Terminated,
    ensures
        !session.on_event(users, event).users.contains(session.name->0),
        session.on_event(users, event).effects == seq![
            EffectText::Publish(leave_text(session.name->0)),
        ],
{
    lemma_without(users, session.name->0);
}

/// When the shutdown signal fires, every session that negotiates or is
/// active tells its client that the server is shutting down, then starts to
/// close; nothing is published and the session keeps its name for now.
pub proof fn lemma_shutdown_is_announced(session: SessionState)
    requires
        session.wf(),
        session.phase == Phase::Negotiating || session.phase == Phase::Active,
    ensures
        ({
            let next = session.on_shutdown();
            &&& next.session.phase == Phase::Disconnecting
            &&& next.session.exit == Some(Exit::Shutdown)
            &&& next.session.name == session.name
            &&& next.effects.len() == 2
            &&& next.effects[0] == EffectText::Write(
                if session.phase == Phase::Active {
                    SHUTDOWN_NOTICE@
                } else {
                    SHUTDOWN_NOTICE_AT_PROMPT@
                },
            )
            &&& next.effects[1] == EffectText::CloseWrite
        }),
{
}

/// A session that leaves because its client quits or because the server
/// shuts down closes its write half first: it gets to closing only together
/// with the order to close, and it terminates with such an exit only from
/// closing, when the close is over.
pub proof fn lemma_close_comes_before_departure(
    session: SessionState,
    users: Seq<Seq<char>>,
    event: Event,
)
    requires
        session.wf(),
    ensures
        ({
            let next = session.on_event(users, event);
            &&& session.phase != Phase::Disconnecting && next.session.phase == Phase::Disconnecting
                ==> next.effects.len() == 2 && next.effects[0] is Write && next.effects[1]
                == EffectText::CloseWrite
            &&& session.phase != Phase::Terminated && next.session.phase == Phase::Terminated && (
            next.session.exit == Some(Exit::Quit) || next.session.exit == Some(Exit::Shutdown))
                ==> session.phase == Phase::Disconnecting && event is Closed
            &&& session.phase == Phase::Disconnecting ==> next.session.phase == (if event is Closed {
                Phase::Terminated
            } else {
                Phase::Disconnecting
            })
        }),
{
}

} // verus!
