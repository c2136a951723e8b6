//! What a session is, as a mathematical value, and what each event makes of
//! it.

use vstd::prelude::*;
use crate::command::{parse_text, trim, CommandText, COMMAND_HELP};
use crate::directory::without;
use crate::session::{BusFault, Exit, Phase};
use crate::wire::{
    action_text, chat_text, join_text, leave_text, welcome_text, who_text, GOODBYE,
    SHUTDOWN_NOTICE, SHUTDOWN_NOTICE_AT_PROMPT, USERNAME_EMPTY, USERNAME_PROMPT, USERNAME_TAKEN,
};

verus! {

/// The mathematical value of an effect.
pub enum EffectText {
    Write(Seq<char>),
    Publish(Seq<char>),
    CloseWrite,
}

/// The mathematical value of a session.
pub struct SessionState {
    pub phase: Phase,
    /// The username, once one was claimed. It stays after the session is
    /// over, for the record.
    pub name: Option<Seq<char>>,
    /// Why the session is leaving, once it is.
    pub exit: Option<Exit>,
}

/// What an event that needs the directory leads to.
pub struct Step {
    pub session: SessionState,
    pub users: Seq<Seq<char>>,
    pub effects: Seq<EffectText>,
}

/// What an event that leaves the directory alone leads to.
pub struct Reaction {
    pub session: SessionState,
    pub effects: Seq<EffectText>,
}

impl SessionState {
    /// A session that has just been spawned.
    pub open spec fn initial() -> Self {
        SessionState { phase: Phase::Negotiating, name: None, exit: None }
    }

    /// What holds of every session: it has a name exactly from the moment it
    /// becomes active, and a reason to leave exactly from the moment it
    /// starts to.
    pub open spec fn wf(self) -> bool {
        match self.phase {
            Phase::Negotiating => self.name is None && self.exit is None,
            Phase::Active => self.name is Some && self.exit is None,
            Phase::Disconnecting => self.exit is Some,
            Phase::Terminated => self.exit is Some,
        }
    }

    /// Whether the session holds its name in the directory.
    pub open spec fn registered(self) -> bool {
        self.name is Some && self.phase != Phase::Terminated
    }

    /// The session is over: its name is given up and its departure announced.
    pub open spec fn leave(self, users: Seq<Seq<char>>, exit: Exit) -> Step {
        Step {
            session: SessionState { phase: Phase::Terminated, name: self.name, exit: Some(exit) },
            users: match self.name {
                Some(name) => without(users, name),
                None => users,
            },
            effects: match self.name {
                Some(name) => seq![EffectText::Publish(leave_text(name))],
                None => seq![],
            },
        }
    }

    /// Nothing happens.
    pub open spec fn stay(self, users: Seq<Seq<char>>) -> Step {
        Step { session: self, users, effects: seq![] }
    }

    /// A line that a negotiating client sent as its username.
    pub open spec fn on_username(self, users: Seq<Seq<char>>, line: Seq<char>) -> Step {
        let name = trim(line);
        if name.len() == 0 {
            Step {
                session: self,
                users,
                effects: seq![
                    EffectText::Write(USERNAME_EMPTY@),
                    EffectText::Write(USERNAME_PROMPT@),
                ],
            }
        } else if users.contains(name) {
            Step {
                session: self,
                users,
                effects: seq![
                    EffectText::Write(USERNAME_TAKEN@),
                    EffectText::Write(USERNAME_PROMPT@),
                ],
            }
        } else {
            Step {
                session: SessionState { phase: Phase::Active, name: Some(name), exit: None },
                users: users.push(name),
                effects: seq![
                    EffectText::Write(welcome_text(name)),
                    EffectText::Publish(join_text(name)),
                ],
            }
        }
    }

    /// A command that an active client sent.
    pub open spec fn on_command(self, users: Seq<Seq<char>>, command: CommandText) -> Step {
        let name = self.name->0;
        match command {
            CommandText::Empty => self.stay(users),
            CommandText::Quit => Step {
                session: SessionState {
                    phase: Phase::Disconnecting,
                    name: self.name,
                    exit: Some(Exit::Quit),
                },
                users,
                effects: seq![EffectText::Write(GOODBYE@), EffectText::CloseWrite],
            },
            CommandText::Help => Step {
                session: self,
                users,
                effects: seq![EffectText::Write(COMMAND_HELP@)],
            },
            CommandText::Who => Step {
                session: self,
                users,
                effects: seq![EffectText::Write(who_text(users))],
            },
            CommandText::Action(text) => Step {
                session: self,
                users,
                effects: seq![EffectText::Publish(action_text(name, text))],
            },
            CommandText::Msg(text) => Step {
                session: self,
                users,
                effects: seq![EffectText::Publish(chat_text(name, text))],
            },
        }
    }

    /// A line was read from the client. The empty string stands for the end
    /// of the stream: a line that was sent holds its newline at least.
    pub open spec fn on_line(self, users: Seq<Seq<char>>, line: Seq<char>) -> Step {
        match self.phase {
            Phase::Negotiating => self.on_username(users, line),
            Phase::Active => if line.len() == 0 {
                self.leave(users, Exit::EndOfStream)
            } else {
                self.on_command(users, parse_text(line))
            },
            Phase::Disconnecting | Phase::Terminated => self.stay(users),
        }
    }

    /// A message arrived from the bus.
    pub open spec fn on_broadcast(self, message: Seq<char>) -> Reaction {
        if self.phase == Phase::Active {
            Reaction { session: self, effects: seq![EffectText::Write(message)] }
        } else {
            Reaction { session: self, effects: seq![] }
        }
    }

    /// The exit that a fault of the bus leads to.
    pub open spec fn exit_of(fault: BusFault) -> Exit {
        match fault {
            BusFault::Lagged(missed) => Exit::Lagged(missed),
            BusFault::Closed => Exit::BusClosed,
        }
    }

    /// The receiving side of the bus has failed.
    pub open spec fn on_bus_fault(self, users: Seq<Seq<char>>, fault: BusFault) -> Step {
        if self.phase == Phase::Active {
            self.leave(users, Self::exit_of(fault))
        } else {
            self.stay(users)
        }
    }

    /// The shutdown signal has fired.
    pub open spec fn on_shutdown(self) -> Reaction {
        match self.phase {
            Phase::Negotiating => Reaction {
                session: SessionState {
                    phase: Phase::Disconnecting,
                    name: self.name,
                    exit: Some(Exit::Shutdown),
                },
                effects: seq![
                    EffectText::Write(SHUTDOWN_NOTICE_AT_PROMPT@),
                    EffectText::CloseWrite,
                ],
            },
            Phase::Active => Reaction {
                session: SessionState {
                    phase: Phase::Disconnecting,
                    name: self.name,
                    exit: Some(Exit::Shutdown),
                },
                effects: seq![EffectText::Write(SHUTDOWN_NOTICE@), EffectText::CloseWrite],
            },
            Phase::Disconnecting | Phase::Terminated => Reaction { session: self, effects: seq![] },
        }
    }

    /// Reading from or writing to the transport has failed.
    pub open spec fn on_io_error(self, users: Seq<Seq<char>>) -> Step {
        match self.phase {
            Phase::Negotiating | Phase::Active => self.leave(users, Exit::Io),
            Phase::Disconnecting => Step {
                session: SessionState { exit: Some(Exit::Io), ..self },
                users,
                effects: seq![EffectText::CloseWrite],
            },
            Phase::Terminated => self.stay(users),
        }
    }

    /// The close handshake is over: the peer has closed, or the per-client
    /// timeout has passed.
    pub open spec fn on_closed(self, users: Seq<Seq<char>>) -> Step {
        if self.phase == Phase::Disconnecting {
            self.leave(users, self.exit->0)
        } else {
            self.stay(users)
        }
    }
}

/// Anything that can happen to a session.
pub enum Event {
    /// A line was read; the empty line stands for the end of the stream.
    Line(Seq<char>),
    /// A message arrived from the bus.
    Broadcast(Seq<char>),
    /// The receiving side of the bus has failed.
    BusFault(BusFault),
    /// The shutdown signal has fired.
    Shutdown,
    /// The transport has failed.
    IoError,
    /// The close handshake is over.
    Closed,
}

/// How far a phase is along the way from negotiating to terminated.
pub open spec fn rank(phase: Phase) -> nat {
    match phase {
        Phase::Negotiating => 0,
        Phase::Active => 1,
        Phase::Disconnecting => 2,
        Phase::Terminated => 3,
    }
}

/// The lines among `effects` that go out on the bus, in order.
pub open spec fn published(effects: Seq<EffectText>) -> Seq<Seq<char>>
    decreases effects.len(),
{
    if effects.len() == 0 {
        Seq::empty()
    } else {
        match effects.last() {
            EffectText::Publish(line) => published(effects.drop_last()).push(line),
            _ => published(effects.drop_last()),
        }
    }
}

impl SessionState {
    /// What an event leads to, whichever it is.
    pub open spec fn on_event(self, users: Seq<Seq<char>>, event: Event) -> Step {
        match event {
            Event::Line(line) => self.on_line(users, line),
            Event::Broadcast(message) => Step {
                session: self.on_broadcast(message).session,
                users,
                effects: self.on_broadcast(message).effects,
            },
            Event::BusFault(fault) => self.on_bus_fault(users, fault),
            Event::Shutdown => Step {
                session: self.on_shutdown().session,
                users,
                effects: self.on_shutdown().effects,
            },
            Event::IoError => self.on_io_error(users),
            Event::Closed => self.on_closed(users),
        }
    }
}

} // verus!
