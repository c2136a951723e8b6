//! One client's session: from the first prompt to the last announcement.
//!
//! A session negotiates a username, is active while its client chats, closes
//! the connection in good order and is gone. It never touches a socket or a
//! channel itself. The caller tells it what has happened (a line was read, a
//! broadcast arrived, shutdown was signalled, the peer has closed, the
//! transport has failed) and gets back what to do, in order: what to write
//! to the client, what to publish on the bus, when to close the write half.
//!
//! A receiver that has fallen behind the bus is treated as a failure of its
//! session: the session ends and its exit says by how many messages it
//! lagged, so that the caller can log it.

use vstd::prelude::*;
use vstd::string::StringExecFns;
use crate::command::{trim_str, Command, COMMAND_HELP};
use crate::directory::{without, UserDirectory};
use crate::session::model::{EffectText, SessionState};
use crate::wire::{
    action_line, chat_line, join_notice, leave_notice, leave_text, welcome_line, who_line,
    GOODBYE, SHUTDOWN_NOTICE, SHUTDOWN_NOTICE_AT_PROMPT, USERNAME_EMPTY, USERNAME_PROMPT,
    USERNAME_TAKEN,
};

pub mod laws;
pub mod model;

verus! {

/// Where a session stands in its life.
#[derive(Debug, Clone, Copy, PartialEq, Eq, Structural)]
pub enum Phase {
    /// The client is being asked for a username.
    Negotiating,
    /// The client holds a username and chats.
    Active,
    /// The write half is being closed and the peer's close is awaited.
    Disconnecting,
    /// The session is over and its username, if it had one, is free again.
    Terminated,
}

/// Why a session left, or is leaving.
#[derive(Debug, Clone, Copy, PartialEq, Eq, Structural)]
pub enum Exit {
    /// The client sent `/quit`.
    Quit,
    /// The server is shutting down.
    Shutdown,
    /// The peer closed the stream without `/quit`.
    EndOfStream,
    /// Reading from or writing to the transport failed.
    Io,
    /// The session's receiver fell behind the bus by this many messages.
    Lagged(u64),
    /// The bus was closed under the session.
    BusClosed,
}

/// What can go wrong on the receiving side of the bus.
#[derive(Debug, Clone, Copy, PartialEq, Eq, Structural)]
pub enum BusFault {
    /// The receiver fell behind and this many messages were skipped.
    Lagged(u64),
    /// No sender is left.
    Closed,
}

/// One thing for the caller to do.
#[derive(Debug, PartialEq, Eq)]
pub enum Effect {
    /// Write this text to the client.
    Write(String),
    /// Publish this line on the broadcast bus. Nobody listening is no error.
    Publish(String),
    /// Shut down the write half of the transport, then read and discard
    /// until the peer closes or the per-client timeout has passed, and
    /// report that the connection is closed.
    CloseWrite,
}

impl View for Effect {
    type V = EffectText;

    open spec fn view(&self) -> EffectText {
        match *self {
            Effect::Write(text) => EffectText::Write(text@),
            Effect::Publish(text) => EffectText::Publish(text@),
            Effect::CloseWrite => EffectText::CloseWrite,
        }
    }
}

/// The values of a list of effects, in order.
pub open spec fn effect_texts(effects: Seq<Effect>) -> Seq<EffectText> {
    effects.map_values(|effect: Effect| effect@)
}

/// Where a session stands, with what it holds there. Every value is a
/// state that a session can be in: there is nothing to keep consistent.
#[derive(Debug)]
enum Stage {
    Negotiating,
    Active(String),
    Closing(Option<String>, Exit),
    Over(Option<String>, Exit),
}

/// A session's own state.
#[derive(Debug)]
pub struct Session {
    stage: Stage,
}

/// The value of a name that may be missing.
pub open spec fn name_text(name: Option<String>) -> Option<Seq<char>> {
    match name {
        Some(name) => Some(name@),
        None => None,
    }
}

impl View for Session {
    type V = SessionState;

    closed spec fn view(&self) -> SessionState {
        match self.stage {
            Stage::Negotiating => SessionState::initial(),
            Stage::Active(name) => SessionState {
                phase: Phase::Active,
                name: Some(name@),
                exit: None,
            },
            Stage::Closing(name, exit) => SessionState {
                phase: Phase::Disconnecting,
                name: name_text(name),
                exit: Some(exit),
            },
            Stage::Over(name, exit) => SessionState {
                phase: Phase::Terminated,
                name: name_text(name),
                exit: Some(exit),
            },
        }
    }
}

/// A list of one effect.
fn one(effect: Effect) -> (effects: Vec<Effect>)
    ensures
        effect_texts(effects@) == seq![effect@],
{
    let mut effects: Vec<Effect> = Vec::new();
    effects.push(effect);
    assert(effect_texts(effects@) =~= seq![effect@]);
    effects
}

/// A list of two effects.
fn two(first: Effect, second: Effect) -> (effects: Vec<Effect>)
    ensures
        effect_texts(effects@) == seq![first@, second@],
{
    let mut effects: Vec<Effect> = Vec::new();
    effects.push(first);
    effects.push(second);
    assert(effect_texts(effects@) =~= seq![first@, second@]);
    effects
}

/// The empty list of effects.
fn none() -> (effects: Vec<Effect>)
    ensures
        effect_texts(effects@) == Seq::<EffectText>::empty(),
{
    let effects: Vec<Effect> = Vec::new();
    assert(effect_texts(effects@) =~= Seq::<EffectText>::empty());
    effects
}

impl Session {
    /// A session that has just been spawned: it has no name yet.
    pub fn new() -> (session: Self)
        ensures
            session@ == SessionState::initial(),
    {
        Session { stage: Stage::Negotiating }
    }

    /// Every session is well formed.
    pub proof fn lemma_wf(&self)
        ensures
            self@.wf(),
    {
    }

    /// What a new session does first: it asks for a username.
    pub fn greeting() -> (effects: Vec<Effect>)
        ensures
            effect_texts(effects@) == seq![EffectText::Write(USERNAME_PROMPT@)],
    {
        one(Effect::Write(String::from_str(USERNAME_PROMPT)))
    }

    /// The current phase.
    pub fn phase(&self) -> (phase: Phase)
        ensures
            phase == self@.phase,
    {
        match &self.stage {
            Stage::Negotiating => Phase::Negotiating,
            Stage::Active(_) => Phase::Active,
            Stage::Closing(_, _) => Phase::Disconnecting,
            Stage::Over(_, _) => Phase::Terminated,
        }
    }

    /// The username, once one was claimed.
    pub fn name(&self) -> (name: Option<&str>)
        ensures
            match name {
                Some(text) => self@.name == Some(text@),
                None => self@.name is None,
            },
    {
        match &self.stage {
            Stage::Negotiating => None,
            Stage::Active(name) => Some(name.as_str()),
            Stage::Closing(name, _) | Stage::Over(name, _) => match name {
                Some(name) => Some(name.as_str()),
                None => None,
            },
        }
    }

    /// Why the session is leaving, once it is.
    pub fn exit(&self) -> (exit: Option<Exit>)
        ensures
            exit == self@.exit,
    {
        match &self.stage {
            Stage::Negotiating | Stage::Active(_) => None,
            Stage::Closing(_, exit) | Stage::Over(_, exit) => Some(*exit),
        }
    }

    /// Takes the stage out of the session, to put the next one in.
    fn take_stage(&mut self) -> (stage: Stage)
        ensures
            stage == old(self).stage,
            final(self).stage == Stage::Negotiating,
    {
        let mut stage = Stage::Negotiating;
        std::mem::swap(&mut stage, &mut self.stage);
        stage
    }

    /// Ends the session: frees its name and announces the departure.
    fn leave(
        &mut self,
        name: Option<String>,
        exit: Exit,
        users: &mut UserDirectory,
    ) -> (effects: Vec<Effect>)
        ensures
            final(self)@ == (SessionState {
                phase: Phase::Terminated,
                name: name_text(name),
                exit: Some(exit),
            }),
            final(users)@ == match name {
                Some(name) => without(old(users)@, name@),
                None => old(users)@,
            },
            effect_texts(effects@) == match name {
                Some(name) => seq![EffectText::Publish(leave_text(name@))],
                None => seq![],
            },
    {
        let effects = match &name {
            Some(name) => {
                users.unregister(name.as_str());
                one(Effect::Publish(leave_notice(name.as_str())))
            },
            None => none(),
        };
        self.stage = Stage::Over(name, exit);
        effects
    }

    /// A line was read from the client; `line` is what was read, newline
    /// included, and is empty only at the end of the stream.
    ///
    /// While negotiating, the trimmed line is the wanted username: an empty
    /// one and one that is taken are refused and asked for again; a free one
    /// is claimed, greeted and announced, and the session is active. While
    /// active, the end of the stream ends the session at once; any other line
    /// is a command and is carried out. A session that is closing or over
    /// reads no more.
    pub fn on_line(&mut self, line: &str, users: &mut UserDirectory) -> (effects: Vec<Effect>)
        ensures
            final(self)@ == old(self)@.on_line(old(users)@, line@).session,
            final(users)@ == old(self)@.on_line(old(users)@, line@).users,
            effect_texts(effects@) == old(self)@.on_line(old(users)@, line@).effects,
    {
        match self.take_stage() {
            Stage::Negotiating => {
                let name = trim_str(line);
                if name.is_empty() {
                    two(
                        Effect::Write(String::from_str(USERNAME_EMPTY)),
                        Effect::Write(String::from_str(USERNAME_PROMPT)),
                    )
                } else if users.try_register(name) {
                    self.stage = Stage::Active(String::from_str(name));
                    two(Effect::Write(welcome_line(name)), Effect::Publish(join_notice(name)))
                } else {
                    two(
                        Effect::Write(String::from_str(USERNAME_TAKEN)),
                        Effect::Write(String::from_str(USERNAME_PROMPT)),
                    )
                }
            },
            Stage::Active(name) => {
                if line.is_empty() {
                    self.leave(Some(name), Exit::EndOfStream, users)
                } else {
                    self.run_command(name, Command::parse(line), users)
                }
            },
            stage => {
                self.stage = stage;
                none()
            },
        }
    }

    /// Carries out a command of an active client, whose name is `name`.
    /// `/help` and `/who` are answered to the client alone; an action and a
    /// message go out on the bus under the client's name; `/quit` is
    /// answered with a goodbye and starts the close; the empty line does
    /// nothing.
    fn run_command(
        &mut self,
        name: String,
        command: Command<'_>,
        users: &UserDirectory,
    ) -> (effects: Vec<Effect>)
        ensures
            ({
                let active = SessionState { phase: Phase::Active, name: Some(name@), exit: None };
                &&& final(self)@ == active.on_command(users@, command@).session
                &&& effect_texts(effects@) == active.on_command(users@, command@).effects
            }),
    {
        match command {
            Command::Quit => {
                self.stage = Stage::Closing(Some(name), Exit::Quit);
                two(Effect::Write(String::from_str(GOODBYE)), Effect::CloseWrite)
            },
            command => {
                let effects = match command {
                    Command::Help => one(Effect::Write(String::from_str(COMMAND_HELP))),
                    Command::Who => {
                        let names = users.snapshot();
                        one(Effect::Write(who_line(&names)))
                    },
                    Command::Action(text) => one(
                        Effect::Publish(action_line(name.as_str(), text)),
                    ),
                    Command::Msg(text) => one(Effect::Publish(chat_line(name.as_str(), text))),
                    _ => none(),
                };
                self.stage = Stage::Active(name);
                effects
            },
        }
    }

    /// A message arrived from the bus. An active session writes it to its
    /// client as it is; any other session drops it.
    pub fn on_broadcast(&mut self, message: String) -> (effects: Vec<Effect>)
        ensures
            final(self)@ == old(self)@.on_broadcast(message@).session,
            effect_texts(effects@) == old(self)@.on_broadcast(message@).effects,
            final(self)@ == old(self)@,
    {
        match &self.stage {
            Stage::Active(_) => one(Effect::Write(message)),
            _ => none(),
        }
    }

    /// The receiving side of the bus has failed. An active session ends, with
    /// the fault as its exit; any other session does not listen to the bus
    /// and is left alone.
    pub fn on_bus_fault(
        &mut self,
        fault: BusFault,
        users: &mut UserDirectory,
    ) -> (effects: Vec<Effect>)
        ensures
            final(self)@ == old(self)@.on_bus_fault(old(users)@, fault).session,
            final(users)@ == old(self)@.on_bus_fault(old(users)@, fault).users,
            effect_texts(effects@) == old(self)@.on_bus_fault(old(users)@, fault).effects,
    {
        match self.take_stage() {
            Stage::Active(name) => {
                let exit = match fault {
                    BusFault::Lagged(missed) => Exit::Lagged(missed),
                    BusFault::Closed => Exit::BusClosed,
                };
                self.leave(Some(name), exit, users)
            },
            stage => {
                self.stage = stage;
                none()
            },
        }
    }

    /// The shutdown signal has fired. A session that negotiates or is active
    /// tells its client and starts the close; it keeps its name until the
    /// close is over. A session that is closing already, or over, is left
    /// alone.
    pub fn on_shutdown(&mut self) -> (effects: Vec<Effect>)
        ensures
            final(self)@ == old(self)@.on_shutdown().session,
            effect_texts(effects@) == old(self)@.on_shutdown().effects,
    {
        match self.take_stage() {
            Stage::Negotiating => {
                self.stage = Stage::Closing(None, Exit::Shutdown);
                two(
                    Effect::Write(String::from_str(SHUTDOWN_NOTICE_AT_PROMPT)),
                    Effect::CloseWrite,
                )
            },
            Stage::Active(name) => {
                self.stage = Stage::Closing(Some(name), Exit::Shutdown);
                two(Effect::Write(String::from_str(SHUTDOWN_NOTICE)), Effect::CloseWrite)
            },
            stage => {
                self.stage = stage;
                none()
            },
        }
    }

    /// Reading from or writing to the transport has failed. The caller drops
    /// what was left to do and does what comes back instead. Before the
    /// close has started the session ends at once; during the close the
    /// failure is recorded and the close still goes on.
    pub fn on_io_error(&mut self, users: &mut UserDirectory) -> (effects: Vec<Effect>)
        ensures
            final(self)@ == old(self)@.on_io_error(old(users)@).session,
            final(users)@ == old(self)@.on_io_error(old(users)@).users,
            effect_texts(effects@) == old(self)@.on_io_error(old(users)@).effects,
    {
        match self.take_stage() {
            Stage::Negotiating => self.leave(None, Exit::Io, users),
            Stage::Active(name) => self.leave(Some(name), Exit::Io, users),
            Stage::Closing(name, _) => {
                self.stage = Stage::Closing(name, Exit::Io);
                one(Effect::CloseWrite)
            },
            stage => {
                self.stage = stage;
                none()
            },
        }
    }

    /// The close handshake is over, in good order or by timeout: either way
    /// the session is gone, its name is free and its departure is announced.
    pub fn on_closed(&mut self, users: &mut UserDirectory) -> (effects: Vec<Effect>)
        ensures
            final(self)@ == old(self)@.on_closed(old(users)@).session,
            final(users)@ == old(self)@.on_closed(old(users)@).users,
            effect_texts(effects@) == old(self)@.on_closed(old(users)@).effects,
    {
        match self.take_stage() {
            Stage::Closing(name, exit) => self.leave(name, exit, users),
            stage => {
                self.stage = stage;
                none()
            },
        }
    }
}

} // verus!
