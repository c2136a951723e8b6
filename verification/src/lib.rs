//! The session engine of Prattle, a chat service for many clients that talk
//! to each other line by line.
//!
//! The engine decides; it does not wait. Sockets, channels, clocks and
//! signals belong to the program around it, which tells the engine what has
//! happened and does what the engine answers.
//!
//! - [`command`] reads a chat line as a command.
//! - [`wire`] holds the texts that the server sends.
//! - [`directory`] is the set of usernames that are taken.
//! - [`session`] is one client's way from the prompt to its departure.
//! - [`dispatcher`] admits connections, and drains them at shutdown.
//! - [`hub`] puts all of them together in one thread, over a bus in memory.
//! - [`tls`] decides where the server's certificate comes from, how it is
//!   kept, and which host a client asks for.

pub mod command;
pub mod directory;
pub mod dispatcher;
pub mod hub;
pub mod session;
pub mod tls;
pub mod wire;
