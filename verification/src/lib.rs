//! The download engine of an XDCC agent: a program that sits on IRC networks,
//! asks bots for files, takes their offers and receives the files over direct
//! connections.
//!
//! The engine decides and keeps the records; it does no input or output. The
//! program around it owns the sockets, the files and the clocks, tells the
//! engine what happened and does what the engine answers.
//!
//! - [`dcc`] reads the offer that a bot sends and writes the answer to it.
//! - [`transfer`] is one file transfer as a state machine.
//! - [`download`] is the record of one download and the states it goes
//!   through.
//! - [`server`] keeps the downloads of one network connection.
//! - [`control`] says what a message from a network means.
//! - [`search`] reads the listings that bots send in answer to a search.
//! - [`irc_case`] compares nicknames as IRC servers do.
//! - [`text`] holds the characters and decimal numbers of the wire formats.

pub mod control;
pub mod dcc;
pub mod download;
pub mod irc_case;
pub mod search;
pub mod server;
pub mod text;
pub mod transfer;
