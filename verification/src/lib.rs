//! The decisions of a mock-data broadcaster, kept apart from its sockets.
//!
//! A broadcaster reads a text, cuts it into records at the line feeds, listens
//! on a TCP port, and streams the records to every WebSocket client that
//! connects: one text frame for each record, a fixed pause after each, and a
//! close frame at the end.
//!
//! This library holds everything of that which is not input or output:
//!
//! - [`records`] cuts the text into records;
//! - [`address`] writes the address to bind;
//! - [`websocket`] holds the configuration and hands out the two state
//!   machines;
//! - [`listener`] is the accept loop as a state machine;
//! - [`session`] is one client's stream as a state machine;
//! - [`service`] states what holds of the listener and all sessions together;
//! - [`notice`] names what is worth logging.
//!
//! A state machine says which action is due and is told how it turned out.
//! The program around the library performs the actions: it owns the sockets,
//! the clock and the log.

pub mod address;
pub mod listener;
pub mod notice;
pub mod records;
pub mod service;
pub mod session;
mod std_support;
pub mod websocket;
