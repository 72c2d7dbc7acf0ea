//! A peer-to-peer fishing network: the wire protocol, the peer registry, the
//! discovery and trade rules, and the decisions of the event dispatcher.
//!
//! The library does no input or output. It is told what happened, as an
//! [`Event`], and answers with what is to be done, as a list of
//! [`event::Action`]s: the messages to write, the connections to open or to
//! drop, and the notices for the user.
pub mod address;
pub mod assoc;
pub mod backend;
pub mod basket;
pub mod commands;
pub mod decimal;
pub mod escape;
pub mod event;
pub mod gameplay;
pub mod handlers;
pub mod offer;
pub mod parser;
pub mod pattern;
pub mod peer;
pub mod peerstore;
pub mod protocol;
pub mod roundtrip;
pub mod text;
pub mod trade;
pub mod tui;

pub use crate::backend::ServerBackend;
pub use crate::event::Event;
pub use crate::handlers::{dispatch, AppState};
pub use crate::protocol::FNP;
