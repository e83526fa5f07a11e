//! Verified core of the X-Talk voice-dialogue runtime: events, the event bus
//! scheduling rules, the wire protocol, the dummy models and the per-session
//! managers, each stated as a contract over plain values.
pub mod text;
pub mod json;
pub mod events;
pub mod bus;
pub mod models;
pub mod chat;
pub mod protocol;
pub mod serving;
pub mod server;
