//! A bridge between a local inference daemon and a client application.
//!
//! The daemon's own calls (listing models, streaming a chat completion) are
//! awaited by the host; this library holds every decision around them:
//! which names a listing yields, how a pull-based fragment stream becomes a
//! sequence of pushed notifications, how failures end a call, and the
//! discipline under which calls share the one daemon connection.
pub mod conversation;
pub mod error;
pub mod ledger;
pub mod models;
pub mod relay;
