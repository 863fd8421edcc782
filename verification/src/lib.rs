//! Client-side engine for the Distributed Data Protocol (DDP): the frames a
//! client sends, the routing of the frames it receives, and the tables that
//! tie replies to the handlers waiting for them.
//!
//! The engine performs no I/O and calls no handler. Whoever owns the
//! transport feeds it the text frames that arrive, writes out the frames it
//! queues, and fires the handlers it hands back.

pub mod text;
pub mod random;
pub mod json;
pub mod quoting;
pub mod messages;
pub mod queue;
pub mod table;
pub mod methods;
pub mod subscriptions;
pub mod listeners;
pub mod collection;
pub mod action;
pub mod dispatcher;
pub mod connection;
pub mod responses;
pub mod crash;
pub mod client;
pub mod laws;

pub use crate::action::Action;
pub use crate::collection::{Collection, ListenerId};
pub use crate::connection::{Connection, DdpConnError};
pub use crate::dispatcher::Core;
pub use crate::json::{Ejson, Json};
