//! Control surface of a service mesh for node-local leaf services.
//!
//! Leaf services announce themselves with heartbeats. The registry keeps one
//! node per service name, guards each name with a bearer token, describes the
//! backend that every accepted heartbeat stands for, evicts nodes that fall
//! silent, and says which journal records and events each transition owes.
//! The admin module turns what the HTTP layer has read of a request into the
//! reply to send.
//!
//! The library holds state and decides; the embedding program owns sockets,
//! files, locks and the configuration store, and performs what the library
//! hands back.

pub mod admin;
pub mod clock;
pub mod effects;
pub mod fanout;
pub mod heartbeat;
pub mod laws;
pub mod ledger;
pub mod projection;
pub mod registry;
pub mod rules;
pub mod text;
pub mod token;
