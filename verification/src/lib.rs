//! Authenticated chat over a gossip overlay: the protocol layer between the
//! broadcast transport and the application.
//!
//! The crate holds the signed message envelope, the rendezvous ticket, the
//! peer directory with its decay rules, the event pipeline and the key schema
//! of the replicated message log. Every function carries a contract that is
//! checked by Verus; the few calls into other crates are isolated in small
//! trusted wrappers whose doc comments name the function they rely on.

pub mod chat;
pub mod game;
pub mod gossip;
pub mod identity;
pub mod node_set;
pub mod order;
pub mod state;
pub mod utils;
pub mod wire;
