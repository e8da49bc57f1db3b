//! A room on the gossip overlay: the ticket that leads into it, the durable
//! document that records its peers and messages, and the events that the
//! replication engine reports.

pub mod channel;
pub mod doc;
pub mod event;
pub mod peers;
pub mod ticket;
pub mod types;
