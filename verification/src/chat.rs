//! Chat over the gossip transport alone: signed messages, the events derived
//! from them, the directory of peers seen, and the channel that ties a topic
//! to its bootstrap peers and neighbors.

pub mod channel;
pub mod event;
pub mod message;
pub mod peers;
pub mod presence;
pub mod sender;
