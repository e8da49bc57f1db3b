//! The channel of a room on the gossip overlay.

use crate::chat::channel::Channel;
use vstd::prelude::*;

pub use crate::gossip::ticket::TicketOpts;

verus! {

/// The state of a joined channel: topic, bootstrap nodes and neighbors.
pub type GossipChannel = Channel;

} // verus!
