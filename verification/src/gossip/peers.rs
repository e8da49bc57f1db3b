//! The directory of peers of a room that is kept in a shared document.
//!
//! Here the directory follows the neighbor reports of the replication
//! engine: a neighbor that comes up is online, one that goes down is
//! offline, and a periodic tick marks as away whoever has been silent for
//! too long.

use crate::chat::peers::{
    distinct_ids, faded, has_peer, left, peer_index, same_peers, seen, views_of,
};
use crate::gossip::event::{LiveEvent, LiveEventView};
use crate::identity::NodeId;
use crate::utils::get_timestamp;
use vstd::prelude::*;

pub use crate::chat::peers::{PeerInfo, PeerRole, PeerStatus, PeerView};

verus! {

/// The directory after a report of the engine at time `now`; `None` stands
/// for the tick. Reports other than a neighbor coming or going change
/// nothing.
pub open spec fn live_updated(peers: Seq<PeerView>, event: Option<LiveEventView>, now: u64) -> Seq<
    PeerView,
> {
    match event {
        Some(LiveEventView::NeighborDown(id)) => left(peers, id, now),
        Some(LiveEventView::NeighborUp(id)) => seen(peers, id, now),
        None => faded(peers, now),
        _ => peers,
    }
}

/// The mathematical content of an optional report.
pub open spec fn live_view(event: Option<&LiveEvent>) -> Option<LiveEventView> {
    match event {
        Some(e) => Some(e@),
        None => None,
    }
}

/// The directory of peers, in the order in which they were first seen.
#[derive(Debug, PartialEq, Eq)]
pub struct PeerMap {
    peers: crate::chat::peers::PeerMap,
}

impl View for PeerMap {
    type V = Seq<PeerView>;

    closed spec fn view(&self) -> Seq<PeerView> {
        self.peers@
    }
}

impl PeerMap {
    /// The empty directory.
    pub fn new() -> (map: PeerMap)
        ensures
            map@ == Seq::<PeerView>::empty(),
    {
        PeerMap { peers: crate::chat::peers::PeerMap::new() }
    }

    /// The records of the directory, in the order of first sight. No two of
    /// them are about the same peer.
    pub fn to_vec(&self) -> (peers: Vec<PeerInfo>)
        ensures
            views_of(peers@) == self@,
            distinct_ids(self@),
    {
        self.peers.to_vec()
    }

    /// The record about `id`, if there is one.
    pub fn get(&self, id: &NodeId) -> (peer: Option<PeerInfo>)
        ensures
            match peer {
                Some(p) => has_peer(self@, id@) && p@ == self@[peer_index(self@, id@)],
                None => !has_peer(self@, id@),
            },
    {
        self.peers.get(id)
    }

    /// Updates the directory for a report of the engine at time `now`;
    /// `None` stands for the tick. The result carries the directory if the
    /// report changed it.
    pub fn update_at(&mut self, event: Option<&LiveEvent>, now: u64) -> (changed: Option<
        Vec<PeerInfo>,
    >)
        ensures
            final(self)@ == live_updated(old(self)@, live_view(event), now),
            match changed {
                Some(peers) => views_of(peers@) == final(self)@ && final(self)@ != old(self)@,
                None => final(self)@ == old(self)@,
            },
    {
        let before = self.peers.to_vec();
        match event {
            Some(LiveEvent::NeighborDown(id)) => {
                self.peers.mark_left(*id, now);
            },
            Some(LiveEvent::NeighborUp(id)) => {
                self.peers.mark_seen(*id, now);
            },
            None => {
                self.peers.fade(now);
            },
            _ => {
                return None;
            },
        }
        let after = self.peers.to_vec();
        if same_peers(&before, &after) {
            None
        } else {
            Some(after)
        }
    }

    /// Updates the directory for a report of the engine at the current
    /// time; `None` stands for the tick. Whatever the clock says, the
    /// directory and the result are those of `update_at` at some time.
    pub fn update(&mut self, event: Option<&LiveEvent>) -> (changed: Option<Vec<PeerInfo>>)
        ensures
            exists|now: u64| final(self)@ == live_updated(old(self)@, live_view(event), now),
            match changed {
                Some(peers) => views_of(peers@) == final(self)@ && final(self)@ != old(self)@,
                None => final(self)@ == old(self)@,
            },
    {
        let now = get_timestamp();
        self.update_at(event, now)
    }
}

} // verus!
