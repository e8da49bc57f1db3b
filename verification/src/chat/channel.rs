//! A joined channel: its topic, the nodes it was bootstrapped with, and the
//! neighbors that are connected right now.
//!
//! The set of neighbors follows the membership events as they pass through,
//! so that a ticket made from the channel can name the nodes that are
//! reachable at that moment.

use crate::chat::event::{event_of, Delivery, Event, EventView, TransportEvent};
use crate::gossip::ticket::{ticket_parse, ticket_text, ticket_wf, ChatTicket};
use crate::identity::{hex_lower, NodeId, TopicId};
use crate::node_set::{keys_of, sorted_insert, strictly_sorted, NodeSet};
use vstd::prelude::*;

pub use crate::gossip::ticket::TicketOpts;

verus! {

/// The neighbors after an event, given the neighbors before it: a join
/// adds the reported neighbors, a neighbor coming up is added, a neighbor
/// going down is taken out, and no other event changes the set.
pub open spec fn neighbors_after(neighbors: Set<Seq<u8>>, event: EventView) -> Set<Seq<u8>> {
    match event {
        EventView::Joined { neighbors: joined } => neighbors.union(joined.to_set()),
        EventView::NeighborUp { node_id } => neighbors.insert(node_id),
        EventView::NeighborDown { node_id } => neighbors.remove(node_id),
        _ => neighbors,
    }
}

/// The nodes that a ticket names under the options `opts`.
pub open spec fn ticket_members(
    me: Seq<u8>,
    bootstrap: Set<Seq<u8>>,
    neighbors: Set<Seq<u8>>,
    opts: TicketOpts,
) -> Set<Seq<u8>> {
    let myself = if opts.include_myself {
        Set::<Seq<u8>>::empty().insert(me)
    } else {
        Set::<Seq<u8>>::empty()
    };
    let boot = if opts.include_bootstrap {
        bootstrap
    } else {
        Set::<Seq<u8>>::empty()
    };
    let near = if opts.include_neighbors {
        neighbors
    } else {
        Set::<Seq<u8>>::empty()
    };
    myself.union(boot).union(near)
}

/// The state of a joined channel.
#[derive(Clone, Debug, PartialEq, Eq)]
pub struct Channel {
    topic_id: TopicId,
    me: NodeId,
    bootstrap: NodeSet,
    neighbors: NodeSet,
}

/// The mathematical content of a `Channel`. Both sets of nodes are given as
/// the keys of their members in ascending order.
pub struct ChannelView {
    pub topic_id: Seq<u8>,
    pub me: Seq<u8>,
    pub bootstrap: Seq<Seq<u8>>,
    pub neighbors: Seq<Seq<u8>>,
}

impl View for Channel {
    type V = ChannelView;

    closed spec fn view(&self) -> ChannelView {
        ChannelView {
            topic_id: self.topic_id@,
            me: self.me@,
            bootstrap: self.bootstrap.seq(),
            neighbors: self.neighbors.seq(),
        }
    }
}

impl Channel {
    /// The channel that node `me` gets by joining with `ticket`: the nodes
    /// of the ticket and `me` itself are its bootstrap nodes, and it has no
    /// neighbors yet.
    pub fn generate_channel(ticket: ChatTicket, me: NodeId) -> (channel: Channel)
        ensures
            channel@ == (ChannelView {
                topic_id: ticket.topic_id@,
                me: me@,
                bootstrap: sorted_insert(ticket@.bootstrap, me@),
                neighbors: Seq::empty(),
            }),
            channel@.bootstrap.to_set() == ticket@.bootstrap.to_set().insert(me@),
    {
        let mut ticket = ticket;
        ticket.bootstrap.insert(me);
        Channel {
            topic_id: ticket.topic_id,
            me,
            bootstrap: ticket.bootstrap,
            neighbors: NodeSet::new(),
        }
    }

    /// Follows an event of the channel: the neighbors change as
    /// `neighbors_after` says, and nothing else does.
    pub fn observe(&mut self, event: &Event)
        ensures
            final(self)@.neighbors.to_set() == neighbors_after(
                old(self)@.neighbors.to_set(),
                event@,
            ),
            strictly_sorted(final(self)@.neighbors),
            final(self)@ == (ChannelView { neighbors: final(self)@.neighbors, ..old(self)@ }),
    {
        match event {
            Event::Joined { neighbors } => {
                self.neighbors.extend_from(neighbors.as_slice());
            },
            Event::NeighborUp { node_id } => {
                self.neighbors.insert(*node_id);
            },
            Event::NeighborDown { node_id } => {
                self.neighbors.remove(node_id);
            },
            _ => {
                proof {
                    use_type_invariant(&self.neighbors);
                }
            },
        }
    }

    /// Takes one notification of the transport through the pipeline.
    ///
    /// A notification that is no event of the room is skipped: nothing is
    /// delivered, nothing is triggered and the channel stays as it is.
    /// Otherwise the event is delivered, the neighbors follow it, and a
    /// presence message is triggered exactly when the channel had no
    /// neighbor before the notification and has one after it.
    pub fn handle(&mut self, raw: TransportEvent) -> (out: Delivery)
        ensures
            match event_of(raw@) {
                Ok(e) => {
                    &&& out.event matches Some(event) && event@ == e
                    &&& final(self)@.neighbors.to_set() == neighbors_after(
                        old(self)@.neighbors.to_set(),
                        e,
                    )
                    &&& out.trigger_presence == (old(self)@.neighbors.len() == 0
                        && final(self)@.neighbors.len() > 0)
                },
                Err(_) => {
                    &&& out.event is None
                    &&& !out.trigger_presence
                    &&& final(self)@ == old(self)@
                },
            },
            strictly_sorted(final(self)@.neighbors),
            final(self)@ == (ChannelView { neighbors: final(self)@.neighbors, ..old(self)@ }),
    {
        let was_joined = self.is_joined();
        proof {
            use_type_invariant(&self.neighbors);
        }
        match Event::try_from(raw) {
            Ok(event) => {
                self.observe(&event);
                let is_joined = self.is_joined();
                Delivery { event: Some(event), trigger_presence: !was_joined && is_joined }
            },
            Err(_) => Delivery { event: None, trigger_presence: false },
        }
    }

    /// The ticket of the channel under `opts`: its topic, and as bootstrap
    /// nodes those that the options ask for.
    pub fn chat_ticket(&self, opts: TicketOpts) -> (ticket: ChatTicket)
        ensures
            ticket@.topic_id == self@.topic_id,
            ticket_wf(ticket@),
            ticket@.bootstrap.to_set() == ticket_members(
                self@.me,
                self@.bootstrap.to_set(),
                self@.neighbors.to_set(),
                opts,
            ),
    {
        let mut ticket = ChatTicket::new(self.topic_id);
        if opts.include_myself {
            ticket.bootstrap.insert(self.me);
        }
        if opts.include_bootstrap {
            ticket.bootstrap.union_with(&self.bootstrap);
        }
        if opts.include_neighbors {
            ticket.bootstrap.union_with(&self.neighbors);
        }
        let size: usize = ticket.bootstrap.len();
        proof {
            assert(ticket@.bootstrap.to_set() =~= ticket_members(
                self@.me,
                self@.bootstrap.to_set(),
                self@.neighbors.to_set(),
                opts,
            ));
        }
        ticket
    }

    /// The text of the channel's ticket under `opts`. Whoever reads it gets
    /// a ticket for this topic that names exactly the nodes that the
    /// options ask for.
    pub fn ticket(&self, opts: TicketOpts) -> (text: String)
        ensures
            ticket_parse(text@) matches Ok(t) && t.topic_id == self@.topic_id && ticket_wf(t)
                && t.bootstrap.to_set() == ticket_members(
                self@.me,
                self@.bootstrap.to_set(),
                self@.neighbors.to_set(),
                opts,
            ) && text@ == ticket_text(t),
    {
        self.chat_ticket(opts).serialize()
    }

    /// The topic of the channel as text.
    pub fn id(&self) -> (text: String)
        ensures
            text@ == hex_lower(self@.topic_id),
    {
        self.topic_id.to_hex()
    }

    /// Whether `id` is a neighbor right now.
    pub fn is_neighbor(&self, id: &NodeId) -> (found: bool)
        ensures
            found == self@.neighbors.to_set().contains(id@),
    {
        self.neighbors.contains(id)
    }

    /// Whether the channel has any neighbor right now.
    pub fn is_joined(&self) -> (joined: bool)
        ensures
            joined == (self@.neighbors.len() > 0),
    {
        self.neighbors.len() > 0
    }

    /// The neighbors as text, in ascending order of their keys.
    pub fn neighbors(&self) -> (names: Vec<String>)
        ensures
            names@.len() == self@.neighbors.len(),
            forall|i: int|
                0 <= i < names@.len() ==> (#[trigger] names@[i])@ == hex_lower(
                    self@.neighbors[i],
                ),
    {
        let ids = self.neighbors.to_vec();
        let ghost keys = self.neighbors.seq();
        let mut names: Vec<String> = Vec::new();
        let mut i: usize = 0;
        while i < ids.len()
            invariant
                i <= ids.len(),
                keys == keys_of(ids@),
                names@.len() == i,
                forall|j: int| 0 <= j < i ==> (#[trigger] names@[j])@ == hex_lower(keys[j]),
            decreases ids.len() - i,
        {
            names.push(ids[i].to_hex());
            i += 1;
        }
        names
    }
}

} // verus!
