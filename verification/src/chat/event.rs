//! The events of a room, as the application sees them, and how they are
//! derived from what the gossip transport reports.

use crate::chat::message::{
    verify_and_decode_spec, Message, MessageError, MessageView, SignedMessage,
};
use crate::identity::NodeId;
use crate::node_set::keys_of;
use vstd::prelude::*;

verus! {

/// What the gossip transport reports for a topic.
#[derive(Clone, Debug, PartialEq, Eq)]
pub enum TransportEvent {
    /// The topic was joined; these are the first neighbors.
    Joined(Vec<NodeId>),
    /// A node became a direct neighbor.
    NeighborUp(NodeId),
    /// A direct neighbor went away.
    NeighborDown(NodeId),
    /// Bytes that some node broadcast to the topic.
    Received(Vec<u8>),
    /// The consumer was too slow and notifications were dropped.
    Lagged,
}

/// The mathematical content of a `TransportEvent`.
pub enum TransportEventView {
    Joined(Seq<Seq<u8>>),
    NeighborUp(Seq<u8>),
    NeighborDown(Seq<u8>),
    Received(Seq<u8>),
    Lagged,
}

impl View for TransportEvent {
    type V = TransportEventView;

    open spec fn view(&self) -> TransportEventView {
        match self {
            TransportEvent::Joined(neighbors) => TransportEventView::Joined(keys_of(neighbors@)),
            TransportEvent::NeighborUp(id) => TransportEventView::NeighborUp(id@),
            TransportEvent::NeighborDown(id) => TransportEventView::NeighborDown(id@),
            TransportEvent::Received(bytes) => TransportEventView::Received(bytes@),
            TransportEvent::Lagged => TransportEventView::Lagged,
        }
    }
}

/// What happens in a room.
#[derive(Clone, Debug, PartialEq, Eq)]
pub enum Event {
    /// The room was joined; these are the first neighbors.
    Joined { neighbors: Vec<NodeId> },
    /// A verified chat message.
    MessageReceived { from: NodeId, text: String, nickname: String, sent_timestamp: u64 },
    /// A verified sign of life, with the nickname the sender goes by.
    Presence { from: NodeId, nickname: String, sent_timestamp: u64 },
    /// A node became a direct neighbor.
    NeighborUp { node_id: NodeId },
    /// A direct neighbor went away.
    NeighborDown { node_id: NodeId },
    /// Notifications were dropped because the consumer was too slow.
    Lagged,
    /// The transport reported an error.
    Errorred { message: String },
    /// The transport closed.
    Disconnected,
}

/// The mathematical content of an `Event`.
pub enum EventView {
    Joined { neighbors: Seq<Seq<u8>> },
    MessageReceived { from: Seq<u8>, text: Seq<char>, nickname: Seq<char>, sent_timestamp: u64 },
    Presence { from: Seq<u8>, nickname: Seq<char>, sent_timestamp: u64 },
    NeighborUp { node_id: Seq<u8> },
    NeighborDown { node_id: Seq<u8> },
    Lagged,
    Errorred { message: Seq<char> },
    Disconnected,
}

impl View for Event {
    type V = EventView;

    open spec fn view(&self) -> EventView {
        match self {
            Event::Joined { neighbors } => EventView::Joined { neighbors: keys_of(neighbors@) },
            Event::MessageReceived { from, text, nickname, sent_timestamp } => {
                EventView::MessageReceived {
                    from: from@,
                    text: text@,
                    nickname: nickname@,
                    sent_timestamp: *sent_timestamp,
                }
            },
            Event::Presence { from, nickname, sent_timestamp } => EventView::Presence {
                from: from@,
                nickname: nickname@,
                sent_timestamp: *sent_timestamp,
            },
            Event::NeighborUp { node_id } => EventView::NeighborUp { node_id: node_id@ },
            Event::NeighborDown { node_id } => EventView::NeighborDown { node_id: node_id@ },
            Event::Lagged => EventView::Lagged,
            Event::Errorred { message } => EventView::Errorred { message: message@ },
            Event::Disconnected => EventView::Disconnected,
        }
    }
}

/// The event that a transport notification stands for. Membership changes
/// map one to one. Received bytes are checked as a signed envelope: a chat
/// message or a presence message becomes an event that carries the verified
/// author and the timestamp that the author signed; anything else is an
/// error, and the notification is to be skipped.
pub open spec fn event_of(raw: TransportEventView) -> Result<EventView, MessageError> {
    match raw {
        TransportEventView::Joined(neighbors) => Ok(EventView::Joined { neighbors }),
        TransportEventView::NeighborUp(node_id) => Ok(EventView::NeighborUp { node_id }),
        TransportEventView::NeighborDown(node_id) => Ok(EventView::NeighborDown { node_id }),
        TransportEventView::Received(bytes) => match verify_and_decode_spec(bytes) {
            Ok(received) => match received.message {
                MessageView::Presence { nickname } => Ok(
                    EventView::Presence {
                        from: received.from,
                        nickname,
                        sent_timestamp: received.timestamp,
                    },
                ),
                MessageView::Message { text, nickname } => Ok(
                    EventView::MessageReceived {
                        from: received.from,
                        text,
                        nickname,
                        sent_timestamp: received.timestamp,
                    },
                ),
            },
            Err(e) => Err(e),
        },
        TransportEventView::Lagged => Ok(EventView::Lagged),
    }
}

impl Event {
    /// Turns a transport notification into an event of the room, or says why
    /// the notification has to be skipped.
    pub fn try_from(event: TransportEvent) -> (r: Result<Event, MessageError>)
        ensures
            match event_of(event@) {
                Ok(e) => r matches Ok(converted) && converted@ == e,
                Err(e) => r matches Err(x) && x == e,
            },
    {
        match event {
            TransportEvent::Joined(neighbors) => Ok(Event::Joined { neighbors }),
            TransportEvent::NeighborUp(node_id) => Ok(Event::NeighborUp { node_id }),
            TransportEvent::NeighborDown(node_id) => Ok(Event::NeighborDown { node_id }),
            TransportEvent::Received(bytes) => {
                let message = match SignedMessage::verify_and_decode(bytes.as_slice()) {
                    Ok(m) => m,
                    Err(e) => return Err(e),
                };
                match message.message {
                    Message::Presence { nickname } => Ok(
                        Event::Presence {
                            from: message.from,
                            nickname,
                            sent_timestamp: message.timestamp,
                        },
                    ),
                    Message::Message { text, nickname } => Ok(
                        Event::MessageReceived {
                            from: message.from,
                            text,
                            nickname,
                            sent_timestamp: message.timestamp,
                        },
                    ),
                }
            },
            TransportEvent::Lagged => Ok(Event::Lagged),
        }
    }
}

/// The event that ends the stream of a room: `Errorred` with the message of
/// the failure when the transport failed, `Disconnected` when it closed.
pub fn terminal_event(failure: Option<String>) -> (event: Event)
    ensures
        event@ == (match failure {
            Some(message) => EventView::Errorred { message: message@ },
            None => EventView::Disconnected,
        }),
{
    match failure {
        Some(message) => Event::Errorred { message },
        None => Event::Disconnected,
    }
}

/// What the pipeline hands on for one transport notification.
#[derive(Clone, Debug, PartialEq, Eq)]
pub struct Delivery {
    /// The event to hand to the application, or `None` when the
    /// notification was skipped.
    pub event: Option<Event>,
    /// Whether a presence message is to be broadcast at once, because the
    /// swarm was joined with this notification.
    pub trigger_presence: bool,
}

/// Handles one transport notification. `was_joined` says whether the swarm
/// was joined before the notification came in, `is_joined` whether it is
/// joined now.
///
/// A notification that cannot be turned into an event is skipped and
/// triggers nothing. Otherwise the event is delivered, and presence is
/// triggered exactly when the swarm was joined with this notification.
pub fn receive(was_joined: bool, is_joined: bool, raw: TransportEvent) -> (out: Delivery)
    ensures
        match event_of(raw@) {
            Ok(e) => out.event matches Some(event) && event@ == e && out.trigger_presence == (
            !was_joined && is_joined),
            Err(_) => out.event is None && !out.trigger_presence,
        },
{
    match Event::try_from(raw) {
        Ok(event) => Delivery { event: Some(event), trigger_presence: !was_joined && is_joined },
        Err(_) => Delivery { event: None, trigger_presence: false },
    }
}

} // verus!
