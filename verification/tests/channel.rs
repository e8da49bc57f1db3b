use gossip_chat::chat::channel::{Channel, TicketOpts};
use gossip_chat::chat::event::{receive, terminal_event, Event, TransportEvent};
use gossip_chat::chat::message::{Message, MessageError, SignedMessage};
use gossip_chat::chat::presence::{PresenceAction, PresenceEngine, PresenceEvent, PresenceState};
use gossip_chat::chat::sender::ChatSender;
use gossip_chat::gossip::ticket::ChatTicket;
use gossip_chat::identity::{NodeId, SecretKey, TopicId};

fn secret(seed: u8) -> SecretKey {
    SecretKey::from_bytes(&[seed; 32])
}

fn node(seed: u8) -> NodeId {
    secret(seed).public()
}

fn channel(me: u8, bootstrap: &[u8]) -> Channel {
    let mut ticket = ChatTicket::new(TopicId::from_bytes([0x11; 32]));
    for seed in bootstrap {
        ticket.bootstrap.insert(node(*seed));
    }
    Channel::generate_channel(ticket, node(me))
}

fn members(text: &str) -> Vec<NodeId> {
    ChatTicket::deserialize(text).unwrap().bootstrap.to_vec()
}

fn sorted(seeds: &[u8]) -> Vec<NodeId> {
    let mut ids: Vec<NodeId> = seeds.iter().map(|s| node(*s)).collect();
    ids.sort();
    ids.dedup();
    ids
}

fn opts(myself: bool, bootstrap: bool, neighbors: bool) -> TicketOpts {
    TicketOpts { include_myself: myself, include_bootstrap: bootstrap, include_neighbors: neighbors }
}

#[test]
fn channel_id_is_the_topic_in_hex() {
    assert_eq!(channel(1, &[]).id(), "11".repeat(32));
    assert_eq!(
        channel(1, &[]).id(),
        iroh_gossip::proto::TopicId::from_bytes([0x11; 32]).to_string()
    );
}

#[test]
fn ticket_options_choose_the_members() {
    let mut c = channel(1, &[2, 3]);
    c.observe(&Event::NeighborUp { node_id: node(4) });
    c.observe(&Event::NeighborUp { node_id: node(3) });
    assert_eq!(members(&c.ticket(opts(false, false, false))), vec![]);
    assert_eq!(members(&c.ticket(opts(true, false, false))), sorted(&[1]));
    // the node itself is one of its bootstrap nodes
    assert_eq!(members(&c.ticket(opts(false, true, false))), sorted(&[1, 2, 3]));
    assert_eq!(members(&c.ticket(opts(false, false, true))), sorted(&[3, 4]));
    assert_eq!(members(&c.ticket(TicketOpts::all())), sorted(&[1, 2, 3, 4]));
    let ticket = ChatTicket::deserialize(&c.ticket(TicketOpts::all())).unwrap();
    assert_eq!(ticket.topic_id, TopicId::from_bytes([0x11; 32]));
    assert_eq!(ticket, c.chat_ticket(TicketOpts::all()));
}

#[test]
fn neighbors_follow_the_membership_events() {
    let mut c = channel(1, &[]);
    assert!(!c.is_joined());
    c.observe(&Event::Joined { neighbors: vec![node(2), node(3)] });
    assert!(c.is_joined());
    assert!(c.is_neighbor(&node(2)) && c.is_neighbor(&node(3)));
    c.observe(&Event::NeighborDown { node_id: node(2) });
    c.observe(&Event::NeighborDown { node_id: node(9) });
    c.observe(&Event::NeighborUp { node_id: node(4) });
    c.observe(&Event::Lagged);
    c.observe(&Event::Presence { from: node(7), nickname: "x".into(), sent_timestamp: 1 });
    assert!(!c.is_neighbor(&node(2)) && !c.is_neighbor(&node(7)));
    let expected: Vec<String> = sorted(&[3, 4]).iter().map(|id| id.to_hex()).collect();
    assert_eq!(c.neighbors(), expected);
    c.observe(&Event::NeighborDown { node_id: node(3) });
    c.observe(&Event::NeighborDown { node_id: node(4) });
    assert!(!c.is_joined());
    assert!(c.neighbors().is_empty());
}

#[test]
fn transport_events_map_to_room_events() {
    assert_eq!(
        Event::try_from(TransportEvent::Joined(vec![node(1)])),
        Ok(Event::Joined { neighbors: vec![node(1)] })
    );
    assert_eq!(
        Event::try_from(TransportEvent::NeighborUp(node(1))),
        Ok(Event::NeighborUp { node_id: node(1) })
    );
    assert_eq!(
        Event::try_from(TransportEvent::NeighborDown(node(1))),
        Ok(Event::NeighborDown { node_id: node(1) })
    );
    assert_eq!(Event::try_from(TransportEvent::Lagged), Ok(Event::Lagged));
    let chat = Message::Message { text: "hi".into(), nickname: "bob".into() };
    let bytes = SignedMessage::sign_and_encode_at(&secret(2), chat, 55);
    assert_eq!(
        Event::try_from(TransportEvent::Received(bytes)),
        Ok(Event::MessageReceived {
            from: node(2),
            text: "hi".into(),
            nickname: "bob".into(),
            sent_timestamp: 55,
        })
    );
    let presence = Message::Presence { nickname: "bob".into() };
    let bytes = SignedMessage::sign_and_encode_at(&secret(2), presence, 56);
    assert_eq!(
        Event::try_from(TransportEvent::Received(bytes)),
        Ok(Event::Presence { from: node(2), nickname: "bob".into(), sent_timestamp: 56 })
    );
    assert_eq!(
        Event::try_from(TransportEvent::Received(vec![1, 2, 3])),
        Err(MessageError::MalformedEnvelope)
    );
}

#[test]
fn receive_skips_what_is_no_event_and_triggers_on_join() {
    let delivery = receive(false, true, TransportEvent::NeighborUp(node(1)));
    assert_eq!(delivery.event, Some(Event::NeighborUp { node_id: node(1) }));
    assert!(delivery.trigger_presence);
    assert!(!receive(true, true, TransportEvent::NeighborUp(node(1))).trigger_presence);
    assert!(!receive(false, false, TransportEvent::Lagged).trigger_presence);
    assert!(!receive(true, false, TransportEvent::NeighborDown(node(1))).trigger_presence);
    let skipped = receive(false, true, TransportEvent::Received(vec![0; 10]));
    assert_eq!(skipped.event, None);
    assert!(!skipped.trigger_presence);
}

#[test]
fn handle_triggers_presence_once_when_the_swarm_is_joined() {
    let mut c = channel(1, &[]);
    let garbage = c.handle(TransportEvent::Received(vec![9; 40]));
    assert_eq!(garbage.event, None);
    assert!(!garbage.trigger_presence);
    assert!(!c.handle(TransportEvent::Lagged).trigger_presence);
    let joined = c.handle(TransportEvent::Joined(vec![node(2)]));
    assert_eq!(joined.event, Some(Event::Joined { neighbors: vec![node(2)] }));
    assert!(joined.trigger_presence);
    assert!(!c.handle(TransportEvent::NeighborUp(node(3))).trigger_presence);
    assert!(!c.handle(TransportEvent::NeighborDown(node(2))).trigger_presence);
    assert!(!c.handle(TransportEvent::NeighborDown(node(3))).trigger_presence);
    // joined again after all neighbors went away
    assert!(c.handle(TransportEvent::NeighborUp(node(3))).trigger_presence);
    // an empty join does not join
    let mut d = channel(1, &[]);
    assert!(!d.handle(TransportEvent::Joined(vec![])).trigger_presence);
    assert!(!d.is_joined());
}

#[test]
fn sender_signs_with_the_current_nickname() {
    let mut sender = ChatSender::new("bob".to_string(), secret(2));
    let bytes = sender.send("hi".to_string()).unwrap();
    let received = SignedMessage::verify_and_decode(&bytes).unwrap();
    assert_eq!(received.from, node(2));
    assert_eq!(received.message, Message::Message { text: "hi".into(), nickname: "bob".into() });
    sender.set_nickname("robert".to_string());
    let received = SignedMessage::verify_and_decode(&sender.presence().unwrap()).unwrap();
    assert_eq!(received.message, Message::Presence { nickname: "robert".into() });
    let received = SignedMessage::verify_and_decode(&sender.send("yo".into()).unwrap()).unwrap();
    assert_eq!(received.message, Message::Message { text: "yo".into(), nickname: "robert".into() });
}

#[test]
fn presence_engine_alternates_broadcast_and_wait() {
    let mut engine = PresenceEngine::new();
    assert_eq!(engine.state, PresenceState::Broadcasting);
    assert_eq!(engine.step(PresenceEvent::Triggered), PresenceAction::Continue);
    assert_eq!(engine.step(PresenceEvent::IntervalElapsed), PresenceAction::Continue);
    assert_eq!(engine.step(PresenceEvent::Sent), PresenceAction::Wait { seconds: 5 });
    assert_eq!(engine.state, PresenceState::Waiting);
    assert_eq!(engine.step(PresenceEvent::Sent), PresenceAction::Continue);
    assert_eq!(engine.step(PresenceEvent::IntervalElapsed), PresenceAction::Broadcast);
    assert_eq!(engine.step(PresenceEvent::Sent), PresenceAction::Wait { seconds: 5 });
    assert_eq!(engine.step(PresenceEvent::Triggered), PresenceAction::Broadcast);
    assert_eq!(engine.state, PresenceState::Broadcasting);
}

#[test]
fn presence_engine_stops_when_a_broadcast_fails() {
    let mut engine = PresenceEngine::new();
    assert_eq!(engine.step(PresenceEvent::SendFailed), PresenceAction::Exit);
    assert_eq!(engine.state, PresenceState::Stopped);
    for event in [
        PresenceEvent::Sent,
        PresenceEvent::SendFailed,
        PresenceEvent::IntervalElapsed,
        PresenceEvent::Triggered,
    ] {
        assert_eq!(engine.step(event), PresenceAction::Exit);
        assert_eq!(engine.state, PresenceState::Stopped);
    }
    // a failure report while waiting is not a failed broadcast
    let mut waiting = PresenceEngine { state: PresenceState::Waiting };
    assert_eq!(waiting.step(PresenceEvent::SendFailed), PresenceAction::Continue);
}

#[test]
fn a_failed_or_closed_transport_ends_with_an_event() {
    assert_eq!(terminal_event(None), Event::Disconnected);
    assert_eq!(
        terminal_event(Some("connection reset".to_string())),
        Event::Errorred { message: "connection reset".to_string() }
    );
}
