use gossip_chat::chat::channel::{Channel, TicketOpts};
use gossip_chat::chat::event::{Event, TransportEvent};
use gossip_chat::chat::peers::{PeerMap, PeerStatus};
use gossip_chat::chat::presence::{PresenceAction, PresenceEngine, PresenceEvent};
use gossip_chat::chat::sender::ChatSender;
use gossip_chat::gossip::doc::chat::{get_messages, send_message};
use gossip_chat::gossip::doc::message_key;
use gossip_chat::gossip::ticket::ChatTicket;
use gossip_chat::identity::SecretKey;
use gossip_chat::node_set::NodeSet;

/// Node A creates a room, node B joins with A's ticket, introduces itself
/// and says hi. The transport between them is played by the test.
#[test]
fn a_room_from_ticket_to_message_log() {
    let secret_a = SecretKey::from_bytes(&[0xa1; 32]);
    let secret_b = SecretKey::from_bytes(&[0xb2; 32]);
    let (a, b) = (secret_a.public(), secret_b.public());

    // A creates the room and hands out the ticket T.
    let mut channel_a = Channel::generate_channel(ChatTicket::new_random(), a);
    let ticket_text = channel_a.ticket(TicketOpts::all());

    // B joins with T: it learns the topic and that A is the node to contact.
    let ticket = ChatTicket::deserialize(&ticket_text).unwrap();
    assert_eq!(ticket.bootstrap.to_vec(), vec![a]);
    assert_eq!(ticket.topic_id.to_hex(), channel_a.id());
    let mut channel_b = Channel::generate_channel(ticket, b);
    let sender_b = ChatSender::new("bob".to_string(), secret_b);
    let mut presence_b = PresenceEngine::new();

    // The transport connects the two.
    let mut events_a = Vec::new();
    let mut peers_a = PeerMap::new();
    let mut starters_a = NodeSet::new();
    let joined_b = channel_b.handle(TransportEvent::Joined(vec![a]));
    assert!(joined_b.trigger_presence);
    let up = channel_a.handle(TransportEvent::NeighborUp(b));
    assert!(up.trigger_presence);
    events_a.push(up.event.unwrap());

    // B's heartbeat broadcasts its first presence message; A receives it.
    let heartbeat = sender_b.presence().unwrap();
    assert_eq!(presence_b.step(PresenceEvent::Sent), PresenceAction::Wait { seconds: 5 });
    let delivery = channel_a.handle(TransportEvent::Received(heartbeat));
    assert!(!delivery.trigger_presence);
    events_a.push(delivery.event.unwrap());

    assert_eq!(events_a[0], Event::NeighborUp { node_id: b });
    let sent = match &events_a[1] {
        Event::Presence { from, nickname, sent_timestamp } => {
            assert_eq!(*from, b);
            assert_eq!(nickname, "bob");
            *sent_timestamp
        }
        other => panic!("unexpected event {other:?}"),
    };
    for event in &events_a {
        peers_a.update_at(Some(event), &mut starters_a, sent);
    }
    let directory = peers_a.to_vec();
    assert_eq!(directory.len(), 1);
    assert_eq!(directory[0].id, b);
    assert_eq!(directory[0].nickname, "bob");
    assert_eq!(directory[0].status, PeerStatus::Online);

    // B says hi; A emits the message with its verified author.
    let delivery = channel_a.handle(TransportEvent::Received(sender_b.send("hi".into()).unwrap()));
    match delivery.event.unwrap() {
        Event::MessageReceived { from, text, nickname, .. } => {
            assert_eq!(from, b);
            assert_eq!(text, "hi");
            assert_eq!(nickname, "bob");
        }
        other => panic!("unexpected event {other:?}"),
    }

    // A's ticket now names B as well.
    let refreshed = ChatTicket::deserialize(&channel_a.ticket(TicketOpts::all())).unwrap();
    assert!(refreshed.bootstrap.contains(&a) && refreshed.bootstrap.contains(&b));

    // The durable log: two earlier entries of A, then B's message. The store
    // hands out the contents in the order of the keys.
    let author_a = [0x0a; 32];
    let author_b = [0x0b; 32];
    let mut store = vec![
        send_message(a, &author_a, "alice", "welcome", 1_000),
        send_message(b, &author_b, "bob", "hi", 3_000),
        send_message(a, &author_a, "alice", "anyone?", 2_000),
    ];
    store.sort_by(|x, y| x.key.cmp(&y.key));
    assert_eq!(store[2].key, message_key(3_000, &author_b));
    let contents: Vec<Vec<u8>> = store.into_iter().map(|entry| entry.value).collect();
    let log = get_messages(&contents).unwrap();
    assert_eq!(log.len(), 3);
    assert_eq!(log.iter().filter(|m| m.content == "hi").count(), 1);
    let last = log.last().unwrap();
    assert_eq!(last.content, "hi");
    assert_eq!(last.nickname, "bob");
    assert_eq!(last.sender_node_id, b);
    assert_eq!(last.timestamp, 3_000);
}
