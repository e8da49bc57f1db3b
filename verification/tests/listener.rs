use gossip_chat::gossip::doc::chat::ChatMessage;
use gossip_chat::gossip::doc::peers::{PeerInfo, PeerStatus};
use gossip_chat::gossip::doc::{message_key, peer_nickname_key};
use gossip_chat::gossip::event::{
    entry_kind, process_entry_for_updates, ContentHash, ContentStatus, EntryKind, EntryRef, Event,
    Listener, ListenerStep, LiveEvent,
};
use gossip_chat::gossip::peers::PeerMap;
use gossip_chat::identity::{NodeId, SecretKey};

fn node(seed: u8) -> NodeId {
    SecretKey::from_bytes(&[seed; 32]).public()
}

fn hash(seed: u8) -> ContentHash {
    ContentHash { bytes: [seed; 32] }
}

fn remote(key: &[u8], seed: u8, content_status: ContentStatus) -> LiveEvent {
    LiveEvent::InsertRemote { key: key.to_vec(), hash: hash(seed), content_status }
}

fn nothing() -> ListenerStep {
    ListenerStep { emit: None, process: None }
}

#[test]
fn keys_are_classified_by_prefix() {
    assert_eq!(entry_kind(&peer_nickname_key(&[1; 32])), EntryKind::Peer);
    assert_eq!(entry_kind(&message_key(1, &[1; 32])), EntryKind::Message);
    assert_eq!(entry_kind(b"game_state"), EntryKind::Other);
    assert_eq!(entry_kind(b""), EntryKind::Other);
    assert_eq!(entry_kind(b"peers/"), EntryKind::Peer);
}

#[test]
fn entries_become_events() {
    let peer =
        PeerInfo { id: node(1), nickname: "al".into(), status: PeerStatus::Online, ready: false };
    let message = ChatMessage {
        sender_node_id: node(2),
        nickname: "bob".into(),
        content: "hi".into(),
        timestamp: 9,
    };
    let peer_key = peer_nickname_key(node(1).as_bytes());
    let message_key = message_key(9, &[3; 32]);
    assert_eq!(
        process_entry_for_updates(&peer_key, Some(&peer.encode())),
        Some(Event::PeerUpdate { info: peer.clone() })
    );
    assert_eq!(
        process_entry_for_updates(&message_key, Some(&message.encode())),
        Some(Event::NewMessage { message: message.clone() })
    );
    // content that could not be read, that is malformed, or that is under another key
    assert_eq!(process_entry_for_updates(&peer_key, None), None);
    assert_eq!(process_entry_for_updates(&message_key, None), None);
    assert_eq!(process_entry_for_updates(&peer_key, Some(&[1, 2, 3])), None);
    assert_eq!(process_entry_for_updates(&message_key, Some(&peer.encode()[..10])), None);
    assert_eq!(process_entry_for_updates(b"game_state", Some(&peer.encode())), None);
}

#[test]
fn local_and_complete_entries_are_processed_at_once() {
    let mut listener = Listener::new();
    let step = listener.on_event(&LiveEvent::InsertLocal { key: b"k".to_vec(), hash: hash(1) });
    assert_eq!(
        step,
        ListenerStep { emit: None, process: Some(EntryRef { key: b"k".to_vec(), hash: hash(1) }) }
    );
    let step = listener.on_event(&remote(b"r", 2, ContentStatus::Complete));
    assert_eq!(step.process, Some(EntryRef { key: b"r".to_vec(), hash: hash(2) }));
    assert_eq!(step.emit, None);
    assert_eq!(listener.pending_len(), 0);
}

#[test]
fn entries_without_content_wait_for_it() {
    let mut listener = Listener::new();
    assert_eq!(listener.on_event(&remote(b"a", 1, ContentStatus::Missing)), nothing());
    assert_eq!(listener.on_event(&remote(b"b", 2, ContentStatus::Incomplete)), nothing());
    assert_eq!(listener.pending_len(), 2);
    // content of an entry that nobody waits for
    let step = listener.on_event(&LiveEvent::ContentReady { hash: hash(9) });
    assert_eq!(step, ListenerStep { emit: Some(Event::ContentReady), process: None });
    assert_eq!(listener.pending_len(), 2);
    let step = listener.on_event(&LiveEvent::ContentReady { hash: hash(1) });
    assert_eq!(step.emit, Some(Event::ContentReady));
    assert_eq!(step.process, Some(EntryRef { key: b"a".to_vec(), hash: hash(1) }));
    assert_eq!(listener.pending_len(), 1);
    // it is processed once
    let again = listener.on_event(&LiveEvent::ContentReady { hash: hash(1) });
    assert_eq!(again.process, None);
    let step = listener.on_event(&LiveEvent::ContentReady { hash: hash(2) });
    assert_eq!(step.process, Some(EntryRef { key: b"b".to_vec(), hash: hash(2) }));
    assert_eq!(listener.pending_len(), 0);
}

#[test]
fn a_later_key_under_the_same_hash_replaces_the_earlier() {
    let mut listener = Listener::new();
    listener.on_event(&remote(b"first", 1, ContentStatus::Missing));
    listener.on_event(&remote(b"second", 1, ContentStatus::Missing));
    assert_eq!(listener.pending_len(), 1);
    let step = listener.on_event(&LiveEvent::ContentReady { hash: hash(1) });
    assert_eq!(step.process, Some(EntryRef { key: b"second".to_vec(), hash: hash(1) }));
}

#[test]
fn reports_without_entries_are_relayed() {
    let mut listener = Listener::new();
    let cases = [
        (LiveEvent::SyncFinished, Event::SyncFinished),
        (LiveEvent::PendingContentReady, Event::PendingContentReady),
        (LiveEvent::NeighborUp(node(1)), Event::NeighborUp { node_id: node(1) }),
        (LiveEvent::NeighborDown(node(1)), Event::NeighborDown { node_id: node(1) }),
    ];
    for (report, event) in cases {
        assert_eq!(listener.on_event(&report), ListenerStep { emit: Some(event), process: None });
    }
    assert_eq!(listener.pending_len(), 0);
}

#[test]
fn document_directory_follows_neighbor_reports() {
    const SECOND: u64 = 1_000_000;
    let mut map = PeerMap::new();
    let changed = map.update_at(Some(&LiveEvent::NeighborUp(node(1))), 100).unwrap();
    assert_eq!(changed.len(), 1);
    assert_eq!(changed[0].last_seen, 100);
    assert_eq!(changed[0].nickname, "identifying...");
    let changed = map.update_at(Some(&LiveEvent::NeighborDown(node(1))), 200).unwrap();
    assert_eq!(changed[0].status, gossip_chat::gossip::peers::PeerStatus::Offline);
    assert_eq!(changed[0].last_seen, 200);
    assert_eq!(map.update_at(Some(&LiveEvent::SyncFinished), 300), None);
    assert_eq!(map.update_at(None, 50 * SECOND), None);
    map.update_at(Some(&LiveEvent::NeighborUp(node(1))), 50 * SECOND);
    map.update_at(Some(&LiveEvent::NeighborUp(node(2))), 55 * SECOND);
    let changed = map.update_at(None, 61 * SECOND).unwrap();
    assert_eq!(changed[0].status, gossip_chat::gossip::peers::PeerStatus::Away);
    assert_eq!(changed[1].status, gossip_chat::gossip::peers::PeerStatus::Online);
    let before = gossip_chat::utils::get_timestamp();
    let changed = map.update(Some(&LiveEvent::NeighborUp(node(3)))).unwrap();
    assert!(changed[2].last_seen >= before);
    assert_eq!(map.get(&node(3)), Some(changed[2].clone()));
    assert_eq!(map.get(&node(9)), None);
    assert_eq!(map.to_vec(), changed);
}
