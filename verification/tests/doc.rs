use gossip_chat::gossip::doc::accessors::{default_nickname, entry_message, get_nickname};
use gossip_chat::gossip::doc::chat::{
    get_messages, insert_message, send_message, sort_messages, ChatLogError, ChatMessage,
};
use gossip_chat::gossip::doc::peers::{
    get_all_peer_info, get_peer_info, set_nickname, set_status, PeerInfo, PeerRecordError,
    PeerStatus,
};
use gossip_chat::gossip::doc::{
    key_timestamp, message_key, parse_message_key, peer_nickname_key, starts_with,
    GAME_STATE_KEY, MESSAGES_PREFIX, NICKNAME_KEY_SUFFIX, PEERS_PREFIX,
};
use gossip_chat::identity::{NodeId, SecretKey};

fn node(seed: u8) -> NodeId {
    SecretKey::from_bytes(&[seed; 32]).public()
}

fn outside(seed: u8) -> iroh_base::PublicKey {
    iroh_base::SecretKey::from_bytes(&[seed; 32]).public()
}

fn message(seed: u8, nickname: &str, content: &str, timestamp: u64) -> ChatMessage {
    ChatMessage {
        sender_node_id: node(seed),
        nickname: nickname.to_string(),
        content: content.to_string(),
        timestamp,
    }
}

#[test]
fn key_constants_spell_their_names() {
    assert_eq!(&PEERS_PREFIX, b"peers/");
    assert_eq!(&NICKNAME_KEY_SUFFIX, b"/nickname");
    assert_eq!(&MESSAGES_PREFIX, b"messages/");
    assert_eq!(&GAME_STATE_KEY, b"game_state");
}

#[test]
fn peer_key_is_prefix_id_suffix() {
    let id = [0xabu8; 32];
    let expected = [&b"peers/"[..], &id[..], &b"/nickname"[..]].concat();
    assert_eq!(peer_nickname_key(&id), expected);
}

#[test]
fn message_key_is_prefix_timestamp_separator_author() {
    let mut author = [0u8; 32];
    for (i, byte) in author.iter_mut().enumerate() {
        *byte = i as u8 + 1;
    }
    let key = message_key(0x0102_0304_0506_0708, &author);
    let mut expected = b"messages/".to_vec();
    expected.extend_from_slice(&[1, 2, 3, 4, 5, 6, 7, 8]);
    expected.push(b'_');
    expected.extend_from_slice(&[1, 2, 3, 4, 5, 6, 7, 8]);
    assert_eq!(key, expected);
    assert_eq!(key.len(), 26);
}

#[test]
fn message_keys_sort_by_timestamp_whoever_the_author() {
    let stamps = [0u64, 1, 255, 256, 65_535, 65_536, 1 << 32, u64::MAX - 1, u64::MAX];
    let authors = [[0u8; 32], [0x7f; 32], [0xff; 32]];
    for (i, t1) in stamps.iter().enumerate() {
        for t2 in &stamps[i + 1..] {
            for a1 in &authors {
                for a2 in &authors {
                    assert!(message_key(*t1, a1) < message_key(*t2, a2));
                }
            }
        }
    }
    // one timestamp: the author decides
    assert!(message_key(5, &authors[0]) < message_key(5, &authors[1]));
}

#[test]
fn message_key_parses_back() {
    let author = [9u8; 32];
    for timestamp in [0u64, 1, 1_700_000_000_000_000, u64::MAX] {
        let key = message_key(timestamp, &author);
        assert_eq!(parse_message_key(&key), Some((timestamp, vec![9u8; 8])));
        assert_eq!(key_timestamp(&key), Some(timestamp));
        assert_eq!(key_timestamp(&key[..16]), None);
    }
}

#[test]
fn keys_that_are_no_message_keys_do_not_parse() {
    assert_eq!(parse_message_key(b""), None);
    assert_eq!(parse_message_key(b"messages/"), None);
    // timestamp and separator, but nothing after it
    assert_eq!(parse_message_key(b"messages/12345678_"), None);
    assert_eq!(parse_message_key(b"messages/12345678_a"), Some((0x3132333435363738, vec![b'a'])));
    assert_eq!(parse_message_key(b"massages/12345678_abcdefgh"), None);
    assert_eq!(parse_message_key(&peer_nickname_key(&[1; 32])), None);
}

#[test]
fn starts_with_is_prefix_test() {
    assert!(starts_with(b"peers/x", b"peers/"));
    assert!(starts_with(b"peers/", b"peers/"));
    assert!(starts_with(b"abc", b""));
    assert!(!starts_with(b"peer", b"peers/"));
    assert!(!starts_with(b"peerz/x", b"peers/"));
}

#[test]
fn stored_message_is_what_postcard_writes() {
    let m = message(3, "bob", "hi there", 1_700_000_000_000_000);
    let expected =
        postcard::to_stdvec(&(outside(3), "bob", "hi there", 1_700_000_000_000_000u64)).unwrap();
    assert_eq!(m.encode(), expected);
    assert_eq!(ChatMessage::decode(&expected), Some(m));
}

#[test]
fn stored_message_round_trips() {
    for m in [message(1, "", "", 0), message(2, "ü", "a\nb", u64::MAX)] {
        assert_eq!(ChatMessage::decode(&m.encode()), Some(m.duplicate()));
    }
    let bytes = message(1, "al", "x", 5).encode();
    assert_eq!(ChatMessage::decode(&bytes[..bytes.len() - 1]), None);
    assert_eq!(ChatMessage::decode(&[]), None);
}

#[test]
fn send_message_makes_key_and_value() {
    let author = [4u8; 32];
    let entry = send_message(node(1), &author, "al", "hello", 77);
    assert_eq!(entry.key, message_key(77, &author));
    assert_eq!(ChatMessage::decode(&entry.value), Some(message(1, "al", "hello", 77)));
}

#[test]
fn log_is_sorted_by_timestamp_and_stable() {
    let contents = vec![
        message(1, "a", "third", 30).encode(),
        message(2, "b", "first", 10).encode(),
        message(3, "c", "second", 20).encode(),
        message(4, "d", "also third", 30).encode(),
        message(5, "e", "also first", 10).encode(),
    ];
    let log = get_messages(&contents).unwrap();
    let texts: Vec<&str> = log.iter().map(|m| m.content.as_str()).collect();
    assert_eq!(texts, vec!["first", "also first", "second", "third", "also third"]);
    let mut expected: Vec<ChatMessage> =
        contents.iter().map(|c| postcard_message(c)).collect();
    expected.sort_by_key(|m| m.timestamp);
    assert_eq!(log, expected);
    assert_eq!(get_messages(&vec![]), Ok(vec![]));
}

fn postcard_message(bytes: &[u8]) -> ChatMessage {
    let (sender, nickname, content, timestamp): (iroh_base::PublicKey, String, String, u64) =
        postcard::from_bytes(bytes).unwrap();
    ChatMessage {
        sender_node_id: NodeId::from_bytes(sender.as_bytes()).unwrap(),
        nickname,
        content,
        timestamp,
    }
}

#[test]
fn log_with_a_malformed_entry_fails() {
    let contents = vec![message(1, "a", "x", 1).encode(), vec![1, 2, 3]];
    assert_eq!(get_messages(&contents), Err(ChatLogError::MalformedMessage));
}

#[test]
fn new_message_goes_after_prior_entries() {
    let mut log = sort_messages(vec![message(1, "a", "one", 10), message(2, "b", "two", 20)]);
    insert_message(&mut log, message(3, "bob", "hi", 20));
    insert_message(&mut log, message(3, "bob", "early", 5));
    let texts: Vec<&str> = log.iter().map(|m| m.content.as_str()).collect();
    assert_eq!(texts, vec!["early", "one", "two", "hi"]);
}

#[test]
fn peer_record_is_what_postcard_writes() {
    let cases = [
        (PeerStatus::Online, 0u32, true),
        (PeerStatus::Offline, 1u32, false),
        (PeerStatus::Unknown, 2u32, true),
    ];
    for (status, tag, ready) in cases {
        let peer = PeerInfo { id: node(6), nickname: "zed".to_string(), status, ready };
        let expected = postcard::to_stdvec(&(outside(6), "zed", tag, ready)).unwrap();
        assert_eq!(peer.encode(), expected);
        assert_eq!(PeerInfo::decode(&expected), Some(peer));
    }
}

#[test]
fn malformed_peer_records_are_rejected() {
    let peer = PeerInfo {
        id: node(6),
        nickname: "zed".to_string(),
        status: PeerStatus::Online,
        ready: true,
    };
    let bytes = peer.encode();
    assert_eq!(PeerInfo::decode(&bytes[..bytes.len() - 1]), None);
    let mut bad_flag = bytes.clone();
    *bad_flag.last_mut().unwrap() = 2;
    assert_eq!(PeerInfo::decode(&bad_flag), None);
    let mut bad_status = bytes.clone();
    let at = bad_status.len() - 2;
    bad_status[at] = 3;
    assert_eq!(PeerInfo::decode(&bad_status), None);
    assert_eq!(PeerStatus::from_tag(3), None);
    assert_eq!(PeerStatus::from_tag(1), Some(PeerStatus::Offline));
    assert_eq!(PeerStatus::Unknown.tag(), 2);
}

#[test]
fn set_nickname_keeps_or_creates_the_record() {
    let created = set_nickname(None, node(1), "al");
    assert_eq!(
        created,
        PeerInfo { id: node(1), nickname: "al".into(), status: PeerStatus::Online, ready: false }
    );
    let existing =
        PeerInfo { id: node(1), nickname: "al".into(), status: PeerStatus::Offline, ready: true };
    let renamed = set_nickname(Some(existing), node(1), "alfred");
    assert_eq!(
        renamed,
        PeerInfo {
            id: node(1),
            nickname: "alfred".into(),
            status: PeerStatus::Offline,
            ready: true,
        }
    );
}

#[test]
fn set_status_needs_a_record() {
    assert_eq!(set_status(None, PeerStatus::Offline), Err(PeerRecordError::PeerNotFound));
    let existing =
        PeerInfo { id: node(1), nickname: "al".into(), status: PeerStatus::Online, ready: true };
    let changed = set_status(Some(existing.clone()), PeerStatus::Offline).unwrap();
    assert_eq!(changed, PeerInfo { status: PeerStatus::Offline, ..existing });
}

#[test]
fn peer_records_are_read_from_contents() {
    let a = PeerInfo { id: node(1), nickname: "a".into(), status: PeerStatus::Online, ready: false };
    let b = PeerInfo { id: node(2), nickname: "b".into(), status: PeerStatus::Unknown, ready: true };
    assert_eq!(get_peer_info(None), Ok(None));
    assert_eq!(get_peer_info(Some(&a.encode())), Ok(Some(a.clone())));
    assert_eq!(get_peer_info(Some(&[1, 2])), Err(PeerRecordError::MalformedRecord));
    assert_eq!(get_all_peer_info(&vec![a.encode(), b.encode()]), Ok(vec![a.clone(), b]));
    assert_eq!(
        get_all_peer_info(&vec![a.encode(), vec![0; 3]]),
        Err(PeerRecordError::MalformedRecord)
    );
    assert_eq!(get_all_peer_info(&vec![]), Ok(vec![]));
}

#[test]
fn default_nickname_is_peer_and_six_digits() {
    let id = node(1);
    let name = default_nickname(&id);
    assert_eq!(name, format!("peer:{}", &id.to_hex()[..6]));
    assert_eq!(name.len(), 11);
}

#[test]
fn plain_nickname_is_read_from_content() {
    assert_eq!(get_nickname(None), Ok(None));
    assert_eq!(get_nickname(Some(b"al".to_vec())), Ok(Some("al".to_string())));
    assert_eq!(get_nickname(Some(vec![0xff])), Err(ChatLogError::MalformedMessage));
}

#[test]
fn entry_message_is_made_from_key_author_and_content() {
    let author = *node(2).as_bytes();
    let key = message_key(1234, &author);
    assert_eq!(
        entry_message(&key, &author, Some("bo".to_string()), "text".to_string()),
        Ok(Some(message(2, "bo", "text", 1234)))
    );
    let anonymous = entry_message(&key, &author, None, "text".to_string()).unwrap().unwrap();
    assert_eq!(anonymous.nickname, default_nickname(&node(2)));
    // a key that is too short is skipped
    assert_eq!(entry_message(b"messages/12345678_", &author, None, "x".to_string()), Ok(None));
    // an author that is no public key fails the read
    let mut invalid = [0u8; 32];
    let mut found = false;
    for candidate in 0..=255u8 {
        invalid = [candidate; 32];
        invalid[31] = 0x7f;
        if iroh_base::PublicKey::from_bytes(&invalid).is_err() {
            found = true;
            break;
        }
    }
    assert!(found);
    assert_eq!(
        entry_message(&key, &invalid, None, "x".to_string()),
        Err(ChatLogError::InvalidAuthor)
    );
}
