use gossip_chat::chat::message::{
    Message, MessageError, ReceivedMessage, SignedMessage, WireMessage,
};
use gossip_chat::identity::{NodeId, SecretKey};

fn key(seed: u8) -> SecretKey {
    SecretKey::from_bytes(&[seed; 32])
}

fn outside_key(seed: u8) -> iroh_base::SecretKey {
    iroh_base::SecretKey::from_bytes(&[seed; 32])
}

/// An envelope around `payload`, made with the outside crates alone.
fn envelope(seed: u8, payload: &[u8]) -> Vec<u8> {
    let secret = outside_key(seed);
    let signature = secret.sign(payload);
    postcard::to_stdvec(&(secret.public(), payload.to_vec(), signature)).unwrap()
}

fn chat(text: &str, nickname: &str) -> Message {
    Message::Message { text: text.to_string(), nickname: nickname.to_string() }
}

#[test]
fn signed_message_round_trips() {
    let secret = key(7);
    let message = chat("hi", "bob");
    let bytes = SignedMessage::sign_and_encode_at(&secret, message.clone(), 1_700_000_000_000_000);
    let received = SignedMessage::verify_and_decode(&bytes).unwrap();
    assert_eq!(received.message, message);
    assert_eq!(received.from, secret.public());
    assert_eq!(received.timestamp, 1_700_000_000_000_000);
}

#[test]
fn presence_round_trips() {
    let secret = key(8);
    let message = Message::Presence { nickname: "zoë".to_string() };
    let bytes = SignedMessage::sign_and_encode_at(&secret, message.clone(), 0);
    assert_eq!(
        SignedMessage::verify_and_decode(&bytes),
        Ok(ReceivedMessage { timestamp: 0, from: secret.public(), message })
    );
}

#[test]
fn sign_and_encode_uses_the_clock_and_round_trips() {
    let secret = key(3);
    let before = gossip_chat::utils::get_timestamp();
    let first = SignedMessage::sign_and_encode(&secret, chat("a", "n")).unwrap();
    let second = SignedMessage::sign_and_encode(&secret, chat("b", "n")).unwrap();
    let first = SignedMessage::verify_and_decode(&first).unwrap();
    let second = SignedMessage::verify_and_decode(&second).unwrap();
    assert_eq!(first.message, chat("a", "n"));
    assert_eq!(second.message, chat("b", "n"));
    assert_eq!(first.from, secret.public());
    assert!(first.timestamp >= before);
    assert!(second.timestamp >= first.timestamp);
}

#[test]
fn envelope_bytes_are_what_postcard_writes() {
    let secret = key(11);
    let ours = SignedMessage::sign_and_encode_at(&secret, chat("hello", "al"), 300);
    // version 0, timestamp 300, kind 1, the two texts
    let payload = postcard::to_stdvec(&(0u32, 300u64, 1u32, "hello", "al")).unwrap();
    assert_eq!(payload, vec![0, 0xac, 0x02, 1, 5, b'h', b'e', b'l', b'l', b'o', 2, b'a', b'l']);
    assert_eq!(ours, envelope(11, &payload));
}

#[test]
fn wire_message_bytes_are_exact() {
    let frame = WireMessage::VO { timestamp: 128, message: Message::Presence { nickname: "x".into() } };
    assert_eq!(frame.encode(), vec![0, 0x80, 0x01, 0, 1, b'x']);
    assert_eq!(WireMessage::decode(&[0, 0x80, 0x01, 0, 1, b'x']), Ok(frame));
}

#[test]
fn envelope_made_outside_is_accepted() {
    let payload = postcard::to_stdvec(&(0u32, 42u64, 0u32, "carol")).unwrap();
    let received = SignedMessage::verify_and_decode(&envelope(5, &payload)).unwrap();
    assert_eq!(received.timestamp, 42);
    assert_eq!(received.message, Message::Presence { nickname: "carol".to_string() });
    assert_eq!(received.from.as_bytes(), outside_key(5).public().as_bytes());
}

#[test]
fn flipped_signature_is_rejected() {
    let secret = key(9);
    let message = Message::Presence { nickname: "alice".to_string() };
    let mut bytes = SignedMessage::sign_and_encode_at(&secret, message, 42);
    let last = bytes.len() - 1;
    bytes[last] ^= 0x01;
    assert_eq!(SignedMessage::verify_and_decode(&bytes), Err(MessageError::BadSignature));
}

#[test]
fn every_flipped_signature_bit_is_rejected() {
    let bytes = SignedMessage::sign_and_encode_at(&key(9), chat("hi", "bob"), 7);
    let start = bytes.len() - 64;
    for position in start..bytes.len() {
        for bit in 0..8 {
            let mut corrupted = bytes.clone();
            corrupted[position] ^= 1 << bit;
            assert_eq!(
                SignedMessage::verify_and_decode(&corrupted),
                Err(MessageError::BadSignature)
            );
        }
    }
}

#[test]
fn changed_payload_is_rejected() {
    let mut bytes = SignedMessage::sign_and_encode_at(&key(9), chat("hi", "bob"), 7);
    // the first text byte of the payload: 32 key bytes, 1 length byte, then the payload
    bytes[32 + 1 + 4] ^= 0x20;
    assert_eq!(SignedMessage::verify_and_decode(&bytes), Err(MessageError::BadSignature));
}

#[test]
fn message_signed_by_another_key_is_rejected() {
    let mut bytes = SignedMessage::sign_and_encode_at(&key(1), chat("hi", "bob"), 7);
    let other: NodeId = key(2).public();
    bytes[..32].copy_from_slice(other.as_bytes());
    assert_eq!(SignedMessage::verify_and_decode(&bytes), Err(MessageError::BadSignature));
}

#[test]
fn short_envelope_is_malformed() {
    let bytes = SignedMessage::sign_and_encode_at(&key(1), chat("hi", "bob"), 7);
    assert_eq!(SignedMessage::verify_and_decode(&[]), Err(MessageError::MalformedEnvelope));
    assert_eq!(
        SignedMessage::verify_and_decode(&bytes[..bytes.len() - 1]),
        Err(MessageError::MalformedEnvelope)
    );
    assert_eq!(SignedMessage::verify_and_decode(&bytes[..40]), Err(MessageError::MalformedEnvelope));
}

#[test]
fn envelope_with_invalid_key_is_malformed() {
    let mut bytes = SignedMessage::sign_and_encode_at(&key(1), chat("hi", "bob"), 7);
    let mut found = false;
    // look for 32 bytes that are no curve point
    for candidate in 0..=255u8 {
        let mut raw = [candidate; 32];
        raw[31] = 0x7f;
        if iroh_base::PublicKey::from_bytes(&raw).is_err() {
            bytes[..32].copy_from_slice(&raw);
            found = true;
            break;
        }
    }
    assert!(found);
    assert_eq!(SignedMessage::verify_and_decode(&bytes), Err(MessageError::MalformedEnvelope));
}

#[test]
fn trailing_bytes_after_the_signature_are_ignored() {
    let mut bytes = SignedMessage::sign_and_encode_at(&key(1), chat("hi", "bob"), 7);
    bytes.extend_from_slice(&[1, 2, 3]);
    assert_eq!(SignedMessage::verify_and_decode(&bytes).unwrap().message, chat("hi", "bob"));
}

#[test]
fn unknown_version_is_unsupported() {
    let payload = postcard::to_stdvec(&(1u32, 42u64, 0u32, "carol")).unwrap();
    assert_eq!(
        SignedMessage::verify_and_decode(&envelope(5, &payload)),
        Err(MessageError::UnsupportedVersion)
    );
}

#[test]
fn unknown_kind_of_message_is_malformed() {
    let payload = postcard::to_stdvec(&(0u32, 42u64, 2u32, "carol")).unwrap();
    assert_eq!(
        SignedMessage::verify_and_decode(&envelope(5, &payload)),
        Err(MessageError::MalformedPayload)
    );
}

#[test]
fn payload_with_bad_text_is_malformed() {
    // version 0, timestamp 1, presence, a text of two bytes that are not UTF-8
    let payload = vec![0, 1, 0, 2, 0xff, 0xfe];
    assert_eq!(
        SignedMessage::verify_and_decode(&envelope(5, &payload)),
        Err(MessageError::MalformedPayload)
    );
    // a text that is cut short
    let payload = vec![0, 1, 0, 5, b'a'];
    assert_eq!(
        SignedMessage::verify_and_decode(&envelope(5, &payload)),
        Err(MessageError::MalformedPayload)
    );
    assert_eq!(
        SignedMessage::verify_and_decode(&envelope(5, &[])),
        Err(MessageError::MalformedPayload)
    );
}

#[test]
fn signed_message_decode_and_encode_are_inverse() {
    let bytes = SignedMessage::sign_and_encode_at(&key(4), chat("x", "y"), 9);
    let signed = SignedMessage::decode(&bytes).unwrap();
    assert_eq!(signed.encode(), bytes);
}

#[test]
fn secret_key_matches_the_outside_key() {
    for seed in [0u8, 1, 77, 255] {
        assert_eq!(key(seed).public().as_bytes(), outside_key(seed).public().as_bytes());
        assert_eq!(key(seed).sign(b"payload").bytes, outside_key(seed).sign(b"payload").to_bytes());
        assert_eq!(key(seed).to_bytes(), [seed; 32]);
    }
    let id = key(1).public();
    assert!(id.verify(b"payload", &key(1).sign(b"payload")));
    assert!(!id.verify(b"payloae", &key(1).sign(b"payload")));
    assert!(!id.verify(b"payload", &key(2).sign(b"payload")));
}

#[test]
fn node_id_is_written_as_hex() {
    let id = key(1).public();
    assert_eq!(id.to_hex(), outside_key(1).public().to_string());
    assert_eq!(id.to_hex().len(), 64);
    assert_eq!(NodeId::from_bytes(id.as_bytes()), Some(id));
}

#[test]
fn generated_keys_differ() {
    assert_ne!(SecretKey::generate().to_bytes(), SecretKey::generate().to_bytes());
}
