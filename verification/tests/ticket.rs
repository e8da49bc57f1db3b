use gossip_chat::gossip::ticket::{ChatTicket, TicketError, TicketOpts};
use gossip_chat::identity::{NodeId, SecretKey, TopicId};
use iroh_base::ticket::Ticket;
use std::collections::BTreeSet;

fn node(seed: u8) -> NodeId {
    SecretKey::from_bytes(&[seed; 32]).public()
}

/// The same ticket, written with the outside crates alone.
struct Outside {
    topic_id: iroh_gossip::proto::TopicId,
    bootstrap: BTreeSet<iroh_base::PublicKey>,
}

impl Ticket for Outside {
    const KIND: &'static str = "chat";

    fn to_bytes(&self) -> Vec<u8> {
        postcard::to_stdvec(&(&self.topic_id, &self.bootstrap)).unwrap()
    }

    fn from_bytes(bytes: &[u8]) -> Result<Self, iroh_base::ticket::Error> {
        let (topic_id, bootstrap) = postcard::from_bytes(bytes)?;
        Ok(Outside { topic_id, bootstrap })
    }
}

fn outside(topic: [u8; 32], seeds: &[u8]) -> Outside {
    let mut bootstrap = BTreeSet::new();
    for seed in seeds {
        bootstrap.insert(iroh_base::SecretKey::from_bytes(&[*seed; 32]).public());
    }
    Outside { topic_id: iroh_gossip::proto::TopicId::from_bytes(topic), bootstrap }
}

fn ticket(topic: [u8; 32], seeds: &[u8]) -> ChatTicket {
    let mut ticket = ChatTicket::new(TopicId::from_bytes(topic));
    for seed in seeds {
        ticket.bootstrap.insert(node(*seed));
    }
    ticket
}

#[test]
fn ticket_round_trips_with_no_bootstrap() {
    let t = ticket([3; 32], &[]);
    assert_eq!(ChatTicket::deserialize(&t.serialize()), Ok(t));
}

#[test]
fn ticket_round_trips_with_one_bootstrap() {
    let t = ticket([3; 32], &[1]);
    assert_eq!(ChatTicket::deserialize(&t.serialize()), Ok(t));
}

#[test]
fn ticket_round_trips_with_many_bootstrap() {
    let t = ticket([9; 32], &[5, 1, 4, 2, 3]);
    let back = ChatTicket::deserialize(&t.serialize()).unwrap();
    assert_eq!(back, t);
    assert_eq!(back.bootstrap.len(), 5);
}

#[test]
fn ticket_does_not_depend_on_insertion_order() {
    let a = ticket([7; 32], &[1, 2, 3, 2]);
    let b = ticket([7; 32], &[3, 1, 2]);
    assert_eq!(a, b);
    assert_eq!(a.serialize(), b.serialize());
}

#[test]
fn ticket_text_is_what_the_ticket_trait_writes() {
    for seeds in [&[][..], &[1][..], &[200, 3, 77, 4][..]] {
        let ours = ticket([0xab; 32], seeds);
        let theirs = outside([0xab; 32], seeds);
        assert_eq!(ours.to_bytes(), Ticket::to_bytes(&theirs));
        assert_eq!(ours.serialize(), Ticket::serialize(&theirs));
        let back = <Outside as Ticket>::deserialize(&ours.serialize()).unwrap();
        assert_eq!(back.bootstrap.len(), ours.bootstrap.len());
    }
}

#[test]
fn ticket_text_starts_with_kind_and_is_lower_case() {
    let text = ticket([1; 32], &[8]).serialize();
    assert!(text.starts_with("chat"));
    assert_eq!(text, text.to_ascii_lowercase());
}

#[test]
fn ticket_of_another_kind_is_rejected() {
    let text = ticket([1; 32], &[8]).serialize();
    let other = format!("blob{}", &text[4..]);
    assert_eq!(ChatTicket::deserialize(&other), Err(TicketError::Kind));
    assert_eq!(ChatTicket::deserialize(""), Err(TicketError::Kind));
}

#[test]
fn ticket_with_bad_base32_is_rejected() {
    assert_eq!(ChatTicket::deserialize("chat!!!"), Err(TicketError::Encoding));
    assert_eq!(ChatTicket::deserialize("chat1"), Err(TicketError::Encoding));
}

#[test]
fn ticket_with_short_bytes_is_rejected() {
    // base32 of three bytes: too short for a topic id
    assert_eq!(ChatTicket::deserialize("chatmfrgg"), Err(TicketError::Postcard));
}

#[test]
fn ticket_accepts_upper_case_payload() {
    let t = ticket([3; 32], &[1, 2]);
    let text = t.serialize();
    let upper = format!("chat{}", text[4..].to_ascii_uppercase());
    assert_eq!(ChatTicket::deserialize(&upper), Ok(t));
}

#[test]
fn ticket_opts_all_includes_everything() {
    let opts = TicketOpts::all();
    assert!(opts.include_myself && opts.include_bootstrap && opts.include_neighbors);
}

#[test]
fn new_random_ticket_has_no_bootstrap() {
    let a = ChatTicket::new_random();
    let b = ChatTicket::new_random();
    assert_eq!(a.bootstrap.len(), 0);
    assert_ne!(a.topic_id, b.topic_id);
}
