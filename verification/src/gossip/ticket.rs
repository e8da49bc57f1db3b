//! The rendezvous ticket: a topic and the nodes to contact first.
//!
//! A ticket is handed over out of band as text. The text is the kind of
//! ticket, `chat`, followed by the base32 form of the ticket's bytes, all in
//! lower case. The bytes are the topic id, the number of bootstrap nodes,
//! and their public keys in ascending order.

use crate::identity::{spec_valid_key, NodeId, TopicId};
use crate::node_set::{
    all_valid, keys_of, lemma_sorted_insert_last, lemma_sorted_unique, sorted_insert,
    strictly_sorted, NodeSet,
};
use crate::order::lex_lt;
use crate::wire::{
    array32, fixed_take, lemma_fixed_round_trip, lemma_u64_fits,
    lemma_varint_round_trip, put_raw, put_u64, take_fixed, take_len, take_len_spec, varint,
};
use vstd::prelude::*;

verus! {

/// The base32 text of `bytes`: upper-case letters and the digits 2 to 7,
/// without padding.
pub uninterp spec fn spec_base32(bytes: Seq<u8>) -> Seq<char>;

/// The bytes that the base32 text `text` stands for, if it is well formed.
pub uninterp spec fn spec_base32_decode(text: Seq<char>) -> Option<Seq<u8>>;

/// Whether `c` is a symbol of the base32 alphabet.
pub open spec fn is_base32_symbol(c: char) -> bool {
    ('A' <= c && c <= 'Z') || ('2' <= c && c <= '7')
}

/// `c` in lower case, if it is an ASCII upper-case letter.
pub open spec fn lower_char(c: char) -> char {
    if 'A' <= c && c <= 'Z' {
        ((c as u8) + 32) as char
    } else {
        c
    }
}

/// `c` in upper case, if it is an ASCII lower-case letter.
pub open spec fn upper_char(c: char) -> char {
    if 'a' <= c && c <= 'z' {
        ((c as u8) - 32) as char
    } else {
        c
    }
}

/// `s` with its ASCII letters in lower case.
pub open spec fn ascii_lower(s: Seq<char>) -> Seq<char> {
    s.map_values(|c: char| lower_char(c))
}

/// `s` with its ASCII letters in upper case.
pub open spec fn ascii_upper(s: Seq<char>) -> Seq<char> {
    s.map_values(|c: char| upper_char(c))
}

/// The kind of ticket, which every ticket text starts with.
pub open spec fn kind() -> Seq<char> {
    seq!['c', 'h', 'a', 't']
}

/// The mathematical content of a ticket: the topic, and the keys of the
/// bootstrap nodes in ascending order.
pub struct TicketView {
    pub topic_id: Seq<u8>,
    pub bootstrap: Seq<Seq<u8>>,
}

/// A ticket's content is well formed when the topic has 32 bytes and the
/// bootstrap keys are valid, ascending and distinct.
pub open spec fn ticket_wf(t: TicketView) -> bool {
    &&& t.topic_id.len() == 32
    &&& strictly_sorted(t.bootstrap)
    &&& all_valid(t.bootstrap)
    &&& t.bootstrap.len() <= usize::MAX
}

/// The keys one after the other.
pub open spec fn keys_enc(keys: Seq<Seq<u8>>) -> Seq<u8>
    decreases keys.len(),
{
    if keys.len() == 0 {
        Seq::empty()
    } else {
        keys[0] + keys_enc(keys.skip(1))
    }
}

/// Reads `n` keys from the front of `input` and puts each into the set
/// `acc`. Keys may come in any order and more than once.
pub open spec fn keys_take(input: Seq<u8>, n: nat, acc: Seq<Seq<u8>>) -> Option<Seq<Seq<u8>>>
    decreases n,
{
    if n == 0 {
        Some(acc)
    } else {
        match fixed_take(input, 32) {
            Some((key, rest)) => if spec_valid_key(key) {
                keys_take(rest, (n - 1) as nat, sorted_insert(acc, key))
            } else {
                None
            },
            None => None,
        }
    }
}

/// The bytes of a ticket.
pub open spec fn ticket_bytes(t: TicketView) -> Seq<u8> {
    t.topic_id + varint(t.bootstrap.len()) + keys_enc(t.bootstrap)
}

/// Reads a ticket from bytes. Bytes after the last key are ignored.
pub open spec fn ticket_from_bytes(input: Seq<u8>) -> Option<TicketView> {
    match fixed_take(input, 32) {
        Some((topic_id, rest)) => match take_len_spec(rest) {
            Some((n, rest)) => match keys_take(rest, n, Seq::empty()) {
                Some(bootstrap) => Some(TicketView { topic_id, bootstrap }),
                None => None,
            },
            None => None,
        },
        None => None,
    }
}

/// The text of a ticket.
pub open spec fn ticket_text(t: TicketView) -> Seq<char> {
    ascii_lower(kind() + spec_base32(ticket_bytes(t)))
}

/// Why a text is not a ticket.
#[derive(Clone, Copy, Debug, PartialEq, Eq, Structural)]
pub enum TicketError {
    /// The text does not start with the kind `chat`.
    Kind,
    /// What follows the kind is not base32.
    Encoding,
    /// The decoded bytes are not a ticket.
    Postcard,
}

/// Reads a ticket from text.
pub open spec fn ticket_parse(text: Seq<char>) -> Result<TicketView, TicketError> {
    if !kind().is_prefix_of(text) {
        Err(TicketError::Kind)
    } else {
        match spec_base32_decode(ascii_upper(text.skip(4))) {
            Some(bytes) => match ticket_from_bytes(bytes) {
                Some(t) => Ok(t),
                None => Err(TicketError::Postcard),
            },
            None => Err(TicketError::Encoding),
        }
    }
}

/// Reading back keys that are valid and come in ascending order after the
/// members already read appends them.
pub proof fn lemma_keys_round_trip(keys: Seq<Seq<u8>>, tail: Seq<u8>, acc: Seq<Seq<u8>>)
    requires
        strictly_sorted(acc + keys),
        all_valid(keys),
    ensures
        keys_take(keys_enc(keys) + tail, keys.len(), acc) == Some(acc + keys),
    decreases keys.len(),
{
    if keys.len() == 0 {
        assert(acc + keys =~= acc);
    } else {
        let all = acc + keys;
        let rest = keys.skip(1);
        assert(keys[0].len() == 32 && spec_valid_key(keys[0]));
        lemma_fixed_round_trip(keys[0], keys_enc(rest) + tail);
        assert(keys_enc(keys) + tail =~= keys[0] + (keys_enc(rest) + tail));
        assert forall|i: int| 0 <= i < acc.len() implies lex_lt(#[trigger] acc[i], keys[0]) by {
            assert(all[i] == acc[i] && all[acc.len() as int] == keys[0]);
        }
        lemma_sorted_insert_last(acc, keys[0]);
        assert(acc.push(keys[0]) + rest =~= acc + keys);
        assert(all_valid(rest)) by {
            assert forall|i: int| 0 <= i < rest.len() implies (#[trigger] rest[i]).len() == 32
                && spec_valid_key(rest[i]) by {
                assert(rest[i] == keys[i + 1]);
            }
        }
        lemma_keys_round_trip(rest, tail, acc.push(keys[0]));
    }
}

/// Reading back the bytes of a well-formed ticket gives the ticket.
pub proof fn lemma_ticket_bytes_round_trip(t: TicketView)
    requires
        ticket_wf(t),
    ensures
        ticket_from_bytes(ticket_bytes(t)) == Some(t),
{
    let tail = Seq::<u8>::empty();
    let n = t.bootstrap.len();
    lemma_fixed_round_trip(t.topic_id, varint(n) + (keys_enc(t.bootstrap) + tail));
    lemma_u64_fits(n);
    lemma_varint_round_trip(n, keys_enc(t.bootstrap) + tail, 10, 1);
    assert(Seq::<Seq<u8>>::empty() + t.bootstrap =~= t.bootstrap);
    lemma_keys_round_trip(t.bootstrap, tail, Seq::empty());
    assert(ticket_bytes(t) =~= t.topic_id + (varint(n) + (keys_enc(t.bootstrap) + tail)));
}

/// What the members of a ticket are decides the ticket: two well-formed
/// tickets for one topic with the same bootstrap nodes are equal, and so are
/// their bytes and their texts, in whatever order the nodes were added.
pub proof fn lemma_ticket_order_independent(a: TicketView, b: TicketView)
    requires
        ticket_wf(a),
        ticket_wf(b),
        a.topic_id == b.topic_id,
        a.bootstrap.to_set() == b.bootstrap.to_set(),
    ensures
        a == b,
        ticket_bytes(a) == ticket_bytes(b),
        ticket_text(a) == ticket_text(b),
{
    lemma_sorted_unique(a.bootstrap, b.bootstrap);
}

/// Reading back the text of a well-formed ticket gives the ticket, provided
/// base32 decoding undoes base32 encoding and the encoding uses the base32
/// alphabet.
pub proof fn lemma_ticket_text_round_trip(t: TicketView)
    requires
        ticket_wf(t),
    ensures
        ({
            let encoded = spec_base32(ticket_bytes(t));
            &&& spec_base32_decode(encoded) == Some(ticket_bytes(t))
            &&& forall|i: int| 0 <= i < encoded.len() ==> is_base32_symbol(#[trigger] encoded[i])
        }) ==> ticket_parse(ticket_text(t)) == Ok::<_, TicketError>(t),
{
    let encoded = spec_base32(ticket_bytes(t));
    if spec_base32_decode(encoded) == Some(ticket_bytes(t)) && (forall|i: int|
        0 <= i < encoded.len() ==> is_base32_symbol(#[trigger] encoded[i])) {
        let text = ticket_text(t);
        assert(kind().is_prefix_of(text)) by {
            assert(text.subrange(0, 4) =~= kind());
        }
        assert(ascii_upper(text.skip(4)) =~= encoded) by {
            assert forall|i: int| 0 <= i < encoded.len() implies #[trigger] ascii_upper(
                text.skip(4),
            )[i] == encoded[i] by {
                assert(is_base32_symbol(encoded[i]));
                assert(text.skip(4)[i] == lower_char(encoded[i]));
            }
        }
        lemma_ticket_bytes_round_trip(t);
    }
}

/// The bytes of keys with one more key are the bytes of the keys, then the
/// key.
pub proof fn lemma_keys_enc_push(keys: Seq<Seq<u8>>, key: Seq<u8>)
    ensures
        keys_enc(keys.push(key)) == keys_enc(keys) + key,
    decreases keys.len(),
{
    if keys.len() == 0 {
        assert(keys.push(key).skip(1) =~= Seq::<Seq<u8>>::empty());
        assert(keys_enc(keys.push(key).skip(1)) =~= Seq::<u8>::empty());
        assert(keys_enc(keys.push(key)) =~= keys_enc(keys) + key);
    } else {
        lemma_keys_enc_push(keys.skip(1), key);
        assert(keys.push(key).skip(1) =~= keys.skip(1).push(key));
        assert(keys_enc(keys.push(key)) =~= keys_enc(keys) + key);
    }
}

/// Trusted: `data_encoding::BASE32_NOPAD.encode_append`. The text appended
/// is a function of the bytes alone. As the crate documents of its
/// encodings, decoding it gives the bytes back, and it is written in the
/// alphabet of RFC 4648: upper-case letters and the digits 2 to 7.
#[verifier::external_body]
fn base32_append(bytes: &[u8], out: &mut String)
    ensures
        final(out)@ == old(out)@ + spec_base32(bytes@),
        spec_base32_decode(final(out)@.skip(old(out)@.len() as int)) == Some(bytes@),
        forall|i: int|
            old(out)@.len() <= i < final(out)@.len() ==> is_base32_symbol(
                #[trigger] final(out)@[i],
            ),
{
    data_encoding::BASE32_NOPAD.encode_append(bytes, out)
}

/// Trusted: `data_encoding::BASE32_NOPAD.decode` on the bytes of `text`. The
/// outcome is a function of the text alone.
#[verifier::external_body]
fn base32_decode(text: &str) -> (r: Option<Vec<u8>>)
    ensures
        match r {
            Some(bytes) => spec_base32_decode(text@) == Some(bytes@),
            None => spec_base32_decode(text@) is None,
        },
{
    data_encoding::BASE32_NOPAD.decode(text.as_bytes()).ok()
}

/// Trusted: `str::to_ascii_lowercase`, which maps the letters `A` to `Z` to
/// `a` to `z` and leaves every other character as it is.
#[verifier::external_body]
fn to_ascii_lowercase(text: &str) -> (lower: String)
    ensures
        lower@ == ascii_lower(text@),
{
    text.to_ascii_lowercase()
}

/// Trusted: `str::to_ascii_uppercase`, which maps the letters `a` to `z` to
/// `A` to `Z` and leaves every other character as it is.
#[verifier::external_body]
fn to_ascii_uppercase(text: &str) -> (upper: String)
    ensures
        upper@ == ascii_upper(text@),
{
    text.to_ascii_uppercase()
}

/// Trusted: `str::strip_prefix` with a string as the pattern: the rest of
/// `text` after `prefix`, if `text` starts with it.
#[verifier::external_body]
fn strip_prefix<'a>(text: &'a str, prefix: &str) -> (r: Option<&'a str>)
    ensures
        match r {
            Some(rest) => prefix@.is_prefix_of(text@) && rest@ == text@.skip(
                prefix@.len() as int,
            ),
            None => !prefix@.is_prefix_of(text@),
        },
{
    text.strip_prefix(prefix)
}

/// Trusted: `rand::random` at 32 bytes. Nothing is promised of the bytes.
#[verifier::external_body]
fn random_bytes() -> (bytes: [u8; 32]) {
    rand::random()
}

/// The rendezvous descriptor of a room.
#[derive(Clone, Debug, PartialEq, Eq)]
pub struct ChatTicket {
    pub topic_id: TopicId,
    pub bootstrap: NodeSet,
}

impl View for ChatTicket {
    type V = TicketView;

    open spec fn view(&self) -> TicketView {
        TicketView { topic_id: self.topic_id@, bootstrap: self.bootstrap.seq() }
    }
}

impl ChatTicket {
    /// A ticket for a fresh random topic, with no bootstrap nodes.
    pub fn new_random() -> (ticket: ChatTicket)
        ensures
            ticket@.bootstrap == Seq::<Seq<u8>>::empty(),
    {
        let topic_id = TopicId::from_bytes(random_bytes());
        ChatTicket::new(topic_id)
    }

    /// A ticket for `topic_id`, with no bootstrap nodes.
    pub fn new(topic_id: TopicId) -> (ticket: ChatTicket)
        ensures
            ticket.topic_id == topic_id,
            ticket@.bootstrap == Seq::<Seq<u8>>::empty(),
    {
        ChatTicket { topic_id, bootstrap: NodeSet::new() }
    }

    /// The bytes of the ticket.
    pub fn to_bytes(&self) -> (out: Vec<u8>)
        ensures
            out@ == ticket_bytes(self@),
            ticket_wf(self@),
    {
        let ids = self.bootstrap.to_vec();
        let ghost keys = self.bootstrap.seq();
        let mut out: Vec<u8> = Vec::new();
        put_raw(&mut out, self.topic_id.as_bytes().as_slice());
        put_u64(&mut out, ids.len() as u64);
        let ghost head = out@;
        assert(head =~= self.topic_id@ + varint(keys.len()));
        let mut i: usize = 0;
        assert(keys.take(0) =~= Seq::<Seq<u8>>::empty());
        assert(out@ =~= head + keys_enc(keys.take(0)));
        while i < ids.len()
            invariant
                i <= ids.len(),
                keys == keys_of(ids@),
                out@ == head + keys_enc(keys.take(i as int)),
            decreases ids.len() - i,
        {
            put_raw(&mut out, ids[i].as_bytes().as_slice());
            proof {
                lemma_keys_enc_push(keys.take(i as int), keys[i as int]);
                assert(keys.take(i as int).push(keys[i as int]) =~= keys.take(i + 1));
                assert(out@ =~= head + keys_enc(keys.take(i + 1)));
            }
            i += 1;
        }
        assert(keys.take(ids.len() as int) =~= keys);
        out
    }

    /// Reads a ticket from bytes. The keys may come in any order and more
    /// than once; bytes after the last key are ignored.
    pub fn from_bytes(bytes: &[u8]) -> (r: Option<ChatTicket>)
        ensures
            match ticket_from_bytes(bytes@) {
                Some(t) => r matches Some(ticket) && ticket@ == t,
                None => r is None,
            },
    {
        let (topic, rest) = match take_fixed(bytes, 32) {
            Some(p) => p,
            None => return None,
        };
        let (n, rest) = match take_len(rest) {
            Some(p) => p,
            None => return None,
        };
        let mut rest = rest;
        let mut bootstrap = NodeSet::new();
        let mut i: usize = 0;
        while i < n
            invariant
                i <= n,
                topic@.len() == 32,
                ticket_from_bytes(bytes@) == (match keys_take(
                    rest@,
                    (n - i) as nat,
                    bootstrap.seq(),
                ) {
                    Some(keys) => Some(TicketView { topic_id: topic@, bootstrap: keys }),
                    None => None,
                }),
            decreases n - i,
        {
            let (key, tail) = match take_fixed(rest, 32) {
                Some(p) => p,
                None => return None,
            };
            let id = match NodeId::from_bytes(&array32(key)) {
                Some(id) => id,
                None => return None,
            };
            bootstrap.insert(id);
            rest = tail;
            i += 1;
        }
        let topic_id = TopicId::from_bytes(array32(topic));
        Some(ChatTicket { topic_id, bootstrap })
    }

    /// The text of the ticket, to be handed to another node.
    ///
    /// Reading the text back with `deserialize` gives this ticket.
    pub fn serialize(&self) -> (text: String)
        ensures
            text@ == ticket_text(self@),
            ticket_parse(text@) == Ok::<_, TicketError>(self@),
    {
        let bytes = self.to_bytes();
        let mut out = "chat".to_owned();
        proof {
            reveal_strlit("chat");
            assert(out@ =~= kind());
        }
        base32_append(bytes.as_slice(), &mut out);
        proof {
            assert(out@.skip(4) =~= spec_base32(bytes@));
            lemma_ticket_text_round_trip(self@);
        }
        to_ascii_lowercase(out.as_str())
    }

    /// Reads a ticket from text.
    ///
    /// The text must start with the kind `chat`; what follows must be base32,
    /// in either case, and decode to the bytes of a ticket.
    pub fn deserialize(input: &str) -> (r: Result<ChatTicket, TicketError>)
        ensures
            match ticket_parse(input@) {
                Ok(t) => r matches Ok(ticket) && ticket@ == t,
                Err(e) => r matches Err(x) && x == e,
            },
    {
        proof {
            reveal_strlit("chat");
            assert("chat"@ =~= kind());
        }
        let rest = match strip_prefix(input, "chat") {
            Some(rest) => rest,
            None => return Err(TicketError::Kind),
        };
        let upper = to_ascii_uppercase(rest);
        let bytes = match base32_decode(upper.as_str()) {
            Some(bytes) => bytes,
            None => return Err(TicketError::Encoding),
        };
        match ChatTicket::from_bytes(bytes.as_slice()) {
            Some(ticket) => Ok(ticket),
            None => Err(TicketError::Postcard),
        }
    }
}

/// Which nodes go into a ticket that is made from a running channel.
#[derive(Clone, Copy, Debug, PartialEq, Eq, Structural)]
pub struct TicketOpts {
    /// Include this node.
    pub include_myself: bool,
    /// Include the nodes of the ticket that the channel was joined with.
    pub include_bootstrap: bool,
    /// Include the nodes that are connected right now.
    pub include_neighbors: bool,
}

impl TicketOpts {
    /// Yes to everything.
    pub fn all() -> (opts: TicketOpts)
        ensures
            opts.include_myself,
            opts.include_bootstrap,
            opts.include_neighbors,
    {
        TicketOpts { include_myself: true, include_bootstrap: true, include_neighbors: true }
    }
}

} // verus!
