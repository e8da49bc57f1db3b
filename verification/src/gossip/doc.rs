//! The shared document of a room: a replicated key-value store that holds
//! one record per peer and one entry per chat message.
//!
//! This module fixes the keys. A peer's record lives under
//! `peers/<node id>/nickname`. A chat message lives under
//! `messages/<timestamp>_<author>`, with the timestamp as eight bytes in
//! big-endian order and the first eight bytes of the author's id, so that
//! the store's own order of keys is the order of the timestamps.

pub mod accessors;
pub mod chat;
pub mod peers;

use crate::order::{
    lemma_lex_asymmetric, lemma_lex_common_prefix, lemma_lex_extend, lemma_lex_irreflexive,
    lex_lt,
};
use crate::wire::put_raw;
use vstd::prelude::*;
use vstd::slice::{slice_subrange, slice_to_vec};

verus! {

/// The prefix of the keys of peer records: `peers/`.
pub const PEERS_PREFIX: [u8; 6] = [0x70, 0x65, 0x65, 0x72, 0x73, 0x2f];

/// The suffix of the keys of peer records: `/nickname`.
pub const NICKNAME_KEY_SUFFIX: [u8; 9] = [0x2f, 0x6e, 0x69, 0x63, 0x6b, 0x6e, 0x61, 0x6d, 0x65];

/// The prefix of the keys of chat messages: `messages/`.
pub const MESSAGES_PREFIX: [u8; 9] = [0x6d, 0x65, 0x73, 0x73, 0x61, 0x67, 0x65, 0x73, 0x2f];

/// The key of the shared game state: `game_state`.
pub const GAME_STATE_KEY: [u8; 10] = [0x67, 0x61, 0x6d, 0x65, 0x5f, 0x73, 0x74, 0x61, 0x74, 0x65];

/// The byte between the timestamp and the author in a message key: `_`.
pub const KEY_SEPARATOR: u8 = 0x5f;

/// `peers/` as a sequence of bytes.
pub open spec fn peers_prefix() -> Seq<u8> {
    seq![0x70u8, 0x65u8, 0x65u8, 0x72u8, 0x73u8, 0x2fu8]
}

/// `/nickname` as a sequence of bytes.
pub open spec fn nickname_suffix() -> Seq<u8> {
    seq![0x2fu8, 0x6eu8, 0x69u8, 0x63u8, 0x6bu8, 0x6eu8, 0x61u8, 0x6du8, 0x65u8]
}

/// `messages/` as a sequence of bytes.
pub open spec fn messages_prefix() -> Seq<u8> {
    seq![0x6du8, 0x65u8, 0x73u8, 0x73u8, 0x61u8, 0x67u8, 0x65u8, 0x73u8, 0x2fu8]
}

/// The last `n` base-256 digits of `v`, the most significant first.
pub open spec fn be_digits(v: nat, n: nat) -> Seq<u8>
    decreases n,
{
    if n == 0 {
        Seq::empty()
    } else {
        be_digits(v / 256, (n - 1) as nat).push((v % 256) as u8)
    }
}

/// The eight bytes of `v` in big-endian order.
pub open spec fn be_bytes(v: u64) -> Seq<u8> {
    be_digits(v as nat, 8)
}

/// The first number that does not fit into `n` base-256 digits.
pub open spec fn digits_limit(n: nat) -> nat
    decreases n,
{
    if n == 0 {
        1
    } else {
        256 * digits_limit((n - 1) as nat)
    }
}

/// The key under which the record of the peer `node` is stored.
pub open spec fn peer_nickname_key_spec(node: Seq<u8>) -> Seq<u8> {
    peers_prefix() + node + nickname_suffix()
}

/// The key under which a message of `author`, sent at `timestamp`, is
/// stored.
pub open spec fn message_key_spec(timestamp: u64, author: Seq<u8>) -> Seq<u8> {
    messages_prefix() + be_bytes(timestamp) + seq![KEY_SEPARATOR] + author.take(8)
}

/// What a message key says: the timestamp and what follows the separator.
/// `None` for a key that does not start with `messages/` or is too short to
/// hold a timestamp, a separator and at least one more byte.
pub open spec fn parse_message_key_spec(key: Seq<u8>) -> Option<(u64, Seq<u8>)> {
    if messages_prefix().is_prefix_of(key) && key.len() > 18 {
        Some((timestamp_of(key.subrange(9, 17)), key.skip(18)))
    } else {
        None
    }
}

/// The number whose big-endian bytes are `bytes`.
pub open spec fn timestamp_of(bytes: Seq<u8>) -> u64 {
    choose|v: u64| be_bytes(v) == bytes
}

/// A number is written with as many digits as asked for.
pub proof fn lemma_be_digits_len(v: nat, n: nat)
    ensures
        be_digits(v, n).len() == n,
    decreases n,
{
    if n > 0 {
        lemma_be_digits_len(v / 256, (n - 1) as nat);
    }
}

/// Big-endian digits order numbers as their values do.
pub proof fn lemma_be_digits_ordered(a: nat, b: nat, n: nat)
    requires
        a < b,
        b < digits_limit(n),
    ensures
        lex_lt(be_digits(a, n), be_digits(b, n)),
    decreases n,
{
    if n > 0 {
        let pa = be_digits(a / 256, (n - 1) as nat);
        let pb = be_digits(b / 256, (n - 1) as nat);
        let x = (a % 256) as u8;
        let y = (b % 256) as u8;
        lemma_be_digits_len(a / 256, (n - 1) as nat);
        lemma_be_digits_len(b / 256, (n - 1) as nat);
        assert(pa.push(x) =~= pa + seq![x]);
        assert(pb.push(y) =~= pb + seq![y]);
        if a / 256 < b / 256 {
            lemma_be_digits_ordered(a / 256, b / 256, (n - 1) as nat);
            lemma_lex_extend(pa, pb, seq![x], seq![y]);
        } else {
            assert(a / 256 == b / 256);
            assert(x < y);
            lemma_lex_common_prefix(pa, seq![x], seq![y]);
        }
    }
}

/// Every 64-bit number fits into eight digits.
pub proof fn lemma_u64_below_limit(v: u64)
    ensures
        v < digits_limit(8),
{
    reveal_with_fuel(digits_limit, 9);
}

/// Different numbers have different big-endian bytes.
pub proof fn lemma_be_bytes_injective(a: u64, b: u64)
    requires
        be_bytes(a) == be_bytes(b),
    ensures
        a == b,
{
    lemma_u64_below_limit(a);
    lemma_u64_below_limit(b);
    lemma_lex_irreflexive(be_bytes(a));
    if a < b {
        lemma_be_digits_ordered(a as nat, b as nat, 8);
    } else if b < a {
        lemma_be_digits_ordered(b as nat, a as nat, 8);
    }
}

/// The timestamp is read back from its bytes.
pub proof fn lemma_timestamp_of(v: u64)
    ensures
        timestamp_of(be_bytes(v)) == v,
{
    let w = timestamp_of(be_bytes(v));
    assert(be_bytes(v) == be_bytes(v));
    lemma_be_bytes_injective(w, v);
}

/// Message keys are ordered as their timestamps are, whoever the authors:
/// of two messages, the one with the smaller timestamp has the key that
/// comes first in the store.
pub proof fn lemma_message_keys_ordered(t1: u64, author1: Seq<u8>, t2: u64, author2: Seq<u8>)
    requires
        t1 < t2,
    ensures
        lex_lt(message_key_spec(t1, author1), message_key_spec(t2, author2)),
        message_key_spec(t1, author1) != message_key_spec(t2, author2),
{
    lemma_u64_below_limit(t2);
    lemma_be_digits_ordered(t1 as nat, t2 as nat, 8);
    lemma_be_digits_len(t1 as nat, 8);
    lemma_be_digits_len(t2 as nat, 8);
    let s1 = seq![KEY_SEPARATOR] + author1.take(8);
    let s2 = seq![KEY_SEPARATOR] + author2.take(8);
    lemma_lex_extend(be_bytes(t1), be_bytes(t2), s1, s2);
    lemma_lex_common_prefix(messages_prefix(), be_bytes(t1) + s1, be_bytes(t2) + s2);
    assert(message_key_spec(t1, author1) =~= messages_prefix() + (be_bytes(t1) + s1));
    assert(message_key_spec(t2, author2) =~= messages_prefix() + (be_bytes(t2) + s2));
    lemma_lex_asymmetric(message_key_spec(t1, author1), message_key_spec(t2, author2));
}

/// Two messages of one timestamp are ordered by the first eight bytes of
/// their authors' ids.
pub proof fn lemma_message_keys_tie(t: u64, author1: Seq<u8>, author2: Seq<u8>)
    requires
        lex_lt(author1.take(8), author2.take(8)),
    ensures
        lex_lt(message_key_spec(t, author1), message_key_spec(t, author2)),
{
    let head = messages_prefix() + be_bytes(t) + seq![KEY_SEPARATOR];
    lemma_lex_common_prefix(head, author1.take(8), author2.take(8));
}

/// A message key says what it was made of: its timestamp and the first
/// eight bytes of its author.
pub proof fn lemma_message_key_parses(timestamp: u64, author: Seq<u8>)
    requires
        author.len() >= 8,
    ensures
        parse_message_key_spec(message_key_spec(timestamp, author)) == Some(
            (timestamp, author.take(8)),
        ),
{
    let key = message_key_spec(timestamp, author);
    lemma_be_digits_len(timestamp as nat, 8);
    assert(key.subrange(0, 9) =~= messages_prefix());
    assert(key.subrange(9, 17) =~= be_bytes(timestamp));
    assert(key.skip(18) =~= author.take(8));
    lemma_timestamp_of(timestamp);
}

/// Trusted: `u64::to_be_bytes`, the bytes of the number with the most
/// significant first.
#[verifier::external_body]
fn u64_to_be_bytes(v: u64) -> (bytes: [u8; 8])
    ensures
        bytes@ == be_bytes(v),
{
    v.to_be_bytes()
}

/// Trusted: `u64::from_be_bytes`, the number with the given big-endian
/// bytes.
#[verifier::external_body]
fn u64_from_be_bytes(bytes: [u8; 8]) -> (v: u64)
    ensures
        be_bytes(v) == bytes@,
{
    u64::from_be_bytes(bytes)
}

/// Copies 8 bytes into an array.
fn array8(s: &[u8]) -> (a: [u8; 8])
    requires
        s@.len() == 8,
    ensures
        a@ == s@,
{
    let mut a = [0u8; 8];
    let mut i: usize = 0;
    while i < 8
        invariant
            i <= 8,
            s@.len() == 8,
            forall|j: int| 0 <= j < i ==> a@[j] == s@[j],
        decreases 8 - i,
    {
        a[i] = s[i];
        i += 1;
    }
    assert(a@ =~= s@);
    a
}

/// Whether `key` starts with `prefix`.
pub fn starts_with(key: &[u8], prefix: &[u8]) -> (yes: bool)
    ensures
        yes == prefix@.is_prefix_of(key@),
{
    if key.len() < prefix.len() {
        return false;
    }
    let mut i: usize = 0;
    while i < prefix.len()
        invariant
            i <= prefix.len() <= key.len(),
            forall|j: int| 0 <= j < i ==> key@[j] == prefix@[j],
        decreases prefix.len() - i,
    {
        if key[i] != prefix[i] {
            assert(key@.subrange(0, prefix@.len() as int)[i as int] != prefix@[i as int]);
            return false;
        }
        i += 1;
    }
    assert(key@.subrange(0, prefix@.len() as int) =~= prefix@);
    true
}

/// The key under which the record of the peer with the key bytes `node_id`
/// is stored.
pub fn peer_nickname_key(node_id: &[u8; 32]) -> (key: Vec<u8>)
    ensures
        key@ == peer_nickname_key_spec(node_id@),
{
    let mut key: Vec<u8> = Vec::new();
    put_raw(&mut key, PEERS_PREFIX.as_slice());
    put_raw(&mut key, node_id.as_slice());
    put_raw(&mut key, NICKNAME_KEY_SUFFIX.as_slice());
    assert(PEERS_PREFIX@ =~= peers_prefix());
    assert(NICKNAME_KEY_SUFFIX@ =~= nickname_suffix());
    assert(key@ =~= peer_nickname_key_spec(node_id@));
    key
}

/// The key under which a message of the author with the id bytes
/// `author_id`, sent at `timestamp`, is stored. Keys made this way sort by
/// timestamp.
pub fn message_key(timestamp: u64, author_id: &[u8; 32]) -> (key: Vec<u8>)
    ensures
        key@ == message_key_spec(timestamp, author_id@),
{
    let mut key: Vec<u8> = Vec::new();
    put_raw(&mut key, MESSAGES_PREFIX.as_slice());
    let stamp = u64_to_be_bytes(timestamp);
    put_raw(&mut key, stamp.as_slice());
    key.push(KEY_SEPARATOR);
    put_raw(&mut key, slice_subrange(author_id.as_slice(), 0, 8));
    assert(MESSAGES_PREFIX@ =~= messages_prefix());
    assert(key@ =~= message_key_spec(timestamp, author_id@));
    key
}

/// The timestamp in a message key: the number whose big-endian bytes
/// follow the prefix. `None` for a key that is too short to hold one.
pub fn key_timestamp(key: &[u8]) -> (r: Option<u64>)
    ensures
        r == (if key@.len() >= 17 {
            Some(timestamp_of(key@.subrange(9, 17)))
        } else {
            None
        }),
{
    if key.len() < 17 {
        return None;
    }
    let stamp = array8(slice_subrange(key, 9, 17));
    let timestamp = u64_from_be_bytes(stamp);
    proof {
        lemma_timestamp_of(timestamp);
    }
    Some(timestamp)
}

/// Reads the timestamp and what follows the separator from a message key.
pub fn parse_message_key(key: &[u8]) -> (r: Option<(u64, Vec<u8>)>)
    ensures
        match parse_message_key_spec(key@) {
            Some((timestamp, author)) => r matches Some((t, a)) && t == timestamp && a@ == author,
            None => r is None,
        },
{
    assert(MESSAGES_PREFIX@ =~= messages_prefix());
    if starts_with(key, MESSAGES_PREFIX.as_slice()) && key.len() > 9 + 8 + 1 {
        let author = slice_to_vec(slice_subrange(key, 18, key.len()));
        match key_timestamp(key) {
            Some(timestamp) => Some((timestamp, author)),
            None => None,
        }
    } else {
        None
    }
}

} // verus!
