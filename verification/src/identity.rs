//! Identities: the key pair of a node, signatures, and the identifiers that
//! are built from 32 bytes.
//!
//! A node is known by its public key. The library keeps keys and signatures
//! as plain byte arrays and calls `iroh-base` for the cryptography; what those
//! calls return is named by the spec functions below and otherwise left open.

use crate::order::{bytes_equal, lex_less, lex_lt};
use vstd::prelude::*;

verus! {

/// The public key that belongs to the secret key `secret`.
pub uninterp spec fn spec_public_key(secret: Seq<u8>) -> Seq<u8>;

/// The Ed25519 signature of `msg` under the secret key `secret`.
pub uninterp spec fn spec_signature(secret: Seq<u8>, msg: Seq<u8>) -> Seq<u8>;

/// Whether `sig` is accepted as a signature of `msg` under the public key
/// `key`.
pub uninterp spec fn spec_verifies(key: Seq<u8>, msg: Seq<u8>, sig: Seq<u8>) -> bool;

/// Whether the 32 bytes `key` are the encoding of a point that can serve as a
/// public key.
pub uninterp spec fn spec_valid_key(key: Seq<u8>) -> bool;

/// The lower-case hexadecimal digit for `n`, which is below 16.
pub open spec fn hex_digit(n: int) -> char {
    if n < 10 {
        ('0' as int + n) as char
    } else {
        ('a' as int + n - 10) as char
    }
}

/// The lower-case hexadecimal form of `b`: two digits per byte, the high
/// half first.
pub open spec fn hex_lower(b: Seq<u8>) -> Seq<char> {
    Seq::new(
        2 * b.len(),
        |i: int|
            if i % 2 == 0 {
                hex_digit(b[i / 2] as int / 16)
            } else {
                hex_digit(b[i / 2] as int % 16)
            },
    )
}

/// Trusted: `iroh_base::SecretKey::public`, between `SecretKey::from_bytes`
/// and `PublicKey::as_bytes`. The result is a function of the secret bytes
/// alone, and it is a key that `PublicKey::from_bytes` accepts.
#[verifier::external_body]
fn secret_public(secret: &[u8; 32]) -> (key: [u8; 32])
    ensures
        key@ == spec_public_key(secret@),
        spec_valid_key(key@),
{
    *iroh_base::SecretKey::from_bytes(secret).public().as_bytes()
}

/// Trusted: `iroh_base::SecretKey::sign`, between `SecretKey::from_bytes` and
/// `Signature::to_bytes`. Ed25519 signing is deterministic, and a signature
/// made with a secret key is accepted under the public key of that secret key.
#[verifier::external_body]
fn secret_sign(secret: &[u8; 32], msg: &[u8]) -> (sig: [u8; 64])
    ensures
        sig@ == spec_signature(secret@, msg@),
        spec_verifies(spec_public_key(secret@), msg@, sig@),
{
    iroh_base::SecretKey::from_bytes(secret).sign(msg).to_bytes()
}

/// Trusted: `iroh_base::PublicKey::from_bytes`, which fails when the bytes do
/// not decode to a curve point.
#[verifier::external_body]
fn key_is_valid(key: &[u8; 32]) -> (ok: bool)
    ensures
        ok == spec_valid_key(key@),
{
    iroh_base::PublicKey::from_bytes(key).is_ok()
}

/// Trusted: `iroh_base::PublicKey::verify` on a key that
/// `PublicKey::from_bytes` accepts; for other keys the answer is `false`.
#[verifier::external_body]
fn key_verifies(key: &[u8; 32], msg: &[u8], sig: &[u8; 64]) -> (ok: bool)
    ensures
        ok == (spec_valid_key(key@) && spec_verifies(key@, msg@, sig@)),
{
    match iroh_base::PublicKey::from_bytes(key) {
        Ok(k) => k.verify(msg, &iroh_base::Signature::from_bytes(sig)).is_ok(),
        Err(_) => false,
    }
}

/// Trusted: `iroh_base::SecretKey::generate` with the operating system's
/// random number generator. Nothing is promised of the bytes.
#[verifier::external_body]
fn random_secret() -> (secret: [u8; 32]) {
    iroh_base::SecretKey::generate(rand::rngs::OsRng).to_bytes()
}

/// Trusted: `data_encoding::HEXLOWER.encode`, which writes two lower-case
/// hexadecimal digits per byte.
#[verifier::external_body]
fn hex_encode(bytes: &[u8]) -> (text: String)
    ensures
        text@ == hex_lower(bytes@),
{
    data_encoding::HEXLOWER.encode(bytes)
}

/// The identifier of a node: its public key.
#[derive(Clone, Copy, Debug, PartialEq, Eq, PartialOrd, Ord, Hash)]
pub struct NodeId {
    bytes: [u8; 32],
}

impl View for NodeId {
    type V = Seq<u8>;

    closed spec fn view(&self) -> Seq<u8> {
        self.bytes@
    }
}

impl NodeId {
    /// A node id is well formed when its bytes are a valid public key. Every
    /// node id that the program holds is.
    #[verifier::type_invariant]
    pub open spec fn wf(self) -> bool {
        self@.len() == 32 && spec_valid_key(self@)
    }

    /// Two node ids with the same bytes are the same node id.
    pub proof fn lemma_view_injective(a: NodeId, b: NodeId)
        requires
            a@ == b@,
        ensures
            a == b,
    {
        assert(a.bytes =~= b.bytes);
    }

    /// The node id with the given bytes, if they are a valid public key.
    pub fn from_bytes(bytes: &[u8; 32]) -> (id: Option<NodeId>)
        ensures
            match id {
                Some(id) => id@ == bytes@ && id.wf(),
                None => !spec_valid_key(bytes@),
            },
    {
        if key_is_valid(bytes) {
            Some(NodeId { bytes: *bytes })
        } else {
            None
        }
    }

    /// The bytes of the public key.
    pub fn as_bytes(&self) -> (bytes: &[u8; 32])
        ensures
            bytes@ == self@,
    {
        &self.bytes
    }

    /// Whether `self` and `other` are the same node.
    pub fn same(&self, other: &NodeId) -> (same: bool)
        ensures
            same == (self@ == other@),
            same == (*self == *other),
    {
        proof {
            if self@ == other@ {
                Self::lemma_view_injective(*self, *other);
            }
        }
        bytes_equal(self.bytes.as_slice(), other.bytes.as_slice())
    }

    /// Whether `self` is ordered before `other`: byte by byte.
    pub fn precedes(&self, other: &NodeId) -> (before: bool)
        ensures
            before == lex_lt(self@, other@),
    {
        lex_less(self.bytes.as_slice(), other.bytes.as_slice())
    }

    /// Whether `sig` is a signature of `msg` made by this node.
    pub fn verify(&self, msg: &[u8], sig: &Signature) -> (ok: bool)
        ensures
            ok == spec_verifies(self@, msg@, sig@),
    {
        proof {
            use_type_invariant(self);
        }
        key_verifies(&self.bytes, msg, &sig.bytes)
    }

    /// The node id as text: 64 lower-case hexadecimal digits.
    pub fn to_hex(&self) -> (text: String)
        ensures
            text@ == hex_lower(self@),
    {
        hex_encode(self.bytes.as_slice())
    }
}

/// An Ed25519 signature: 64 bytes.
#[derive(Clone, Copy, Debug, PartialEq, Eq)]
pub struct Signature {
    pub bytes: [u8; 64],
}

impl View for Signature {
    type V = Seq<u8>;

    open spec fn view(&self) -> Seq<u8> {
        self.bytes@
    }
}

/// The secret half of a node's key pair. It never leaves the process.
#[derive(Clone)]
pub struct SecretKey {
    bytes: [u8; 32],
}

impl View for SecretKey {
    type V = Seq<u8>;

    closed spec fn view(&self) -> Seq<u8> {
        self.bytes@
    }
}

impl SecretKey {
    /// The secret key with the given bytes. Every 32 bytes are a secret key.
    pub fn from_bytes(bytes: &[u8; 32]) -> (key: SecretKey)
        ensures
            key@ == bytes@,
    {
        SecretKey { bytes: *bytes }
    }

    /// The bytes of the secret key.
    pub fn to_bytes(&self) -> (bytes: [u8; 32])
        ensures
            bytes@ == self@,
    {
        self.bytes
    }

    /// A fresh secret key from the operating system's randomness.
    pub fn generate() -> (key: SecretKey) {
        SecretKey { bytes: random_secret() }
    }

    /// The public key of this secret key.
    pub fn public(&self) -> (id: NodeId)
        ensures
            id@ == spec_public_key(self@),
            id.wf(),
    {
        NodeId { bytes: secret_public(&self.bytes) }
    }

    /// Signs `msg`.
    pub fn sign(&self, msg: &[u8]) -> (sig: Signature)
        ensures
            sig@ == spec_signature(self@, msg@),
            spec_verifies(spec_public_key(self@), msg@, sig@),
    {
        Signature { bytes: secret_sign(&self.bytes, msg) }
    }
}

/// The identifier of a topic, the channel that the peers of a room subscribe
/// to.
#[derive(Clone, Copy, Debug, PartialEq, Eq, PartialOrd, Ord, Hash)]
pub struct TopicId {
    pub bytes: [u8; 32],
}

impl View for TopicId {
    type V = Seq<u8>;

    open spec fn view(&self) -> Seq<u8> {
        self.bytes@
    }
}

impl TopicId {
    /// The topic id with the given bytes.
    pub fn from_bytes(bytes: [u8; 32]) -> (id: TopicId)
        ensures
            id.bytes == bytes,
    {
        TopicId { bytes }
    }

    /// The bytes of the topic id.
    pub fn as_bytes(&self) -> (bytes: &[u8; 32])
        ensures
            *bytes == self.bytes,
    {
        &self.bytes
    }

    /// The topic id as text: 64 lower-case hexadecimal digits.
    pub fn to_hex(&self) -> (text: String)
        ensures
            text@ == hex_lower(self@),
    {
        hex_encode(self.bytes.as_slice())
    }
}

} // verus!
