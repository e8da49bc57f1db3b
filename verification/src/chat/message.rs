//! The signed message envelope.
//!
//! A chat message travels as a `WireMessage`: a version tag, the sender's
//! timestamp and the message body. Its serialized bytes are signed, and the
//! `SignedMessage` that goes on the wire holds the author's public key, those
//! bytes and the signature. A receiver accepts an envelope only if the
//! signature verifies over the payload under the embedded key.

use crate::identity::{
    spec_public_key, spec_signature, spec_valid_key, spec_verifies, NodeId, SecretKey, Signature,
};
use crate::utils::get_timestamp;
use crate::wire::{
    bytes_enc, bytes_take, fixed_take, lemma_bytes_round_trip, lemma_fixed_round_trip,
    lemma_str_round_trip, lemma_u32_fits, lemma_u64_fits, lemma_varint_round_trip,
    array32, array64, put_bytes, put_raw, put_str, put_u64, str_enc, str_take, take_bytes,
    take_fixed, take_str, take_u32, take_u32_spec, take_u64, take_u64_spec, varint,
};
use vstd::prelude::*;
use vstd::slice::slice_to_vec;
use vstd::utf8::encode_utf8;

verus! {

/// Why an incoming envelope was dropped.
#[derive(Clone, Copy, Debug, PartialEq, Eq, Structural)]
pub enum MessageError {
    /// The bytes are not an envelope: a field is cut short, a length is
    /// malformed, or the author's key is not a valid public key.
    MalformedEnvelope,
    /// The signature does not verify over the payload under the author's key.
    BadSignature,
    /// The payload carries a version tag that this library does not know.
    UnsupportedVersion,
    /// The payload is not a message: a field is cut short, a text is not
    /// UTF-8, or the kind of message is unknown.
    MalformedPayload,
}

/// What peers say to each other.
#[derive(Clone, Debug, PartialEq, Eq)]
pub enum Message {
    /// Ping other connected users to tell them we're still here.
    Presence { nickname: String },
    /// Send a new text message to connected users.
    Message { text: String, nickname: String },
}

/// The mathematical content of a `Message`.
pub enum MessageView {
    Presence { nickname: Seq<char> },
    Message { text: Seq<char>, nickname: Seq<char> },
}

impl View for Message {
    type V = MessageView;

    open spec fn view(&self) -> MessageView {
        match self {
            Message::Presence { nickname } => MessageView::Presence { nickname: nickname@ },
            Message::Message { text, nickname } => MessageView::Message {
                text: text@,
                nickname: nickname@,
            },
        }
    }
}

/// The versioned frame around a message.
#[derive(Clone, Debug, PartialEq, Eq)]
pub enum WireMessage {
    /// The first version: the sender's clock in microseconds since the epoch,
    /// and the message.
    VO { timestamp: u64, message: Message },
}

/// A message that passed verification, with its author.
#[derive(Clone, Debug, PartialEq, Eq)]
pub struct ReceivedMessage {
    /// The sender's clock when the message was signed. It is the sender's
    /// claim and orders nothing by itself.
    pub timestamp: u64,
    /// The node whose key the signature verified under.
    pub from: NodeId,
    pub message: Message,
}

/// The mathematical content of a `ReceivedMessage`.
pub struct ReceivedView {
    pub timestamp: u64,
    pub from: Seq<u8>,
    pub message: MessageView,
}

impl View for ReceivedMessage {
    type V = ReceivedView;

    open spec fn view(&self) -> ReceivedView {
        ReceivedView { timestamp: self.timestamp, from: self.from@, message: self.message@ }
    }
}

/// Whether the texts of `m` are short enough to be held in memory.
pub open spec fn message_fits(m: MessageView) -> bool {
    match m {
        MessageView::Presence { nickname } => encode_utf8(nickname).len() <= usize::MAX,
        MessageView::Message { text, nickname } => {
            &&& encode_utf8(text).len() <= usize::MAX
            &&& encode_utf8(nickname).len() <= usize::MAX
        },
    }
}

/// The bytes of a message: the number of its kind, then its texts.
pub open spec fn message_enc(m: MessageView) -> Seq<u8> {
    match m {
        MessageView::Presence { nickname } => varint(0) + str_enc(nickname),
        MessageView::Message { text, nickname } => varint(1) + str_enc(text) + str_enc(nickname),
    }
}

/// Reads a message from the front of `input`.
pub open spec fn message_take(input: Seq<u8>) -> Option<(MessageView, Seq<u8>)> {
    match take_u32_spec(input) {
        Some((kind, rest)) => if kind == 0 {
            match str_take(rest) {
                Some((nickname, rest)) => Some((MessageView::Presence { nickname }, rest)),
                None => None,
            }
        } else if kind == 1 {
            match str_take(rest) {
                Some((text, rest)) => match str_take(rest) {
                    Some((nickname, rest)) => Some((MessageView::Message { text, nickname }, rest)),
                    None => None,
                },
                None => None,
            }
        } else {
            None
        },
        None => None,
    }
}

/// The payload that is signed: version zero, the timestamp, the message.
pub open spec fn wire_enc(timestamp: u64, m: MessageView) -> Seq<u8> {
    varint(0) + varint(timestamp as nat) + message_enc(m)
}

/// Reads a payload. Bytes after the message are ignored.
pub open spec fn wire_decode(data: Seq<u8>) -> Result<(u64, MessageView), MessageError> {
    match take_u32_spec(data) {
        Some((version, rest)) => if version != 0 {
            Err(MessageError::UnsupportedVersion)
        } else {
            match take_u64_spec(rest) {
                Some((timestamp, rest)) => match message_take(rest) {
                    Some((m, _)) => Ok((timestamp as u64, m)),
                    None => Err(MessageError::MalformedPayload),
                },
                None => Err(MessageError::MalformedPayload),
            }
        },
        None => Err(MessageError::MalformedPayload),
    }
}

/// The envelope on the wire: the author's key, the payload with its length,
/// the signature.
pub open spec fn envelope_enc(from: Seq<u8>, data: Seq<u8>, signature: Seq<u8>) -> Seq<u8> {
    from + bytes_enc(data) + signature
}

/// Splits an envelope into key, payload and signature. Bytes after the
/// signature are ignored.
pub open spec fn envelope_take(input: Seq<u8>) -> Option<(Seq<u8>, Seq<u8>, Seq<u8>)> {
    match fixed_take(input, 32) {
        Some((from, rest)) => if !spec_valid_key(from) {
            None
        } else {
            match bytes_take(rest) {
                Some((data, rest)) => match fixed_take(rest, 64) {
                    Some((signature, _)) => Some((from, data, signature)),
                    None => None,
                },
                None => None,
            }
        },
        None => None,
    }
}

/// What a receiver makes of the bytes `input`: the message with its author
/// and timestamp, or the reason to drop it.
pub open spec fn verify_and_decode_spec(input: Seq<u8>) -> Result<ReceivedView, MessageError> {
    match envelope_take(input) {
        Some((from, data, signature)) => if !spec_verifies(from, data, signature) {
            Err(MessageError::BadSignature)
        } else {
            match wire_decode(data) {
                Ok((timestamp, message)) => Ok(ReceivedView { timestamp, from, message }),
                Err(e) => Err(e),
            }
        },
        None => Err(MessageError::MalformedEnvelope),
    }
}

/// The bytes that `secret` sends for `message` at `timestamp`.
pub open spec fn sign_and_encode_spec(secret: Seq<u8>, timestamp: u64, message: MessageView) -> Seq<
    u8,
> {
    let data = wire_enc(timestamp, message);
    envelope_enc(spec_public_key(secret), data, spec_signature(secret, data))
}

/// Reading back a message gives the message and leaves what follows.
pub proof fn lemma_message_round_trip(m: MessageView, tail: Seq<u8>)
    requires
        message_fits(m),
    ensures
        message_take(message_enc(m) + tail) == Some((m, tail)),
{
    match m {
        MessageView::Presence { nickname } => {
            lemma_u32_fits(0);
            lemma_varint_round_trip(0, str_enc(nickname) + tail, 5, 15);
            lemma_str_round_trip(nickname, tail);
            assert(message_enc(m) + tail =~= varint(0) + (str_enc(nickname) + tail));
        },
        MessageView::Message { text, nickname } => {
            lemma_u32_fits(1);
            lemma_varint_round_trip(1, str_enc(text) + (str_enc(nickname) + tail), 5, 15);
            lemma_str_round_trip(text, str_enc(nickname) + tail);
            lemma_str_round_trip(nickname, tail);
            assert(message_enc(m) + tail =~= varint(1) + (str_enc(text) + (str_enc(nickname)
                + tail)));
        },
    }
}

/// Reading back a payload gives the timestamp and the message.
pub proof fn lemma_wire_round_trip(timestamp: u64, m: MessageView)
    requires
        message_fits(m),
    ensures
        wire_decode(wire_enc(timestamp, m)) == Ok::<_, MessageError>((timestamp, m)),
{
    let tail = Seq::<u8>::empty();
    lemma_u32_fits(0);
    lemma_varint_round_trip(0, varint(timestamp as nat) + (message_enc(m) + tail), 5, 15);
    lemma_u64_fits(timestamp as nat);
    lemma_varint_round_trip(timestamp as nat, message_enc(m) + tail, 10, 1);
    lemma_message_round_trip(m, tail);
    assert(wire_enc(timestamp, m) =~= varint(0) + (varint(timestamp as nat) + (message_enc(m)
        + tail)));
}

/// An envelope is split back into the parts it was made of, provided the
/// author's key is a valid key.
pub proof fn lemma_envelope_round_trip(from: Seq<u8>, data: Seq<u8>, signature: Seq<u8>)
    requires
        from.len() == 32,
        signature.len() == 64,
        data.len() <= usize::MAX,
    ensures
        spec_valid_key(from) ==> envelope_take(envelope_enc(from, data, signature)) == Some(
            (from, data, signature),
        ),
        !spec_valid_key(from) ==> envelope_take(envelope_enc(from, data, signature)) is None,
{
    let tail = Seq::<u8>::empty();
    lemma_fixed_round_trip(from, bytes_enc(data) + (signature + tail));
    lemma_bytes_round_trip(data, signature + tail);
    lemma_fixed_round_trip(signature, tail);
    assert(envelope_enc(from, data, signature) =~= from + (bytes_enc(data) + (signature + tail)));
}

/// An envelope whose signature verifies under a valid key decodes to the
/// message, the timestamp and the key that it was made of.
pub proof fn lemma_verified_envelope_decodes(
    from: Seq<u8>,
    timestamp: u64,
    message: MessageView,
    signature: Seq<u8>,
)
    requires
        from.len() == 32,
        signature.len() == 64,
        message_fits(message),
        wire_enc(timestamp, message).len() <= usize::MAX,
    ensures
        spec_valid_key(from) && spec_verifies(from, wire_enc(timestamp, message), signature)
            ==> verify_and_decode_spec(
            envelope_enc(from, wire_enc(timestamp, message), signature),
        ) == Ok::<_, MessageError>(ReceivedView { timestamp, from, message }),
{
    lemma_envelope_round_trip(from, wire_enc(timestamp, message), signature);
    lemma_wire_round_trip(timestamp, message);
}

/// An envelope whose signature does not verify over its payload under its
/// author's key is never decoded, whatever the payload holds.
pub proof fn lemma_unverified_envelope_rejected(from: Seq<u8>, data: Seq<u8>, signature: Seq<u8>)
    requires
        from.len() == 32,
        signature.len() == 64,
        data.len() <= usize::MAX,
    ensures
        !spec_verifies(from, data, signature) ==> verify_and_decode_spec(
            envelope_enc(from, data, signature),
        ) is Err,
{
    lemma_envelope_round_trip(from, data, signature);
}

impl Message {
    /// Appends the bytes of the message to `out`.
    pub fn encode_into(&self, out: &mut Vec<u8>)
        ensures
            final(out)@ == old(out)@ + message_enc(self@),
            message_fits(self@),
    {
        match self {
            Message::Presence { nickname } => {
                put_u64(out, 0);
                put_str(out, nickname.as_str());
                let n: usize = nickname.as_str().as_bytes().len();
                assert(out@ =~= old(out)@ + message_enc(self@));
            },
            Message::Message { text, nickname } => {
                put_u64(out, 1);
                put_str(out, text.as_str());
                put_str(out, nickname.as_str());
                let n: usize = nickname.as_str().as_bytes().len();
                let t: usize = text.as_str().as_bytes().len();
                assert(out@ =~= old(out)@ + message_enc(self@));
            },
        }
    }

    /// Reads a message from the front of `input` and hands back what
    /// follows it.
    pub fn take(input: &[u8]) -> (r: Option<(Message, &[u8])>)
        ensures
            match message_take(input@) {
                Some((m, rest)) => r matches Some((x, tail)) && x@ == m && tail@ == rest,
                None => r is None,
            },
    {
        let (kind, rest) = match take_u32(input) {
            Some(p) => p,
            None => return None,
        };
        if kind == 0 {
            match take_str(rest) {
                Some((nickname, rest)) => Some((Message::Presence { nickname }, rest)),
                None => None,
            }
        } else if kind == 1 {
            let (text, rest) = match take_str(rest) {
                Some(p) => p,
                None => return None,
            };
            match take_str(rest) {
                Some((nickname, rest)) => Some((Message::Message { text, nickname }, rest)),
                None => None,
            }
        } else {
            None
        }
    }
}

impl WireMessage {
    /// The payload bytes of this frame.
    pub fn encode(&self) -> (out: Vec<u8>)
        ensures
            self matches WireMessage::VO { timestamp, message } && out@ == wire_enc(
                *timestamp,
                message@,
            ) && message_fits(message@),
    {
        let mut out: Vec<u8> = Vec::new();
        match self {
            WireMessage::VO { timestamp, message } => {
                put_u64(&mut out, 0);
                put_u64(&mut out, *timestamp);
                message.encode_into(&mut out);
                assert(out@ =~= wire_enc(*timestamp, message@));
            },
        }
        out
    }

    /// Reads a frame from payload bytes. Bytes after the message are
    /// ignored.
    pub fn decode(data: &[u8]) -> (r: Result<WireMessage, MessageError>)
        ensures
            match wire_decode(data@) {
                Ok((ts, m)) => r matches Ok(WireMessage::VO { timestamp, message }) && timestamp
                    == ts && message@ == m,
                Err(e) => r matches Err(x) && x == e,
            },
    {
        let (version, rest) = match take_u32(data) {
            Some(p) => p,
            None => return Err(MessageError::MalformedPayload),
        };
        if version != 0 {
            return Err(MessageError::UnsupportedVersion);
        }
        let (timestamp, rest) = match take_u64(rest) {
            Some(p) => p,
            None => return Err(MessageError::MalformedPayload),
        };
        match Message::take(rest) {
            Some((message, _)) => Ok(WireMessage::VO { timestamp, message }),
            None => Err(MessageError::MalformedPayload),
        }
    }
}

/// The envelope that goes on the wire: who signed, what was signed, and the
/// signature.
#[derive(Clone, Debug, PartialEq, Eq)]
pub struct SignedMessage {
    from: NodeId,
    data: Vec<u8>,
    signature: Signature,
}

/// The mathematical content of a `SignedMessage`.
pub struct SignedView {
    pub from: Seq<u8>,
    pub data: Seq<u8>,
    pub signature: Seq<u8>,
}

impl View for SignedMessage {
    type V = SignedView;

    closed spec fn view(&self) -> SignedView {
        SignedView { from: self.from@, data: self.data@, signature: self.signature@ }
    }
}

impl SignedMessage {
    /// The bytes of the envelope.
    pub fn encode(&self) -> (out: Vec<u8>)
        ensures
            out@ == envelope_enc(self@.from, self@.data, self@.signature),
    {
        let mut out: Vec<u8> = Vec::new();
        put_raw(&mut out, self.from.as_bytes().as_slice());
        put_bytes(&mut out, self.data.as_slice());
        put_raw(&mut out, self.signature.bytes.as_slice());
        assert(out@ =~= envelope_enc(self@.from, self@.data, self@.signature));
        out
    }

    /// Reads an envelope. The signature is not checked here.
    pub fn decode(bytes: &[u8]) -> (r: Option<SignedMessage>)
        ensures
            match envelope_take(bytes@) {
                Some((from, data, signature)) => r matches Some(m) && m@ == (SignedView {
                    from,
                    data,
                    signature,
                }),
                None => r is None,
            },
    {
        let (key, rest) = match take_fixed(bytes, 32) {
            Some(p) => p,
            None => return None,
        };
        let from = match NodeId::from_bytes(&array32(key)) {
            Some(id) => id,
            None => return None,
        };
        let (data, rest) = match take_bytes(rest) {
            Some(p) => p,
            None => return None,
        };
        let (sig, _) = match take_fixed(rest, 64) {
            Some(p) => p,
            None => return None,
        };
        Some(
            SignedMessage {
                from,
                data: slice_to_vec(data),
                signature: Signature { bytes: array64(sig) },
            },
        )
    }

    /// Checks an incoming envelope and reads the message in it.
    ///
    /// The result is `Ok` exactly when the bytes are an envelope whose
    /// signature verifies over its payload under the embedded key and whose
    /// payload is a message of a known version. Otherwise the error says
    /// which of these failed first, and the caller drops the bytes.
    pub fn verify_and_decode(bytes: &[u8]) -> (r: Result<ReceivedMessage, MessageError>)
        ensures
            match verify_and_decode_spec(bytes@) {
                Ok(received) => r matches Ok(m) && m@ == received,
                Err(e) => r matches Err(x) && x == e,
            },
    {
        let signed = match SignedMessage::decode(bytes) {
            Some(m) => m,
            None => return Err(MessageError::MalformedEnvelope),
        };
        if !signed.from.verify(signed.data.as_slice(), &signed.signature) {
            return Err(MessageError::BadSignature);
        }
        match WireMessage::decode(signed.data.as_slice()) {
            Ok(WireMessage::VO { timestamp, message }) => Ok(
                ReceivedMessage { timestamp, from: signed.from, message },
            ),
            Err(e) => Err(e),
        }
    }

    /// Signs `message` as sent at `timestamp` and gives the bytes to
    /// broadcast.
    ///
    /// The bytes are the envelope of the serialized frame, signed with
    /// `secret_key`, and a receiver decodes them to the same message, the
    /// same timestamp and the public key of `secret_key`.
    pub fn sign_and_encode_at(secret_key: &SecretKey, message: Message, timestamp: u64) -> (out:
        Vec<u8>)
        ensures
            out@ == sign_and_encode_spec(secret_key@, timestamp, message@),
            verify_and_decode_spec(out@) == Ok::<_, MessageError>(
                ReceivedView {
                    timestamp,
                    from: spec_public_key(secret_key@),
                    message: message@,
                },
            ),
    {
        let wire_message = WireMessage::VO { timestamp, message };
        let data = wire_message.encode();
        let size: usize = data.len();
        let signature = secret_key.sign(data.as_slice());
        let from = secret_key.public();
        let signed_message = SignedMessage { from, data, signature };
        let encoded = signed_message.encode();
        proof {
            lemma_verified_envelope_decodes(from@, timestamp, message@, signature@);
        }
        encoded
    }

    /// Signs `message` with the current time and gives the bytes to
    /// broadcast. This never fails.
    ///
    /// Whatever the clock said, a receiver decodes the bytes to the same
    /// message and the public key of `secret_key`, with the timestamp that
    /// was signed.
    pub fn sign_and_encode(secret_key: &SecretKey, message: Message) -> (r: Result<
        Vec<u8>,
        MessageError,
    >)
        ensures
            r matches Ok(out) && verify_and_decode_spec(out@) matches Ok(received)
                && received.from == spec_public_key(secret_key@) && received.message == message@
                && out@ == sign_and_encode_spec(secret_key@, received.timestamp, message@),
    {
        let timestamp = get_timestamp();
        Ok(SignedMessage::sign_and_encode_at(secret_key, message, timestamp))
    }
}

} // verus!
