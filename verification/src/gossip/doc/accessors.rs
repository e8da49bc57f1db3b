//! Reading the document entry by entry, without stored records: a
//! nickname is kept as plain text under the peer's key, and a chat message
//! is made up from the key of its entry, the author of the entry and the
//! content.

use crate::gossip::doc::chat::{ChatLogError, ChatMessage, ChatMessageView};
use crate::gossip::doc::{key_timestamp, timestamp_of};
use crate::identity::{hex_lower, spec_valid_key, NodeId};
use crate::wire::text_from_utf8;
use vstd::prelude::*;
use vstd::string::{StrSliceExecFns, StringExecFns};
use vstd::utf8::{decode_utf8, valid_utf8};

verus! {

/// The nickname that stands in for a peer that has not set one: `peer:`
/// and the first six digits of its id.
pub open spec fn default_nickname_spec(sender: Seq<u8>) -> Seq<char> {
    "peer:"@ + hex_lower(sender).take(6)
}

/// The nickname that stands in for a peer that has not set one.
pub fn default_nickname(sender: &NodeId) -> (name: String)
    ensures
        name@ == default_nickname_spec(sender@),
{
    let text = sender.to_hex();
    proof {
        use_type_invariant(sender);
        assert(text@.len() == 64);
    }
    let short = text.as_str().substring_char(0, 6);
    assert(short@ =~= hex_lower(sender@).take(6));
    "peer:".to_owned().concat(short)
}

/// The nickname that is stored as the content of a peer's entry. `None`
/// content means that the peer has no entry.
pub fn get_nickname(content: Option<Vec<u8>>) -> (r: Result<Option<String>, ChatLogError>)
    ensures
        match content {
            None => r matches Ok(None),
            Some(bytes) => if valid_utf8(bytes@) {
                r matches Ok(Some(name)) && name@ == decode_utf8(bytes@)
            } else {
                r matches Err(e) && e == ChatLogError::MalformedMessage
            },
        },
{
    match content {
        None => Ok(None),
        Some(bytes) => match text_from_utf8(bytes) {
            Some(name) => Ok(Some(name)),
            None => Err(ChatLogError::MalformedMessage),
        },
    }
}

/// The message that an entry under `messages/` stands for. An entry whose
/// key is too short to hold a timestamp, a separator and an author is
/// skipped. The sender is the author of the entry, who must be a valid
/// public key; the nickname is the one given or, without one, the
/// stand-in.
pub open spec fn entry_message_spec(
    key: Seq<u8>,
    author: Seq<u8>,
    nickname: Option<Seq<char>>,
    content: Seq<char>,
) -> Result<Option<ChatMessageView>, ChatLogError> {
    if key.len() <= 18 {
        Ok(None)
    } else if !spec_valid_key(author) {
        Err(ChatLogError::InvalidAuthor)
    } else {
        Ok(
            Some(
                ChatMessageView {
                    sender_node_id: author,
                    nickname: match nickname {
                        Some(name) => name,
                        None => default_nickname_spec(author),
                    },
                    content,
                    timestamp: timestamp_of(key.subrange(9, 17)),
                },
            ),
        )
    }
}

/// The message that an entry under `messages/` stands for, from the key
/// of the entry, its author, the nickname stored for the author and the
/// content as text.
pub fn entry_message(key: &[u8], author: &[u8; 32], nickname: Option<String>, content: String) -> (r:
    Result<Option<ChatMessage>, ChatLogError>)
    ensures
        match entry_message_spec(
            key@,
            author@,
            match nickname {
                Some(name) => Some(name@),
                None => None,
            },
            content@,
        ) {
            Ok(Some(m)) => r matches Ok(Some(message)) && message@ == m,
            Ok(None) => r matches Ok(None),
            Err(e) => r matches Err(x) && x == e,
        },
{
    if key.len() > 9 + 8 + 1 {
        let timestamp = match key_timestamp(key) {
            Some(timestamp) => timestamp,
            None => return Ok(None),
        };
        let sender_node_id = match NodeId::from_bytes(author) {
            Some(id) => id,
            None => return Err(ChatLogError::InvalidAuthor),
        };
        let nickname = match nickname {
            Some(name) => name,
            None => default_nickname(&sender_node_id),
        };
        Ok(Some(ChatMessage { sender_node_id, nickname, content, timestamp }))
    } else {
        Ok(None)
    }
}

} // verus!
