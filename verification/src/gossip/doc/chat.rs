//! Chat messages in the shared document.
//!
//! A message is stored as its serialized record under a key that sorts by
//! timestamp. The log is read by walking the keys under `messages/` in
//! order; a stable sort by timestamp is applied all the same, in case the
//! entries did not arrive in order.

use crate::gossip::doc::{message_key, message_key_spec};
use crate::identity::{spec_valid_key, NodeId};
use crate::wire::{
    array32, fixed_take, lemma_fixed_round_trip, lemma_str_round_trip, lemma_u64_fits,
    lemma_varint_round_trip, put_raw, put_str, put_u64, str_enc, str_take, take_fixed, take_str,
    take_u64, take_u64_spec, varint,
};
use vstd::prelude::*;
use vstd::utf8::encode_utf8;

verus! {

/// A chat message as it is stored.
#[derive(Clone, Debug, PartialEq, Eq)]
pub struct ChatMessage {
    /// The node that sent the message.
    pub sender_node_id: NodeId,
    /// Nickname of the sender at the time of sending.
    pub nickname: String,
    /// Message payload.
    pub content: String,
    /// The sender's clock, in microseconds since the epoch.
    pub timestamp: u64,
}

/// The mathematical content of a `ChatMessage`.
pub struct ChatMessageView {
    pub sender_node_id: Seq<u8>,
    pub nickname: Seq<char>,
    pub content: Seq<char>,
    pub timestamp: u64,
}

impl View for ChatMessage {
    type V = ChatMessageView;

    open spec fn view(&self) -> ChatMessageView {
        ChatMessageView {
            sender_node_id: self.sender_node_id@,
            nickname: self.nickname@,
            content: self.content@,
            timestamp: self.timestamp,
        }
    }
}

/// The messages of `log`, in the same order.
pub open spec fn messages_of(log: Seq<ChatMessage>) -> Seq<ChatMessageView> {
    log.map_values(|m: ChatMessage| m@)
}

/// Whether the record can be held and sent: the sender is a valid key and
/// the texts fit in memory.
pub open spec fn chat_message_wf(m: ChatMessageView) -> bool {
    &&& m.sender_node_id.len() == 32
    &&& spec_valid_key(m.sender_node_id)
    &&& encode_utf8(m.nickname).len() <= usize::MAX
    &&& encode_utf8(m.content).len() <= usize::MAX
}

/// The stored bytes of a message: sender, nickname, content, timestamp.
pub open spec fn chat_message_enc(m: ChatMessageView) -> Seq<u8> {
    m.sender_node_id + str_enc(m.nickname) + str_enc(m.content) + varint(m.timestamp as nat)
}

/// Reads a stored message. Bytes after the timestamp are ignored.
pub open spec fn chat_message_decode(input: Seq<u8>) -> Option<ChatMessageView> {
    match fixed_take(input, 32) {
        Some((sender_node_id, rest)) => if !spec_valid_key(sender_node_id) {
            None
        } else {
            match str_take(rest) {
                Some((nickname, rest)) => match str_take(rest) {
                    Some((content, rest)) => match take_u64_spec(rest) {
                        Some((timestamp, _)) => Some(
                            ChatMessageView {
                                sender_node_id,
                                nickname,
                                content,
                                timestamp: timestamp as u64,
                            },
                        ),
                        None => None,
                    },
                    None => None,
                },
                None => None,
            }
        },
        None => None,
    }
}

/// Reading back a stored message gives the message.
pub proof fn lemma_chat_message_round_trip(m: ChatMessageView)
    requires
        chat_message_wf(m),
    ensures
        chat_message_decode(chat_message_enc(m)) == Some(m),
{
    let tail = Seq::<u8>::empty();
    let t = varint(m.timestamp as nat) + tail;
    lemma_fixed_round_trip(m.sender_node_id, str_enc(m.nickname) + (str_enc(m.content) + t));
    lemma_str_round_trip(m.nickname, str_enc(m.content) + t);
    lemma_str_round_trip(m.content, t);
    lemma_u64_fits(m.timestamp as nat);
    lemma_varint_round_trip(m.timestamp as nat, tail, 10, 1);
    assert(chat_message_enc(m) =~= m.sender_node_id + (str_enc(m.nickname) + (str_enc(m.content)
        + t)));
}

/// `log` with `m` put in after the last message that is not later than
/// `m`. The messages of `log` keep their order.
pub open spec fn insert_by_time(log: Seq<ChatMessageView>, m: ChatMessageView) -> Seq<
    ChatMessageView,
>
    decreases log.len(),
{
    if log.len() == 0 {
        seq![m]
    } else if log.last().timestamp <= m.timestamp {
        log.push(m)
    } else {
        insert_by_time(log.drop_last(), m).push(log.last())
    }
}

/// The messages sorted by timestamp; messages of one timestamp keep the
/// order in which they come in `messages`.
pub open spec fn sort_by_time(messages: Seq<ChatMessageView>) -> Seq<ChatMessageView>
    decreases messages.len(),
{
    if messages.len() == 0 {
        Seq::empty()
    } else {
        insert_by_time(sort_by_time(messages.drop_last()), messages.last())
    }
}

/// No message comes before an earlier one.
pub open spec fn ordered_by_time(log: Seq<ChatMessageView>) -> bool {
    forall|i: int, j: int|
        0 <= i < j < log.len() ==> (#[trigger] log[i]).timestamp <= (#[trigger] log[j]).timestamp
}

/// Putting a message into an ordered log leaves it ordered, adds that one
/// message and loses none.
pub proof fn lemma_insert_by_time(log: Seq<ChatMessageView>, m: ChatMessageView)
    requires
        ordered_by_time(log),
    ensures
        ordered_by_time(insert_by_time(log, m)),
        insert_by_time(log, m).len() == log.len() + 1,
        insert_by_time(log, m).to_multiset() == log.to_multiset().insert(m),
        forall|i: int|
            0 <= i < insert_by_time(log, m).len() ==> #[trigger] insert_by_time(log, m)[i] == m
                || log.contains(insert_by_time(log, m)[i]),
    decreases log.len(),
{
    broadcast use vstd::seq_lib::group_to_multiset_ensures;

    let r = insert_by_time(log, m);
    if log.len() == 0 {
        assert(r =~= log.push(m));
    } else if log.last().timestamp <= m.timestamp {
        assert forall|i: int, j: int| 0 <= i < j < r.len() implies (#[trigger] r[i]).timestamp <= (
        #[trigger] r[j]).timestamp by {
            if j == log.len() {
                if i < log.len() - 1 {
                    assert(log[i].timestamp <= log[log.len() - 1].timestamp);
                }
            }
        }
        assert forall|i: int| 0 <= i < r.len() implies #[trigger] r[i] == m || log.contains(
            r[i],
        ) by {
            if i < log.len() {
                assert(log[i] == r[i]);
            }
        }
    } else {
        let front = log.drop_last();
        let last = log.last();
        assert(ordered_by_time(front)) by {
            assert forall|i: int, j: int| 0 <= i < j < front.len() implies (
            #[trigger] front[i]).timestamp <= (#[trigger] front[j]).timestamp by {
                assert(front[i] == log[i] && front[j] == log[j]);
            }
        }
        lemma_insert_by_time(front, m);
        let inner = insert_by_time(front, m);
        assert(r == inner.push(last));
        assert forall|i: int, j: int| 0 <= i < j < r.len() implies (#[trigger] r[i]).timestamp <= (
        #[trigger] r[j]).timestamp by {
            if j == inner.len() {
                assert(r[i] == inner[i]);
                if inner[i] != m {
                    assert(front.contains(inner[i]));
                    let k = choose|k: int| 0 <= k < front.len() && front[k] == inner[i];
                    assert(log[k].timestamp <= log[log.len() - 1].timestamp);
                }
            } else {
                assert(r[i] == inner[i] && r[j] == inner[j]);
            }
        }
        assert(log =~= front.push(last));
        assert(r.to_multiset() =~= log.to_multiset().insert(m));
        assert forall|i: int| 0 <= i < r.len() implies #[trigger] r[i] == m || log.contains(
            r[i],
        ) by {
            if i < inner.len() {
                assert(r[i] == inner[i]);
                if inner[i] != m {
                    let k = choose|k: int| 0 <= k < front.len() && front[k] == inner[i];
                    assert(log[k] == r[i]);
                }
            } else {
                assert(log[log.len() - 1] == r[i]);
            }
        }
    }
}

/// The sorted log is ordered by timestamp and holds the same messages, each
/// as often as it was given.
pub proof fn lemma_sort_by_time(messages: Seq<ChatMessageView>)
    ensures
        ordered_by_time(sort_by_time(messages)),
        sort_by_time(messages).len() == messages.len(),
        sort_by_time(messages).to_multiset() == messages.to_multiset(),
    decreases messages.len(),
{
    broadcast use vstd::seq_lib::group_to_multiset_ensures;

    if messages.len() == 0 {
        assert(sort_by_time(messages).to_multiset() =~= messages.to_multiset());
    } else {
        lemma_sort_by_time(messages.drop_last());
        lemma_insert_by_time(sort_by_time(messages.drop_last()), messages.last());
        assert(messages =~= messages.drop_last().push(messages.last()));
    }
}

/// A log that is already ordered is left as it is.
pub proof fn lemma_sort_keeps_ordered(messages: Seq<ChatMessageView>)
    requires
        ordered_by_time(messages),
    ensures
        sort_by_time(messages) == messages,
    decreases messages.len(),
{
    if messages.len() > 0 {
        let front = messages.drop_last();
        assert(ordered_by_time(front)) by {
            assert forall|i: int, j: int| 0 <= i < j < front.len() implies (
            #[trigger] front[i]).timestamp <= (#[trigger] front[j]).timestamp by {
                assert(front[i] == messages[i] && front[j] == messages[j]);
            }
        }
        lemma_sort_keeps_ordered(front);
        if front.len() > 0 {
            assert(front.last() == messages[messages.len() - 2]);
            assert(messages[messages.len() - 2].timestamp <= messages[messages.len()
                - 1].timestamp);
        }
        assert(front.push(messages.last()) =~= messages);
    } else {
        assert(sort_by_time(messages) =~= messages);
    }
}

/// Why the message log could not be read or written.
#[derive(Clone, Copy, Debug, PartialEq, Eq, Structural)]
pub enum ChatLogError {
    /// The content of an entry is not a stored message.
    MalformedMessage,
    /// The author of an entry is not a valid public key.
    InvalidAuthor,
}

/// What is written to the document for one outgoing message.
#[derive(Clone, Debug, PartialEq, Eq)]
pub struct OutgoingEntry {
    pub key: Vec<u8>,
    pub value: Vec<u8>,
}

impl ChatMessage {
    /// A copy of the message.
    pub fn duplicate(&self) -> (copy: ChatMessage)
        ensures
            copy@ == self@,
    {
        ChatMessage {
            sender_node_id: self.sender_node_id,
            nickname: self.nickname.clone(),
            content: self.content.clone(),
            timestamp: self.timestamp,
        }
    }

    /// The bytes under which the message is stored. Reading them back
    /// gives the message.
    pub fn encode(&self) -> (out: Vec<u8>)
        ensures
            out@ == chat_message_enc(self@),
            chat_message_decode(out@) == Some(self@),
    {
        let mut out: Vec<u8> = Vec::new();
        put_raw(&mut out, self.sender_node_id.as_bytes().as_slice());
        put_str(&mut out, self.nickname.as_str());
        put_str(&mut out, self.content.as_str());
        put_u64(&mut out, self.timestamp);
        proof {
            use_type_invariant(&self.sender_node_id);
            assert(out@ =~= chat_message_enc(self@));
        }
        let n: usize = self.nickname.as_str().as_bytes().len();
        let c: usize = self.content.as_str().as_bytes().len();
        proof {
            lemma_chat_message_round_trip(self@);
        }
        out
    }

    /// Reads a stored message. Bytes after the timestamp are ignored.
    pub fn decode(bytes: &[u8]) -> (r: Option<ChatMessage>)
        ensures
            match chat_message_decode(bytes@) {
                Some(m) => r matches Some(message) && message@ == m,
                None => r is None,
            },
    {
        let (sender, rest) = match take_fixed(bytes, 32) {
            Some(p) => p,
            None => return None,
        };
        let sender_node_id = match NodeId::from_bytes(&array32(sender)) {
            Some(id) => id,
            None => return None,
        };
        let (nickname, rest) = match take_str(rest) {
            Some(p) => p,
            None => return None,
        };
        let (content, rest) = match take_str(rest) {
            Some(p) => p,
            None => return None,
        };
        let (timestamp, _) = match take_u64(rest) {
            Some(p) => p,
            None => return None,
        };
        Some(ChatMessage { sender_node_id, nickname, content, timestamp })
    }
}

/// The entry to write for a message that the node `sender` sends under the
/// nickname `name` at `timestamp`, as the document author `author_id`: the
/// key that sorts by timestamp, and the stored bytes of the message.
pub fn send_message(
    sender: NodeId,
    author_id: &[u8; 32],
    name: &str,
    message_content: &str,
    timestamp: u64,
) -> (entry: OutgoingEntry)
    ensures
        entry.key@ == message_key_spec(timestamp, author_id@),
        chat_message_decode(entry.value@) == Some(
            ChatMessageView {
                sender_node_id: sender@,
                nickname: name@,
                content: message_content@,
                timestamp,
            },
        ),
{
    let key = message_key(timestamp, author_id);
    let chat_message = ChatMessage {
        timestamp,
        sender_node_id: sender,
        nickname: name.to_owned(),
        content: message_content.to_owned(),
    };
    OutgoingEntry { key, value: chat_message.encode() }
}

/// Puts `m` into the ordered log after the last message that is not later.
pub fn insert_message(log: &mut Vec<ChatMessage>, m: ChatMessage)
    ensures
        messages_of(final(log)@) == insert_by_time(messages_of(old(log)@), m@),
{
    let mut i: usize = log.len();
    let ghost before = messages_of(log@);
    assert(before.take(i as int) =~= before);
    while i > 0 && log[i - 1].timestamp > m.timestamp
        invariant
            i <= log.len(),
            *log == *old(log),
            before == messages_of(log@),
            insert_by_time(before, m@) == insert_by_time(before.take(i as int), m@)
                + before.skip(i as int),
        decreases i,
    {
        proof {
            let front = before.take(i as int);
            assert(front.last() == before[i - 1]);
            assert(front.drop_last() =~= before.take(i - 1));
            assert(insert_by_time(front.drop_last(), m@).push(front.last()) + before.skip(
                i as int,
            ) =~= insert_by_time(before.take(i - 1), m@) + before.skip(i - 1));
        }
        i -= 1;
    }
    proof {
        let front = before.take(i as int);
        if i > 0 {
            assert(front.last() == before[i - 1]);
        }
        assert(insert_by_time(front, m@) =~= front.push(m@));
        assert(messages_of(log@.insert(i as int, m)) =~= front.push(m@) + before.skip(i as int));
    }
    log.insert(i, m);
}

/// Sorts messages by timestamp; messages of one timestamp keep their
/// order.
pub fn sort_messages(messages: Vec<ChatMessage>) -> (log: Vec<ChatMessage>)
    ensures
        messages_of(log@) == sort_by_time(messages_of(messages@)),
        ordered_by_time(messages_of(log@)),
        messages_of(log@).to_multiset() == messages_of(messages@).to_multiset(),
{
    let mut log: Vec<ChatMessage> = Vec::new();
    let mut i: usize = 0;
    let ghost all = messages_of(messages@);
    assert(messages_of(log@) =~= sort_by_time(all.take(0)));
    while i < messages.len()
        invariant
            i <= messages.len(),
            all == messages_of(messages@),
            messages_of(log@) == sort_by_time(all.take(i as int)),
        decreases messages.len() - i,
    {
        insert_message(&mut log, messages[i].duplicate());
        proof {
            let next = all.take(i + 1);
            assert(next.drop_last() =~= all.take(i as int));
            assert(next.last() == messages@[i as int]@);
        }
        i += 1;
    }
    proof {
        assert(all.take(messages.len() as int) =~= all);
        lemma_sort_by_time(all);
    }
    log
}

/// The messages that the given contents stand for, in the order given.
pub open spec fn decode_all(contents: Seq<Seq<u8>>) -> Option<Seq<ChatMessageView>>
    decreases contents.len(),
{
    if contents.len() == 0 {
        Some(Seq::empty())
    } else {
        match decode_all(contents.drop_last()) {
            Some(front) => match chat_message_decode(contents.last()) {
                Some(m) => Some(front.push(m)),
                None => None,
            },
            None => None,
        }
    }
}

/// The contents of `entries`, in the same order.
pub open spec fn contents_of(entries: Seq<Vec<u8>>) -> Seq<Seq<u8>> {
    entries.map_values(|e: Vec<u8>| e@)
}

/// The message log, from the contents of the entries under `messages/` in
/// the order of their keys: every content is read as a stored message, and
/// the messages are sorted by timestamp, those of one timestamp in the
/// order of their keys. A content that is not a stored message fails the
/// whole read.
pub fn get_messages(contents: &Vec<Vec<u8>>) -> (r: Result<Vec<ChatMessage>, ChatLogError>)
    ensures
        match decode_all(contents_of(contents@)) {
            Some(messages) => r matches Ok(log) && messages_of(log@) == sort_by_time(messages)
                && ordered_by_time(messages_of(log@)) && messages_of(log@).to_multiset()
                == messages.to_multiset(),
            None => r == Err::<Vec<ChatMessage>, _>(ChatLogError::MalformedMessage),
        },
{
    let mut messages: Vec<ChatMessage> = Vec::new();
    let mut i: usize = 0;
    let ghost all = contents_of(contents@);
    assert(decode_all(all.take(0)) == Some(messages_of(messages@))) by {
        assert(messages_of(messages@) =~= Seq::empty());
    }
    while i < contents.len()
        invariant
            i <= contents.len(),
            all == contents_of(contents@),
            decode_all(all.take(i as int)) == Some(messages_of(messages@)),
        decreases contents.len() - i,
    {
        proof {
            let next = all.take(i + 1);
            assert(next.drop_last() =~= all.take(i as int));
            assert(next.last() == contents@[i as int]@);
        }
        let ghost prev = messages@;
        match ChatMessage::decode(contents[i].as_slice()) {
            Some(message) => {
                messages.push(message);
                assert(messages_of(messages@) =~= messages_of(prev).push(message@));
            },
            None => {
                proof {
                    lemma_decode_all_prefix(all, i + 1);
                }
                return Err(ChatLogError::MalformedMessage);
            },
        }
        i += 1;
    }
    assert(all.take(contents.len() as int) =~= all);
    Ok(sort_messages(messages))
}

/// When a front part of the contents cannot be read, the whole cannot.
pub proof fn lemma_decode_all_prefix(contents: Seq<Seq<u8>>, n: int)
    requires
        0 <= n <= contents.len(),
        decode_all(contents.take(n)) is None,
    ensures
        decode_all(contents) is None,
    decreases contents.len(),
{
    if n < contents.len() {
        assert(contents.drop_last().take(n) =~= contents.take(n));
        lemma_decode_all_prefix(contents.drop_last(), n);
    } else {
        assert(contents.take(n) =~= contents);
    }
}

} // verus!
