//! The events of a room that is kept in a shared document, and the
//! listener that derives them from what the replication engine reports.
//!
//! An entry that arrives without its content is remembered and taken up
//! again when the engine reports that the content is there. Content that
//! cannot be read, or that is not what its key promises, is skipped: the
//! listener goes on with the next report.

use crate::gossip::doc::chat::{chat_message_decode, ChatMessage, ChatMessageView};
use crate::gossip::doc::peers::{peer_info_decode, PeerInfo, PeerInfoView};
use crate::gossip::doc::{messages_prefix, peers_prefix, starts_with, MESSAGES_PREFIX, PEERS_PREFIX};
use crate::identity::NodeId;
use crate::order::bytes_equal;
use vstd::prelude::*;

verus! {

/// The hash by which the content of an entry is found.
#[derive(Clone, Copy, Debug, PartialEq, Eq, Hash)]
pub struct ContentHash {
    pub bytes: [u8; 32],
}

impl View for ContentHash {
    type V = Seq<u8>;

    open spec fn view(&self) -> Seq<u8> {
        self.bytes@
    }
}

impl ContentHash {
    /// Whether two hashes are the same.
    pub fn same(&self, other: &ContentHash) -> (same: bool)
        ensures
            same == (self@ == other@),
    {
        bytes_equal(self.bytes.as_slice(), other.bytes.as_slice())
    }
}

/// How much of an entry's content is in the local store.
#[derive(Clone, Copy, Debug, PartialEq, Eq, Structural)]
pub enum ContentStatus {
    Complete,
    Incomplete,
    Missing,
}

/// What the replication engine reports about the document.
#[derive(Clone, Debug, PartialEq, Eq)]
pub enum LiveEvent {
    /// This node wrote an entry.
    InsertLocal { key: Vec<u8>, hash: ContentHash },
    /// Another node's entry arrived.
    InsertRemote { key: Vec<u8>, hash: ContentHash, content_status: ContentStatus },
    /// The content with this hash is now in the local store.
    ContentReady { hash: ContentHash },
    /// All content that was asked for has arrived or failed.
    PendingContentReady,
    /// A node became a direct neighbor.
    NeighborUp(NodeId),
    /// A direct neighbor went away.
    NeighborDown(NodeId),
    /// A sync with another node has finished.
    SyncFinished,
}

/// The mathematical content of a `LiveEvent`.
pub enum LiveEventView {
    InsertLocal { key: Seq<u8>, hash: Seq<u8> },
    InsertRemote { key: Seq<u8>, hash: Seq<u8>, content_status: ContentStatus },
    ContentReady { hash: Seq<u8> },
    PendingContentReady,
    NeighborUp(Seq<u8>),
    NeighborDown(Seq<u8>),
    SyncFinished,
}

impl View for LiveEvent {
    type V = LiveEventView;

    open spec fn view(&self) -> LiveEventView {
        match self {
            LiveEvent::InsertLocal { key, hash } => LiveEventView::InsertLocal {
                key: key@,
                hash: hash@,
            },
            LiveEvent::InsertRemote { key, hash, content_status } => LiveEventView::InsertRemote {
                key: key@,
                hash: hash@,
                content_status: *content_status,
            },
            LiveEvent::ContentReady { hash } => LiveEventView::ContentReady { hash: hash@ },
            LiveEvent::PendingContentReady => LiveEventView::PendingContentReady,
            LiveEvent::NeighborUp(id) => LiveEventView::NeighborUp(id@),
            LiveEvent::NeighborDown(id) => LiveEventView::NeighborDown(id@),
            LiveEvent::SyncFinished => LiveEventView::SyncFinished,
        }
    }
}

/// What the application is told.
#[derive(Clone, Debug, PartialEq, Eq)]
pub enum Event {
    NeighborUp { node_id: NodeId },
    NeighborDown { node_id: NodeId },
    Errorred { message: String },
    Disconnected,
    SyncFinished,
    PeerUpdate { info: PeerInfo },
    NewMessage { message: ChatMessage },
    ContentReady,
    PendingContentReady,
}

/// The mathematical content of an `Event`.
pub enum EventView {
    NeighborUp { node_id: Seq<u8> },
    NeighborDown { node_id: Seq<u8> },
    Errorred { message: Seq<char> },
    Disconnected,
    SyncFinished,
    PeerUpdate { info: PeerInfoView },
    NewMessage { message: ChatMessageView },
    ContentReady,
    PendingContentReady,
}

impl View for Event {
    type V = EventView;

    open spec fn view(&self) -> EventView {
        match self {
            Event::NeighborUp { node_id } => EventView::NeighborUp { node_id: node_id@ },
            Event::NeighborDown { node_id } => EventView::NeighborDown { node_id: node_id@ },
            Event::Errorred { message } => EventView::Errorred { message: message@ },
            Event::Disconnected => EventView::Disconnected,
            Event::SyncFinished => EventView::SyncFinished,
            Event::PeerUpdate { info } => EventView::PeerUpdate { info: info@ },
            Event::NewMessage { message } => EventView::NewMessage { message: message@ },
            Event::ContentReady => EventView::ContentReady,
            Event::PendingContentReady => EventView::PendingContentReady,
        }
    }
}

/// What the key of an entry says about its content.
#[derive(Clone, Copy, Debug, PartialEq, Eq, Structural)]
pub enum EntryKind {
    /// A peer record: the key starts with `peers/`.
    Peer,
    /// A chat message: the key starts with `messages/`.
    Message,
    /// Something this library does not read.
    Other,
}

/// The kind of entry that `key` names.
pub open spec fn entry_kind_spec(key: Seq<u8>) -> EntryKind {
    if peers_prefix().is_prefix_of(key) {
        EntryKind::Peer
    } else if messages_prefix().is_prefix_of(key) {
        EntryKind::Message
    } else {
        EntryKind::Other
    }
}

/// The event that an entry gives rise to, from its key and its content;
/// `None` content means that the content could not be read. A peer record
/// gives a peer update, a stored message a new message, and everything
/// else, unreadable or malformed content included, gives nothing.
pub open spec fn entry_event_spec(key: Seq<u8>, content: Option<Seq<u8>>) -> Option<EventView> {
    match content {
        None => None,
        Some(bytes) => match entry_kind_spec(key) {
            EntryKind::Peer => match peer_info_decode(bytes) {
                Some(info) => Some(EventView::PeerUpdate { info }),
                None => None,
            },
            EntryKind::Message => match chat_message_decode(bytes) {
                Some(message) => Some(EventView::NewMessage { message }),
                None => None,
            },
            EntryKind::Other => None,
        },
    }
}

/// The kind of entry that `key` names.
pub fn entry_kind(key: &[u8]) -> (kind: EntryKind)
    ensures
        kind == entry_kind_spec(key@),
{
    assert(PEERS_PREFIX@ =~= peers_prefix());
    assert(MESSAGES_PREFIX@ =~= messages_prefix());
    if starts_with(key, PEERS_PREFIX.as_slice()) {
        EntryKind::Peer
    } else if starts_with(key, MESSAGES_PREFIX.as_slice()) {
        EntryKind::Message
    } else {
        EntryKind::Other
    }
}

/// The event to emit for an entry, from its key and its content; `None`
/// content means that the content could not be read.
pub fn process_entry_for_updates(key: &[u8], content: Option<&[u8]>) -> (event: Option<Event>)
    ensures
        match entry_event_spec(
            key@,
            match content {
                Some(bytes) => Some(bytes@),
                None => None,
            },
        ) {
            Some(e) => event matches Some(x) && x@ == e,
            None => event is None,
        },
{
    let bytes = match content {
        Some(bytes) => bytes,
        None => return None,
    };
    match entry_kind(key) {
        EntryKind::Peer => match PeerInfo::decode(bytes) {
            Some(info) => Some(Event::PeerUpdate { info }),
            None => None,
        },
        EntryKind::Message => match ChatMessage::decode(bytes) {
            Some(message) => Some(Event::NewMessage { message }),
            None => None,
        },
        EntryKind::Other => None,
    }
}

/// An entry whose content is to be read and processed.
#[derive(Clone, Debug, PartialEq, Eq)]
pub struct EntryRef {
    pub key: Vec<u8>,
    pub hash: ContentHash,
}

/// The mathematical content of an `EntryRef`: the hash and the key.
pub type EntryView = (Seq<u8>, Seq<u8>);

/// What the listener asks for after one report of the engine.
#[derive(Clone, Debug, PartialEq, Eq)]
pub struct ListenerStep {
    /// An event to emit at once.
    pub emit: Option<Event>,
    /// An entry to read and hand to `process_entry_for_updates` after
    /// that.
    pub process: Option<EntryRef>,
}

/// No two remembered entries have the same hash.
pub open spec fn distinct_hashes(pending: Seq<EntryView>) -> bool {
    forall|i: int, j: int|
        0 <= i < pending.len() && 0 <= j < pending.len() && i != j ==> (#[trigger] pending[i]).0
            != (#[trigger] pending[j]).0
}

/// Whether an entry with this hash is remembered.
pub open spec fn is_pending(pending: Seq<EntryView>, hash: Seq<u8>) -> bool {
    exists|i: int| 0 <= i < pending.len() && (#[trigger] pending[i]).0 == hash
}

/// The position of the remembered entry with this hash.
pub open spec fn pending_index(pending: Seq<EntryView>, hash: Seq<u8>) -> int {
    choose|i: int| 0 <= i < pending.len() && (#[trigger] pending[i]).0 == hash
}

/// The remembered entries after `key` was remembered under `hash`: a key
/// that was remembered under the same hash is replaced.
pub open spec fn remembered(pending: Seq<EntryView>, hash: Seq<u8>, key: Seq<u8>) -> Seq<
    EntryView,
> {
    if is_pending(pending, hash) {
        pending.update(pending_index(pending, hash), (hash, key))
    } else {
        pending.push((hash, key))
    }
}

/// The remembered entries after the one with this hash was taken out.
pub open spec fn forgotten(pending: Seq<EntryView>, hash: Seq<u8>) -> Seq<EntryView> {
    if is_pending(pending, hash) {
        pending.remove(pending_index(pending, hash))
    } else {
        pending
    }
}

/// The remembered entries after a report of the engine: a remote entry
/// whose content is not complete is remembered, and an entry whose content
/// has become ready is taken out.
pub open spec fn pending_after(pending: Seq<EntryView>, event: LiveEventView) -> Seq<EntryView> {
    match event {
        LiveEventView::InsertRemote { key, hash, content_status } => if content_status
            == ContentStatus::Complete {
            pending
        } else {
            remembered(pending, hash, key)
        },
        LiveEventView::ContentReady { hash } => forgotten(pending, hash),
        _ => pending,
    }
}

/// The event to emit at once for a report of the engine.
pub open spec fn emitted(event: LiveEventView) -> Option<EventView> {
    match event {
        LiveEventView::SyncFinished => Some(EventView::SyncFinished),
        LiveEventView::NeighborUp(node_id) => Some(EventView::NeighborUp { node_id }),
        LiveEventView::NeighborDown(node_id) => Some(EventView::NeighborDown { node_id }),
        LiveEventView::ContentReady { .. } => Some(EventView::ContentReady),
        LiveEventView::PendingContentReady => Some(EventView::PendingContentReady),
        _ => None,
    }
}

/// The entry to read and process for a report of the engine: a local
/// entry, a remote entry that came with its content, or a remembered entry
/// whose content has become ready.
pub open spec fn to_process(pending: Seq<EntryView>, event: LiveEventView) -> Option<EntryView> {
    match event {
        LiveEventView::InsertLocal { key, hash } => Some((hash, key)),
        LiveEventView::InsertRemote { key, hash, content_status } => if content_status
            == ContentStatus::Complete {
            Some((hash, key))
        } else {
            None
        },
        LiveEventView::ContentReady { hash } => if is_pending(pending, hash) {
            Some(pending[pending_index(pending, hash)])
        } else {
            None
        },
        _ => None,
    }
}

/// Remembering and forgetting keep the hashes distinct.
pub proof fn lemma_pending_distinct(pending: Seq<EntryView>, event: LiveEventView)
    requires
        distinct_hashes(pending),
    ensures
        distinct_hashes(pending_after(pending, event)),
{
    let r = pending_after(pending, event);
    match event {
        LiveEventView::InsertRemote { key, hash, content_status } => {
            if content_status != ContentStatus::Complete {
                if is_pending(pending, hash) {
                    assert forall|a: int, b: int|
                        0 <= a < r.len() && 0 <= b < r.len() && a != b implies (#[trigger] r[a]).0
                        != (#[trigger] r[b]).0 by {
                        assert(r[a].0 == pending[a].0 && r[b].0 == pending[b].0);
                    }
                } else {
                    assert forall|a: int, b: int|
                        0 <= a < r.len() && 0 <= b < r.len() && a != b implies (#[trigger] r[a]).0
                        != (#[trigger] r[b]).0 by {
                        if a < pending.len() {
                            assert(r[a] == pending[a]);
                        }
                        if b < pending.len() {
                            assert(r[b] == pending[b]);
                        }
                    }
                }
            }
        },
        LiveEventView::ContentReady { hash } => {
            if is_pending(pending, hash) {
                let i = pending_index(pending, hash);
                assert forall|a: int, b: int|
                    0 <= a < r.len() && 0 <= b < r.len() && a != b implies (#[trigger] r[a]).0 != (
                #[trigger] r[b]).0 by {
                    let aa = if a < i { a } else { a + 1 };
                    let bb = if b < i { b } else { b + 1 };
                    assert(r[a] == pending[aa] && r[b] == pending[bb]);
                }
            }
        },
        _ => {},
    }
}

/// An entry that arrived without its content is processed when its content
/// becomes ready, and only once: after that it is no longer remembered.
pub proof fn lemma_pending_entry_is_retried(
    pending: Seq<EntryView>,
    key: Seq<u8>,
    hash: Seq<u8>,
    status: ContentStatus,
)
    requires
        distinct_hashes(pending),
        status != ContentStatus::Complete,
    ensures
        ({
            let arrived = LiveEventView::InsertRemote { key, hash, content_status: status };
            let ready = LiveEventView::ContentReady { hash };
            let waiting = pending_after(pending, arrived);
            &&& to_process(pending, arrived) is None
            &&& to_process(waiting, ready) == Some((hash, key))
            &&& !is_pending(pending_after(waiting, ready), hash)
            &&& to_process(pending_after(waiting, ready), ready) is None
        }),
{
    let arrived = LiveEventView::InsertRemote { key, hash, content_status: status };
    let ready = LiveEventView::ContentReady { hash };
    let waiting = pending_after(pending, arrived);
    lemma_pending_distinct(pending, arrived);
    if is_pending(pending, hash) {
        let i = pending_index(pending, hash);
        assert(waiting[i] == (hash, key));
    } else {
        assert(waiting[pending.len() as int] == (hash, key));
    }
    assert(is_pending(waiting, hash));
    let k = pending_index(waiting, hash);
    assert(waiting[k].0 == hash);
    assert(waiting[k] == (hash, key));
    let after = pending_after(waiting, ready);
    if is_pending(after, hash) {
        let j = pending_index(after, hash);
        let jj = if j < k { j } else { j + 1 };
        assert(after[j] == waiting[jj]);
        assert(false);
    }
}

/// The entries of `entries`, each as its hash and key.
pub open spec fn entries_of(entries: Seq<EntryRef>) -> Seq<EntryView> {
    entries.map_values(|e: EntryRef| (e.hash@, e.key@))
}

/// A copy of the bytes.
fn copy_bytes(bytes: &Vec<u8>) -> (out: Vec<u8>)
    ensures
        out@ == bytes@,
{
    vstd::slice::slice_to_vec(bytes.as_slice())
}

/// The listener of a room: it remembers the entries that are waiting for
/// their content.
#[derive(Debug, PartialEq, Eq)]
pub struct Listener {
    pending: Vec<EntryRef>,
}

impl View for Listener {
    type V = Seq<EntryView>;

    closed spec fn view(&self) -> Seq<EntryView> {
        entries_of(self.pending@)
    }
}

impl Listener {
    /// No two remembered entries have the same hash.
    #[verifier::type_invariant]
    pub open spec fn wf(&self) -> bool {
        distinct_hashes(self@)
    }

    /// A listener that remembers nothing.
    pub fn new() -> (listener: Listener)
        ensures
            listener@ == Seq::<EntryView>::empty(),
    {
        let listener = Listener { pending: Vec::new() };
        assert(listener@ =~= Seq::<EntryView>::empty());
        listener
    }

    /// The number of entries that are waiting for their content.
    pub fn pending_len(&self) -> (n: usize)
        ensures
            n == self@.len(),
    {
        self.pending.len()
    }

    /// The position of the remembered entry with this hash.
    fn position(&self, hash: &ContentHash) -> (found: Option<usize>)
        ensures
            match found {
                Some(i) => i < self@.len() && is_pending(self@, hash@) && pending_index(
                    self@,
                    hash@,
                ) == i,
                None => !is_pending(self@, hash@),
            },
    {
        proof {
            use_type_invariant(self);
        }
        let mut i: usize = 0;
        while i < self.pending.len()
            invariant
                i <= self.pending.len(),
                distinct_hashes(self@),
                forall|j: int| 0 <= j < i ==> (#[trigger] self@[j]).0 != hash@,
            decreases self.pending.len() - i,
        {
            if self.pending[i].hash.same(hash) {
                assert(self@[i as int].0 == hash@);
                return Some(i);
            }
            i += 1;
        }
        None
    }

    /// Remembers `key` under `hash`.
    fn remember(&mut self, hash: ContentHash, key: Vec<u8>)
        ensures
            final(self)@ == remembered(old(self)@, hash@, key@),
    {
        proof {
            use_type_invariant(&*self);
            lemma_pending_distinct(
                self@,
                LiveEventView::InsertRemote {
                    key: key@,
                    hash: hash@,
                    content_status: ContentStatus::Missing,
                },
            );
        }
        let found = self.position(&hash);
        let mut pending: Vec<EntryRef> = Vec::new();
        proof {
            assert(entries_of(pending@) =~= Seq::<EntryView>::empty());
        }
        std::mem::swap(&mut self.pending, &mut pending);
        match found {
            Some(i) => {
                pending.remove(i);
                pending.insert(i, EntryRef { key, hash });
                assert(entries_of(pending@) =~= old(self)@.update(i as int, (hash@, key@)));
            },
            None => {
                pending.push(EntryRef { key, hash });
                assert(entries_of(pending@) =~= old(self)@.push((hash@, key@)));
            },
        }
        self.pending = pending;
    }

    /// Takes out the remembered entry with this hash, if there is one.
    fn forget(&mut self, hash: &ContentHash) -> (entry: Option<EntryRef>)
        ensures
            final(self)@ == forgotten(old(self)@, hash@),
            match entry {
                Some(e) => is_pending(old(self)@, hash@) && (e.hash@, e.key@) == old(
                    self,
                )@[pending_index(old(self)@, hash@)],
                None => !is_pending(old(self)@, hash@),
            },
    {
        proof {
            use_type_invariant(&*self);
            lemma_pending_distinct(self@, LiveEventView::ContentReady { hash: hash@ });
        }
        match self.position(hash) {
            Some(i) => {
                let mut pending: Vec<EntryRef> = Vec::new();
                proof {
                    assert(entries_of(pending@) =~= Seq::<EntryView>::empty());
                }
                std::mem::swap(&mut self.pending, &mut pending);
                let entry = pending.remove(i);
                assert(entries_of(pending@) =~= old(self)@.remove(i as int));
                assert(old(self)@[i as int] == (entry.hash@, entry.key@));
                self.pending = pending;
                Some(entry)
            },
            None => None,
        }
    }

    /// Takes in one report of the engine and says what to emit and which
    /// entry to read and process.
    pub fn on_event(&mut self, event: &LiveEvent) -> (step: ListenerStep)
        ensures
            final(self)@ == pending_after(old(self)@, event@),
            match emitted(event@) {
                Some(e) => step.emit matches Some(x) && x@ == e,
                None => step.emit is None,
            },
            match to_process(old(self)@, event@) {
                Some(entry) => step.process matches Some(e) && (e.hash@, e.key@) == entry,
                None => step.process is None,
            },
    {
        match event {
            LiveEvent::InsertLocal { key, hash } => ListenerStep {
                emit: None,
                process: Some(EntryRef { key: copy_bytes(key), hash: *hash }),
            },
            LiveEvent::InsertRemote { key, hash, content_status } => {
                match content_status {
                    ContentStatus::Complete => ListenerStep {
                        emit: None,
                        process: Some(EntryRef { key: copy_bytes(key), hash: *hash }),
                    },
                    ContentStatus::Incomplete | ContentStatus::Missing => {
                        self.remember(*hash, copy_bytes(key));
                        ListenerStep { emit: None, process: None }
                    },
                }
            },
            LiveEvent::SyncFinished => ListenerStep {
                emit: Some(Event::SyncFinished),
                process: None,
            },
            LiveEvent::NeighborUp(node_id) => ListenerStep {
                emit: Some(Event::NeighborUp { node_id: *node_id }),
                process: None,
            },
            LiveEvent::NeighborDown(node_id) => ListenerStep {
                emit: Some(Event::NeighborDown { node_id: *node_id }),
                process: None,
            },
            LiveEvent::ContentReady { hash } => {
                let process = self.forget(hash);
                ListenerStep { emit: Some(Event::ContentReady), process }
            },
            LiveEvent::PendingContentReady => ListenerStep {
                emit: Some(Event::PendingContentReady),
                process: None,
            },
        }
    }
}

} // verus!
