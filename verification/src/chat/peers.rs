//! The directory of peers seen in a room.
//!
//! A peer is entered on first sight, refreshed by every join notification
//! and presence message, and downgraded by a periodic tick once it has been
//! silent for too long. A peer is never removed: it decays to `Offline`.

use crate::chat::event::{Event, EventView};
use crate::identity::NodeId;
use crate::node_set::{keys_of, NodeSet};
use crate::utils::get_timestamp;
use vstd::prelude::*;

verus! {

/// Milliseconds of silence up to which a peer counts as online.
pub const ONLINE_MILLIS: u64 = 10_000;

/// Milliseconds of silence up to which a peer counts as away; beyond it
/// the peer is offline.
pub const AWAY_MILLIS: u64 = 30_000;

/// Whether a peer is this node or another one.
#[derive(Clone, Copy, Debug, PartialEq, Eq, Structural)]
pub enum PeerRole {
    Myself,
    RemoteNode,
}

/// How recently a peer was heard of.
#[derive(Clone, Copy, Debug, PartialEq, Eq, Structural)]
pub enum PeerStatus {
    Online,
    Away,
    Offline,
}

/// What is known about a peer.
#[derive(Clone, Debug, PartialEq, Eq)]
pub struct PeerInfo {
    pub id: NodeId,
    pub nickname: String,
    /// Microseconds since the epoch at which the peer was last heard of.
    pub last_seen: u64,
    pub role: PeerRole,
    pub status: PeerStatus,
}

/// The mathematical content of a `PeerInfo`.
pub struct PeerView {
    pub id: Seq<u8>,
    pub nickname: Seq<char>,
    pub last_seen: u64,
    pub role: PeerRole,
    pub status: PeerStatus,
}

impl View for PeerInfo {
    type V = PeerView;

    open spec fn view(&self) -> PeerView {
        PeerView {
            id: self.id@,
            nickname: self.nickname@,
            last_seen: self.last_seen,
            role: self.role,
            status: self.status,
        }
    }
}

/// The nickname of a peer that has not said its own yet.
pub open spec fn placeholder_nickname() -> Seq<char> {
    "identifying..."@
}

/// The record of a peer on first sight at time `now`.
pub open spec fn new_peer(id: Seq<u8>, nickname: Seq<char>, now: u64) -> PeerView {
    PeerView {
        id,
        nickname,
        last_seen: now,
        role: PeerRole::RemoteNode,
        status: PeerStatus::Online,
    }
}

/// Whole milliseconds between `last_seen` and `now`; zero when `last_seen`
/// lies ahead of `now`.
pub open spec fn millis_since(now: u64, last_seen: u64) -> int {
    if now >= last_seen {
        (now - last_seen) / 1000
    } else {
        0
    }
}

/// The status that a peer last seen at `last_seen` has at time `now`.
pub open spec fn decay_status(now: u64, last_seen: u64) -> PeerStatus {
    if millis_since(now, last_seen) <= ONLINE_MILLIS {
        PeerStatus::Online
    } else if millis_since(now, last_seen) <= AWAY_MILLIS {
        PeerStatus::Away
    } else {
        PeerStatus::Offline
    }
}

/// No two records are about the same peer.
pub open spec fn distinct_ids(peers: Seq<PeerView>) -> bool {
    forall|i: int, j: int|
        0 <= i < peers.len() && 0 <= j < peers.len() && i != j ==> (#[trigger] peers[i]).id != (
        #[trigger] peers[j]).id
}

/// Whether there is a record about `id`.
pub open spec fn has_peer(peers: Seq<PeerView>, id: Seq<u8>) -> bool {
    exists|i: int| 0 <= i < peers.len() && (#[trigger] peers[i]).id == id
}

/// The position of the record about `id`, if there is one.
pub open spec fn peer_index(peers: Seq<PeerView>, id: Seq<u8>) -> int {
    choose|i: int| 0 <= i < peers.len() && (#[trigger] peers[i]).id == id
}

/// The directory after `id` was reported as connected at time `now`: its
/// record is refreshed, or entered with the placeholder nickname.
pub open spec fn seen(peers: Seq<PeerView>, id: Seq<u8>, now: u64) -> Seq<PeerView> {
    if has_peer(peers, id) {
        let i = peer_index(peers, id);
        peers.update(i, PeerView { status: PeerStatus::Online, last_seen: now, ..peers[i] })
    } else {
        peers.push(new_peer(id, placeholder_nickname(), now))
    }
}

/// The directory after each of `ids` was reported as connected at `now`.
pub open spec fn seen_all(peers: Seq<PeerView>, ids: Seq<Seq<u8>>, now: u64) -> Seq<PeerView>
    decreases ids.len(),
{
    if ids.len() == 0 {
        peers
    } else {
        seen_all(seen(peers, ids[0], now), ids.skip(1), now)
    }
}

/// The directory after a presence message of `id`, signed at `sent` and
/// received at `now`: a known peer gets the nickname and the signed time, a
/// new peer is entered with the nickname and the time of receipt.
pub open spec fn heard(
    peers: Seq<PeerView>,
    id: Seq<u8>,
    nickname: Seq<char>,
    sent: u64,
    now: u64,
) -> Seq<PeerView> {
    if has_peer(peers, id) {
        let i = peer_index(peers, id);
        peers.update(
            i,
            PeerView { nickname, last_seen: sent, status: PeerStatus::Online, ..peers[i] },
        )
    } else {
        peers.push(new_peer(id, nickname, now))
    }
}

/// The directory after a decay tick at `now`: every peer has the status
/// that its silence calls for, and nothing else changes.
pub open spec fn decayed(peers: Seq<PeerView>, now: u64) -> Seq<PeerView> {
    peers.map_values(|p: PeerView| PeerView { status: decay_status(now, p.last_seen), ..p })
}

/// The directory after `id` was reported as gone at time `now`: its record
/// goes offline, or, for a peer never seen before, is entered as on first
/// sight.
pub open spec fn left(peers: Seq<PeerView>, id: Seq<u8>, now: u64) -> Seq<PeerView> {
    if has_peer(peers, id) {
        let i = peer_index(peers, id);
        peers.update(i, PeerView { status: PeerStatus::Offline, last_seen: now, ..peers[i] })
    } else {
        peers.push(new_peer(id, placeholder_nickname(), now))
    }
}

/// The status after a tick that only fades: a peer that is not offline and
/// was silent for more than the online threshold is away.
pub open spec fn fade_status(now: u64, peer: PeerView) -> PeerStatus {
    if millis_since(now, peer.last_seen) > ONLINE_MILLIS && peer.status != PeerStatus::Offline {
        PeerStatus::Away
    } else {
        peer.status
    }
}

/// The directory after a tick that only fades.
pub open spec fn faded(peers: Seq<PeerView>, now: u64) -> Seq<PeerView> {
    peers.map_values(|p: PeerView| PeerView { status: fade_status(now, p), ..p })
}

/// The directory after `event` at time `now`; `None` stands for the decay
/// tick. Events other than a join or a presence message change nothing.
pub open spec fn updated(peers: Seq<PeerView>, event: Option<EventView>, now: u64) -> Seq<
    PeerView,
> {
    match event {
        Some(EventView::Joined { neighbors }) => seen_all(peers, neighbors, now),
        Some(EventView::Presence { from, nickname, sent_timestamp }) => heard(
            peers,
            from,
            nickname,
            sent_timestamp,
            now,
        ),
        None => decayed(peers, now),
        _ => peers,
    }
}

/// The peers that joined and have not introduced themselves, after `event`:
/// a join adds its neighbors, a presence message takes its author out.
pub open spec fn starters_after(starters: Set<Seq<u8>>, event: Option<EventView>) -> Set<Seq<u8>> {
    match event {
        Some(EventView::Joined { neighbors }) => starters.union(neighbors.to_set()),
        Some(EventView::Presence { from, .. }) => starters.remove(from),
        _ => starters,
    }
}

/// The nickname to announce as a newcomer: that of a presence message whose
/// author joined and had not introduced itself.
pub open spec fn newcomer(starters: Set<Seq<u8>>, event: Option<EventView>) -> Option<Seq<char>> {
    match event {
        Some(EventView::Presence { from, nickname, .. }) => if starters.contains(from) {
            Some(nickname)
        } else {
            None
        },
        _ => None,
    }
}

/// An update keeps the records distinct.
pub proof fn lemma_seen_distinct(peers: Seq<PeerView>, id: Seq<u8>, now: u64)
    requires
        distinct_ids(peers),
    ensures
        distinct_ids(seen(peers, id, now)),
        has_peer(seen(peers, id, now), id),
        seen(peers, id, now).len() == peers.len() + (if has_peer(peers, id) {
            0int
        } else {
            1int
        }),
{
    let r = seen(peers, id, now);
    if has_peer(peers, id) {
        let i = peer_index(peers, id);
        assert(r[i].id == id);
        assert forall|a: int, b: int| 0 <= a < r.len() && 0 <= b < r.len() && a != b implies (
        #[trigger] r[a]).id != (#[trigger] r[b]).id by {
            assert(r[a].id == peers[a].id && r[b].id == peers[b].id);
        }
    } else {
        assert(r[peers.len() as int].id == id);
        assert forall|a: int, b: int| 0 <= a < r.len() && 0 <= b < r.len() && a != b implies (
        #[trigger] r[a]).id != (#[trigger] r[b]).id by {
            if a < peers.len() {
                assert(r[a] == peers[a]);
            }
            if b < peers.len() {
                assert(r[b] == peers[b]);
            }
        }
    }
}

/// A departure keeps the records distinct.
pub proof fn lemma_left_distinct(peers: Seq<PeerView>, id: Seq<u8>, now: u64)
    requires
        distinct_ids(peers),
    ensures
        distinct_ids(left(peers, id, now)),
{
    let r = left(peers, id, now);
    if has_peer(peers, id) {
        assert forall|a: int, b: int| 0 <= a < r.len() && 0 <= b < r.len() && a != b implies (
        #[trigger] r[a]).id != (#[trigger] r[b]).id by {
            assert(r[a].id == peers[a].id && r[b].id == peers[b].id);
        }
    } else {
        assert forall|a: int, b: int| 0 <= a < r.len() && 0 <= b < r.len() && a != b implies (
        #[trigger] r[a]).id != (#[trigger] r[b]).id by {
            if a < peers.len() {
                assert(r[a] == peers[a]);
            }
            if b < peers.len() {
                assert(r[b] == peers[b]);
            }
        }
    }
}

/// A join keeps the records distinct.
pub proof fn lemma_seen_all_distinct(peers: Seq<PeerView>, ids: Seq<Seq<u8>>, now: u64)
    requires
        distinct_ids(peers),
    ensures
        distinct_ids(seen_all(peers, ids, now)),
    decreases ids.len(),
{
    if ids.len() > 0 {
        lemma_seen_distinct(peers, ids[0], now);
        lemma_seen_all_distinct(seen(peers, ids[0], now), ids.skip(1), now);
    }
}

/// A presence message keeps the records distinct, and leaves exactly one
/// record about its author: with the nickname of the message, online, and
/// last seen at the signed time if the peer was known, at the time of
/// receipt if it is new.
pub proof fn lemma_heard(
    peers: Seq<PeerView>,
    id: Seq<u8>,
    nickname: Seq<char>,
    sent: u64,
    now: u64,
)
    requires
        distinct_ids(peers),
    ensures
        distinct_ids(heard(peers, id, nickname, sent, now)),
        has_peer(heard(peers, id, nickname, sent, now), id),
        heard(peers, id, nickname, sent, now).len() == peers.len() + (if has_peer(peers, id) {
            0int
        } else {
            1int
        }),
        ({
            let after = heard(peers, id, nickname, sent, now);
            let record = after[peer_index(after, id)];
            &&& record.id == id
            &&& record.nickname == nickname
            &&& record.status == PeerStatus::Online
            &&& record.last_seen == (if has_peer(peers, id) {
                sent
            } else {
                now
            })
        }),
{
    let r = heard(peers, id, nickname, sent, now);
    if has_peer(peers, id) {
        let i = peer_index(peers, id);
        assert(r[i].id == id);
        assert forall|a: int, b: int| 0 <= a < r.len() && 0 <= b < r.len() && a != b implies (
        #[trigger] r[a]).id != (#[trigger] r[b]).id by {
            assert(r[a].id == peers[a].id && r[b].id == peers[b].id);
        }
        let k = peer_index(r, id);
        assert(k == i);
    } else {
        let n = peers.len() as int;
        assert(r[n].id == id);
        assert forall|a: int, b: int| 0 <= a < r.len() && 0 <= b < r.len() && a != b implies (
        #[trigger] r[a]).id != (#[trigger] r[b]).id by {
            if a < n {
                assert(r[a] == peers[a]);
            }
            if b < n {
                assert(r[b] == peers[b]);
            }
        }
        let k = peer_index(r, id);
        if k < n {
            assert(r[k] == peers[k]);
        }
        assert(k == n);
    }
}

/// A second presence message of the same peer updates its record and
/// creates no second one: the directory keeps its length, and the one
/// record about the peer carries the nickname and the signed time of the
/// later message.
pub proof fn lemma_duplicate_presence(
    peers: Seq<PeerView>,
    id: Seq<u8>,
    first: Seq<char>,
    first_sent: u64,
    first_now: u64,
    second: Seq<char>,
    second_sent: u64,
    second_now: u64,
)
    requires
        distinct_ids(peers),
    ensures
        ({
            let once = heard(peers, id, first, first_sent, first_now);
            let twice = heard(once, id, second, second_sent, second_now);
            let record = twice[peer_index(twice, id)];
            &&& twice.len() == once.len()
            &&& distinct_ids(twice)
            &&& record.id == id
            &&& record.nickname == second
            &&& record.last_seen == second_sent
            &&& record.status == PeerStatus::Online
            &&& forall|i: int|
                0 <= i < twice.len() && i != peer_index(twice, id) ==> #[trigger] twice[i]
                    == once[i]
        }),
{
    let once = heard(peers, id, first, first_sent, first_now);
    lemma_heard(peers, id, first, first_sent, first_now);
    lemma_heard(once, id, second, second_sent, second_now);
    let twice = heard(once, id, second, second_sent, second_now);
    let i = peer_index(once, id);
    assert(twice[i].id == id);
    let k = peer_index(twice, id);
    assert(k == i);
}

/// The decay tick: a peer silent for more than the away threshold goes
/// offline, a peer silent for more than the online threshold but no longer
/// goes away, a peer heard of within the online threshold is online, and a
/// tick changes nothing but the status.
pub proof fn lemma_decay(peers: Seq<PeerView>, now: u64, i: int)
    requires
        0 <= i < peers.len(),
    ensures
        decayed(peers, now).len() == peers.len(),
        decayed(peers, now)[i] == (PeerView {
            status: decayed(peers, now)[i].status,
            ..peers[i]
        }),
        millis_since(now, peers[i].last_seen) > AWAY_MILLIS ==> decayed(peers, now)[i].status
            == PeerStatus::Offline,
        ONLINE_MILLIS < millis_since(now, peers[i].last_seen) <= AWAY_MILLIS ==> decayed(
            peers,
            now,
        )[i].status == PeerStatus::Away,
        millis_since(now, peers[i].last_seen) <= ONLINE_MILLIS ==> decayed(peers, now)[i].status
            == PeerStatus::Online,
        distinct_ids(peers) ==> distinct_ids(decayed(peers, now)),
{
    let r = decayed(peers, now);
    if distinct_ids(peers) {
        assert forall|a: int, b: int| 0 <= a < r.len() && 0 <= b < r.len() && a != b implies (
        #[trigger] r[a]).id != (#[trigger] r[b]).id by {
            assert(r[a].id == peers[a].id && r[b].id == peers[b].id);
        }
    }
}

impl PeerInfo {
    /// The record of a peer on first sight at time `now`, under `nickname`
    /// or, without one, under the placeholder.
    pub fn new(id: NodeId, nickname: Option<String>, now: u64) -> (peer: PeerInfo)
        ensures
            peer@ == new_peer(
                id@,
                match nickname {
                    Some(name) => name@,
                    None => placeholder_nickname(),
                },
                now,
            ),
    {
        let nickname = match nickname {
            Some(name) => name,
            None => "identifying...".to_owned(),
        };
        PeerInfo {
            id,
            nickname,
            last_seen: now,
            role: PeerRole::RemoteNode,
            status: PeerStatus::Online,
        }
    }

    /// A copy of the record.
    pub fn duplicate(&self) -> (copy: PeerInfo)
        ensures
            copy@ == self@,
    {
        PeerInfo {
            id: self.id,
            nickname: self.nickname.clone(),
            last_seen: self.last_seen,
            role: self.role,
            status: self.status,
        }
    }

    /// Whether two records say the same.
    pub fn same(&self, other: &PeerInfo) -> (same: bool)
        ensures
            same == (self@ == other@),
    {
        self.id.same(&other.id) && self.nickname == other.nickname && self.last_seen
            == other.last_seen && self.role == other.role && self.status == other.status
    }
}

/// The records of `peers`, in the same order.
pub open spec fn views_of(peers: Seq<PeerInfo>) -> Seq<PeerView> {
    peers.map_values(|p: PeerInfo| p@)
}

/// The status that a peer last seen at `last_seen` has at time `now`.
pub fn status_at(now: u64, last_seen: u64) -> (status: PeerStatus)
    ensures
        status == decay_status(now, last_seen),
{
    let millis = now.saturating_sub(last_seen) / 1000;
    if millis <= ONLINE_MILLIS {
        PeerStatus::Online
    } else if millis <= AWAY_MILLIS {
        PeerStatus::Away
    } else {
        PeerStatus::Offline
    }
}

/// A copy of the records.
fn copy_peers(peers: &Vec<PeerInfo>) -> (out: Vec<PeerInfo>)
    ensures
        views_of(out@) == views_of(peers@),
{
    let mut out: Vec<PeerInfo> = Vec::new();
    let mut i: usize = 0;
    while i < peers.len()
        invariant
            i <= peers.len(),
            views_of(out@) == views_of(peers@.take(i as int)),
        decreases peers.len() - i,
    {
        let ghost prev = out@;
        let copy = peers[i].duplicate();
        out.push(copy);
        proof {
            assert(views_of(out@) =~= views_of(prev).push(copy@));
            assert(views_of(peers@.take(i + 1)) =~= views_of(peers@.take(i as int)).push(
                peers@[i as int]@,
            ));
        }
        i += 1;
    }
    assert(peers@.take(peers.len() as int) =~= peers@);
    out
}

/// Whether two lists of records say the same.
pub fn same_peers(a: &Vec<PeerInfo>, b: &Vec<PeerInfo>) -> (same: bool)
    ensures
        same == (views_of(a@) == views_of(b@)),
{
    if a.len() != b.len() {
        assert(views_of(a@).len() != views_of(b@).len());
        return false;
    }
    let mut i: usize = 0;
    while i < a.len()
        invariant
            i <= a.len(),
            a.len() == b.len(),
            forall|j: int| 0 <= j < i ==> (#[trigger] a@[j])@ == b@[j]@,
        decreases a.len() - i,
    {
        if !a[i].same(&b[i]) {
            assert(views_of(a@)[i as int] != views_of(b@)[i as int]);
            return false;
        }
        i += 1;
    }
    assert(views_of(a@) =~= views_of(b@));
    true
}

/// What an update of the directory asks the caller to announce.
#[derive(Debug, PartialEq, Eq)]
pub struct PeerUpdate {
    /// The nickname of a peer that has just introduced itself after
    /// joining.
    pub newcomer: Option<String>,
    /// The directory after the update, if the update changed it.
    pub peers: Option<Vec<PeerInfo>>,
}

/// The directory of peers, in the order in which they were first seen.
#[derive(Debug, PartialEq, Eq)]
pub struct PeerMap {
    peers: Vec<PeerInfo>,
}

impl View for PeerMap {
    type V = Seq<PeerView>;

    closed spec fn view(&self) -> Seq<PeerView> {
        views_of(self.peers@)
    }
}

impl PeerMap {
    /// No two records of the directory are about the same peer.
    #[verifier::type_invariant]
    pub open spec fn wf(&self) -> bool {
        distinct_ids(self@)
    }

    /// The empty directory.
    pub fn new() -> (map: PeerMap)
        ensures
            map@ == Seq::<PeerView>::empty(),
    {
        let map = PeerMap { peers: Vec::new() };
        assert(map@ =~= Seq::<PeerView>::empty());
        map
    }

    /// The records of the directory, in the order of first sight.
    pub fn to_vec(&self) -> (peers: Vec<PeerInfo>)
        ensures
            views_of(peers@) == self@,
            distinct_ids(self@),
    {
        proof {
            use_type_invariant(self);
        }
        copy_peers(&self.peers)
    }

    /// The position of the record about `id`.
    fn position(&self, id: &NodeId) -> (found: Option<usize>)
        ensures
            match found {
                Some(i) => i < self@.len() && has_peer(self@, id@) && peer_index(self@, id@) == i,
                None => !has_peer(self@, id@),
            },
    {
        proof {
            use_type_invariant(self);
        }
        let mut i: usize = 0;
        while i < self.peers.len()
            invariant
                i <= self.peers.len(),
                distinct_ids(self@),
                forall|j: int| 0 <= j < i ==> (#[trigger] self@[j]).id != id@,
            decreases self.peers.len() - i,
        {
            if self.peers[i].id.same(id) {
                assert(self@[i as int].id == id@);
                return Some(i);
            }
            i += 1;
        }
        None
    }

    /// Puts `peer` at position `i`, or at the end when `i` is the length.
    fn put(&mut self, i: usize, peer: PeerInfo)
        requires
            i <= old(self)@.len(),
            distinct_ids(
                if i < old(self)@.len() {
                    old(self)@.update(i as int, peer@)
                } else {
                    old(self)@.push(peer@)
                },
            ),
        ensures
            final(self)@ == (if i < old(self)@.len() {
                old(self)@.update(i as int, peer@)
            } else {
                old(self)@.push(peer@)
            }),
    {
        let mut peers: Vec<PeerInfo> = Vec::new();
        proof {
            assert(views_of(peers@) =~= Seq::<PeerView>::empty());
        }
        std::mem::swap(&mut self.peers, &mut peers);
        if i < peers.len() {
            peers.remove(i);
            peers.insert(i, peer);
            assert(views_of(peers@) =~= old(self)@.update(i as int, peer@));
        } else {
            peers.push(peer);
            assert(views_of(peers@) =~= old(self)@.push(peer@));
        }
        self.peers = peers;
    }

    /// Notes that `id` was reported as connected at time `now`.
    pub fn mark_seen(&mut self, id: NodeId, now: u64)
        ensures
            final(self)@ == seen(old(self)@, id@, now),
    {
        proof {
            use_type_invariant(&*self);
            lemma_seen_distinct(self@, id@, now);
        }
        match self.position(&id) {
            Some(i) => {
                let mut peer = self.peers[i].duplicate();
                peer.status = PeerStatus::Online;
                peer.last_seen = now;
                self.put(i, peer);
            },
            None => {
                let n = self.peers.len();
                self.put(n, PeerInfo::new(id, None, now));
            },
        }
    }

    /// Notes a presence message of `id` under `nickname`, signed at `sent`
    /// and received at `now`.
    pub fn mark_heard(&mut self, id: NodeId, nickname: &String, sent: u64, now: u64)
        ensures
            final(self)@ == heard(old(self)@, id@, nickname@, sent, now),
    {
        proof {
            use_type_invariant(&*self);
            lemma_heard(self@, id@, nickname@, sent, now);
        }
        match self.position(&id) {
            Some(i) => {
                let mut peer = self.peers[i].duplicate();
                peer.nickname = nickname.clone();
                peer.last_seen = sent;
                peer.status = PeerStatus::Online;
                self.put(i, peer);
            },
            None => {
                let n = self.peers.len();
                self.put(n, PeerInfo::new(id, Some(nickname.clone()), now));
            },
        }
    }

    /// Notes that `id` was reported as gone at time `now`.
    pub fn mark_left(&mut self, id: NodeId, now: u64)
        ensures
            final(self)@ == left(old(self)@, id@, now),
    {
        proof {
            use_type_invariant(&*self);
            lemma_left_distinct(self@, id@, now);
        }
        match self.position(&id) {
            Some(i) => {
                let mut peer = self.peers[i].duplicate();
                peer.status = PeerStatus::Offline;
                peer.last_seen = now;
                self.put(i, peer);
            },
            None => {
                let n = self.peers.len();
                self.put(n, PeerInfo::new(id, None, now));
            },
        }
    }

    /// The record about `id`, if there is one.
    pub fn get(&self, id: &NodeId) -> (peer: Option<PeerInfo>)
        ensures
            match peer {
                Some(p) => has_peer(self@, id@) && p@ == self@[peer_index(self@, id@)],
                None => !has_peer(self@, id@),
            },
    {
        match self.position(id) {
            Some(i) => {
                assert(self@[i as int] == self.peers@[i as int]@);
                Some(self.peers[i].duplicate())
            },
            None => None,
        }
    }

    /// The tick that only fades, at time `now`: a peer that is not offline
    /// and was silent for more than the online threshold goes away.
    pub fn fade(&mut self, now: u64)
        ensures
            final(self)@ == faded(old(self)@, now),
    {
        proof {
            use_type_invariant(&*self);
        }
        let n = self.peers.len();
        let mut i: usize = 0;
        while i < n
            invariant
                i <= n,
                n == self@.len(),
                n == old(self)@.len(),
                distinct_ids(self@),
                forall|j: int| 0 <= j < i ==> (#[trigger] self@[j]) == faded(old(self)@, now)[j],
                forall|j: int| i <= j < n ==> (#[trigger] self@[j]) == old(self)@[j],
            decreases n - i,
        {
            let mut peer = self.peers[i].duplicate();
            let millis = now.saturating_sub(peer.last_seen) / 1000;
            if millis > ONLINE_MILLIS && peer.status != PeerStatus::Offline {
                peer.status = PeerStatus::Away;
            }
            proof {
                assert(self@[i as int] == self.peers@[i as int]@);
                let before = self@;
                let after = before.update(i as int, peer@);
                assert forall|a: int, b: int|
                    0 <= a < after.len() && 0 <= b < after.len() && a != b implies (
                #[trigger] after[a]).id != (#[trigger] after[b]).id by {
                    assert(after[a].id == before[a].id && after[b].id == before[b].id);
                }
            }
            self.put(i, peer);
            i += 1;
        }
        assert(self@ =~= faded(old(self)@, now));
    }

    /// The decay tick at time `now`: every peer gets the status that its
    /// silence calls for.
    pub fn decay(&mut self, now: u64)
        ensures
            final(self)@ == decayed(old(self)@, now),
    {
        proof {
            use_type_invariant(&*self);
        }
        let n = self.peers.len();
        let mut i: usize = 0;
        while i < n
            invariant
                i <= n,
                n == self@.len(),
                n == old(self)@.len(),
                distinct_ids(self@),
                forall|j: int| 0 <= j < i ==> (#[trigger] self@[j]) == decayed(old(self)@, now)[j],
                forall|j: int| i <= j < n ==> (#[trigger] self@[j]) == old(self)@[j],
            decreases n - i,
        {
            let mut peer = self.peers[i].duplicate();
            peer.status = status_at(now, peer.last_seen);
            proof {
                assert(self@[i as int] == self.peers@[i as int]@);
                let before = self@;
                let after = before.update(i as int, peer@);
                assert forall|a: int, b: int|
                    0 <= a < after.len() && 0 <= b < after.len() && a != b implies (
                #[trigger] after[a]).id != (#[trigger] after[b]).id by {
                    assert(after[a].id == before[a].id && after[b].id == before[b].id);
                }
            }
            self.put(i, peer);
            i += 1;
        }
        assert(self@ =~= decayed(old(self)@, now));
    }

    /// Updates the directory for `event` at time `now`; `None` stands for
    /// the decay tick. `new_starters` holds the peers that joined and have
    /// not introduced themselves.
    ///
    /// The result names the newcomer to announce, if the event is the first
    /// presence message of a peer that joined, and carries the directory if
    /// the event changed it.
    pub fn update_at(&mut self, event: Option<&Event>, new_starters: &mut NodeSet, now: u64) -> (out:
        PeerUpdate)
        ensures
            final(self)@ == updated(old(self)@, event_view(event), now),
            final(new_starters)@ == starters_after(old(new_starters)@, event_view(event)),
            match newcomer(old(new_starters)@, event_view(event)) {
                Some(name) => out.newcomer matches Some(n) && n@ == name,
                None => out.newcomer is None,
            },
            match out.peers {
                Some(peers) => views_of(peers@) == final(self)@ && final(self)@ != old(self)@,
                None => final(self)@ == old(self)@,
            },
    {
        let before = self.to_vec();
        let mut announced: Option<String> = None;
        match event {
            Some(Event::Joined { neighbors }) => {
                new_starters.extend_from(neighbors.as_slice());
                let ghost keys = keys_of(neighbors@);
                let mut i: usize = 0;
                assert(keys.skip(0) =~= keys);
                while i < neighbors.len()
                    invariant
                        i <= neighbors.len(),
                        keys == keys_of(neighbors@),
                        seen_all(self@, keys.skip(i as int), now) == seen_all(
                            old(self)@,
                            keys,
                            now,
                        ),
                    decreases neighbors.len() - i,
                {
                    self.mark_seen(neighbors[i], now);
                    proof {
                        let rest = keys.skip(i as int);
                        assert(rest[0] == neighbors@[i as int]@);
                        assert(rest.skip(1) =~= keys.skip(i + 1));
                    }
                    i += 1;
                }
            },
            Some(Event::Presence { from, nickname, sent_timestamp }) => {
                if new_starters.remove(from) {
                    announced = Some(nickname.clone());
                }
                self.mark_heard(*from, nickname, *sent_timestamp, now);
            },
            None => {
                self.decay(now);
            },
            _ => {
                proof {
                    use_type_invariant(&*new_starters);
                }
                return PeerUpdate { newcomer: None, peers: None };
            },
        }
        let after = self.to_vec();
        let peers = if same_peers(&before, &after) {
            None
        } else {
            Some(after)
        };
        PeerUpdate { newcomer: announced, peers }
    }

    /// Updates the directory for `event` at the current time; `None` stands
    /// for the decay tick. Whatever the clock says, the directory, the
    /// starters and the result are those of `update_at` at some time.
    pub fn update(&mut self, event: Option<&Event>, new_starters: &mut NodeSet) -> (out: PeerUpdate)
        ensures
            exists|now: u64| final(self)@ == updated(old(self)@, event_view(event), now),
            final(new_starters)@ == starters_after(old(new_starters)@, event_view(event)),
            match newcomer(old(new_starters)@, event_view(event)) {
                Some(name) => out.newcomer matches Some(n) && n@ == name,
                None => out.newcomer is None,
            },
            match out.peers {
                Some(peers) => views_of(peers@) == final(self)@ && final(self)@ != old(self)@,
                None => final(self)@ == old(self)@,
            },
    {
        let now = get_timestamp();
        self.update_at(event, new_starters, now)
    }
}

/// The mathematical content of an optional event.
pub open spec fn event_view(event: Option<&Event>) -> Option<EventView> {
    match event {
        Some(e) => Some(e@),
        None => None,
    }
}

} // verus!
