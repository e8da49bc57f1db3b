//! Peer records in the shared document.
//!
//! Every node keeps one record about itself under its own key and
//! overwrites it in place: when it takes a nickname, and when it comes or
//! goes.

use crate::gossip::doc::chat::contents_of;
use crate::identity::{spec_valid_key, NodeId};
use crate::wire::{
    array32, fixed_take, lemma_fixed_round_trip, lemma_str_round_trip, lemma_u32_fits,
    lemma_varint_round_trip, put_raw, put_str, put_u64, str_enc, str_take, take_fixed, take_str,
    take_u32, take_u32_spec, varint,
};
use vstd::prelude::*;
use vstd::utf8::encode_utf8;

verus! {

/// Whether a peer says that it is in the room.
#[derive(Clone, Copy, Debug, PartialEq, Eq, Hash, Structural)]
pub enum PeerStatus {
    Online,
    Offline,
    Unknown,
}

/// The record that a peer keeps about itself.
#[derive(Clone, Debug, PartialEq, Eq, Hash)]
pub struct PeerInfo {
    pub id: NodeId,
    pub nickname: String,
    pub status: PeerStatus,
    pub ready: bool,
}

/// The mathematical content of a `PeerInfo`.
pub struct PeerInfoView {
    pub id: Seq<u8>,
    pub nickname: Seq<char>,
    pub status: PeerStatus,
    pub ready: bool,
}

impl View for PeerInfo {
    type V = PeerInfoView;

    open spec fn view(&self) -> PeerInfoView {
        PeerInfoView {
            id: self.id@,
            nickname: self.nickname@,
            status: self.status,
            ready: self.ready,
        }
    }
}

/// Why a peer record could not be read or written.
#[derive(Clone, Copy, Debug, PartialEq, Eq, Structural)]
pub enum PeerRecordError {
    /// There is no record to change.
    PeerNotFound,
    /// The content of an entry is not a peer record.
    MalformedRecord,
}

/// The number that stands for a status on the wire.
pub open spec fn status_tag(status: PeerStatus) -> nat {
    match status {
        PeerStatus::Online => 0,
        PeerStatus::Offline => 1,
        PeerStatus::Unknown => 2,
    }
}

/// The status that a number on the wire stands for.
pub open spec fn status_of_tag(tag: nat) -> Option<PeerStatus> {
    if tag == 0 {
        Some(PeerStatus::Online)
    } else if tag == 1 {
        Some(PeerStatus::Offline)
    } else if tag == 2 {
        Some(PeerStatus::Unknown)
    } else {
        None
    }
}

/// Whether the record can be held and sent: the id is a valid key and the
/// nickname fits in memory.
pub open spec fn peer_info_wf(p: PeerInfoView) -> bool {
    &&& p.id.len() == 32
    &&& spec_valid_key(p.id)
    &&& encode_utf8(p.nickname).len() <= usize::MAX
}

/// The stored bytes of a record: id, nickname, status, and one byte that
/// is 1 when the peer is ready and 0 when it is not.
pub open spec fn peer_info_enc(p: PeerInfoView) -> Seq<u8> {
    p.id + str_enc(p.nickname) + varint(status_tag(p.status)) + seq![
        if p.ready {
            1u8
        } else {
            0u8
        },
    ]
}

/// Reads a stored record. Bytes after the last field are ignored.
pub open spec fn peer_info_decode(input: Seq<u8>) -> Option<PeerInfoView> {
    match fixed_take(input, 32) {
        Some((id, rest)) => if !spec_valid_key(id) {
            None
        } else {
            match str_take(rest) {
                Some((nickname, rest)) => match take_u32_spec(rest) {
                    Some((tag, rest)) => match status_of_tag(tag) {
                        Some(status) => if rest.len() >= 1 && rest[0] <= 1 {
                            Some(PeerInfoView { id, nickname, status, ready: rest[0] == 1 })
                        } else {
                            None
                        },
                        None => None,
                    },
                    None => None,
                },
                None => None,
            }
        },
        None => None,
    }
}

/// Reading back a stored record gives the record.
pub proof fn lemma_peer_info_round_trip(p: PeerInfoView)
    requires
        peer_info_wf(p),
    ensures
        peer_info_decode(peer_info_enc(p)) == Some(p),
{
    let flag = seq![
        if p.ready {
            1u8
        } else {
            0u8
        },
    ];
    let tag = status_tag(p.status);
    lemma_fixed_round_trip(p.id, str_enc(p.nickname) + (varint(tag) + flag));
    lemma_str_round_trip(p.nickname, varint(tag) + flag);
    lemma_u32_fits(tag);
    lemma_varint_round_trip(tag, flag, 5, 15);
    assert(peer_info_enc(p) =~= p.id + (str_enc(p.nickname) + (varint(tag) + flag)));
}

/// The record of the node `id` after it took the nickname `nickname`: its
/// former record with the new nickname, or a fresh record that is online
/// and not ready.
pub open spec fn with_nickname_spec(
    existing: Option<PeerInfoView>,
    id: Seq<u8>,
    nickname: Seq<char>,
) -> PeerInfoView {
    match existing {
        Some(peer) => PeerInfoView { nickname, ..peer },
        None => PeerInfoView { id, nickname, status: PeerStatus::Online, ready: false },
    }
}

impl PeerStatus {
    /// The number that stands for the status on the wire.
    pub fn tag(&self) -> (tag: u64)
        ensures
            tag == status_tag(*self),
    {
        match self {
            PeerStatus::Online => 0,
            PeerStatus::Offline => 1,
            PeerStatus::Unknown => 2,
        }
    }

    /// The status that the number `tag` stands for.
    pub fn from_tag(tag: u32) -> (status: Option<PeerStatus>)
        ensures
            status == status_of_tag(tag as nat),
    {
        if tag == 0 {
            Some(PeerStatus::Online)
        } else if tag == 1 {
            Some(PeerStatus::Offline)
        } else if tag == 2 {
            Some(PeerStatus::Unknown)
        } else {
            None
        }
    }
}

impl PeerInfo {
    /// The bytes under which the record is stored. Reading them back gives
    /// the record.
    pub fn encode(&self) -> (out: Vec<u8>)
        ensures
            out@ == peer_info_enc(self@),
            peer_info_decode(out@) == Some(self@),
    {
        let mut out: Vec<u8> = Vec::new();
        put_raw(&mut out, self.id.as_bytes().as_slice());
        put_str(&mut out, self.nickname.as_str());
        put_u64(&mut out, self.status.tag());
        out.push(if self.ready { 1u8 } else { 0u8 });
        let n: usize = self.nickname.as_str().as_bytes().len();
        proof {
            use_type_invariant(&self.id);
            assert(out@ =~= peer_info_enc(self@));
            lemma_peer_info_round_trip(self@);
        }
        out
    }

    /// Reads a stored record. Bytes after the last field are ignored.
    pub fn decode(bytes: &[u8]) -> (r: Option<PeerInfo>)
        ensures
            match peer_info_decode(bytes@) {
                Some(p) => r matches Some(peer) && peer@ == p,
                None => r is None,
            },
    {
        let (key, rest) = match take_fixed(bytes, 32) {
            Some(p) => p,
            None => return None,
        };
        let id = match NodeId::from_bytes(&array32(key)) {
            Some(id) => id,
            None => return None,
        };
        let (nickname, rest) = match take_str(rest) {
            Some(p) => p,
            None => return None,
        };
        let (tag, rest) = match take_u32(rest) {
            Some(p) => p,
            None => return None,
        };
        let status = match PeerStatus::from_tag(tag) {
            Some(s) => s,
            None => return None,
        };
        if rest.len() >= 1 && rest[0] <= 1 {
            Some(PeerInfo { id, nickname, status, ready: rest[0] == 1 })
        } else {
            None
        }
    }
}

/// The record to write when the node `id` takes the nickname `nickname`,
/// given the record that the document holds about it.
pub fn set_nickname(existing: Option<PeerInfo>, id: NodeId, nickname: &str) -> (peer: PeerInfo)
    ensures
        peer@ == with_nickname_spec(
            match existing {
                Some(p) => Some(p@),
                None => None,
            },
            id@,
            nickname@,
        ),
{
    match existing {
        None => PeerInfo {
            id,
            nickname: nickname.to_owned(),
            status: PeerStatus::Online,
            ready: false,
        },
        Some(peer) => {
            let mut peer = peer;
            peer.nickname = nickname.to_owned();
            peer
        },
    }
}

/// The record to write when a node changes its status, given the record
/// that the document holds about it. Without a record there is nothing to
/// change.
pub fn set_status(existing: Option<PeerInfo>, status: PeerStatus) -> (r: Result<
    PeerInfo,
    PeerRecordError,
>)
    ensures
        match existing {
            Some(p) => r matches Ok(peer) && peer@ == (PeerInfoView { status, ..p@ }),
            None => r == Err::<PeerInfo, _>(PeerRecordError::PeerNotFound),
        },
{
    match existing {
        Some(peer) => {
            let mut peer = peer;
            peer.status = status;
            Ok(peer)
        },
        None => Err(PeerRecordError::PeerNotFound),
    }
}

/// The record that the content of an entry stands for; `None` content
/// means that the document has no entry under the peer's key.
pub fn get_peer_info(content: Option<&[u8]>) -> (r: Result<Option<PeerInfo>, PeerRecordError>)
    ensures
        match content {
            None => r matches Ok(None),
            Some(bytes) => match peer_info_decode(bytes@) {
                Some(p) => r matches Ok(Some(peer)) && peer@ == p,
                None => r matches Err(e) && e == PeerRecordError::MalformedRecord,
            },
        },
{
    match content {
        None => Ok(None),
        Some(bytes) => match PeerInfo::decode(bytes) {
            Some(peer) => Ok(Some(peer)),
            None => Err(PeerRecordError::MalformedRecord),
        },
    }
}

/// The records of `peers`, in the same order.
pub open spec fn records_of(peers: Seq<PeerInfo>) -> Seq<PeerInfoView> {
    peers.map_values(|p: PeerInfo| p@)
}

/// The records that the given contents stand for, in the order given.
pub open spec fn decode_all_peers(contents: Seq<Seq<u8>>) -> Option<Seq<PeerInfoView>>
    decreases contents.len(),
{
    if contents.len() == 0 {
        Some(Seq::empty())
    } else {
        match decode_all_peers(contents.drop_last()) {
            Some(front) => match peer_info_decode(contents.last()) {
                Some(p) => Some(front.push(p)),
                None => None,
            },
            None => None,
        }
    }
}

/// When a front part of the contents cannot be read, the whole cannot.
pub proof fn lemma_decode_all_peers_prefix(contents: Seq<Seq<u8>>, n: int)
    requires
        0 <= n <= contents.len(),
        decode_all_peers(contents.take(n)) is None,
    ensures
        decode_all_peers(contents) is None,
    decreases contents.len(),
{
    if n < contents.len() {
        assert(contents.drop_last().take(n) =~= contents.take(n));
        lemma_decode_all_peers_prefix(contents.drop_last(), n);
    } else {
        assert(contents.take(n) =~= contents);
    }
}

/// All peers that are registered in the document, from the contents of the
/// entries under `peers/` in the order of their keys. A content that is not
/// a peer record fails the whole read.
pub fn get_all_peer_info(contents: &Vec<Vec<u8>>) -> (r: Result<Vec<PeerInfo>, PeerRecordError>)
    ensures
        match decode_all_peers(contents_of(contents@)) {
            Some(records) => r matches Ok(peers) && records_of(peers@) == records,
            None => r == Err::<Vec<PeerInfo>, _>(PeerRecordError::MalformedRecord),
        },
{
    let mut peers: Vec<PeerInfo> = Vec::new();
    let mut i: usize = 0;
    let ghost all = contents_of(contents@);
    assert(decode_all_peers(all.take(0)) == Some(records_of(peers@))) by {
        assert(records_of(peers@) =~= Seq::empty());
    }
    while i < contents.len()
        invariant
            i <= contents.len(),
            all == contents_of(contents@),
            decode_all_peers(all.take(i as int)) == Some(records_of(peers@)),
        decreases contents.len() - i,
    {
        proof {
            let next = all.take(i + 1);
            assert(next.drop_last() =~= all.take(i as int));
            assert(next.last() == contents@[i as int]@);
        }
        let ghost prev = peers@;
        match PeerInfo::decode(contents[i].as_slice()) {
            Some(peer) => {
                peers.push(peer);
                assert(records_of(peers@) =~= records_of(prev).push(peer@));
            },
            None => {
                proof {
                    lemma_decode_all_peers_prefix(all, i + 1);
                }
                return Err(PeerRecordError::MalformedRecord);
            },
        }
        i += 1;
    }
    assert(all.take(contents.len() as int) =~= all);
    Ok(peers)
}

} // verus!
