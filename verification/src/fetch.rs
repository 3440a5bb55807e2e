use vstd::prelude::*;
use core::hash::{BuildHasher, Hasher};
use core::marker::PhantomData;
use std::hash::{DefaultHasher, RandomState};

verus! {

/// Port on which peers exchange hellos and, once paired, data.
pub const PORT: u16 = 9876;

/// First field of every hello datagram.
pub const MAGIC: u32 = 42;

/// Length in bytes of a hello datagram: `MAGIC` (4 bytes, little endian)
/// followed by the sender's peer id (8 bytes, little endian).
pub const HELLO_LEN: usize = 12;

/// Largest datagram a connected peer receives.
pub const MAX_DATAGRAM: usize = 65_536;

/// A socket address, as plain values: an IPv4 address with a port, or an
/// IPv6 address with a port, flow info and scope id. Two addresses are equal
/// when all their fields are.
#[allow(inconsistent_fields)]
#[derive(Clone, Copy, Debug, PartialEq, Eq, Structural)]
pub enum PeerAddr {
    V4 { ip: u32, port: u16 },
    V6 { ip: u128, port: u16, flowinfo: u32, scope_id: u32 },
}

/// A datagram as received: its bytes and the address it came from.
#[derive(Debug)]
pub struct Datagram {
    pub bytes: Vec<u8>,
    pub from: PeerAddr,
}

impl View for Datagram {
    type V = (Seq<u8>, PeerAddr);

    open spec fn view(&self) -> (Seq<u8>, PeerAddr) {
        (self.bytes@, self.from)
    }
}

/// Marker: the connection is still searching for a peer.
pub struct Pairing;

/// Marker: the connection is bound to one peer.
pub struct Connected;

/// The state of a peer connection: the peers discovered so far and this
/// side's peer id. The marker `T` says whether it is pairing or connected.
pub struct Connection<T> {
    peers: Vec<PeerAddr>,
    peer_id: u64,
    _state: PhantomData<T>,
}

/// The hello datagram that the peer with id `id` sends.
pub open spec fn hello_bytes(id: u64) -> Seq<u8> {
    vstd::bytes::spec_u32_to_le_bytes(MAGIC) + vstd::bytes::spec_u64_to_le_bytes(id)
}

/// The sender id that `d` announces, if `d` is a hello datagram: exactly
/// `HELLO_LEN` bytes whose first four hold `MAGIC`.
pub open spec fn hello_sender(d: Seq<u8>) -> Option<u64> {
    if d.len() == HELLO_LEN && vstd::bytes::spec_u32_from_le_bytes(d.take(4)) == MAGIC {
        Some(vstd::bytes::spec_u64_from_le_bytes(d.skip(4)))
    } else {
        None
    }
}

/// Whether `d` is the hello of a peer other than `own`.
pub open spec fn foreign_hello(d: Seq<u8>, own: u64) -> bool {
    hello_sender(d) matches Some(sender) && sender != own
}

/// Whether a datagram `d` from `from` makes `from` a new peer of the peer
/// `own` that already knows `peers`: it is a hello of another peer, from an
/// address not yet known.
pub open spec fn admits(peers: Seq<PeerAddr>, own: u64, d: Seq<u8>, from: PeerAddr) -> bool {
    &&& foreign_hello(d, own)
    &&& !peers.contains(from)
}

/// The peer list after one response.
pub open spec fn absorb(peers: Seq<PeerAddr>, own: u64, d: Seq<u8>, from: PeerAddr) -> Seq<PeerAddr> {
    if admits(peers, own, d, from) {
        peers.push(from)
    } else {
        peers
    }
}

/// The peer list after the responses `ds`, taken in order.
pub open spec fn absorb_all(peers: Seq<PeerAddr>, own: u64, ds: Seq<(Seq<u8>, PeerAddr)>) -> Seq<PeerAddr>
    decreases ds.len(),
{
    if ds.len() == 0 {
        peers
    } else {
        let rest = absorb_all(peers, own, ds.drop_last());
        absorb(rest, own, ds.last().0, ds.last().1)
    }
}

impl<T> Connection<T> {
    /// The peers discovered so far, in the order they answered.
    pub closed spec fn peer_list(&self) -> Seq<PeerAddr> {
        self.peers@
    }

    /// This side's peer id.
    pub closed spec fn id(&self) -> u64 {
        self.peer_id
    }

    /// Every connection lists each peer once.
    #[verifier::type_invariant]
    spec fn peers_distinct(&self) -> bool {
        self.peers@.no_duplicates()
    }

    pub fn peer_id(&self) -> (id: u64)
        ensures
            id == self.id(),
    {
        self.peer_id
    }

    pub fn peers(&self) -> (peers: &[PeerAddr])
        ensures
            peers@ == self.peer_list(),
            peers@.no_duplicates(),
    {
        proof {
            use_type_invariant(self);
        }
        self.peers.as_slice()
    }
}

/// `std::hash::RandomState::new`: a hasher builder with random keys. Nothing
/// is claimed of the result; its keys depend on chance.
pub assume_specification[ RandomState::new ]() -> RandomState;

/// `BuildHasher::build_hasher` for `RandomState`: a `DefaultHasher` keyed by
/// the builder's random keys. Nothing is claimed of the result, so its
/// `finish` is an arbitrary `u64`.
pub assume_specification[ <RandomState as BuildHasher>::build_hasher ](state: &RandomState) -> DefaultHasher;

impl Connection<Pairing> {
    /// A fresh pairing connection: no peers yet, and a peer id drawn from a
    /// randomly keyed hasher, so each process picks its own.
    pub fn new() -> (c: Connection<Pairing>)
        ensures
            c.peer_list() == Seq::<PeerAddr>::empty(),
    {
        let peer_id: u64 = RandomState::new().build_hasher().finish();
        Connection { peers: Vec::new(), peer_id, _state: PhantomData }
    }
}


/// Whether `peers` holds `addr`.
fn knows(peers: &Vec<PeerAddr>, addr: PeerAddr) -> (found: bool)
    ensures
        found == peers@.contains(addr),
{
    let mut i: usize = 0;
    while i < peers.len()
        invariant
            i <= peers.len(),
            forall|j: int| 0 <= j < i ==> peers@[j] != addr,
        decreases peers.len() - i,
    {
        if peers[i] == addr {
            return true;
        }
        i = i + 1;
    }
    false
}

/// The sender id announced by a datagram, if it is a hello datagram.
pub fn parse_hello(d: &[u8]) -> (sender: Option<u64>)
    ensures
        sender == hello_sender(d@),
{
    if d.len() != HELLO_LEN {
        return None;
    }
    let magic = vstd::bytes::u32_from_le_bytes(vstd::slice::slice_subrange(d, 0, 4));
    assert(d@.subrange(0, 4) == d@.take(4));
    if magic != MAGIC {
        return None;
    }
    let sender = vstd::bytes::u64_from_le_bytes(vstd::slice::slice_subrange(d, 4, HELLO_LEN));
    assert(d@.subrange(4, 12) == d@.skip(4));
    Some(sender)
}

/// The hello datagram of the peer with id `id`.
pub fn encode_hello(id: u64) -> (hello: Vec<u8>)
    ensures
        hello@ == hello_bytes(id),
        hello@.len() == HELLO_LEN,
{
    proof {
        vstd::bytes::lemma_auto_spec_u32_to_from_le_bytes();
        vstd::bytes::lemma_auto_spec_u64_to_from_le_bytes();
    }
    let mut hello = vstd::bytes::u32_to_le_bytes(MAGIC);
    let mut tail = vstd::bytes::u64_to_le_bytes(id);
    hello.append(&mut tail);
    hello
}

impl Connection<Pairing> {
    /// The hello datagram this side multicasts.
    pub fn multicast_hello(&self) -> (hello: Vec<u8>)
        ensures
            hello@ == hello_bytes(self.id()),
    {
        encode_hello(self.peer_id)
    }

    /// Takes one response: the datagram `d` received from `from`. Its sender
    /// becomes a peer when `d` is the hello of another peer and `from` is not
    /// known yet; the result says whether it did.
    pub fn absorb_response(&mut self, d: &[u8], from: PeerAddr) -> (added: bool)
        ensures
            final(self).id() == old(self).id(),
            added == admits(old(self).peer_list(), old(self).id(), d@, from),
            final(self).peer_list() == absorb(old(self).peer_list(), old(self).id(), d@, from),
    {
        proof {
            use_type_invariant(&*self);
        }
        let added = match parse_hello(d) {
            Some(sender) => sender != self.peer_id && !knows(&self.peers, from),
            None => false,
        };
        if added {
            let mut peers: Vec<PeerAddr> = Vec::new();
            std::mem::swap(&mut peers, &mut self.peers);
            peers.push(from);
            self.peers = peers;
        }
        added
    }

    /// Takes the responses in the order they arrived.
    pub fn collect_responses(&mut self, responses: &Vec<Datagram>)
        ensures
            final(self).id() == old(self).id(),
            final(self).peer_list() == absorb_all(
                old(self).peer_list(),
                old(self).id(),
                responses@.map_values(|r: Datagram| r@),
            ),
    {
        let ghost start = self.peer_list();
        let ghost views = responses@.map_values(|r: Datagram| r@);
        let mut i: usize = 0;
        while i < responses.len()
            invariant
                i <= responses.len(),
                self.id() == old(self).id(),
                start == old(self).peer_list(),
                views == responses@.map_values(|r: Datagram| r@),
                self.peer_list() == absorb_all(start, self.id(), views.take(i as int)),
            decreases responses.len() - i,
        {
            let r = &responses[i];
            self.absorb_response(r.bytes.as_slice(), r.from);
            assert(views.take(i + 1).drop_last() == views.take(i as int));
            i = i + 1;
        }
        assert(views.take(i as int) == views);
    }

    /// The connection once bound to a peer: same peers, same id.
    pub fn connect(self) -> (c: Connection<Connected>)
        ensures
            c.peer_list() == self.peer_list(),
            c.id() == self.id(),
    {
        proof {
            use_type_invariant(&self);
        }
        Connection { peers: self.peers, peer_id: self.peer_id, _state: PhantomData }
    }
}


/// A hello datagram announces the id of the peer that built it.
pub proof fn lemma_hello_roundtrip(id: u64)
    ensures
        hello_bytes(id).len() == HELLO_LEN,
        hello_sender(hello_bytes(id)) == Some(id),
{
    vstd::bytes::lemma_auto_spec_u32_to_from_le_bytes();
    vstd::bytes::lemma_auto_spec_u64_to_from_le_bytes();
    let h = hello_bytes(id);
    assert(h.take(4) == vstd::bytes::spec_u32_to_le_bytes(MAGIC));
    assert(h.skip(4) == vstd::bytes::spec_u64_to_le_bytes(id));
}

/// A peer never lists itself: its own hello, echoed back by the multicast
/// group, leaves the peer list unchanged.
pub proof fn lemma_own_hello_ignored(peers: Seq<PeerAddr>, id: u64, from: PeerAddr)
    ensures
        absorb(peers, id, hello_bytes(id), from) == peers,
{
    lemma_hello_roundtrip(id);
}

/// The hello of another peer, from an address not yet known, adds that
/// address at the end of the peer list.
pub proof fn lemma_foreign_hello_admitted(peers: Seq<PeerAddr>, own: u64, sender: u64, from: PeerAddr)
    requires
        sender != own,
        !peers.contains(from),
    ensures
        absorb(peers, own, hello_bytes(sender), from) == peers.push(from),
{
    lemma_hello_roundtrip(sender);
}

/// Taking responses keeps the peer list free of duplicates.
pub proof fn lemma_absorb_all_distinct(peers: Seq<PeerAddr>, own: u64, ds: Seq<(Seq<u8>, PeerAddr)>)
    requires
        peers.no_duplicates(),
    ensures
        absorb_all(peers, own, ds).no_duplicates(),
    decreases ds.len(),
{
    if ds.len() > 0 {
        lemma_absorb_all_distinct(peers, own, ds.drop_last());
        let rest = absorb_all(peers, own, ds.drop_last());
        let from = ds.last().1;
        if admits(rest, own, ds.last().0, from) {
            let next = rest.push(from);
            assert forall|i: int, j: int| 0 <= i < j < next.len() implies next[i] != next[j] by {
                if j == next.len() - 1 {
                    assert(rest[i] == next[i]);
                }
            }
        }
    }
}

/// Taking responses never drops or reorders a known peer: the old list is a
/// prefix of the new one.
pub proof fn lemma_absorb_all_extends(peers: Seq<PeerAddr>, own: u64, ds: Seq<(Seq<u8>, PeerAddr)>)
    ensures
        peers.len() <= absorb_all(peers, own, ds).len(),
        absorb_all(peers, own, ds).take(peers.len() as int) == peers,
    decreases ds.len(),
{
    if ds.len() > 0 {
        lemma_absorb_all_extends(peers, own, ds.drop_last());
        let rest = absorb_all(peers, own, ds.drop_last());
        assert(rest.push(ds.last().1).take(peers.len() as int) == rest.take(peers.len() as int));
    }
}

/// Every peer that taking responses adds sent a hello of another peer from
/// its address.
pub proof fn lemma_absorbed_peer_said_hello(
    peers: Seq<PeerAddr>,
    own: u64,
    ds: Seq<(Seq<u8>, PeerAddr)>,
    q: PeerAddr,
)
    requires
        absorb_all(peers, own, ds).contains(q),
        !peers.contains(q),
    ensures
        exists|i: int|
            0 <= i < ds.len() && #[trigger] ds[i].1 == q && foreign_hello(ds[i].0, own),
    decreases ds.len(),
{
    if ds.len() > 0 {
        let rest = absorb_all(peers, own, ds.drop_last());
        let last = ds.last();
        if rest.contains(q) {
            lemma_absorbed_peer_said_hello(peers, own, ds.drop_last(), q);
            let i = choose|i: int|
                0 <= i < ds.drop_last().len() && #[trigger] ds.drop_last()[i].1 == q
                    && foreign_hello(ds.drop_last()[i].0, own);
            assert(ds[i] == ds.drop_last()[i]);
        } else {
            assert(admits(rest, own, last.0, last.1));
            let next = rest.push(last.1);
            let k = choose|k: int| 0 <= k < next.len() && next[k] == q;
            if k < rest.len() {
                assert(rest[k] == next[k]);
            }
            assert(ds[ds.len() - 1].1 == q);
        }
    }
}

} // verus!
