use vstd::prelude::*;
use crate::fetch::{self, Connected, Datagram, Pairing, PeerAddr, MAGIC};

verus! {

/// A pointer position. Each coordinate is an `f64`, held here as its IEEE-754
/// bit pattern (`f64::to_bits`).
#[derive(Clone, Copy, Debug, PartialEq, Eq, Structural)]
pub struct Pos {
    pub x: u64,
    pub y: u64,
}

/// What a game message carries.
#[derive(Clone, Copy, Debug, PartialEq, Eq, Structural)]
pub enum MessageType {
    MousePosition(Pos),
}

/// A game message: its sender's peer id and its content.
#[derive(Clone, Copy, Debug, PartialEq, Eq, Structural)]
pub struct Message {
    pub peer_id: u64,
    pub content: MessageType,
}

/// Length in bytes of a position datagram: eight bytes per coordinate.
pub const POSITION_LEN: usize = 16;

/// The position datagram for `p` on a little-endian machine: the bytes of
/// `x` then those of `y`, each least significant first.
pub open spec fn le_position_bytes(p: Pos) -> Seq<u8> {
    vstd::bytes::spec_u64_to_le_bytes(p.x) + vstd::bytes::spec_u64_to_le_bytes(p.y)
}

/// The position datagram for `p` on a big-endian machine: the bytes of `x`
/// then those of `y`, each most significant first.
pub open spec fn be_position_bytes(p: Pos) -> Seq<u8> {
    vstd::bytes::spec_u64_to_le_bytes(p.x).reverse() + vstd::bytes::spec_u64_to_le_bytes(
        p.y,
    ).reverse()
}

/// Whether `d` is a position datagram for `p` as this side sends it: the
/// bytes of `x` then those of `y`, both in the machine's one byte order.
pub open spec fn sent_position(d: Seq<u8>, p: Pos) -> bool {
    d == le_position_bytes(p) || d == be_position_bytes(p)
}

/// The position a received datagram stands for: a datagram of exactly
/// `POSITION_LEN` bytes, read as two little-endian words.
pub open spec fn position_of(d: Seq<u8>) -> Option<Pos> {
    if d.len() == POSITION_LEN {
        Some(
            Pos {
                x: vstd::bytes::spec_u64_from_le_bytes(d.take(8)),
                y: vstd::bytes::spec_u64_from_le_bytes(d.skip(8)),
            },
        )
    } else {
        None
    }
}

/// The position of the last datagram in `ds` that stands for one.
pub open spec fn latest_position_of(ds: Seq<Seq<u8>>) -> Option<Pos>
    decreases ds.len(),
{
    if ds.len() == 0 {
        None
    } else {
        match position_of(ds.last()) {
            Some(p) => Some(p),
            None => latest_position_of(ds.drop_last()),
        }
    }
}

/// `u64::to_ne_bytes` of `x` and of `y`: the eight bytes of each in the
/// machine's byte order. The contract says that both are least significant
/// first or both are most significant first; which of the two depends on the
/// machine and is not stated.
#[verifier::external_body]
fn native_bytes(x: u64, y: u64) -> (b: ([u8; 8], [u8; 8]))
    ensures
        (b.0@ == vstd::bytes::spec_u64_to_le_bytes(x) && b.1@ == vstd::bytes::spec_u64_to_le_bytes(y))
            || (b.0@ == vstd::bytes::spec_u64_to_le_bytes(x).reverse() && b.1@
            == vstd::bytes::spec_u64_to_le_bytes(y).reverse()),
{
    (x.to_ne_bytes(), y.to_ne_bytes())
}

fn push_all(out: &mut Vec<u8>, b: &[u8; 8])
    ensures
        final(out)@ == old(out)@ + b@,
{
    let mut i: usize = 0;
    while i < 8
        invariant
            i <= 8,
            out@ == old(out)@ + b@.take(i as int),
        decreases 8 - i,
    {
        out.push(b[i]);
        assert(b@.take(i + 1) == b@.take(i as int).push(b@[i as int]));
        i = i + 1;
    }
    assert(b@.take(8) == b@);
}

/// The datagram that carries this side's pointer position to the peer.
pub fn position_datagram(p: Pos) -> (d: Vec<u8>)
    ensures
        sent_position(d@, p),
{
    let (bx, by) = native_bytes(p.x, p.y);
    let mut d: Vec<u8> = Vec::new();
    push_all(&mut d, &bx);
    push_all(&mut d, &by);
    assert(d@ == bx@ + by@);
    d
}

/// The position a received datagram stands for, if it is a position datagram.
pub fn parse_position(d: &[u8]) -> (p: Option<Pos>)
    ensures
        p == position_of(d@),
{
    if d.len() != POSITION_LEN {
        return None;
    }
    let x = vstd::bytes::u64_from_le_bytes(vstd::slice::slice_subrange(d, 0, 8));
    let y = vstd::bytes::u64_from_le_bytes(vstd::slice::slice_subrange(d, 8, POSITION_LEN));
    assert(d@.subrange(0, 8) == d@.take(8));
    assert(d@.subrange(8, 16) == d@.skip(8));
    Some(Pos { x, y })
}

/// The peer's position after reading `received` in order: that of the last
/// position datagram among them; datagrams of another length are skipped.
pub fn latest_position(received: &Vec<Vec<u8>>) -> (p: Option<Pos>)
    ensures
        p == latest_position_of(received@.map_values(|d: Vec<u8>| d@)),
{
    let ghost views = received@.map_values(|d: Vec<u8>| d@);
    let mut latest: Option<Pos> = None;
    let mut i: usize = 0;
    while i < received.len()
        invariant
            i <= received.len(),
            views == received@.map_values(|d: Vec<u8>| d@),
            latest == latest_position_of(views.take(i as int)),
        decreases received.len() - i,
    {
        assert(views.take(i + 1).drop_last() == views.take(i as int));
        match parse_position(received[i].as_slice()) {
            Some(p) => {
                latest = Some(p);
            },
            None => {},
        }
        i = i + 1;
    }
    assert(views.take(i as int) == views);
    latest
}

/// On a little-endian machine a sent position datagram reads back as the
/// position that was sent.
pub proof fn lemma_position_roundtrip(p: Pos)
    ensures
        sent_position(le_position_bytes(p), p),
        position_of(le_position_bytes(p)) == Some(p),
{
    vstd::bytes::lemma_auto_spec_u64_to_from_le_bytes();
    let d = le_position_bytes(p);
    assert(d.take(8) == vstd::bytes::spec_u64_to_le_bytes(p.x));
    assert(d.skip(8) == vstd::bytes::spec_u64_to_le_bytes(p.y));
}

/// The position read from a batch is decided by its last position datagram:
/// a later position datagram replaces every earlier one, and any other
/// datagram changes nothing.
pub proof fn lemma_latest_position_append(ds: Seq<Seq<u8>>, d: Seq<u8>)
    ensures
        latest_position_of(ds.push(d)) == match position_of(d) {
            Some(p) => Some(p),
            None => latest_position_of(ds),
        },
{
    assert(ds.push(d).drop_last() == ds);
}


/// The client side of a link to the other player: still searching for a
/// peer (with the pairing connection, or `None` once it has been lost), or
/// connected to one.
pub enum Connection {
    Pairing(Option<fetch::Connection<Pairing>>),
    Connected(fetch::Connection<Connected>),
}

/// What a [`Connection`] stands for: the peers and id of the searching or
/// connected side, or nothing once the pairing connection is lost.
pub enum Link {
    Searching { peers: Seq<PeerAddr>, id: u64 },
    Lost,
    Linked { peers: Seq<PeerAddr>, id: u64 },
}

impl View for Connection {
    type V = Link;

    open spec fn view(&self) -> Link {
        match self {
            Connection::Pairing(Some(c)) => Link::Searching { peers: c.peer_list(), id: c.id() },
            Connection::Pairing(None) => Link::Lost,
            Connection::Connected(c) => Link::Linked { peers: c.peer_list(), id: c.id() },
        }
    }
}

impl Connection {
    pub fn is_connected(&self) -> (connected: bool)
        ensures
            connected == (self@ is Linked),
    {
        match self {
            Connection::Connected(_) => true,
            _ => false,
        }
    }

    /// The message to send for `content`: stamped with this side's peer id
    /// when connected; nothing is sent otherwise.
    pub fn outgoing(&self, content: MessageType) -> (m: Option<Message>)
        ensures
            m == match self@ {
                Link::Linked { id, .. } => Some(Message { peer_id: id, content }),
                _ => None,
            },
    {
        match self {
            Connection::Connected(c) => Some(Message { peer_id: c.peer_id(), content }),
            _ => None,
        }
    }
}

/// Where a pairing attempt stands.
#[derive(Clone, Copy, Debug, PartialEq, Eq, Structural)]
pub enum PairStage {
    Ready,
    FirstHello,
    Collecting,
    SecondHello,
    Connecting,
    Done,
}

/// What happened since the last action of a pairing attempt.
pub enum PairEvent {
    /// The attempt begins.
    Start,
    /// The hello was sent, or sending failed.
    HelloSent { ok: bool },
    /// The responses read until no more were waiting, and whether reading
    /// ended without an error.
    Responses { received: Vec<Datagram>, ok: bool },
    /// Connecting to the peer succeeded or failed.
    ConnectDone { ok: bool },
}

/// What a pairing attempt asks for next.
pub enum PairAction {
    /// Multicast this hello datagram.
    SendHello(Vec<u8>),
    /// Read the waiting responses.
    CollectResponses,
    /// Leave the multicast group and connect to this peer.
    Connect(PeerAddr),
    /// The attempt is over; `true` when the link is connected.
    Finish(bool),
}

pub enum PairEventView {
    Start,
    HelloSent { ok: bool },
    Responses { received: Seq<(Seq<u8>, PeerAddr)>, ok: bool },
    ConnectDone { ok: bool },
}

pub enum PairActionView {
    SendHello(Seq<u8>),
    CollectResponses,
    Connect(PeerAddr),
    Finish(bool),
}

impl View for PairEvent {
    type V = PairEventView;

    open spec fn view(&self) -> PairEventView {
        match self {
            PairEvent::Start => PairEventView::Start,
            PairEvent::HelloSent { ok } => PairEventView::HelloSent { ok: *ok },
            PairEvent::Responses { received, ok } => PairEventView::Responses {
                received: received@.map_values(|r: Datagram| r@),
                ok: *ok,
            },
            PairEvent::ConnectDone { ok } => PairEventView::ConnectDone { ok: *ok },
        }
    }
}

impl View for PairAction {
    type V = PairActionView;

    open spec fn view(&self) -> PairActionView {
        match self {
            PairAction::SendHello(h) => PairActionView::SendHello(h@),
            PairAction::CollectResponses => PairActionView::CollectResponses,
            PairAction::Connect(a) => PairActionView::Connect(*a),
            PairAction::Finish(ok) => PairActionView::Finish(*ok),
        }
    }
}

/// One step of a pairing attempt: from its stage, the link and what just
/// happened, to the next stage, the link after it and the next action.
///
/// Connected links succeed at once and lost ones fail at once. A searching
/// link multicasts its hello, collects the responses, multicasts its hello
/// again and connects to the first peer it knows; any failure ends the
/// attempt, and a failed connect loses the pairing connection. An event that
/// the stage does not wait for ends the attempt with a failure.
pub open spec fn pair_transition(stage: PairStage, link: Link, ev: PairEventView) -> (
    PairStage,
    Link,
    PairActionView,
) {
    let fail = (PairStage::Done, link, PairActionView::Finish(false));
    match (stage, ev) {
        (PairStage::Ready, PairEventView::Start) => match link {
            Link::Linked { .. } => (PairStage::Done, link, PairActionView::Finish(true)),
            Link::Lost => fail,
            Link::Searching { id, .. } => (
                PairStage::FirstHello,
                link,
                PairActionView::SendHello(fetch::hello_bytes(id)),
            ),
        },
        (PairStage::FirstHello, PairEventView::HelloSent { ok }) => if ok {
            (PairStage::Collecting, link, PairActionView::CollectResponses)
        } else {
            fail
        },
        (PairStage::Collecting, PairEventView::Responses { received, ok }) => match link {
            Link::Searching { peers, id } => {
                let next = Link::Searching { peers: fetch::absorb_all(peers, id, received), id };
                if ok {
                    (PairStage::SecondHello, next, PairActionView::SendHello(fetch::hello_bytes(id)))
                } else {
                    (PairStage::Done, next, PairActionView::Finish(false))
                }
            },
            _ => fail,
        },
        (PairStage::SecondHello, PairEventView::HelloSent { ok }) => match link {
            Link::Searching { peers, .. } => if ok && peers.len() > 0 {
                (PairStage::Connecting, link, PairActionView::Connect(peers[0]))
            } else {
                fail
            },
            _ => fail,
        },
        (PairStage::Connecting, PairEventView::ConnectDone { ok }) => match link {
            Link::Searching { peers, id } => if ok {
                (PairStage::Done, Link::Linked { peers, id }, PairActionView::Finish(true))
            } else {
                (PairStage::Done, Link::Lost, PairActionView::Finish(false))
            },
            _ => fail,
        },
        _ => fail,
    }
}

/// Takes one step of a pairing attempt on `conn` (see [`pair_transition`]).
/// The caller performs the returned action and reports how it went with the
/// next event, until the action is `Finish`.
pub fn pair_step(conn: &mut Connection, stage: PairStage, ev: PairEvent) -> (r: (PairStage, PairAction))
    ensures
        (r.0, final(conn)@, r.1@) == pair_transition(stage, old(conn)@, ev@),
{
    match (stage, ev) {
        (PairStage::Ready, PairEvent::Start) => match conn {
            Connection::Connected(_) => (PairStage::Done, PairAction::Finish(true)),
            Connection::Pairing(None) => (PairStage::Done, PairAction::Finish(false)),
            Connection::Pairing(Some(c)) => (PairStage::FirstHello, PairAction::SendHello(c.multicast_hello())),
        },
        (PairStage::FirstHello, PairEvent::HelloSent { ok }) => if ok {
            (PairStage::Collecting, PairAction::CollectResponses)
        } else {
            (PairStage::Done, PairAction::Finish(false))
        },
        (PairStage::Collecting, PairEvent::Responses { received, ok }) => match conn {
            Connection::Pairing(Some(c)) => {
                c.collect_responses(&received);
                if ok {
                    (PairStage::SecondHello, PairAction::SendHello(c.multicast_hello()))
                } else {
                    (PairStage::Done, PairAction::Finish(false))
                }
            },
            _ => (PairStage::Done, PairAction::Finish(false)),
        },
        (PairStage::SecondHello, PairEvent::HelloSent { ok }) => match conn {
            Connection::Pairing(Some(c)) => {
                let peers = c.peers();
                if ok && peers.len() > 0 {
                    (PairStage::Connecting, PairAction::Connect(peers[0]))
                } else {
                    (PairStage::Done, PairAction::Finish(false))
                }
            },
            _ => (PairStage::Done, PairAction::Finish(false)),
        },
        (PairStage::Connecting, PairEvent::ConnectDone { ok }) => {
            let mut taken = Connection::Pairing(None);
            std::mem::swap(&mut taken, conn);
            match taken {
                Connection::Pairing(Some(c)) => if ok {
                    *conn = Connection::Connected(c.connect());
                    (PairStage::Done, PairAction::Finish(true))
                } else {
                    (PairStage::Done, PairAction::Finish(false))
                },
                other => {
                    *conn = other;
                    (PairStage::Done, PairAction::Finish(false))
                },
            }
        },
        _ => (PairStage::Done, PairAction::Finish(false)),
    }
}


/// Where an update (a position exchange, pairing first when not connected)
/// stands.
#[derive(Clone, Copy, Debug, PartialEq, Eq, Structural)]
pub enum UpdateStage {
    Ready,
    /// Pairing before the exchange, because the link was not connected.
    FirstPair(PairStage),
    /// Pairing again, because the first attempt left the link unconnected;
    /// this update then returns no position.
    SecondPair(PairStage),
    Sending,
    Receiving,
    Done,
}

/// What happened since the last action of an update.
pub enum UpdateEvent {
    Start,
    /// An event of the pairing attempt under way.
    Pair(PairEvent),
    /// The position datagram was handed to the socket (whether sending
    /// succeeded does not matter).
    Sent,
    /// The datagrams read until none was waiting or reading failed.
    Received(Vec<Vec<u8>>),
}

/// What an update asks for next.
pub enum UpdateAction {
    /// An action of the pairing attempt under way; never `Finish`.
    Pair(PairAction),
    /// Send this position datagram to the peer.
    SendPosition(Vec<u8>),
    /// Read the datagrams waiting from the peer.
    ReceivePositions,
    /// The update is over, with the peer's new position if one arrived.
    Finish(Option<Pos>),
}

pub enum UpdateEventView {
    Start,
    Pair(PairEventView),
    Sent,
    Received(Seq<Seq<u8>>),
}

pub enum UpdateActionView {
    Pair(PairActionView),
    SendPosition,
    ReceivePositions,
    Finish(Option<Pos>),
}

impl View for UpdateEvent {
    type V = UpdateEventView;

    open spec fn view(&self) -> UpdateEventView {
        match self {
            UpdateEvent::Start => UpdateEventView::Start,
            UpdateEvent::Pair(e) => UpdateEventView::Pair(e@),
            UpdateEvent::Sent => UpdateEventView::Sent,
            UpdateEvent::Received(ds) => UpdateEventView::Received(ds@.map_values(|d: Vec<u8>| d@)),
        }
    }
}

impl View for UpdateAction {
    type V = UpdateActionView;

    open spec fn view(&self) -> UpdateActionView {
        match self {
            UpdateAction::Pair(a) => UpdateActionView::Pair(a@),
            UpdateAction::SendPosition(_) => UpdateActionView::SendPosition,
            UpdateAction::ReceivePositions => UpdateActionView::ReceivePositions,
            UpdateAction::Finish(p) => UpdateActionView::Finish(*p),
        }
    }
}

/// The update after the first pairing attempt ended with the link `link`:
/// exchange positions when connected, else pair once more.
pub open spec fn after_first_pair(link: Link) -> (UpdateStage, Link, UpdateActionView) {
    if link is Linked {
        (UpdateStage::Sending, link, UpdateActionView::SendPosition)
    } else {
        let (ps, l, a) = pair_transition(PairStage::Ready, link, PairEventView::Start);
        if a is Finish {
            (UpdateStage::Done, l, UpdateActionView::Finish(None))
        } else {
            (UpdateStage::SecondPair(ps), l, UpdateActionView::Pair(a))
        }
    }
}

/// One step of an update: a connected link sends its position and then
/// reads the peer's, which is that of the last position datagram read; an
/// unconnected link pairs first, exchanges positions if that connects it,
/// and otherwise pairs once more and returns no position. An event that the
/// stage does not wait for ends the update without a position.
pub open spec fn update_transition(stage: UpdateStage, link: Link, ev: UpdateEventView) -> (
    UpdateStage,
    Link,
    UpdateActionView,
) {
    let stop = (UpdateStage::Done, link, UpdateActionView::Finish(None));
    match (stage, ev) {
        (UpdateStage::Ready, UpdateEventView::Start) => if link is Linked {
            (UpdateStage::Sending, link, UpdateActionView::SendPosition)
        } else {
            let (ps, l, a) = pair_transition(PairStage::Ready, link, PairEventView::Start);
            if a is Finish {
                after_first_pair(l)
            } else {
                (UpdateStage::FirstPair(ps), l, UpdateActionView::Pair(a))
            }
        },
        (UpdateStage::FirstPair(ps), UpdateEventView::Pair(e)) => {
            let (ps2, l, a) = pair_transition(ps, link, e);
            if a is Finish {
                after_first_pair(l)
            } else {
                (UpdateStage::FirstPair(ps2), l, UpdateActionView::Pair(a))
            }
        },
        (UpdateStage::SecondPair(ps), UpdateEventView::Pair(e)) => {
            let (ps2, l, a) = pair_transition(ps, link, e);
            if a is Finish {
                (UpdateStage::Done, l, UpdateActionView::Finish(None))
            } else {
                (UpdateStage::SecondPair(ps2), l, UpdateActionView::Pair(a))
            }
        },
        (UpdateStage::Sending, UpdateEventView::Sent) => (
            UpdateStage::Receiving,
            link,
            UpdateActionView::ReceivePositions,
        ),
        (UpdateStage::Receiving, UpdateEventView::Received(ds)) => (
            UpdateStage::Done,
            link,
            UpdateActionView::Finish(latest_position_of(ds)),
        ),
        _ => stop,
    }
}

/// Takes one step of an update of `conn` that sends the position `pos`
/// (see [`update_transition`]). A `SendPosition` action carries the
/// position datagram of `pos`.
pub fn update_step(conn: &mut Connection, stage: UpdateStage, pos: Pos, ev: UpdateEvent) -> (r: (
    UpdateStage,
    UpdateAction,
))
    ensures
        (r.0, final(conn)@, r.1@) == update_transition(stage, old(conn)@, ev@),
        r.1 matches UpdateAction::SendPosition(d) ==> sent_position(d@, pos),
{
    // Where a pairing attempt begun or continued here has got to.
    let (first, ps, pa) = match (stage, ev) {
        (UpdateStage::Ready, UpdateEvent::Start) => {
            if conn.is_connected() {
                return (UpdateStage::Sending, UpdateAction::SendPosition(position_datagram(pos)));
            }
            let (ps, pa) = pair_step(conn, PairStage::Ready, PairEvent::Start);
            (true, ps, pa)
        },
        (UpdateStage::FirstPair(ps), UpdateEvent::Pair(e)) => {
            let (ps, pa) = pair_step(conn, ps, e);
            (true, ps, pa)
        },
        (UpdateStage::SecondPair(ps), UpdateEvent::Pair(e)) => {
            let (ps, pa) = pair_step(conn, ps, e);
            (false, ps, pa)
        },
        (UpdateStage::Sending, UpdateEvent::Sent) => {
            return (UpdateStage::Receiving, UpdateAction::ReceivePositions);
        },
        (UpdateStage::Receiving, UpdateEvent::Received(ds)) => {
            return (UpdateStage::Done, UpdateAction::Finish(latest_position(&ds)));
        },
        _ => {
            return (UpdateStage::Done, UpdateAction::Finish(None));
        },
    };
    match pa {
        PairAction::Finish(_) => {
            if !first {
                return (UpdateStage::Done, UpdateAction::Finish(None));
            }
            if conn.is_connected() {
                return (UpdateStage::Sending, UpdateAction::SendPosition(position_datagram(pos)));
            }
            let (ps2, pa2) = pair_step(conn, PairStage::Ready, PairEvent::Start);
            match pa2 {
                PairAction::Finish(_) => (UpdateStage::Done, UpdateAction::Finish(None)),
                a => (UpdateStage::SecondPair(ps2), UpdateAction::Pair(a)),
            }
        },
        a => if first {
            (UpdateStage::FirstPair(ps), UpdateAction::Pair(a))
        } else {
            (UpdateStage::SecondPair(ps), UpdateAction::Pair(a))
        },
    }
}


/// How many steps a pairing attempt at `stage` can still take.
pub open spec fn pair_steps_left(stage: PairStage) -> nat {
    match stage {
        PairStage::Ready => 5,
        PairStage::FirstHello => 4,
        PairStage::Collecting => 3,
        PairStage::SecondHello => 2,
        PairStage::Connecting => 1,
        PairStage::Done => 0,
    }
}

/// How many steps an update at `stage` can still take.
pub open spec fn update_steps_left(stage: UpdateStage) -> nat {
    match stage {
        UpdateStage::Ready => 15,
        UpdateStage::FirstPair(ps) => 9 + pair_steps_left(ps),
        UpdateStage::SecondPair(ps) => 3 + pair_steps_left(ps),
        UpdateStage::Sending => 2,
        UpdateStage::Receiving => 1,
        UpdateStage::Done => 0,
    }
}

/// The peer id behind a link, if it still has one.
pub open spec fn link_id(link: Link) -> Option<u64> {
    match link {
        Link::Searching { id, .. } => Some(id),
        Link::Linked { id, .. } => Some(id),
        Link::Lost => None,
    }
}

/// Whether the peers behind a link, if any, are listed once each.
pub open spec fn link_peers_distinct(link: Link) -> bool {
    match link {
        Link::Searching { peers, .. } => peers.no_duplicates(),
        Link::Linked { peers, .. } => peers.no_duplicates(),
        Link::Lost => true,
    }
}

/// Pairing a connected link succeeds at once, with nothing sent and the
/// link unchanged.
pub proof fn lemma_pair_connected_succeeds_at_once(link: Link)
    requires
        link is Linked,
    ensures
        pair_transition(PairStage::Ready, link, PairEventView::Start) == (
            PairStage::Done,
            link,
            PairActionView::Finish(true),
        ),
{
}

/// A pairing step leaves a connected link as it is, and a lost link lost.
pub proof fn lemma_pair_keeps_linked_and_lost(stage: PairStage, link: Link, ev: PairEventView)
    ensures
        link is Linked ==> pair_transition(stage, link, ev).1 == link,
        link is Lost ==> pair_transition(stage, link, ev).1 is Lost,
{
}

/// A pairing attempt reports success only with the link connected, and it
/// only ever connects to the first peer that answered.
pub proof fn lemma_pair_success_and_connect_target(stage: PairStage, link: Link, ev: PairEventView)
    ensures
        pair_transition(stage, link, ev).2 == PairActionView::Finish(true)
            ==> pair_transition(stage, link, ev).1 is Linked,
        pair_transition(stage, link, ev).2 matches PairActionView::Connect(a) ==> (
        link matches Link::Searching { peers, .. } && peers.len() > 0 && a == peers[0]),
{
}

/// Pairing never changes the peer id, never gives a lost link one back,
/// and keeps the peers listed once each.
pub proof fn lemma_pair_keeps_id_and_distinct_peers(stage: PairStage, link: Link, ev: PairEventView)
    requires
        link_peers_distinct(link),
    ensures
        link_id(pair_transition(stage, link, ev).1) is Some ==> link_id(
            pair_transition(stage, link, ev).1,
        ) == link_id(link),
        link_peers_distinct(pair_transition(stage, link, ev).1),
{
    if let (PairStage::Collecting, PairEventView::Responses { received, ok }) = (stage, ev) {
        if let Link::Searching { peers, id } = link {
            fetch::lemma_absorb_all_distinct(peers, id, received);
        }
    }
}

/// A pairing attempt ends: every step before the end moves to a later
/// stage, so at most five events lead to `Finish`.
pub proof fn lemma_pair_progress(stage: PairStage, link: Link, ev: PairEventView)
    ensures
        stage != PairStage::Done ==> pair_steps_left(pair_transition(stage, link, ev).0)
            < pair_steps_left(stage),
        pair_transition(stage, link, ev).0 == PairStage::Done <==> pair_transition(
            stage,
            link,
            ev,
        ).2 is Finish,
{
}

/// An update of a connected link begins by sending its position.
pub proof fn lemma_update_connected_sends_first(link: Link)
    requires
        link is Linked,
    ensures
        update_transition(UpdateStage::Ready, link, UpdateEventView::Start) == (
            UpdateStage::Sending,
            link,
            UpdateActionView::SendPosition,
        ),
{
}

/// An update ends: every step before the end moves closer to it, so at most
/// fifteen events lead to `Finish`; and it leaves a connected link as it is.
pub proof fn lemma_update_progress(stage: UpdateStage, link: Link, ev: UpdateEventView)
    requires
        stage != UpdateStage::Done ==> (stage matches UpdateStage::FirstPair(ps) ==> ps
            != PairStage::Done) && (stage matches UpdateStage::SecondPair(ps) ==> ps
            != PairStage::Done),
    ensures
        stage != UpdateStage::Done ==> update_steps_left(update_transition(stage, link, ev).0)
            < update_steps_left(stage),
        link is Linked ==> update_transition(stage, link, ev).1 == link,
{
    lemma_pair_keeps_linked_and_lost(PairStage::Ready, link, PairEventView::Start);
    match (stage, ev) {
        (UpdateStage::FirstPair(ps), UpdateEventView::Pair(e)) => {
            lemma_pair_progress(ps, link, e);
            lemma_pair_keeps_linked_and_lost(ps, link, e);
        },
        (UpdateStage::SecondPair(ps), UpdateEventView::Pair(e)) => {
            lemma_pair_progress(ps, link, e);
            lemma_pair_keeps_linked_and_lost(ps, link, e);
        },
        _ => {},
    }
}

/// An update returns a position only as its last step, after reading the
/// peer's datagrams, and it is the position of the last position datagram
/// among them.
pub proof fn lemma_update_position_comes_from_received(
    stage: UpdateStage,
    link: Link,
    ev: UpdateEventView,
    p: Pos,
)
    requires
        update_transition(stage, link, ev).2 == UpdateActionView::Finish(Some(p)),
    ensures
        stage == UpdateStage::Receiving,
        ev matches UpdateEventView::Received(ds) && latest_position_of(ds) == Some(p),
{
}


/// The stage, link and action reached from stage `stage`, link `link` and
/// last action `a` by feeding the events `evs` in order, one step each,
/// stopping at the first `Finish`.
pub open spec fn pair_run_from(stage: PairStage, link: Link, a: PairActionView, evs: Seq<PairEventView>) -> (
    PairStage,
    Link,
    PairActionView,
)
    decreases evs.len(),
{
    if a is Finish || evs.len() == 0 {
        (stage, link, a)
    } else {
        let (s2, l2, a2) = pair_transition(stage, link, evs[0]);
        pair_run_from(s2, l2, a2, evs.drop_first())
    }
}

/// A pairing attempt on `link`: it starts, then takes the events `evs`.
pub open spec fn pair_run(link: Link, evs: Seq<PairEventView>) -> (PairStage, Link, PairActionView) {
    let (s, l, a) = pair_transition(PairStage::Ready, link, PairEventView::Start);
    pair_run_from(s, l, a, evs)
}

/// Whether a pairing attempt that is under way (its last action was not
/// `Finish`) is in a stage that only a searching link reaches.
pub open spec fn pair_under_way(stage: PairStage, link: Link) -> bool {
    &&& stage != PairStage::Ready
    &&& stage != PairStage::Done
    &&& link is Searching
}

proof fn lemma_pair_step_under_way(stage: PairStage, link: Link, ev: PairEventView)
    requires
        pair_under_way(stage, link),
    ensures
        !(pair_transition(stage, link, ev).2 is Finish) ==> pair_under_way(
            pair_transition(stage, link, ev).0,
            pair_transition(stage, link, ev).1,
        ),
        pair_transition(stage, link, ev).2 is Finish ==> (pair_transition(stage, link, ev).2
            == PairActionView::Finish(true) <==> pair_transition(stage, link, ev).1 is Linked),
{
}

proof fn lemma_pair_run_from_under_way(stage: PairStage, link: Link, a: PairActionView, evs: Seq<PairEventView>)
    requires
        a is Finish ==> (a == PairActionView::Finish(true) <==> link is Linked),
        !(a is Finish) ==> pair_under_way(stage, link),
    ensures
        ({
            let (s, l, r) = pair_run_from(stage, link, a, evs);
            &&& r is Finish ==> (r == PairActionView::Finish(true) <==> l is Linked)
            &&& !(r is Finish) ==> pair_under_way(s, l)
        }),
    decreases evs.len(),
{
    if !(a is Finish) && evs.len() > 0 {
        lemma_pair_step_under_way(stage, link, evs[0]);
        let (s2, l2, a2) = pair_transition(stage, link, evs[0]);
        lemma_pair_run_from_under_way(s2, l2, a2, evs.drop_first());
    }
}

/// A pairing attempt that has ended reports success exactly when the link is
/// connected afterwards, whatever happened on the way; and it reports
/// success at once, without touching the link, when the link was connected
/// to begin with.
pub proof fn lemma_pair_run_success_iff_linked(link: Link, evs: Seq<PairEventView>)
    ensures
        pair_run(link, evs).2 is Finish ==> (pair_run(link, evs).2 == PairActionView::Finish(true)
            <==> pair_run(link, evs).1 is Linked),
        link is Linked ==> pair_run(link, evs) == (PairStage::Done, link, PairActionView::Finish(true)),
{
    let (s, l, a) = pair_transition(PairStage::Ready, link, PairEventView::Start);
    lemma_pair_run_from_under_way(s, l, a, evs);
}

/// The stage, link and action reached from stage `stage`, link `link` and
/// last action `a` of an update by feeding the events `evs` in order, one
/// step each, stopping at the first `Finish`.
pub open spec fn update_run_from(stage: UpdateStage, link: Link, a: UpdateActionView, evs: Seq<UpdateEventView>) -> (
    UpdateStage,
    Link,
    UpdateActionView,
)
    decreases evs.len(),
{
    if a is Finish || evs.len() == 0 {
        (stage, link, a)
    } else {
        let (s2, l2, a2) = update_transition(stage, link, evs[0]);
        update_run_from(s2, l2, a2, evs.drop_first())
    }
}

/// An update of `link`: it starts, then takes the events `evs`.
pub open spec fn update_run(link: Link, evs: Seq<UpdateEventView>) -> (UpdateStage, Link, UpdateActionView) {
    let (s, l, a) = update_transition(UpdateStage::Ready, link, UpdateEventView::Start);
    update_run_from(s, l, a, evs)
}

/// Whether an update that is under way is in a stage consistent with its
/// link: pairing only on a searching link, exchanging only on a connected
/// one.
pub open spec fn update_under_way(stage: UpdateStage, link: Link) -> bool {
    match stage {
        UpdateStage::FirstPair(ps) => pair_under_way(ps, link),
        UpdateStage::SecondPair(ps) => pair_under_way(ps, link),
        UpdateStage::Sending => link is Linked,
        UpdateStage::Receiving => link is Linked,
        _ => false,
    }
}

/// What holds after each step of an update run: a position is returned only
/// over a connected link, and an update that is under way is consistent.
pub open spec fn update_step_ok(stage: UpdateStage, link: Link, a: UpdateActionView) -> bool {
    &&& a matches UpdateActionView::Finish(Some(_)) ==> link is Linked
    &&& !(a is Finish) ==> update_under_way(stage, link)
}

proof fn lemma_after_first_pair_ok(link: Link)
    requires
        !(link is Linked) ==> (link is Searching || link is Lost),
    ensures
        update_step_ok(after_first_pair(link).0, after_first_pair(link).1, after_first_pair(link).2),
{
}

proof fn lemma_update_step_ok(stage: UpdateStage, link: Link, ev: UpdateEventView)
    requires
        update_under_way(stage, link) || (stage == UpdateStage::Ready && ev == UpdateEventView::Start),
    ensures
        update_step_ok(
            update_transition(stage, link, ev).0,
            update_transition(stage, link, ev).1,
            update_transition(stage, link, ev).2,
        ),
{
    match (stage, ev) {
        (UpdateStage::Ready, UpdateEventView::Start) => {
            let (ps, l, a) = pair_transition(PairStage::Ready, link, PairEventView::Start);
            if a is Finish {
                lemma_after_first_pair_ok(l);
            }
        },
        (UpdateStage::FirstPair(ps), UpdateEventView::Pair(e)) => {
            lemma_pair_step_under_way(ps, link, e);
            let (ps2, l, a) = pair_transition(ps, link, e);
            if a is Finish {
                lemma_after_first_pair_ok(l);
            }
        },
        (UpdateStage::SecondPair(ps), UpdateEventView::Pair(e)) => {
            lemma_pair_step_under_way(ps, link, e);
        },
        _ => {},
    }
}

proof fn lemma_update_run_from_ok(
    stage: UpdateStage,
    link: Link,
    a: UpdateActionView,
    evs: Seq<UpdateEventView>,
    start: Link,
)
    requires
        update_step_ok(stage, link, a),
        start is Linked ==> link == start,
    ensures
        ({
            let (s, l, r) = update_run_from(stage, link, a, evs);
            &&& update_step_ok(s, l, r)
            &&& start is Linked ==> l == start
        }),
    decreases evs.len(),
{
    if !(a is Finish) && evs.len() > 0 {
        lemma_update_step_ok(stage, link, evs[0]);
        lemma_update_progress(stage, link, evs[0]);
        let (s2, l2, a2) = update_transition(stage, link, evs[0]);
        lemma_update_run_from_ok(s2, l2, a2, evs.drop_first(), start);
    }
}

/// Over a whole update: a position is returned only while the link is
/// connected, and an update never disturbs a link that was connected.
pub proof fn lemma_update_run_position_only_when_linked(link: Link, evs: Seq<UpdateEventView>)
    ensures
        update_run(link, evs).2 matches UpdateActionView::Finish(Some(_)) ==> update_run(
            link,
            evs,
        ).1 is Linked,
        link is Linked ==> update_run(link, evs).1 == link,
{
    lemma_update_step_ok(UpdateStage::Ready, link, UpdateEventView::Start);
    lemma_update_progress(UpdateStage::Ready, link, UpdateEventView::Start);
    let (s, l, a) = update_transition(UpdateStage::Ready, link, UpdateEventView::Start);
    lemma_update_run_from_ok(s, l, a, evs, link);
}


/// Only a datagram of exactly sixteen bytes stands for a position, and it
/// stands for the two little-endian words it holds.
pub proof fn lemma_position_only_from_sixteen_bytes(d: Seq<u8>)
    ensures
        (position_of(d) is Some) <==> d.len() == 16,
        d.len() == 16 ==> position_of(d) == Some(
            Pos {
                x: vstd::bytes::spec_u64_from_le_bytes(d.subrange(0, 8)),
                y: vstd::bytes::spec_u64_from_le_bytes(d.subrange(8, 16)),
            },
        ),
{
    assert(d.take(8) == d.subrange(0, 8));
    if d.len() == 16 {
        assert(d.skip(8) == d.subrange(8, 16));
    }
}

/// The position read from a batch of datagrams: none when no datagram in it
/// has sixteen bytes; otherwise the two little-endian words of the last one
/// that has, whatever follows it.
pub proof fn lemma_latest_position_is_last_sixteen_byte_datagram(ds: Seq<Seq<u8>>)
    ensures
        (forall|k: int| 0 <= k < ds.len() ==> (#[trigger] ds[k]).len() != 16) ==> latest_position_of(
            ds,
        ) is None,
        forall|j: int|
            0 <= j < ds.len() && (#[trigger] ds[j]).len() == 16 && (forall|k: int|
                j < k < ds.len() ==> (#[trigger] ds[k]).len() != 16) ==> latest_position_of(ds)
                == Some(
                Pos {
                    x: vstd::bytes::spec_u64_from_le_bytes(ds[j].subrange(0, 8)),
                    y: vstd::bytes::spec_u64_from_le_bytes(ds[j].subrange(8, 16)),
                },
            ),
    decreases ds.len(),
{
    if ds.len() > 0 {
        let rest = ds.drop_last();
        lemma_latest_position_is_last_sixteen_byte_datagram(rest);
        lemma_position_only_from_sixteen_bytes(ds.last());
        assert forall|k: int| 0 <= k < rest.len() implies rest[k] == ds[k] by {}
        assert forall|j: int|
            0 <= j < ds.len() && (#[trigger] ds[j]).len() == 16 && (forall|k: int|
                j < k < ds.len() ==> (#[trigger] ds[k]).len() != 16) implies latest_position_of(ds)
                == Some(
                Pos {
                    x: vstd::bytes::spec_u64_from_le_bytes(ds[j].subrange(0, 8)),
                    y: vstd::bytes::spec_u64_from_le_bytes(ds[j].subrange(8, 16)),
                },
            ) by {
            if j < ds.len() - 1 {
                assert(ds[ds.len() - 1].len() != 16);
                assert(rest[j] == ds[j]);
                assert forall|k: int| j < k < rest.len() implies (#[trigger] rest[k]).len() != 16 by {
                    assert(rest[k] == ds[k]);
                }
            }
        }
        if forall|k: int| 0 <= k < ds.len() ==> (#[trigger] ds[k]).len() != 16 {
            assert(ds[ds.len() - 1].len() != 16);
            assert forall|k: int| 0 <= k < rest.len() implies (#[trigger] rest[k]).len() != 16 by {
                assert(rest[k] == ds[k]);
            }
        }
    }
}

/// The last step of an update: what it returns is the peer's position in the
/// last sixteen-byte datagram read, or nothing when none of the datagrams
/// read has sixteen bytes; the update is then over and the link unchanged.
pub proof fn lemma_update_returns_last_position_read(link: Link, ds: Seq<Seq<u8>>)
    ensures
        update_transition(UpdateStage::Receiving, link, UpdateEventView::Received(ds)).0
            == UpdateStage::Done,
        update_transition(UpdateStage::Receiving, link, UpdateEventView::Received(ds)).1 == link,
        (forall|k: int| 0 <= k < ds.len() ==> (#[trigger] ds[k]).len() != 16) ==> update_transition(
            UpdateStage::Receiving,
            link,
            UpdateEventView::Received(ds),
        ).2 == UpdateActionView::Finish(None),
        forall|j: int|
            0 <= j < ds.len() && (#[trigger] ds[j]).len() == 16 && (forall|k: int|
                j < k < ds.len() ==> (#[trigger] ds[k]).len() != 16) ==> update_transition(
                UpdateStage::Receiving,
                link,
                UpdateEventView::Received(ds),
            ).2 == UpdateActionView::Finish(
                Some(
                    Pos {
                        x: vstd::bytes::spec_u64_from_le_bytes(ds[j].subrange(0, 8)),
                        y: vstd::bytes::spec_u64_from_le_bytes(ds[j].subrange(8, 16)),
                    },
                ),
            ),
{
    lemma_latest_position_is_last_sixteen_byte_datagram(ds);
}

/// Every hello a pairing step asks to multicast is a hello of this side:
/// twelve bytes, `MAGIC` then the link's own peer id, both little endian;
/// and only a searching link sends hellos.
pub proof fn lemma_pair_hellos_announce_own_id(stage: PairStage, link: Link, ev: PairEventView)
    ensures
        pair_transition(stage, link, ev).2 matches PairActionView::SendHello(h) ==> (link matches Link::Searching {
            id,
            ..
        } && h.len() == 12 && vstd::bytes::spec_u32_from_le_bytes(h.take(4)) == MAGIC
            && vstd::bytes::spec_u64_from_le_bytes(h.skip(4)) == id),
{
    if let Link::Searching { id, .. } = link {
        fetch::lemma_hello_roundtrip(id);
    }
}

} // verus!
