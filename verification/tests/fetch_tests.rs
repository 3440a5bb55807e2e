use ballgame::fetch::{
    encode_hello, parse_hello, Connection, Datagram, Pairing, PeerAddr, HELLO_LEN, MAGIC,
};

fn v4(last: u8, port: u16) -> PeerAddr {
    PeerAddr::V4 { ip: u32::from_be_bytes([192, 168, 0, last]), port }
}

fn hello_of(id: u64) -> Vec<u8> {
    let mut h = MAGIC.to_le_bytes().to_vec();
    h.extend_from_slice(&id.to_le_bytes());
    h
}

#[test]
fn hello_layout_is_magic_then_id_little_endian() {
    let h = encode_hello(0x0102_0304_0506_0708);
    assert_eq!(h, vec![42, 0, 0, 0, 8, 7, 6, 5, 4, 3, 2, 1]);
    assert_eq!(h.len(), HELLO_LEN);
}

#[test]
fn hello_roundtrip() {
    for id in [0u64, 1, 42, u64::MAX, 0xdead_beef_cafe_f00d] {
        assert_eq!(parse_hello(&encode_hello(id)), Some(id));
    }
}

#[test]
fn parse_hello_rejects_wrong_length_and_magic() {
    let h = hello_of(7);
    assert_eq!(parse_hello(&h[..11]), None);
    let mut long = h.clone();
    long.push(0);
    assert_eq!(parse_hello(&long), None);
    let mut bad = h.clone();
    bad[0] = 43;
    assert_eq!(parse_hello(&bad), None);
    assert_eq!(parse_hello(&[]), None);
}

#[test]
fn new_connection_has_no_peers() {
    let c = Connection::<Pairing>::new();
    assert!(c.peers().is_empty());
    assert_eq!(c.multicast_hello(), encode_hello(c.peer_id()));
}

#[test]
fn new_connections_draw_different_ids() {
    let a = Connection::<Pairing>::new();
    let b = Connection::<Pairing>::new();
    assert_ne!(a.peer_id(), b.peer_id());
}

#[test]
fn own_hello_is_ignored() {
    let mut c = Connection::<Pairing>::new();
    let own = c.multicast_hello();
    assert!(!c.absorb_response(&own, v4(2, 9876)));
    assert!(c.peers().is_empty());
}

#[test]
fn foreign_hello_adds_peer_once() {
    let mut c = Connection::<Pairing>::new();
    let other = c.peer_id().wrapping_add(1);
    let h = hello_of(other);
    assert!(c.absorb_response(&h, v4(2, 9876)));
    assert!(!c.absorb_response(&h, v4(2, 9876)));
    assert_eq!(c.peers(), &[v4(2, 9876)]);
    assert!(c.absorb_response(&h, v4(3, 9876)));
    assert_eq!(c.peers(), &[v4(2, 9876), v4(3, 9876)]);
}

#[test]
fn malformed_responses_are_ignored() {
    let mut c = Connection::<Pairing>::new();
    let other = c.peer_id().wrapping_add(5);
    let mut wrong_magic = hello_of(other);
    wrong_magic[1] = 1;
    assert!(!c.absorb_response(&wrong_magic, v4(2, 1)));
    assert!(!c.absorb_response(&hello_of(other)[..8], v4(2, 1)));
    assert!(!c.absorb_response(b"hello", v4(2, 1)));
    assert!(c.peers().is_empty());
}

#[test]
fn collect_responses_in_arrival_order() {
    let mut c = Connection::<Pairing>::new();
    let own = c.peer_id();
    let responses = vec![
        Datagram { bytes: hello_of(own), from: v4(1, 9876) },
        Datagram { bytes: hello_of(own ^ 1), from: v4(7, 9876) },
        Datagram { bytes: b"noise".to_vec(), from: v4(8, 9876) },
        Datagram { bytes: hello_of(own ^ 2), from: v4(5, 9876) },
        Datagram { bytes: hello_of(own ^ 3), from: v4(7, 9876) },
        Datagram {
            bytes: hello_of(own ^ 4),
            from: PeerAddr::V6 { ip: 1, port: 9876, flowinfo: 0, scope_id: 0 },
        },
    ];
    c.collect_responses(&responses);
    assert_eq!(
        c.peers(),
        &[
            v4(7, 9876),
            v4(5, 9876),
            PeerAddr::V6 { ip: 1, port: 9876, flowinfo: 0, scope_id: 0 }
        ]
    );
}

#[test]
fn collect_no_responses_keeps_peers() {
    let mut c = Connection::<Pairing>::new();
    let other = c.peer_id() ^ 9;
    c.absorb_response(&hello_of(other), v4(4, 1));
    c.collect_responses(&vec![]);
    assert_eq!(c.peers(), &[v4(4, 1)]);
}

#[test]
fn connect_keeps_peers_and_id() {
    let mut c = Connection::<Pairing>::new();
    let id = c.peer_id();
    c.absorb_response(&hello_of(id ^ 1), v4(9, 9876));
    let connected = c.connect();
    assert_eq!(connected.peer_id(), id);
    assert_eq!(connected.peers(), &[v4(9, 9876)]);
}

#[test]
fn addresses_differ_by_any_field() {
    assert_ne!(v4(1, 1), v4(1, 2));
    let a = PeerAddr::V6 { ip: 1, port: 1, flowinfo: 0, scope_id: 0 };
    let b = PeerAddr::V6 { ip: 1, port: 1, flowinfo: 0, scope_id: 3 };
    let mut c = Connection::<Pairing>::new();
    let other = c.peer_id() ^ 1;
    assert!(c.absorb_response(&hello_of(other), a));
    assert!(c.absorb_response(&hello_of(other), b));
    assert_eq!(c.peers().len(), 2);
}
