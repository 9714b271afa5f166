use actor_core::ids::PeerId;
use actor_core::ping::{decode_ping, decode_pong, encode_ping, encode_pong, Ping, Pong};
use actor_core::transport::{SendError, Transport, TransportEvent};

#[test]
fn established_connection_is_recorded() {
    let mut t = Transport::new();
    assert!(!t.connections.is_connected(PeerId { id: 3 }));
    t.apply_event(TransportEvent::ConnectionEstablished {
        peer: PeerId { id: 3 },
        address: b"10.0.0.1:36341".to_vec(),
    });
    assert!(t.connections.is_connected(PeerId { id: 3 }));
    assert!(!t.connections.is_connected(PeerId { id: 4 }));
}

#[test]
fn closed_connection_keeps_address_book() {
    let mut t = Transport::new();
    t.apply_event(TransportEvent::ConnectionEstablished {
        peer: PeerId { id: 3 },
        address: b"10.0.0.1:36341".to_vec(),
    });
    t.apply_event(TransportEvent::ConnectionEstablished {
        peer: PeerId { id: 4 },
        address: b"10.0.0.2:36341".to_vec(),
    });
    t.apply_event(TransportEvent::ConnectionClosed { peer: PeerId { id: 3 } });
    assert!(!t.connections.is_connected(PeerId { id: 3 }));
    assert!(t.connections.is_connected(PeerId { id: 4 }));
}

#[test]
fn ping_payload_round_trip() {
    let p = Ping { message: b"Hello from client, ping #1".to_vec(), sequence: 1 };
    let bytes = encode_ping(&p);
    let back = decode_ping(&bytes).unwrap();
    assert_eq!(back.sequence, 1);
    assert_eq!(back.message, p.message);
}

#[test]
fn ping_payload_too_short_is_rejected() {
    assert!(decode_ping(&vec![1, 2, 3]).is_none());
}

#[test]
fn pong_payload_round_trip() {
    let p = Pong { message: b"Pong!".to_vec(), sequence: 42, total_pings: 7 };
    let bytes = encode_pong(&p);
    let back = decode_pong(&bytes).unwrap();
    assert_eq!(back.sequence, 42);
    assert_eq!(back.total_pings, 7);
    assert_eq!(back.message, b"Pong!".to_vec());
}

#[test]
fn pong_payload_too_short_is_rejected() {
    assert!(decode_pong(&vec![0; 15]).is_none());
}

#[test]
fn send_is_refused_without_a_connection() {
    let mut t = Transport::new();
    assert_eq!(t.check_send(PeerId { id: 5 }), Err(SendError::NotConnected));
    t.apply_event(TransportEvent::ConnectionEstablished {
        peer: PeerId { id: 5 },
        address: b"10.0.0.5:1".to_vec(),
    });
    assert_eq!(t.check_send(PeerId { id: 5 }), Ok(()));
    t.apply_event(TransportEvent::ConnectionClosed { peer: PeerId { id: 5 } });
    assert_eq!(t.check_send(PeerId { id: 5 }), Err(SendError::NotConnected));
}

#[test]
fn address_book_returns_what_it_remembers() {
    let mut t = Transport::new();
    t.apply_event(TransportEvent::ConnectionEstablished {
        peer: PeerId { id: 3 },
        address: b"10.0.0.1:1".to_vec(),
    });
    t.apply_event(TransportEvent::ConnectionEstablished {
        peer: PeerId { id: 3 },
        address: b"10.0.0.2:1".to_vec(),
    });
    t.apply_event(TransportEvent::ConnectionEstablished {
        peer: PeerId { id: 4 },
        address: b"10.0.0.9:1".to_vec(),
    });
    let addrs = t.address_book.addresses_of(PeerId { id: 3 });
    assert_eq!(addrs.len(), 2);
    assert!(addrs.contains(&b"10.0.0.1:1".to_vec()));
    assert!(addrs.contains(&b"10.0.0.2:1".to_vec()));
    assert!(t.address_book.addresses_of(PeerId { id: 7 }).is_empty());
}
