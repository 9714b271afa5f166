//! The transport-side bookkeeping the core decides on.
//!
//! Dialing, listening and moving bytes belong to the surrounding
//! process; what the core owns is the policy applied to connection
//! lifecycle events: which peers count as connected — a send to any
//! other is refused, never silently dropped — and the address book
//! that opportunistically remembers every address a peer was seen at,
//! so a peer once connected can be redialed without re-resolution.

use vstd::prelude::*;
use crate::ids::{bytes_eq, clone_bytes, PeerId};

verus! {

/// One remembered way to reach a peer.
struct KnownAddress {
    peer: PeerId,
    address: Vec<u8>,
}

/// Maps each peer to the addresses it has been seen at.
pub struct AddressBook {
    known: Vec<KnownAddress>,
}

impl AddressBook {
    /// Whether `address` is remembered for `peer`.
    pub closed spec fn spec_knows(&self, peer: u64, address: Seq<u8>) -> bool {
        exists|i: int|
            0 <= i < self.known@.len() && self.known@[i].peer.id == peer
                && self.known@[i].address@ == address
    }

    /// An empty book.
    pub fn new() -> (r: AddressBook)
        ensures
            forall|p: u64, a: Seq<u8>| !r.spec_knows(p, a),
    {
        AddressBook { known: Vec::new() }
    }

    fn has_address(&self, peer: PeerId, address: &Vec<u8>) -> (r: bool)
        ensures
            r == self.spec_knows(peer.id, address@),
    {
        let n: usize = self.known.len();
        let mut i: usize = 0;
        while i < n
            invariant
                n == self.known@.len(),
                i <= n,
                forall|j: int|
                    0 <= j < i ==> !(self.known@[j].peer.id == peer.id && self.known@[j].address@
                        == address@),
            decreases n - i,
        {
            if self.known[i].peer.id == peer.id && bytes_eq(&self.known[i].address, address) {
                return true;
            }
            i = i + 1;
        }
        false
    }

    /// The addresses `peer` has been seen at: every returned address is
    /// remembered for it and every remembered one is returned, so a
    /// caller can redial a peer once seen without re-resolution.
    pub fn addresses_of(&self, peer: PeerId) -> (r: Vec<Vec<u8>>)
        ensures
            forall|j: int| #![auto] 0 <= j < r@.len() ==> self.spec_knows(peer.id, r@[j]@),
            forall|a: Seq<u8>|
                self.spec_knows(peer.id, a) ==> exists|j: int|
                    0 <= j < r@.len() && r@[j]@ == a,
    {
        let n: usize = self.known.len();
        let mut out: Vec<Vec<u8>> = Vec::new();
        let mut i: usize = 0;
        while i < n
            invariant
                n == self.known@.len(),
                i <= n,
                forall|j: int| #![auto] 0 <= j < out@.len() ==> self.spec_knows(peer.id, out@[j]@),
                forall|i2: int| #![auto]
                    0 <= i2 < i && self.known@[i2].peer.id == peer.id ==> exists|j: int|
                        0 <= j < out@.len() && out@[j]@ == self.known@[i2].address@,
            decreases n - i,
        {
            if self.known[i].peer.id == peer.id {
                let ghost o0 = out@;
                out.push(clone_bytes(&self.known[i].address));
                proof {
                    assert(out@[out@.len() - 1]@ == self.known@[i as int].address@);
                    assert forall|i2: int|
                        0 <= i2 < i + 1 && self.known@[i2].peer.id == peer.id implies exists|
                        j: int,
                    |
                        0 <= j < out@.len() && out@[j]@ == self.known@[i2].address@ by {
                        if i2 < i {
                            let j = choose|j: int|
                                0 <= j < o0.len() && o0[j]@ == self.known@[i2].address@;
                            assert(out@[j]@ == self.known@[i2].address@);
                        } else {
                            assert(out@[out@.len() - 1]@ == self.known@[i2].address@);
                        }
                    }
                }
            }
            i = i + 1;
        }
        proof {
            assert forall|a: Seq<u8>| self.spec_knows(peer.id, a) implies exists|j: int|
                0 <= j < out@.len() && out@[j]@ == a by {
                let i2 = choose|i2: int|
                    0 <= i2 < self.known@.len() && self.known@[i2].peer.id == peer.id
                        && self.known@[i2].address@ == a;
            }
        }
        out
    }

    /// Remembers that `peer` was reachable at `address`; every other
    /// association is untouched.
    pub fn record_address(&mut self, peer: PeerId, address: Vec<u8>)
        ensures
            final(self).spec_knows(peer.id, address@),
            forall|p: u64, a: Seq<u8>|
                !(p == peer.id && a == address@) ==> final(self).spec_knows(p, a) == old(
                    self,
                ).spec_knows(p, a),
    {
        if !self.has_address(peer, &address) {
            let ghost s0 = self.known@;
            self.known.push(KnownAddress { peer, address });
            proof {
                let last = self.known@.len() - 1;
                assert(self.known@[last].peer.id == peer.id);
                assert forall|p: u64, a: Seq<u8>| !(p == peer.id && a == self.known@[last].address@)
                    implies final(self).spec_knows(p, a) == old(self).spec_knows(p, a) by {
                    if final(self).spec_knows(p, a) {
                        let i = choose|i: int|
                            0 <= i < self.known@.len() && self.known@[i].peer.id == p
                                && self.known@[i].address@ == a;
                        assert(i < last);
                        assert(s0[i].peer.id == p && s0[i].address@ == a);
                    }
                    if old(self).spec_knows(p, a) {
                        let i = choose|i: int|
                            0 <= i < s0.len() && s0[i].peer.id == p && s0[i].address@ == a;
                        assert(self.known@[i].peer.id == p && self.known@[i].address@ == a);
                    }
                }
            }
        }
    }
}

/// The peers this process holds a live connection to.
pub struct Connections {
    peers: Vec<u64>,
}

impl Connections {
    /// Whether a connection to `peer` is up.
    pub closed spec fn spec_connected(&self, peer: u64) -> bool {
        self.peers@.contains(peer)
    }

    /// No connections yet.
    pub fn new() -> (r: Connections)
        ensures
            forall|p: u64| !r.spec_connected(p),
    {
        Connections { peers: Vec::new() }
    }

    pub fn is_connected(&self, peer: PeerId) -> (r: bool)
        ensures
            r == self.spec_connected(peer.id),
    {
        let n: usize = self.peers.len();
        let mut i: usize = 0;
        while i < n
            invariant
                n == self.peers@.len(),
                i <= n,
                forall|j: int| 0 <= j < i ==> self.peers@[j] != peer.id,
            decreases n - i,
        {
            if self.peers[i] == peer.id {
                return true;
            }
            i = i + 1;
        }
        false
    }

    /// Marks `peer` connected.
    pub fn mark_connected(&mut self, peer: PeerId)
        ensures
            final(self).spec_connected(peer.id),
            forall|p: u64|
                p != peer.id ==> final(self).spec_connected(p) == old(self).spec_connected(p),
    {
        if !self.is_connected(peer) {
            let ghost s0 = self.peers@;
            self.peers.push(peer.id);
            proof {
                let last = self.peers@.len() - 1;
                assert(self.peers@[last] == peer.id);
                assert forall|p: u64| p != peer.id implies final(self).spec_connected(p) == old(
                    self,
                ).spec_connected(p) by {
                    if final(self).spec_connected(p) {
                        let i = choose|i: int| 0 <= i < self.peers@.len() && self.peers@[i] == p;
                        assert(s0[i] == p);
                    }
                    if old(self).spec_connected(p) {
                        let i = choose|i: int| 0 <= i < s0.len() && s0[i] == p;
                        assert(self.peers@[i] == p);
                    }
                }
            }
        }
    }

    /// Marks `peer` disconnected.
    pub fn mark_closed(&mut self, peer: PeerId)
        ensures
            !final(self).spec_connected(peer.id),
            forall|p: u64|
                p != peer.id ==> final(self).spec_connected(p) == old(self).spec_connected(p),
    {
        let ghost m0 = self.peers@;
        let mut kept: Vec<u64> = Vec::new();
        let n: usize = self.peers.len();
        let mut i: usize = 0;
        while i < n
            invariant
                n == m0.len(),
                self.peers@ == m0,
                i <= n,
                forall|j: int| 0 <= j < kept@.len() ==> kept@[j] != peer.id,
                forall|j: int| 0 <= j < kept@.len() ==> m0.contains(kept@[j]),
                forall|j: int| 0 <= j < i && m0[j] != peer.id ==> kept@.contains(m0[j]),
            decreases n - i,
        {
            if self.peers[i] != peer.id {
                let ghost k0 = kept@;
                kept.push(self.peers[i]);
                proof {
                    assert(kept@[kept@.len() - 1] == m0[i as int]);
                    assert forall|j: int| 0 <= j < i + 1 && m0[j] != peer.id implies kept@.contains(
                        m0[j],
                    ) by {
                        if j < i {
                            let idx = choose|idx: int| 0 <= idx < k0.len() && k0[idx] == m0[j];
                            assert(kept@[idx] == m0[j]);
                        } else {
                            assert(kept@[kept@.len() - 1] == m0[j]);
                        }
                    }
                }
            }
            i = i + 1;
        }
        self.peers = kept;
        proof {
            assert forall|p: u64| p != peer.id implies final(self).spec_connected(p) == old(
                self,
            ).spec_connected(p) by {
                if final(self).spec_connected(p) {
                    let idx = choose|idx: int|
                        0 <= idx < self.peers@.len() && self.peers@[idx] == p;
                    assert(m0.contains(p));
                }
                if old(self).spec_connected(p) {
                    let idx = choose|idx: int| 0 <= idx < m0.len() && m0[idx] == p;
                    assert(kept@.contains(m0[idx]));
                }
            }
        }
    }
}

/// Why an outbound send was refused.
#[derive(Clone, Copy, PartialEq, Eq, Structural, Debug)]
pub enum SendError {
    /// No live connection to the target peer; the caller decides
    /// whether to redial, never the transport.
    NotConnected,
}

/// A connection lifecycle report from the wire.
#[derive(Debug)]
pub enum TransportEvent {
    /// A connection to `peer` came up, seen at `address`.
    ConnectionEstablished { peer: PeerId, address: Vec<u8> },
    /// The connection to `peer` went down.
    ConnectionClosed { peer: PeerId },
}

/// The core's transport state: the connected set and the address book.
pub struct Transport {
    pub connections: Connections,
    pub address_book: AddressBook,
}

impl Transport {
    pub fn new() -> (r: Transport)
        ensures
            forall|p: u64| !r.connections.spec_connected(p),
            forall|p: u64, a: Seq<u8>| !r.address_book.spec_knows(p, a),
    {
        Transport { connections: Connections::new(), address_book: AddressBook::new() }
    }

    /// Admits an outbound send: bytes may go to `peer` exactly when a
    /// connection to it is up, and a refusal is an error value the
    /// caller sees, never a silent drop.
    pub fn check_send(&self, peer: PeerId) -> (r: Result<(), SendError>)
        ensures
            r is Ok <==> self.connections.spec_connected(peer.id),
    {
        if self.connections.is_connected(peer) {
            Ok(())
        } else {
            Err(SendError::NotConnected)
        }
    }

    /// Applies one lifecycle event: an established connection marks the
    /// peer connected and records the address it was seen at; a closed
    /// connection marks it disconnected and keeps the address book, so
    /// the peer can be redialed.
    pub fn apply_event(&mut self, event: TransportEvent)
        ensures
            match event {
                TransportEvent::ConnectionEstablished { peer, address } => {
                    &&& final(self).connections.spec_connected(peer.id)
                    &&& final(self).address_book.spec_knows(peer.id, address@)
                    &&& forall|p: u64|
                        p != peer.id ==> final(self).connections.spec_connected(p) == old(
                            self,
                        ).connections.spec_connected(p)
                    &&& forall|p: u64, a: Seq<u8>|
                        !(p == peer.id && a == address@) ==> final(self).address_book.spec_knows(
                            p,
                            a,
                        ) == old(self).address_book.spec_knows(p, a)
                },
                TransportEvent::ConnectionClosed { peer } => {
                    &&& !final(self).connections.spec_connected(peer.id)
                    &&& forall|p: u64|
                        p != peer.id ==> final(self).connections.spec_connected(p) == old(
                            self,
                        ).connections.spec_connected(p)
                    &&& forall|p: u64, a: Seq<u8>|
                        final(self).address_book.spec_knows(p, a) == old(
                            self,
                        ).address_book.spec_knows(p, a)
                },
            },
    {
        match event {
            TransportEvent::ConnectionEstablished { peer, address } => {
                self.connections.mark_connected(peer);
                self.address_book.record_address(peer, address);
            },
            TransportEvent::ConnectionClosed { peer } => {
                self.connections.mark_closed(peer);
            },
        }
    }
}

} // verus!
