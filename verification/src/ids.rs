//! Peer and actor identity.
//!
//! A `PeerId` names one network-addressable process; it is fixed for the
//! process lifetime and is the routing key for every connection.  An
//! `ActorId` is a pair of the owning peer and a local actor name, and
//! names exactly one mailbox in the whole network.

use vstd::prelude::*;

verus! {

/// Process-wide unique identifier of a network endpoint.
#[derive(Clone, Copy, PartialEq, Eq, Structural, Debug, Hash)]
pub struct PeerId {
    pub id: u64,
}

/// Mathematical model of an `ActorId`.
#[verifier::ext_equal]
pub struct ActorIdView {
    pub peer: u64,
    pub name: Seq<u8>,
}

/// Identifies one mailbox in the network: the owning peer together with
/// the local actor name that peer chose (unique within the process).
#[derive(Debug)]
pub struct ActorId {
    pub peer: PeerId,
    pub name: Vec<u8>,
}

/// An exact copy of a byte string.
pub fn clone_bytes(v: &Vec<u8>) -> (r: Vec<u8>)
    ensures
        r@ == v@,
{
    vstd::slice::slice_to_vec(v.as_slice())
}

impl Clone for ActorId {
    fn clone(&self) -> (r: Self)
        ensures
            r@ == self@,
    {
        ActorId { peer: self.peer, name: clone_bytes(&self.name) }
    }
}

impl View for ActorId {
    type V = ActorIdView;

    open spec fn view(&self) -> ActorIdView {
        ActorIdView { peer: self.peer.id, name: self.name@ }
    }
}

/// Byte-sequence equality, the primitive every name comparison rests on.
pub fn bytes_eq(a: &Vec<u8>, b: &Vec<u8>) -> (r: bool)
    ensures
        r == (a@ == b@),
{
    if a.len() != b.len() {
        return false;
    }
    let n: usize = a.len();
    let mut i: usize = 0;
    while i < n
        invariant
            n == a.len() == b.len(),
            i <= n,
            forall|j: int| 0 <= j < i ==> a@[j] == b@[j],
        decreases n - i,
    {
        if a[i] != b[i] {
            return false;
        }
        i = i + 1;
    }
    proof {
        assert(a@ =~= b@);
    }
    true
}

impl ActorId {
    /// Whether two actor ids name the same mailbox.
    pub fn same_as(&self, other: &ActorId) -> (r: bool)
        ensures
            r == (self@ == other@),
    {
        let peers_match = self.peer.id == other.peer.id;
        let names_match = bytes_eq(&self.name, &other.name);
        proof {
            if peers_match && names_match {
                assert(self@ =~= other@);
            }
        }
        peers_match && names_match
    }
}

} // verus!
