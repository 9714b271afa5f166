//! The pending-request table: one slot per in-flight `ask`.
//!
//! A requester allocates a fresh correlation id when it sends a request
//! and retires the slot the instant the request resolves — by a matching
//! reply, by its deadline passing, or by loss of the connection to the
//! target peer.  Retirement removes the slot, so a duplicate or late
//! reply for the same id finds nothing and is a no-op: every request
//! resolves exactly once.  The table's model is a map from correlation
//! id to the slot's target peer and deadline.

use vstd::prelude::*;
use crate::ids::PeerId;
use crate::ticks::{sat_add, spec_sat_add};

verus! {

/// One in-flight request: who it was sent to and when it times out.
#[derive(Clone, Copy, PartialEq, Eq, Structural, Debug)]
pub struct PendingRequest {
    pub correlation_id: u64,
    pub target_peer: PeerId,
    pub deadline: u64,
}

/// Mathematical model of one pending slot.
#[verifier::ext_equal]
pub struct PendingView {
    pub target_peer: u64,
    pub deadline: u64,
}

impl PendingRequest {
    pub open spec fn slot_view(&self) -> PendingView {
        PendingView { target_peer: self.target_peer.id, deadline: self.deadline }
    }
}

spec fn map_of(s: Seq<PendingRequest>) -> Map<u64, PendingView>
    decreases s.len(),
{
    if s.len() == 0 {
        Map::empty()
    } else {
        map_of(s.drop_last()).insert(s.last().correlation_id, s.last().slot_view())
    }
}

spec fn unique_ids(s: Seq<PendingRequest>) -> bool {
    forall|i: int, j: int| 0 <= i < j < s.len() ==> s[i].correlation_id != s[j].correlation_id
}

proof fn lemma_map_of_dom(s: Seq<PendingRequest>)
    ensures
        forall|k: u64|
            map_of(s).dom().contains(k) <==> exists|i: int|
                0 <= i < s.len() && s[i].correlation_id == k,
    decreases s.len(),
{
    if s.len() > 0 {
        lemma_map_of_dom(s.drop_last());
        assert forall|k: u64| map_of(s).dom().contains(k) implies exists|i: int|
            0 <= i < s.len() && s[i].correlation_id == k by {
            if k == s.last().correlation_id {
                assert(s[s.len() - 1].correlation_id == k);
            } else {
                assert(map_of(s.drop_last()).dom().contains(k));
                let i = choose|i: int|
                    0 <= i < s.drop_last().len() && s.drop_last()[i].correlation_id == k;
                assert(s[i].correlation_id == k);
            }
        }
        assert forall|k: u64|
            (exists|i: int| 0 <= i < s.len() && s[i].correlation_id == k) implies map_of(
            s,
        ).dom().contains(k) by {
            let i = choose|i: int| 0 <= i < s.len() && s[i].correlation_id == k;
            if i < s.len() - 1 {
                assert(s.drop_last()[i].correlation_id == k);
                assert(exists|j: int|
                    0 <= j < s.drop_last().len() && s.drop_last()[j].correlation_id == k);
                assert(map_of(s.drop_last()).dom().contains(k));
            } else {
                assert(k == s.last().correlation_id);
            }
            assert(map_of(s).dom().contains(k));
        }
    }
}

proof fn lemma_map_of_index(s: Seq<PendingRequest>, i: int)
    requires
        unique_ids(s),
        0 <= i < s.len(),
    ensures
        map_of(s).dom().contains(s[i].correlation_id),
        map_of(s)[s[i].correlation_id] == s[i].slot_view(),
    decreases s.len(),
{
    if i == s.len() - 1 {
    } else {
        assert(unique_ids(s.drop_last()));
        lemma_map_of_index(s.drop_last(), i);
        assert(s.drop_last()[i] == s[i]);
        assert(s[i].correlation_id != s.last().correlation_id);
    }
}

proof fn lemma_map_of_remove(s: Seq<PendingRequest>, i: int)
    requires
        unique_ids(s),
        0 <= i < s.len(),
    ensures
        map_of(s.remove(i)) == map_of(s).remove(s[i].correlation_id),
    decreases s.len(),
{
    let k = s[i].correlation_id;
    if i == s.len() - 1 {
        assert(s.remove(i) =~= s.drop_last());
        lemma_map_of_dom(s.drop_last());
        assert(!map_of(s.drop_last()).dom().contains(k));
        assert(map_of(s.drop_last()) =~= map_of(s).remove(k));
    } else {
        assert(unique_ids(s.drop_last()));
        lemma_map_of_remove(s.drop_last(), i);
        assert(s.remove(i) =~= s.drop_last().remove(i).push(s.last()));
        assert(s.remove(i).drop_last() =~= s.drop_last().remove(i));
        assert(map_of(s.remove(i)) == map_of(s.drop_last().remove(i)).insert(
            s.last().correlation_id,
            s.last().slot_view(),
        ));
        assert(k != s.last().correlation_id);
        assert(map_of(s.drop_last()).remove(k).insert(
            s.last().correlation_id,
            s.last().slot_view(),
        ) =~= map_of(s).remove(k));
    }
}

/// The table of this process's in-flight requests.
pub struct PendingTable {
    next_correlation_id: u64,
    slots: Vec<PendingRequest>,
}

impl View for PendingTable {
    type V = Map<u64, PendingView>;

    closed spec fn view(&self) -> Map<u64, PendingView> {
        map_of(self.slots@)
    }
}

impl PendingTable {
    /// Correlation ids are unique among outstanding slots and every
    /// outstanding id is below the allocation cursor.
    pub closed spec fn wf(&self) -> bool {
        &&& unique_ids(self.slots@)
        &&& forall|i: int|
            0 <= i < self.slots@.len() ==> self.slots@[i].correlation_id
                < self.next_correlation_id
    }

    /// Whether a fresh correlation id can still be allocated.
    pub closed spec fn spec_can_open(&self) -> bool {
        self.next_correlation_id < u64::MAX
    }

    pub fn can_open(&self) -> (r: bool)
        ensures
            r == self.spec_can_open(),
    {
        self.next_correlation_id < u64::MAX
    }

    /// An empty table: nothing in flight.
    pub fn new() -> (r: PendingTable)
        ensures
            r.wf(),
            r.spec_can_open(),
            r@ == Map::<u64, PendingView>::empty(),
    {
        PendingTable { next_correlation_id: 0, slots: Vec::new() }
    }

    /// Opens a slot for a request sent to `target_peer` at tick `now`:
    /// the returned correlation id is fresh — distinct from every
    /// outstanding one — and its slot times out `timeout` ticks later.
    pub fn open_request(&mut self, target_peer: PeerId, now: u64, timeout: u64) -> (corr: u64)
        requires
            old(self).wf(),
            old(self).spec_can_open(),
        ensures
            final(self).wf(),
            !old(self)@.dom().contains(corr),
            final(self)@ == old(self)@.insert(
                corr,
                PendingView { target_peer: target_peer.id, deadline: spec_sat_add(now, timeout) },
            ),
    {
        let corr = self.next_correlation_id;
        proof {
            lemma_map_of_dom(self.slots@);
        }
        let slot = PendingRequest { correlation_id: corr, target_peer, deadline: sat_add(
            now,
            timeout,
        ) };
        let ghost s0 = self.slots@;
        self.slots.push(slot);
        self.next_correlation_id = self.next_correlation_id + 1;
        proof {
            assert(self.slots@.drop_last() =~= s0);
            assert(self@ == map_of(s0).insert(corr, slot.slot_view()));
        }
        corr
    }

    /// Retires the slot for `corr`, if one is outstanding.  The first
    /// resolution returns the slot and removes it; any later resolution
    /// of the same id finds nothing and leaves the table unchanged.
    pub fn resolve(&mut self, corr: u64) -> (r: Option<PendingRequest>)
        requires
            old(self).wf(),
        ensures
            final(self).wf(),
            final(self).spec_can_open() == old(self).spec_can_open(),
            match r {
                Some(p) => old(self)@.dom().contains(corr) && p.correlation_id == corr
                    && p.slot_view() == old(self)@[corr] && final(self)@ == old(self)@.remove(
                    corr,
                ),
                None => !old(self)@.dom().contains(corr) && final(self)@ == old(self)@,
            },
    {
        let n: usize = self.slots.len();
        let mut i: usize = 0;
        while i < n
            invariant
                self == old(self),
                self.wf(),
                n == self.slots@.len(),
                i <= n,
                forall|j: int| 0 <= j < i ==> self.slots@[j].correlation_id != corr,
            decreases n - i,
        {
            if self.slots[i].correlation_id == corr {
                proof {
                    lemma_map_of_index(self.slots@, i as int);
                    lemma_map_of_remove(self.slots@, i as int);
                }
                let ghost s0 = self.slots@;
                let found = self.slots[i];
                self.slots.remove(i);
                proof {
                    assert forall|a: int| 0 <= a < self.slots@.len() implies self.slots@[a]
                        == (if a < i { s0[a] } else { s0[a + 1] }) by {
                        assert(s0.remove(i as int) =~= s0.subrange(0, i as int) + s0.subrange(
                            i as int + 1,
                            s0.len() as int,
                        ));
                    }
                    assert(unique_ids(self.slots@));
                }
                return Some(found);
            }
            i = i + 1;
        }
        proof {
            lemma_map_of_dom(self.slots@);
        }
        None
    }

    /// The number of slots still in flight.
    pub fn outstanding(&self) -> (r: usize)
        requires
            self.wf(),
        ensures
            r == self@.dom().len(),
    {
        proof {
            lemma_len_is_dom_len(self.slots@);
        }
        self.slots.len()
    }

    /// The correlation ids of every slot whose deadline has passed at
    /// tick `now`.  The slots stay in the table until each is resolved.
    pub fn timed_out(&self, now: u64) -> (r: Vec<u64>)
        requires
            self.wf(),
        ensures
            forall|j: int|
                0 <= j < r@.len() ==> self@.dom().contains(r@[j]) && self@[r@[j]].deadline <= now,
            forall|k: u64|
                self@.dom().contains(k) && self@[k].deadline <= now ==> r@.contains(k),
    {
        let n: usize = self.slots.len();
        let mut out: Vec<u64> = Vec::new();
        let mut i: usize = 0;
        while i < n
            invariant
                self.wf(),
                n == self.slots@.len(),
                i <= n,
                forall|j: int|
                    0 <= j < out@.len() ==> self@.dom().contains(out@[j]) && self@[out@[j]].deadline
                        <= now,
                forall|j: int|
                    0 <= j < i && self.slots@[j].deadline <= now ==> out@.contains(
                        self.slots@[j].correlation_id,
                    ),
            decreases n - i,
        {
            if self.slots[i].deadline <= now {
                proof {
                    lemma_map_of_index(self.slots@, i as int);
                }
                let ghost o0 = out@;
                out.push(self.slots[i].correlation_id);
                proof {
                    assert(out@.last() == self.slots@[i as int].correlation_id);
                    assert forall|j: int|
                        0 <= j < i + 1 && self.slots@[j].deadline <= now implies out@.contains(
                        self.slots@[j].correlation_id,
                    ) by {
                        if j < i {
                            let idx = choose|idx: int|
                                0 <= idx < o0.len() && o0[idx] == self.slots@[j].correlation_id;
                            assert(out@[idx] == self.slots@[j].correlation_id);
                        } else {
                            assert(out@[out@.len() - 1] == self.slots@[j].correlation_id);
                        }
                    }
                }
            }
            i = i + 1;
        }
        proof {
            lemma_map_of_dom(self.slots@);
            assert forall|k: u64| self@.dom().contains(k) && self@[k].deadline <= now implies out@
                .contains(k) by {
                let j = choose|j: int| 0 <= j < self.slots@.len() && self.slots@[j].correlation_id
                    == k;
                lemma_map_of_index(self.slots@, j);
            }
        }
        out
    }

    /// The correlation ids of every slot targeting `peer`, gathered when
    /// the transport reports that peer's connection closed.
    pub fn targeting_peer(&self, peer: PeerId) -> (r: Vec<u64>)
        requires
            self.wf(),
        ensures
            forall|j: int|
                0 <= j < r@.len() ==> self@.dom().contains(r@[j]) && self@[r@[j]].target_peer
                    == peer.id,
            forall|k: u64|
                self@.dom().contains(k) && self@[k].target_peer == peer.id ==> r@.contains(k),
    {
        let n: usize = self.slots.len();
        let mut out: Vec<u64> = Vec::new();
        let mut i: usize = 0;
        while i < n
            invariant
                self.wf(),
                n == self.slots@.len(),
                i <= n,
                forall|j: int|
                    0 <= j < out@.len() ==> self@.dom().contains(out@[j])
                        && self@[out@[j]].target_peer == peer.id,
                forall|j: int|
                    0 <= j < i && self.slots@[j].target_peer.id == peer.id ==> out@.contains(
                        self.slots@[j].correlation_id,
                    ),
            decreases n - i,
        {
            if self.slots[i].target_peer.id == peer.id {
                proof {
                    lemma_map_of_index(self.slots@, i as int);
                }
                let ghost o0 = out@;
                out.push(self.slots[i].correlation_id);
                proof {
                    assert(out@.last() == self.slots@[i as int].correlation_id);
                    assert forall|j: int|
                        0 <= j < i + 1 && self.slots@[j].target_peer.id == peer.id implies out@
                        .contains(self.slots@[j].correlation_id) by {
                        if j < i {
                            let idx = choose|idx: int|
                                0 <= idx < o0.len() && o0[idx] == self.slots@[j].correlation_id;
                            assert(out@[idx] == self.slots@[j].correlation_id);
                        } else {
                            assert(out@[out@.len() - 1] == self.slots@[j].correlation_id);
                        }
                    }
                }
            }
            i = i + 1;
        }
        proof {
            lemma_map_of_dom(self.slots@);
            assert forall|k: u64| self@.dom().contains(k) && self@[k].target_peer
                == peer.id implies out@.contains(k) by {
                let j = choose|j: int| 0 <= j < self.slots@.len() && self.slots@[j].correlation_id
                    == k;
                lemma_map_of_index(self.slots@, j);
            }
        }
        out
    }
}

proof fn lemma_len_is_dom_len(s: Seq<PendingRequest>)
    requires
        unique_ids(s),
    ensures
        map_of(s).dom().finite(),
        map_of(s).dom().len() == s.len(),
    decreases s.len(),
{
    if s.len() > 0 {
        assert(unique_ids(s.drop_last()));
        lemma_len_is_dom_len(s.drop_last());
        lemma_map_of_dom(s.drop_last());
        assert(!map_of(s.drop_last()).dom().contains(s.last().correlation_id));
        assert(map_of(s).dom() =~= map_of(s.drop_last()).dom().insert(s.last().correlation_id));
    }
}

/// A retired correlation id is no longer in the table, so a second
/// resolution of the same id finds nothing: resolution is exactly-once.
pub proof fn lemma_resolution_exactly_once(m: Map<u64, PendingView>, corr: u64)
    ensures
        !m.remove(corr).dom().contains(corr),
{
}

} // verus!
