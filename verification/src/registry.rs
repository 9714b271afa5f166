//! The discovery registry: a replicated name-to-actor table.
//!
//! `put` publishes a registration under a name; the write propagates
//! asynchronously, so a record becomes visible to readers only once the
//! registry's propagation delay has passed, and `get` immediately after
//! a remote `put` may legitimately see nothing.  Records expire at the
//! end of their TTL unless refreshed by a new `put`, and all records
//! owned by a peer can be purged when that peer's connection is lost.
//! Entries are advisory: a record may outlive its actor, and a failed
//! dispatch to a stale record is a discovery failure, not a fatal error.
//!
//! The registry's model is a map from name to the registered record
//! together with its visibility and expiry ticks; every operation says
//! exactly how it changes that map.

use vstd::prelude::*;
use crate::ids::{bytes_eq, clone_bytes, ActorId, ActorIdView, PeerId};
use crate::ticks::{sat_add, spec_sat_add};

verus! {

/// What an owner publishes: a name bound to an actor, with an optional
/// absolute expiry tick.
#[derive(Debug)]
pub struct RegistrationRecord {
    pub name: Vec<u8>,
    pub actor: ActorId,
    pub expires_at: Option<u64>,
}

/// Mathematical model of a `RegistrationRecord`.
#[verifier::ext_equal]
pub struct RegRecordView {
    pub name: Seq<u8>,
    pub actor: ActorIdView,
    pub expires_at: Option<u64>,
}

impl View for RegistrationRecord {
    type V = RegRecordView;

    open spec fn view(&self) -> RegRecordView {
        RegRecordView { name: self.name@, actor: self.actor@, expires_at: self.expires_at }
    }
}

impl Clone for RegistrationRecord {
    fn clone(&self) -> (r: Self)
        ensures
            r@ == self@,
    {
        RegistrationRecord {
            name: clone_bytes(&self.name),
            actor: self.actor.clone(),
            expires_at: self.expires_at,
        }
    }
}

/// Model of one registry entry: the published record plus the tick from
/// which readers can see it.
#[verifier::ext_equal]
pub struct RecordView {
    pub name: Seq<u8>,
    pub actor: ActorIdView,
    pub visible_at: u64,
    pub expires_at: Option<u64>,
}

/// The public part of a registry entry, as `get` hands it out.
pub open spec fn spec_public(v: RecordView) -> RegRecordView {
    RegRecordView { name: v.name, actor: v.actor, expires_at: v.expires_at }
}

/// Whether an entry can be seen at tick `now`: its write has propagated
/// and it has not expired.
pub open spec fn spec_live(v: RecordView, now: u64) -> bool {
    &&& v.visible_at <= now
    &&& match v.expires_at {
        Some(x) => now < x,
        None => true,
    }
}

/// What a read of the table returns at tick `now`.
pub open spec fn spec_get(m: Map<Seq<u8>, RecordView>, name: Seq<u8>, now: u64) -> Option<
    RecordView,
> {
    if m.dom().contains(name) && spec_live(m[name], now) {
        Some(m[name])
    } else {
        None
    }
}

struct RegEntry {
    record: RegistrationRecord,
    visible_at: u64,
}

impl RegEntry {
    spec fn entry_view(&self) -> RecordView {
        RecordView {
            name: self.record.name@,
            actor: self.record.actor@,
            visible_at: self.visible_at,
            expires_at: self.record.expires_at,
        }
    }
}

spec fn map_of(s: Seq<RegEntry>) -> Map<Seq<u8>, RecordView>
    decreases s.len(),
{
    if s.len() == 0 {
        Map::empty()
    } else {
        map_of(s.drop_last()).insert(s.last().record.name@, s.last().entry_view())
    }
}

spec fn unique_names(s: Seq<RegEntry>) -> bool {
    forall|i: int, j: int|
        0 <= i < j < s.len() ==> s[i].record.name@ != s[j].record.name@
}

proof fn lemma_map_of_dom(s: Seq<RegEntry>)
    ensures
        forall|k: Seq<u8>|
            map_of(s).dom().contains(k) <==> exists|i: int|
                0 <= i < s.len() && s[i].record.name@ == k,
    decreases s.len(),
{
    if s.len() > 0 {
        lemma_map_of_dom(s.drop_last());
        assert forall|k: Seq<u8>| map_of(s).dom().contains(k) implies exists|i: int|
            0 <= i < s.len() && s[i].record.name@ == k by {
            if k == s.last().record.name@ {
                assert(s[s.len() - 1].record.name@ == k);
            } else {
                assert(map_of(s.drop_last()).dom().contains(k));
                let i = choose|i: int|
                    0 <= i < s.drop_last().len() && s.drop_last()[i].record.name@ == k;
                assert(s.drop_last()[i] == s[i]);
                assert(s[i].record.name@ == k);
            }
        }
        assert forall|k: Seq<u8>|
            (exists|i: int| 0 <= i < s.len() && s[i].record.name@ == k) implies map_of(
            s,
        ).dom().contains(k) by {
            let i = choose|i: int| 0 <= i < s.len() && s[i].record.name@ == k;
            if i < s.len() - 1 {
                assert(s.drop_last()[i].record.name@ == k);
                assert(exists|j: int|
                    0 <= j < s.drop_last().len() && s.drop_last()[j].record.name@ == k);
                assert(map_of(s.drop_last()).dom().contains(k));
            } else {
                assert(k == s.last().record.name@);
            }
            assert(map_of(s).dom().contains(k));
        }
    }
}

proof fn lemma_map_of_index(s: Seq<RegEntry>, i: int)
    requires
        unique_names(s),
        0 <= i < s.len(),
    ensures
        map_of(s).dom().contains(s[i].record.name@),
        map_of(s)[s[i].record.name@] == s[i].entry_view(),
    decreases s.len(),
{
    if i == s.len() - 1 {
    } else {
        assert(unique_names(s.drop_last()));
        lemma_map_of_index(s.drop_last(), i);
        assert(s.drop_last()[i] == s[i]);
        assert(s[i].record.name@ != s.last().record.name@);
    }
}

proof fn lemma_map_of_remove(s: Seq<RegEntry>, i: int)
    requires
        unique_names(s),
        0 <= i < s.len(),
    ensures
        map_of(s.remove(i)) == map_of(s).remove(s[i].record.name@),
    decreases s.len(),
{
    let k = s[i].record.name@;
    if i == s.len() - 1 {
        assert(s.remove(i) =~= s.drop_last());
        lemma_map_of_dom(s.drop_last());
        assert(!map_of(s.drop_last()).dom().contains(k));
        assert(map_of(s.drop_last()) =~= map_of(s).remove(k));
    } else {
        assert(unique_names(s.drop_last()));
        lemma_map_of_remove(s.drop_last(), i);
        assert(s.remove(i) =~= s.drop_last().remove(i).push(s.last()));
        assert(s.remove(i).drop_last() =~= s.drop_last().remove(i));
        assert(map_of(s.remove(i)) == map_of(s.drop_last().remove(i)).insert(
            s.last().record.name@,
            s.last().entry_view(),
        ));
        assert(k != s.last().record.name@);
        assert(map_of(s.drop_last()).remove(k).insert(
            s.last().record.name@,
            s.last().entry_view(),
        ) =~= map_of(s).remove(k));
    }
}

/// The discovery registry, modelled as the map its readers observe.
pub struct Registry {
    propagation_delay: u64,
    entries: Vec<RegEntry>,
}

impl View for Registry {
    type V = Map<Seq<u8>, RecordView>;

    closed spec fn view(&self) -> Map<Seq<u8>, RecordView> {
        map_of(self.entries@)
    }
}

impl Registry {
    /// One entry per name: established by `new`, preserved by every
    /// operation.
    pub closed spec fn wf(&self) -> bool {
        unique_names(self.entries@)
    }

    /// Ticks a write takes to become visible to readers.
    pub closed spec fn spec_delay(&self) -> u64 {
        self.propagation_delay
    }

    pub fn delay(&self) -> (r: u64)
        ensures
            r == self.spec_delay(),
    {
        self.propagation_delay
    }

    /// An empty registry whose writes take `propagation_delay` ticks to
    /// become visible.
    pub fn new(propagation_delay: u64) -> (r: Registry)
        ensures
            r.wf(),
            r@ == Map::<Seq<u8>, RecordView>::empty(),
            r.spec_delay() == propagation_delay,
    {
        Registry { propagation_delay, entries: Vec::new() }
    }

    fn index_of(&self, name: &Vec<u8>) -> (r: Option<usize>)
        ensures
            match r {
                Some(i) => i < self.entries@.len() && self.entries@[i as int].record.name@
                    == name@,
                None => forall|i: int|
                    0 <= i < self.entries@.len() ==> self.entries@[i].record.name@ != name@,
            },
    {
        let n: usize = self.entries.len();
        let mut i: usize = 0;
        while i < n
            invariant
                n == self.entries@.len(),
                i <= n,
                forall|j: int| 0 <= j < i ==> self.entries@[j].record.name@ != name@,
            decreases n - i,
        {
            if bytes_eq(&self.entries[i].record.name, name) {
                return Some(i);
            }
            i = i + 1;
        }
        None
    }

    /// Publishes `actor` under `name` at tick `now`, replacing whatever
    /// record held the name before (which is also how an owner refreshes
    /// a TTL).  The write becomes visible after the propagation delay
    /// and expires `ttl` ticks after `now`, if a TTL is given.
    pub fn put(&mut self, name: Vec<u8>, actor: ActorId, now: u64, ttl: Option<u64>)
        requires
            old(self).wf(),
        ensures
            final(self).wf(),
            final(self).spec_delay() == old(self).spec_delay(),
            final(self)@ == old(self)@.insert(
                name@,
                RecordView {
                    name: name@,
                    actor: actor@,
                    visible_at: spec_sat_add(now, old(self).spec_delay()),
                    expires_at: match ttl {
                        Some(d) => Some(spec_sat_add(now, d)),
                        None => None,
                    },
                },
            ),
    {
        let ghost k = name@;
        let ghost m0 = self@;
        self.remove(&name);
        let ghost s1 = self.entries@;
        proof {
            lemma_map_of_dom(s1);
            assert(!self@.dom().contains(k));
            assert(forall|i: int| 0 <= i < s1.len() ==> s1[i].record.name@ != k);
        }
        let expires_at = match ttl {
            Some(d) => Some(sat_add(now, d)),
            None => None,
        };
        let visible_at = sat_add(now, self.propagation_delay);
        let entry = RegEntry { record: RegistrationRecord { name, actor, expires_at }, visible_at };
        self.entries.push(entry);
        proof {
            assert(self.entries@.drop_last() =~= s1);
            assert(self@ == map_of(s1).insert(k, self.entries@.last().entry_view()));
            assert(self@ =~= m0.insert(
                k,
                RecordView {
                    name: k,
                    actor: actor@,
                    visible_at: spec_sat_add(now, old(self).spec_delay()),
                    expires_at: match ttl {
                        Some(d) => Some(spec_sat_add(now, d)),
                        None => None,
                    },
                },
            ));
            assert(unique_names(self.entries@)) by {
                assert(forall|i: int|
                    0 <= i < s1.len() ==> self.entries@[i].record.name@ == s1[i].record.name@);
            }
        }
    }

    /// Reads the record registered under `name`, as visible at tick
    /// `now`: the result is exactly what the model map answers, and is
    /// `None` while the write is still propagating or after expiry.
    pub fn get(&self, name: &Vec<u8>, now: u64) -> (r: Option<RegistrationRecord>)
        requires
            self.wf(),
        ensures
            match r {
                Some(rec) => spec_get(self@, name@, now) is Some && rec@ == spec_public(
                    spec_get(self@, name@, now).unwrap(),
                ),
                None => spec_get(self@, name@, now) is None,
            },
    {
        match self.index_of(name) {
            Some(i) => {
                proof {
                    lemma_map_of_index(self.entries@, i as int);
                }
                let e = &self.entries[i];
                let live = e.visible_at <= now && match e.record.expires_at {
                    Some(x) => now < x,
                    None => true,
                };
                if live {
                    Some(e.record.clone())
                } else {
                    None
                }
            },
            None => {
                proof {
                    lemma_map_of_dom(self.entries@);
                }
                None
            },
        }
    }

    /// Withdraws whatever record holds `name`; absent names stay absent.
    pub fn remove(&mut self, name: &Vec<u8>)
        requires
            old(self).wf(),
        ensures
            final(self).wf(),
            final(self).spec_delay() == old(self).spec_delay(),
            final(self)@ == old(self)@.remove(name@),
    {
        let ghost m0 = self@;
        match self.index_of(name) {
            Some(i) => {
                proof {
                    lemma_map_of_remove(self.entries@, i as int);
                }
                self.entries.remove(i);
            },
            None => {
                proof {
                    lemma_map_of_dom(self.entries@);
                    assert(!m0.dom().contains(name@));
                    assert(m0.remove(name@) =~= m0);
                }
            },
        }
    }

    /// Drops every record owned by `peer`: the liveness inference a
    /// registry may apply when a peer's connection is lost.  All other
    /// records keep their value.
    pub fn purge_peer(&mut self, peer: PeerId)
        requires
            old(self).wf(),
        ensures
            final(self).wf(),
            final(self).spec_delay() == old(self).spec_delay(),
            forall|k: Seq<u8>|
                final(self)@.dom().contains(k) <==> (old(self)@.dom().contains(k) && old(
                    self,
                )@[k].actor.peer != peer.id),
            forall|k: Seq<u8>| #[trigger]
                final(self)@.dom().contains(k) ==> final(self)@[k] == old(self)@[k],
    {
        let ghost m0 = self@;
        let mut i: usize = 0;
        while i < self.entries.len()
            invariant
                self.wf(),
                self.spec_delay() == old(self).spec_delay(),
                i <= self.entries@.len(),
                forall|j: int| 0 <= j < i ==> self.entries@[j].record.actor@.peer != peer.id,
                forall|k: Seq<u8>| #[trigger]
                    self@.dom().contains(k) ==> m0.dom().contains(k) && self@[k] == m0[k],
                forall|k: Seq<u8>|
                    m0.dom().contains(k) && m0[k].actor.peer != peer.id ==> self@.dom().contains(
                        k,
                    ),
            decreases self.entries@.len() - i,
        {
            if self.entries[i].record.actor.peer.id == peer.id {
                let ghost sp = self.entries@;
                let ghost mp = self@;
                let ghost ki = sp[i as int].record.name@;
                proof {
                    lemma_map_of_remove(sp, i as int);
                    lemma_map_of_index(sp, i as int);
                }
                self.entries.remove(i);
                proof {
                    assert(self.entries@ == sp.remove(i as int));
                    assert forall|a: int| 0 <= a < self.entries@.len() implies self.entries@[a]
                        == (if a < i { sp[a] } else { sp[a + 1] }) by {
                        assert(sp.remove(i as int) =~= sp.subrange(0, i as int) + sp.subrange(
                            i as int + 1,
                            sp.len() as int,
                        ));
                    }
                    assert(unique_names(self.entries@));
                    assert(self@ == mp.remove(ki));
                    assert(mp[ki] == sp[i as int].entry_view());
                    assert(mp[ki].actor.peer == peer.id);
                    assert forall|k: Seq<u8>|
                        m0.dom().contains(k) && m0[k].actor.peer != peer.id implies self@
                        .dom().contains(k) by {
                        assert(mp.dom().contains(k));
                        assert(mp[k] == m0[k]);
                        assert(k != ki);
                    }
                }
            } else {
                i = i + 1;
            }
        }
        proof {
            lemma_map_of_dom(self.entries@);
            assert forall|k: Seq<u8>| self@.dom().contains(k) implies m0.dom().contains(k)
                && m0[k].actor.peer != peer.id by {
                let j = choose|j: int|
                    0 <= j < self.entries@.len() && self.entries@[j].record.name@ == k;
                lemma_map_of_index(self.entries@, j);
                assert(self@[k].actor.peer != peer.id);
            }
        }
    }
}

/// A read that runs once the write has propagated, and before it
/// expires, sees the written record: the model of eventual consistency
/// this registry gives its callers.
pub proof fn lemma_put_then_get(
    m: Map<Seq<u8>, RecordView>,
    name: Seq<u8>,
    v: RecordView,
    now: u64,
)
    requires
        spec_live(v, now),
    ensures
        spec_get(m.insert(name, v), name, now) == Some(v),
{
}

/// The most recent `put` for a name is authoritative: a second write
/// under the same name, from whatever peer, replaces the first.
pub proof fn lemma_last_put_wins(
    m: Map<Seq<u8>, RecordView>,
    name: Seq<u8>,
    first: RecordView,
    second: RecordView,
)
    ensures
        m.insert(name, first).insert(name, second) == m.insert(name, second),
{
    assert(m.insert(name, first).insert(name, second) =~= m.insert(name, second));
}

} // verus!
