//! Name lookup with a bounded retry budget.
//!
//! The registry itself makes no latency promise, so resilience is the
//! caller's: a lookup polls the registry up to a configured number of
//! attempts, a fixed delay apart, and surfaces exhaustion as a terminal
//! `NotFound` — never an unbounded loop.  A single-read `lookup` is also
//! provided; the retrying form returns at the first attempt that sees a
//! record.

use vstd::prelude::*;
use crate::ids::clone_bytes;
use crate::registry::{spec_get, spec_live, spec_public, RecordView, Registry, RegistrationRecord};
use crate::ticks::{sat_add, spec_sat_add};

verus! {

/// How often and how long to retry a lookup.
#[derive(Clone, Copy, PartialEq, Eq, Structural, Debug)]
pub struct LookupPolicy {
    pub max_attempts: u64,
    pub retry_delay: u64,
}

/// The terminal result of a lookup.
#[derive(Debug)]
pub enum LookupOutcome {
    Found(RegistrationRecord),
    NotFound,
}

/// A handle on a discovered remote actor, with the per-request timeout
/// its `ask` calls will use.
#[derive(Debug)]
pub struct RemoteActorRef {
    pub actor: crate::ids::ActorId,
    pub message_type: u128,
    pub ask_timeout: u64,
}

/// The tick of the `i`-th lookup attempt: attempts start at `start` and
/// lie `delay` ticks apart.
pub open spec fn spec_attempt_time(start: u64, delay: u64, i: nat) -> u64
    decreases i,
{
    if i == 0 {
        start
    } else {
        spec_sat_add(spec_attempt_time(start, delay, (i - 1) as nat), delay)
    }
}

/// The first attempt index in `[i, max)` whose read of the table sees a
/// record, if any.
pub open spec fn spec_first_hit(
    m: Map<Seq<u8>, RecordView>,
    name: Seq<u8>,
    start: u64,
    delay: u64,
    i: nat,
    max: nat,
) -> Option<nat>
    decreases max - i,
    when i <= max
{
    if i >= max {
        None
    } else if spec_get(m, name, spec_attempt_time(start, delay, i)) is Some {
        Some(i)
    } else {
        spec_first_hit(m, name, start, delay, i + 1, max)
    }
}

/// One registry read, without retry: the caller composes its own
/// policy around it.
pub fn lookup(reg: &Registry, name: &Vec<u8>, now: u64) -> (r: Option<RegistrationRecord>)
    requires
        reg.wf(),
    ensures
        match r {
            Some(rec) => spec_get(reg@, name@, now) is Some && rec@ == spec_public(
                spec_get(reg@, name@, now).unwrap(),
            ),
            None => spec_get(reg@, name@, now) is None,
        },
{
    reg.get(name, now)
}

/// Polls the registry up to `policy.max_attempts` times, `retry_delay`
/// ticks apart, starting at `start`.  Returns at the first attempt that
/// sees a record, with the attempts spent; a name no attempt can see is
/// `NotFound` after exactly the whole budget.
pub fn lookup_with_retry(reg: &Registry, name: &Vec<u8>, policy: LookupPolicy, start: u64) -> (r: (
    LookupOutcome,
    u64,
))
    requires
        reg.wf(),
    ensures
        match spec_first_hit(
            reg@,
            name@,
            start,
            policy.retry_delay,
            0,
            policy.max_attempts as nat,
        ) {
            Some(i) => r.0 matches LookupOutcome::Found(rec) && r.1 == i + 1 && rec@
                == spec_public(
                spec_get(reg@, name@, spec_attempt_time(start, policy.retry_delay, i)).unwrap(),
            ),
            None => r.0 is NotFound && r.1 == policy.max_attempts,
        },
{
    let mut attempt: u64 = 0;
    let mut now: u64 = start;
    while attempt < policy.max_attempts
        invariant
            reg.wf(),
            attempt <= policy.max_attempts,
            now == spec_attempt_time(start, policy.retry_delay, attempt as nat),
            spec_first_hit(reg@, name@, start, policy.retry_delay, 0, policy.max_attempts as nat)
                == spec_first_hit(
                reg@,
                name@,
                start,
                policy.retry_delay,
                attempt as nat,
                policy.max_attempts as nat,
            ),
        decreases policy.max_attempts - attempt,
    {
        match reg.get(name, now) {
            Some(rec) => {
                return (LookupOutcome::Found(rec), attempt + 1);
            },
            None => {
                now = sat_add(now, policy.retry_delay);
                attempt = attempt + 1;
            },
        }
    }
    (LookupOutcome::NotFound, policy.max_attempts)
}

/// A name that is absent from the table is seen by no attempt: the
/// retrying lookup then spends its whole budget and reports `NotFound`.
pub proof fn lemma_lookup_unregistered(
    m: Map<Seq<u8>, RecordView>,
    name: Seq<u8>,
    start: u64,
    delay: u64,
    i: nat,
    max: nat,
)
    requires
        !m.dom().contains(name),
        i <= max,
    ensures
        spec_first_hit(m, name, start, delay, i, max) is None,
    decreases max - i,
{
    if i < max {
        lemma_lookup_unregistered(m, name, start, delay, i + 1, max);
    }
}

/// A record some attempt can see is found: if the read at attempt `h`
/// returns a record, the first hit exists and is no later than `h` —
/// a lookup after a `put` succeeds once an attempt falls inside the
/// record's visibility window.
pub proof fn lemma_lookup_eventually_found(
    m: Map<Seq<u8>, RecordView>,
    name: Seq<u8>,
    start: u64,
    delay: u64,
    i: nat,
    h: nat,
    max: nat,
)
    requires
        i <= h < max,
        spec_get(m, name, spec_attempt_time(start, delay, h)) is Some,
    ensures
        spec_first_hit(m, name, start, delay, i, max) matches Some(j) && i <= j <= h && spec_get(
            m,
            name,
            spec_attempt_time(start, delay, j),
        ) == Some(m[name]),
    decreases h - i,
{
    if spec_get(m, name, spec_attempt_time(start, delay, i)) is Some {
    } else {
        lemma_lookup_eventually_found(m, name, start, delay, i + 1, h, max);
    }
}

/// A lookup issued after a `put` succeeds once an attempt falls inside
/// the written record's visibility window, however many earlier
/// attempts saw nothing: the first hit exists, is no later than that
/// attempt, and returns the record the `put` wrote.
pub proof fn lemma_lookup_after_put(
    m: Map<Seq<u8>, RecordView>,
    name: Seq<u8>,
    v: RecordView,
    start: u64,
    delay: u64,
    h: nat,
    max: nat,
)
    requires
        h < max,
        spec_live(v, spec_attempt_time(start, delay, h)),
    ensures
        spec_first_hit(m.insert(name, v), name, start, delay, 0, max) matches Some(j) && spec_get(
            m.insert(name, v),
            name,
            spec_attempt_time(start, delay, j),
        ) == Some(v),
{
    crate::registry::lemma_put_then_get(m, name, v, spec_attempt_time(start, delay, h));
    lemma_lookup_eventually_found(m.insert(name, v), name, start, delay, 0, h, max);
}

/// Builds the client-side handle for a discovered record.
pub fn remote_ref(rec: &RegistrationRecord, message_type: u128, ask_timeout: u64) -> (r:
    RemoteActorRef)
    ensures
        r.actor@ == rec.actor@,
        r.message_type == message_type,
        r.ask_timeout == ask_timeout,
{
    RemoteActorRef {
        actor: crate::ids::ActorId {
            peer: rec.actor.peer,
            name: clone_bytes(&rec.actor.name),
        },
        message_type,
        ask_timeout,
    }
}

} // verus!
