//! The request/reply protocol: `ask` and its resolution.
//!
//! An `ask` allocates a fresh correlation id, opens a pending slot, and
//! sends a request envelope.  The request then resolves in exactly one
//! of three ways — a matching reply (or remote error) envelope arrives,
//! the deadline passes, or the connection to the target peer is lost —
//! and the slot is retired at that instant, so a late or duplicate
//! reply for the same id is a no-op.  `ask` itself is never retried
//! automatically: re-sending a request that may already have mutated
//! remote state is unsafe without idempotency, so retry is layered only
//! at the lookup stage.

use vstd::prelude::*;
use crate::envelope::{MessageEnvelope, MsgKind};
use crate::ids::clone_bytes;
use crate::lookup::RemoteActorRef;
use crate::pending::{PendingTable, PendingView};
use crate::ticks::spec_sat_add;

verus! {

/// Where one request stands: sent, or resolved in one of the three
/// terminal ways.
#[derive(Clone, Copy, PartialEq, Eq, Structural, Debug)]
pub enum RequestPhase {
    Sent,
    Replied,
    TimedOut,
    ConnectionLost,
}

/// What can happen to a request in flight.
#[derive(Clone, Copy, PartialEq, Eq, Structural, Debug)]
pub enum RequestEvent {
    ReplyArrived,
    DeadlinePassed,
    PeerDisconnected,
}

/// A phase from which nothing moves: every phase but `Sent`.
pub open spec fn spec_terminal(p: RequestPhase) -> bool {
    !(p is Sent)
}

/// The per-request state machine: `Sent` resolves by the first event;
/// a terminal phase absorbs every later event.
pub open spec fn spec_request_step(p: RequestPhase, e: RequestEvent) -> RequestPhase {
    if spec_terminal(p) {
        p
    } else {
        match e {
            RequestEvent::ReplyArrived => RequestPhase::Replied,
            RequestEvent::DeadlinePassed => RequestPhase::TimedOut,
            RequestEvent::PeerDisconnected => RequestPhase::ConnectionLost,
        }
    }
}

pub fn request_step(p: RequestPhase, e: RequestEvent) -> (r: RequestPhase)
    ensures
        r == spec_request_step(p, e),
{
    match p {
        RequestPhase::Sent => match e {
            RequestEvent::ReplyArrived => RequestPhase::Replied,
            RequestEvent::DeadlinePassed => RequestPhase::TimedOut,
            RequestEvent::PeerDisconnected => RequestPhase::ConnectionLost,
        },
        _ => p,
    }
}

/// Every request resolves exactly once: the first event after `Sent`
/// reaches a terminal phase, and a terminal phase never changes again.
pub proof fn lemma_request_resolves_once(p: RequestPhase, e: RequestEvent)
    ensures
        !spec_terminal(p) ==> spec_terminal(spec_request_step(p, e)),
        spec_terminal(p) ==> spec_request_step(p, e) == p,
{
}

/// How a resolved `ask` surfaces to the caller.
#[derive(Debug)]
pub enum AskOutcome {
    /// The target actor answered; the reply payload.
    Replied(Vec<u8>),
    /// The target actor signalled a handling failure; its error payload.
    RemoteError(Vec<u8>),
    /// No answer within the configured window.
    TimedOut,
    /// The transport reported the connection closed before a reply.
    ConnectionLost,
}

/// Sends a typed request: opens a pending slot with a fresh correlation
/// id (unique among this process's outstanding requests) and builds the
/// request envelope for the wire.
pub fn ask_send(
    table: &mut PendingTable,
    target: &RemoteActorRef,
    payload: Vec<u8>,
    now: u64,
) -> (r: MessageEnvelope)
    requires
        old(table).wf(),
        old(table).spec_can_open(),
    ensures
        final(table).wf(),
        r@.kind == MsgKind::Request,
        r@.target == target.actor@,
        r@.message_type == target.message_type,
        r@.payload == payload@,
        !old(table)@.dom().contains(r@.correlation_id),
        final(table)@ == old(table)@.insert(
            r@.correlation_id,
            PendingView {
                target_peer: target.actor@.peer,
                deadline: spec_sat_add(now, target.ask_timeout),
            },
        ),
{
    let corr = table.open_request(target.actor.peer, now, target.ask_timeout);
    MessageEnvelope {
        correlation_id: corr,
        target: target.actor.clone(),
        message_type: target.message_type,
        kind: MsgKind::Request,
        payload,
    }
}

/// Resolves a pending request against an inbound reply or error
/// envelope.  A request envelope is not a resolution; an envelope whose
/// correlation id matches no outstanding slot — late, duplicate, or
/// foreign — changes nothing.
pub fn ask_on_envelope(table: &mut PendingTable, env: &MessageEnvelope) -> (r: Option<AskOutcome>)
    requires
        old(table).wf(),
    ensures
        final(table).wf(),
        match r {
            Some(out) => {
                &&& !(env@.kind is Request)
                &&& old(table)@.dom().contains(env@.correlation_id)
                &&& final(table)@ == old(table)@.remove(env@.correlation_id)
                &&& (env@.kind is Reply ==> (out matches AskOutcome::Replied(p) && p@
                    == env@.payload))
                &&& (env@.kind is Error ==> (out matches AskOutcome::RemoteError(p) && p@
                    == env@.payload))
            },
            None => (env@.kind is Request || !old(table)@.dom().contains(env@.correlation_id))
                && final(table)@ == old(table)@,
        },
{
    match env.kind {
        MsgKind::Request => None,
        MsgKind::Reply => match table.resolve(env.correlation_id) {
            Some(_) => Some(AskOutcome::Replied(clone_bytes(&env.payload))),
            None => None,
        },
        MsgKind::Error => match table.resolve(env.correlation_id) {
            Some(_) => Some(AskOutcome::RemoteError(clone_bytes(&env.payload))),
            None => None,
        },
    }
}

/// Resolves a pending request whose deadline has passed.  The first
/// call retires the slot with `TimedOut`; a second resolution of the
/// same id finds nothing.
pub fn ask_on_deadline(table: &mut PendingTable, corr: u64) -> (r: Option<AskOutcome>)
    requires
        old(table).wf(),
    ensures
        final(table).wf(),
        match r {
            Some(out) => old(table)@.dom().contains(corr) && out is TimedOut && final(table)@
                == old(table)@.remove(corr),
            None => !old(table)@.dom().contains(corr) && final(table)@ == old(table)@,
        },
{
    match table.resolve(corr) {
        Some(_) => Some(AskOutcome::TimedOut),
        None => None,
    }
}

/// Resolves a pending request whose target peer's connection closed
/// before a reply arrived: distinct from a timeout, so callers can
/// decide whether to look the target up again.
pub fn ask_on_peer_lost(table: &mut PendingTable, corr: u64) -> (r: Option<AskOutcome>)
    requires
        old(table).wf(),
    ensures
        final(table).wf(),
        match r {
            Some(out) => old(table)@.dom().contains(corr) && out is ConnectionLost
                && final(table)@ == old(table)@.remove(corr),
            None => !old(table)@.dom().contains(corr) && final(table)@ == old(table)@,
        },
{
    match table.resolve(corr) {
        Some(_) => Some(AskOutcome::ConnectionLost),
        None => None,
    }
}

} // verus!
