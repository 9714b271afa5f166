use actor_core::envelope::{MessageEnvelope, MsgKind};
use actor_core::ids::{ActorId, PeerId};
use actor_core::lookup::RemoteActorRef;
use actor_core::pending::PendingTable;
use actor_core::protocol::{
    ask_on_deadline, ask_on_envelope, ask_on_peer_lost, ask_send, request_step, AskOutcome,
    RequestEvent, RequestPhase,
};

fn remote(peer: u64) -> RemoteActorRef {
    RemoteActorRef {
        actor: ActorId { peer: PeerId { id: peer }, name: b"ping_actor".to_vec() },
        message_type: 77,
        ask_timeout: 120,
    }
}

fn reply_to(env: &MessageEnvelope, kind: MsgKind, payload: Vec<u8>) -> MessageEnvelope {
    MessageEnvelope {
        correlation_id: env.correlation_id,
        target: ActorId { peer: PeerId { id: 0 }, name: Vec::new() },
        message_type: env.message_type,
        kind,
        payload,
    }
}

#[test]
fn correlation_ids_are_unique() {
    let mut table = PendingTable::new();
    let a = ask_send(&mut table, &remote(1), b"x".to_vec(), 0);
    let b = ask_send(&mut table, &remote(1), b"y".to_vec(), 0);
    assert_ne!(a.correlation_id, b.correlation_id);
    assert_eq!(a.kind, MsgKind::Request);
    assert_eq!(a.message_type, 77);
    assert_eq!(a.target.name, b"ping_actor".to_vec());
    assert_eq!(a.payload, b"x".to_vec());
}

#[test]
fn reply_resolves_once_and_late_reply_is_noop() {
    let mut table = PendingTable::new();
    let req = ask_send(&mut table, &remote(1), b"x".to_vec(), 0);
    let rep = reply_to(&req, MsgKind::Reply, b"answer".to_vec());
    match ask_on_envelope(&mut table, &rep) {
        Some(AskOutcome::Replied(p)) => assert_eq!(p, b"answer".to_vec()),
        other => panic!("expected a reply, got {:?}", other),
    }
    // The slot is retired: the duplicate is a no-op.
    assert!(ask_on_envelope(&mut table, &rep).is_none());
    assert_eq!(table.outstanding(), 0);
}

#[test]
fn error_envelope_resolves_as_remote_error() {
    let mut table = PendingTable::new();
    let req = ask_send(&mut table, &remote(1), b"x".to_vec(), 0);
    let rep = reply_to(&req, MsgKind::Error, vec![2]);
    match ask_on_envelope(&mut table, &rep) {
        Some(AskOutcome::RemoteError(p)) => assert_eq!(p, vec![2]),
        other => panic!("expected a remote error, got {:?}", other),
    }
}

#[test]
fn request_envelope_never_resolves_a_slot() {
    let mut table = PendingTable::new();
    let req = ask_send(&mut table, &remote(1), b"x".to_vec(), 0);
    assert!(ask_on_envelope(&mut table, &req).is_none());
    assert_eq!(table.outstanding(), 1);
}

#[test]
fn unknown_correlation_id_is_noop() {
    let mut table = PendingTable::new();
    let req = ask_send(&mut table, &remote(1), b"x".to_vec(), 0);
    let mut rep = reply_to(&req, MsgKind::Reply, Vec::new());
    rep.correlation_id = req.correlation_id + 1000;
    assert!(ask_on_envelope(&mut table, &rep).is_none());
    assert_eq!(table.outstanding(), 1);
}

#[test]
fn ask_to_never_connected_peer_times_out_within_bound() {
    let mut table = PendingTable::new();
    let req = ask_send(&mut table, &remote(1), b"x".to_vec(), 0);
    // Nothing answers; at the deadline the slot shows up as timed out.
    assert!(table.timed_out(119).is_empty());
    let due = table.timed_out(120);
    assert_eq!(due, vec![req.correlation_id]);
    match ask_on_deadline(&mut table, req.correlation_id) {
        Some(AskOutcome::TimedOut) => {},
        other => panic!("expected a timeout, got {:?}", other),
    }
    assert!(ask_on_deadline(&mut table, req.correlation_id).is_none());
    assert_eq!(table.outstanding(), 0);
}

#[test]
fn ask_to_exited_connected_peer_is_connection_lost() {
    let mut table = PendingTable::new();
    let req = ask_send(&mut table, &remote(5), b"x".to_vec(), 0);
    let _other = ask_send(&mut table, &remote(6), b"y".to_vec(), 0);
    let lost = table.targeting_peer(PeerId { id: 5 });
    assert_eq!(lost, vec![req.correlation_id]);
    match ask_on_peer_lost(&mut table, req.correlation_id) {
        Some(AskOutcome::ConnectionLost) => {},
        other => panic!("expected connection lost, got {:?}", other),
    }
    // Only the request to the lost peer resolved; the other stays.
    assert_eq!(table.outstanding(), 1);
}

#[test]
fn table_converges_to_in_flight_requests() {
    let mut table = PendingTable::new();
    let a = ask_send(&mut table, &remote(1), b"a".to_vec(), 0);
    let b = ask_send(&mut table, &remote(1), b"b".to_vec(), 0);
    let _c = ask_send(&mut table, &remote(1), b"c".to_vec(), 0);
    assert_eq!(table.outstanding(), 3);
    ask_on_envelope(&mut table, &reply_to_id(a.correlation_id));
    ask_on_deadline(&mut table, b.correlation_id);
    assert_eq!(table.outstanding(), 1);
}

fn reply_to_id(correlation_id: u64) -> MessageEnvelope {
    MessageEnvelope {
        correlation_id,
        target: ActorId { peer: PeerId { id: 0 }, name: Vec::new() },
        message_type: 77,
        kind: MsgKind::Reply,
        payload: Vec::new(),
    }
}

#[test]
fn request_phase_machine_resolves_exactly_once() {
    let events = [
        RequestEvent::ReplyArrived,
        RequestEvent::DeadlinePassed,
        RequestEvent::PeerDisconnected,
    ];
    let terminals = [
        RequestPhase::Replied,
        RequestPhase::TimedOut,
        RequestPhase::ConnectionLost,
    ];
    for (e, t) in events.iter().zip(terminals.iter()) {
        assert_eq!(request_step(RequestPhase::Sent, *e), *t);
    }
    // A terminal phase absorbs every later event.
    for t in terminals {
        for e in events {
            assert_eq!(request_step(t, e), t);
        }
    }
}
