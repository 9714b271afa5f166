use actor_core::envelope::{MessageEnvelope, MsgKind};
use actor_core::ids::{ActorId, PeerId};
use actor_core::lookup::RemoteActorRef;
use actor_core::pending::PendingTable;
use actor_core::ping::{decode_pong, encode_ping, Ping, PingActor, PING_MESSAGE_TYPE};
use actor_core::protocol::{ask_on_envelope, ask_send, AskOutcome};
use actor_core::runtime::{
    RegisterError, Runtime, ERR_ACTOR_STOPPED, ERR_INVALID_PAYLOAD, ERR_UNHANDLED_MESSAGE_TYPE,
    ERR_UNKNOWN_ACTOR,
};

const SERVER: PeerId = PeerId { id: 1 };
const CLIENT: PeerId = PeerId { id: 2 };

fn server_with_ping_actor() -> (Runtime<PingActor>, usize) {
    let mut rt: Runtime<PingActor> = Runtime::new(SERVER);
    let h = rt.spawn(PingActor { ping_count: 0 });
    rt.register(h, b"ping_actor".to_vec()).expect("name is free");
    (rt, h)
}

fn ping_request(seq: u64, text: &[u8]) -> MessageEnvelope {
    MessageEnvelope {
        correlation_id: seq,
        target: ActorId { peer: SERVER, name: b"ping_actor".to_vec() },
        message_type: PING_MESSAGE_TYPE,
        kind: MsgKind::Request,
        payload: encode_ping(&Ping { message: text.to_vec(), sequence: seq }),
    }
}

#[test]
fn register_rejects_taken_name() {
    let mut rt: Runtime<PingActor> = Runtime::new(SERVER);
    let a = rt.spawn(PingActor { ping_count: 0 });
    let b = rt.spawn(PingActor { ping_count: 0 });
    assert!(rt.register(a, b"ping_actor".to_vec()).is_ok());
    assert_eq!(
        rt.register(b, b"ping_actor".to_vec()),
        Err(RegisterError::NameAlreadyTaken)
    );
    assert!(rt.register(b, b"other".to_vec()).is_ok());
}

#[test]
fn deliver_to_unknown_actor_earns_error_reply() {
    let (mut rt, _) = server_with_ping_actor();
    let mut env = ping_request(1, b"hello");
    env.target.name = b"nobody".to_vec();
    let rep = rt.deliver(env, CLIENT).expect("stale name earns an error reply");
    assert_eq!(rep.kind, MsgKind::Error);
    assert_eq!(rep.payload, vec![ERR_UNKNOWN_ACTOR]);
    assert_eq!(rep.correlation_id, 1);
    assert_eq!(rep.target.peer.id, CLIENT.id);
}

#[test]
fn unhandled_message_type_earns_error_reply() {
    let (mut rt, h) = server_with_ping_actor();
    let mut env = ping_request(1, b"hello");
    env.message_type = 999;
    assert!(rt.deliver(env, CLIENT).is_none());
    let rep = rt.process_next(h).expect("one envelope queued");
    assert_eq!(rep.kind, MsgKind::Error);
    assert_eq!(rep.payload, vec![ERR_UNHANDLED_MESSAGE_TYPE]);
}

#[test]
fn invalid_payload_earns_error_reply() {
    let (mut rt, h) = server_with_ping_actor();
    let mut env = ping_request(1, b"hello");
    env.payload = vec![1, 2, 3];
    assert!(rt.deliver(env, CLIENT).is_none());
    let rep = rt.process_next(h).expect("one envelope queued");
    assert_eq!(rep.kind, MsgKind::Error);
    assert_eq!(rep.payload, vec![ERR_INVALID_PAYLOAD]);
}

#[test]
fn empty_mailbox_processes_nothing() {
    let (mut rt, h) = server_with_ping_actor();
    assert!(rt.process_next(h).is_none());
}

#[test]
fn mailbox_is_processed_in_order() {
    let (mut rt, h) = server_with_ping_actor();
    for seq in 1..=3u64 {
        assert!(rt.deliver(ping_request(seq, b"hi"), CLIENT).is_none());
    }
    let replies = rt.process_all(h);
    assert_eq!(replies.len(), 3);
    for (i, rep) in replies.iter().enumerate() {
        assert_eq!(rep.kind, MsgKind::Reply);
        let pong = decode_pong(&rep.payload).unwrap();
        assert_eq!(pong.sequence, i as u64 + 1);
        assert_eq!(pong.total_pings, i as u64 + 1);
        assert_eq!(pong.message, b"Pong! Responding to: hi".to_vec());
    }
}

#[test]
fn first_ping_then_a_hundred() {
    // A client asks a fresh counting actor: the first reply reports a
    // total of one, and after one hundred sequential asks the last
    // reply reports a total of one hundred.
    let (mut rt, h) = server_with_ping_actor();
    let mut table = PendingTable::new();
    let target = RemoteActorRef {
        actor: ActorId { peer: SERVER, name: b"ping_actor".to_vec() },
        message_type: PING_MESSAGE_TYPE,
        ask_timeout: 120,
    };
    let mut last_total = 0;
    for seq in 1..=100u64 {
        let payload = encode_ping(&Ping { message: b"hello".to_vec(), sequence: seq });
        let req = ask_send(&mut table, &target, payload, 0);
        assert!(rt.deliver(req, CLIENT).is_none());
        let rep = rt.process_next(h).expect("request queued");
        assert_eq!(rep.kind, MsgKind::Reply);
        match ask_on_envelope(&mut table, &rep) {
            Some(AskOutcome::Replied(p)) => {
                let pong = decode_pong(&p).unwrap();
                assert_eq!(pong.sequence, seq);
                assert_eq!(pong.message, b"Pong! Responding to: hello".to_vec());
                last_total = pong.total_pings;
                if seq == 1 {
                    assert_eq!(pong.total_pings, 1);
                }
            }
            other => panic!("expected a reply, got {:?}", other),
        }
    }
    assert_eq!(last_total, 100);
    assert_eq!(table.outstanding(), 0);
}

#[test]
fn envelope_for_another_peer_earns_error_reply() {
    let (mut rt, h) = server_with_ping_actor();
    let mut env = ping_request(1, b"hello");
    env.target.peer = PeerId { id: 99 };
    let rep = rt.deliver(env, CLIENT).expect("wrong peer earns an error reply");
    assert_eq!(rep.kind, MsgKind::Error);
    assert_eq!(rep.payload, vec![ERR_UNKNOWN_ACTOR]);
    assert_eq!(rep.target.peer.id, CLIENT.id);
    // Nothing was queued for the local actor.
    assert!(rt.process_next(h).is_none());
}

#[test]
fn stop_drains_mailbox_with_error_replies_and_frees_name() {
    let (mut rt, h) = server_with_ping_actor();
    assert!(rt.deliver(ping_request(1, b"a"), CLIENT).is_none());
    assert!(rt.deliver(ping_request(2, b"b"), CLIENT).is_none());
    let drained = rt.stop(h);
    assert_eq!(drained.len(), 2);
    for (i, rep) in drained.iter().enumerate() {
        assert_eq!(rep.kind, MsgKind::Error);
        assert_eq!(rep.payload, vec![ERR_ACTOR_STOPPED]);
        assert_eq!(rep.correlation_id, i as u64 + 1);
        assert_eq!(rep.target.peer.id, CLIENT.id);
    }
    // The stopped actor is unreachable and its name is free again.
    let rep = rt.deliver(ping_request(3, b"c"), CLIENT).expect("no actor holds the name");
    assert_eq!(rep.payload, vec![ERR_UNKNOWN_ACTOR]);
    let fresh = rt.spawn(PingActor { ping_count: 0 });
    assert!(rt.register(fresh, b"ping_actor".to_vec()).is_ok());
}
