use actor_core::envelope::{
    decode_envelope, encode_envelope, DecodeError, MessageEnvelope, MsgKind, Vocabulary,
};
use actor_core::ids::{ActorId, PeerId};

fn sample_envelope() -> MessageEnvelope {
    MessageEnvelope {
        correlation_id: 42,
        target: ActorId { peer: PeerId { id: 7 }, name: b"ping_actor".to_vec() },
        message_type: 0xa1b2c3d4_e5f6_7890_abcd_ef1234567890,
        kind: MsgKind::Request,
        payload: b"hello".to_vec(),
    }
}

fn vocab_with(t: u128) -> Vocabulary {
    let mut v = Vocabulary::new();
    v.register_type(t);
    v
}

#[test]
fn envelope_round_trip_preserves_all_fields() {
    let env = sample_envelope();
    let bytes = encode_envelope(&env);
    let vocab = vocab_with(env.message_type);
    let back = decode_envelope(&bytes, &vocab).expect("round trip must decode");
    assert_eq!(back.correlation_id, env.correlation_id);
    assert_eq!(back.target.peer.id, env.target.peer.id);
    assert_eq!(back.target.name, env.target.name);
    assert_eq!(back.message_type, env.message_type);
    assert_eq!(back.kind, env.kind);
    assert_eq!(back.payload, env.payload);
}

#[test]
fn envelope_round_trip_each_kind() {
    for kind in [MsgKind::Request, MsgKind::Reply, MsgKind::Error] {
        let mut env = sample_envelope();
        env.kind = kind;
        let bytes = encode_envelope(&env);
        let vocab = vocab_with(env.message_type);
        let back = decode_envelope(&bytes, &vocab).unwrap();
        assert_eq!(back.kind, kind);
    }
}

#[test]
fn envelope_round_trip_empty_name_and_payload() {
    let env = MessageEnvelope {
        correlation_id: 0,
        target: ActorId { peer: PeerId { id: 0 }, name: Vec::new() },
        message_type: 1,
        kind: MsgKind::Reply,
        payload: Vec::new(),
    };
    let bytes = encode_envelope(&env);
    let back = decode_envelope(&bytes, &vocab_with(1)).unwrap();
    assert_eq!(back.target.name.len(), 0);
    assert_eq!(back.payload.len(), 0);
    assert_eq!(back.correlation_id, 0);
}

#[test]
fn decode_too_short_is_malformed() {
    let vocab = vocab_with(1);
    let bytes = vec![1u8, 2, 3];
    assert!(matches!(decode_envelope(&bytes, &vocab), Err(DecodeError::MalformedEnvelope)));
}

#[test]
fn decode_trailing_byte_is_malformed() {
    let env = sample_envelope();
    let mut bytes = encode_envelope(&env);
    bytes.push(0);
    let vocab = vocab_with(env.message_type);
    assert!(matches!(decode_envelope(&bytes, &vocab), Err(DecodeError::MalformedEnvelope)));
}

#[test]
fn decode_bad_kind_byte_is_malformed() {
    let env = sample_envelope();
    let mut bytes = encode_envelope(&env);
    bytes[32] = 9;
    let vocab = vocab_with(env.message_type);
    assert!(matches!(decode_envelope(&bytes, &vocab), Err(DecodeError::MalformedEnvelope)));
}

#[test]
fn decode_unregistered_discriminator_is_unknown_type() {
    let env = sample_envelope();
    let bytes = encode_envelope(&env);
    let vocab = Vocabulary::new();
    assert!(matches!(decode_envelope(&bytes, &vocab), Err(DecodeError::UnknownType)));
}

#[test]
fn partially_overlapping_vocabularies() {
    let mut env = sample_envelope();
    env.message_type = 5;
    let bytes = encode_envelope(&env);
    let mut vocab = Vocabulary::new();
    vocab.register_type(4);
    assert!(matches!(decode_envelope(&bytes, &vocab), Err(DecodeError::UnknownType)));
    vocab.register_type(5);
    assert!(decode_envelope(&bytes, &vocab).is_ok());
}

#[test]
fn actor_ids_compare_by_peer_and_name() {
    let a = ActorId { peer: PeerId { id: 1 }, name: b"ping_actor".to_vec() };
    let b = ActorId { peer: PeerId { id: 1 }, name: b"ping_actor".to_vec() };
    let c = ActorId { peer: PeerId { id: 2 }, name: b"ping_actor".to_vec() };
    let d = ActorId { peer: PeerId { id: 1 }, name: b"pong_actor".to_vec() };
    assert!(a.same_as(&b));
    assert!(!a.same_as(&c));
    assert!(!a.same_as(&d));
}
