use actor_core::ids::{ActorId, PeerId};
use actor_core::lookup::{lookup, lookup_with_retry, LookupOutcome, LookupPolicy};
use actor_core::registry::Registry;

fn actor(peer: u64, name: &[u8]) -> ActorId {
    ActorId { peer: PeerId { id: peer }, name: name.to_vec() }
}

#[test]
fn get_before_propagation_is_none_then_some() {
    let mut reg = Registry::new(5);
    reg.put(b"ping_actor".to_vec(), actor(7, b"ping_actor"), 10, None);
    assert!(reg.get(&b"ping_actor".to_vec(), 10).is_none());
    assert!(reg.get(&b"ping_actor".to_vec(), 14).is_none());
    let rec = reg.get(&b"ping_actor".to_vec(), 15).expect("visible after propagation");
    assert_eq!(rec.actor.peer.id, 7);
    assert_eq!(rec.name, b"ping_actor".to_vec());
}

#[test]
fn get_never_registered_is_none() {
    let reg = Registry::new(0);
    assert!(reg.get(&b"nobody".to_vec(), 100).is_none());
}

#[test]
fn record_expires_at_ttl() {
    let mut reg = Registry::new(0);
    reg.put(b"a".to_vec(), actor(1, b"a"), 0, Some(10));
    assert!(reg.get(&b"a".to_vec(), 9).is_some());
    assert!(reg.get(&b"a".to_vec(), 10).is_none());
}

#[test]
fn put_refreshes_ttl() {
    let mut reg = Registry::new(0);
    reg.put(b"a".to_vec(), actor(1, b"a"), 0, Some(10));
    reg.put(b"a".to_vec(), actor(1, b"a"), 8, Some(10));
    assert!(reg.get(&b"a".to_vec(), 12).is_some());
    assert!(reg.get(&b"a".to_vec(), 18).is_none());
}

#[test]
fn most_recent_put_for_a_name_wins() {
    let mut reg = Registry::new(0);
    reg.put(b"ping_actor".to_vec(), actor(1, b"ping_actor"), 0, None);
    reg.put(b"ping_actor".to_vec(), actor(2, b"ping_actor"), 1, None);
    let rec = reg.get(&b"ping_actor".to_vec(), 2).unwrap();
    assert_eq!(rec.actor.peer.id, 2);
}

#[test]
fn remove_withdraws_record() {
    let mut reg = Registry::new(0);
    reg.put(b"a".to_vec(), actor(1, b"a"), 0, None);
    reg.remove(&b"a".to_vec());
    assert!(reg.get(&b"a".to_vec(), 5).is_none());
}

#[test]
fn purge_drops_only_that_peers_records() {
    let mut reg = Registry::new(0);
    reg.put(b"a".to_vec(), actor(1, b"a"), 0, None);
    reg.put(b"b".to_vec(), actor(2, b"b"), 0, None);
    reg.put(b"c".to_vec(), actor(1, b"c"), 0, None);
    reg.purge_peer(PeerId { id: 1 });
    assert!(reg.get(&b"a".to_vec(), 1).is_none());
    assert!(reg.get(&b"c".to_vec(), 1).is_none());
    assert_eq!(reg.get(&b"b".to_vec(), 1).unwrap().actor.peer.id, 2);
}

#[test]
fn lookup_is_one_read() {
    let mut reg = Registry::new(3);
    reg.put(b"a".to_vec(), actor(1, b"a"), 0, None);
    assert!(lookup(&reg, &b"a".to_vec(), 0).is_none());
    assert!(lookup(&reg, &b"a".to_vec(), 3).is_some());
}

#[test]
fn lookup_never_registered_spends_exact_budget() {
    let reg = Registry::new(0);
    let policy = LookupPolicy { max_attempts: 10, retry_delay: 3 };
    let (outcome, attempts) = lookup_with_retry(&reg, &b"ping_actor".to_vec(), policy, 0);
    assert!(matches!(outcome, LookupOutcome::NotFound));
    assert_eq!(attempts, 10);
}

#[test]
fn lookup_zero_budget_is_not_found() {
    let mut reg = Registry::new(0);
    reg.put(b"a".to_vec(), actor(1, b"a"), 0, None);
    let policy = LookupPolicy { max_attempts: 0, retry_delay: 1 };
    let (outcome, attempts) = lookup_with_retry(&reg, &b"a".to_vec(), policy, 0);
    assert!(matches!(outcome, LookupOutcome::NotFound));
    assert_eq!(attempts, 0);
}

#[test]
fn lookup_succeeds_once_propagated() {
    // The write becomes visible at tick 7; attempts run at 0, 3, 6, 9.
    let mut reg = Registry::new(7);
    reg.put(b"ping_actor".to_vec(), actor(9, b"ping_actor"), 0, None);
    let policy = LookupPolicy { max_attempts: 10, retry_delay: 3 };
    let (outcome, attempts) = lookup_with_retry(&reg, &b"ping_actor".to_vec(), policy, 0);
    match outcome {
        LookupOutcome::Found(rec) => assert_eq!(rec.actor.peer.id, 9),
        LookupOutcome::NotFound => panic!("record should be found"),
    }
    assert_eq!(attempts, 4);
}

#[test]
fn lookup_finds_visible_record_on_first_attempt() {
    let mut reg = Registry::new(0);
    reg.put(b"a".to_vec(), actor(1, b"a"), 0, None);
    let policy = LookupPolicy { max_attempts: 5, retry_delay: 2 };
    let (outcome, attempts) = lookup_with_retry(&reg, &b"a".to_vec(), policy, 0);
    assert!(matches!(outcome, LookupOutcome::Found(_)));
    assert_eq!(attempts, 1);
}
