use lobic_hub::envelope::{Audience, Envelope, EnvelopeKind};
use lobic_hub::ident::{SessionHandle, UserId};
use lobic_hub::outbox::Delivery;
use lobic_hub::registry::Registry;

const ALICE: UserId = UserId(10);
const BOB: UserId = UserId(11);

fn ping(n: u32) -> Envelope {
    Envelope::new(EnvelopeKind::Ping, ALICE, Audience::Unaddressed, false, format!("{{\"n\":{}}}", n))
}

#[test]
fn a_new_registry_is_empty() {
    let registry = Registry::new(4);
    assert_eq!(registry.len(), 0);
    assert_eq!(registry.online_count(), 0);
    assert!(!registry.is_online(ALICE));
    assert!(registry.sessions_of(ALICE).is_empty());
    assert!(!registry.is_registered(SessionHandle(1)));
}

#[test]
fn a_user_is_online_exactly_while_a_session_is_open() {
    let mut registry = Registry::new(4);
    let mut handles = vec![];
    for n in 0..5u64 {
        assert_eq!(registry.session_count(ALICE), n as usize);
        assert_eq!(registry.is_online(ALICE), n >= 1);
        handles.push(registry.register(ALICE, 100 + n, n));
    }
    assert_eq!(registry.session_count(ALICE), 5);
    for (closed, handle) in handles.iter().enumerate() {
        assert!(registry.is_online(ALICE));
        assert!(registry.deregister(*handle));
        assert_eq!(registry.session_count(ALICE), 4 - closed);
    }
    assert!(!registry.is_online(ALICE));
}

#[test]
fn sessions_are_listed_oldest_first() {
    let mut registry = Registry::new(4);
    registry.register(ALICE, 3, 0);
    registry.register(BOB, 1, 0);
    registry.register(ALICE, 2, 0);
    assert_eq!(registry.sessions_of(ALICE), vec![SessionHandle(3), SessionHandle(2)]);
    assert_eq!(registry.sessions_of(BOB), vec![SessionHandle(1)]);
    assert_eq!(registry.sessions_of(UserId(99)), vec![]);
    assert_eq!(registry.len(), 3);
}

#[test]
fn the_handle_carries_the_connection_number() {
    let mut registry = Registry::new(4);
    assert_eq!(registry.register(ALICE, 77, 0), SessionHandle(77));
    assert_eq!(registry.owner_of(SessionHandle(77)), Some(ALICE));
    assert_eq!(registry.owner_of(SessionHandle(78)), None);
}

#[test]
fn registering_a_connection_twice_changes_nothing() {
    let mut registry = Registry::new(4);
    let first = registry.register(ALICE, 7, 100);
    registry.deliver(first, ping(1));
    let second = registry.register(ALICE, 7, 200);
    assert_eq!(first, second);
    assert_eq!(registry.len(), 1);
    assert_eq!(registry.session_count(ALICE), 1);
    assert_eq!(registry.created_at(first), Some(100));
    assert_eq!(registry.queued(first), Some(1));
}

#[test]
fn a_registered_connection_stays_with_its_user() {
    let mut registry = Registry::new(4);
    let handle = registry.register(ALICE, 7, 100);
    let again = registry.register(BOB, 7, 200);
    assert_eq!(again, handle);
    assert_eq!(registry.owner_of(handle), Some(ALICE));
    assert!(!registry.is_online(BOB));
    assert_eq!(registry.len(), 1);
}

#[test]
fn deregistering_an_unknown_handle_changes_nothing() {
    let mut registry = Registry::new(4);
    registry.register(ALICE, 1, 0);
    registry.register(BOB, 2, 0);
    assert!(!registry.deregister(SessionHandle(3)));
    assert_eq!(registry.len(), 2);
    assert_eq!(registry.sessions_of(ALICE), vec![SessionHandle(1)]);
    assert_eq!(registry.sessions_of(BOB), vec![SessionHandle(2)]);
}

#[test]
fn deregistering_twice_is_deregistering_once() {
    let mut registry = Registry::new(4);
    let a = registry.register(ALICE, 1, 0);
    registry.register(BOB, 2, 0);
    assert!(registry.deregister(a));
    assert!(!registry.deregister(a));
    assert_eq!(registry.len(), 1);
    assert!(registry.is_online(BOB));
    assert!(!registry.is_online(ALICE));
}

#[test]
fn online_users_are_counted_once_each() {
    let mut registry = Registry::new(4);
    registry.register(ALICE, 1, 0);
    registry.register(BOB, 2, 0);
    registry.register(ALICE, 3, 0);
    registry.register(UserId(12), 4, 0);
    registry.register(BOB, 5, 0);
    assert_eq!(registry.online_count(), 3);
    registry.deregister(SessionHandle(1));
    assert_eq!(registry.online_count(), 3);
    registry.deregister(SessionHandle(3));
    assert_eq!(registry.online_count(), 2);
}

#[test]
fn activity_never_moves_back() {
    let mut registry = Registry::new(4);
    let h = registry.register(ALICE, 1, 50);
    assert_eq!(registry.created_at(h), Some(50));
    assert_eq!(registry.last_activity(h), Some(50));
    assert!(registry.touch(h, 80));
    assert_eq!(registry.last_activity(h), Some(80));
    assert!(registry.touch(h, 60));
    assert_eq!(registry.last_activity(h), Some(80));
    assert_eq!(registry.created_at(h), Some(50));
    assert!(!registry.touch(SessionHandle(9), 90));
    assert_eq!(registry.last_activity(SessionHandle(9)), None);
    assert_eq!(registry.created_at(SessionHandle(9)), None);
}

#[test]
fn delivery_by_handle_fills_that_session_only() {
    let mut registry = Registry::new(2);
    let a = registry.register(ALICE, 1, 0);
    let b = registry.register(BOB, 2, 0);
    assert_eq!(registry.deliver(a, ping(1)), Some(Delivery::Accepted));
    assert_eq!(registry.deliver(a, ping(2)), Some(Delivery::Accepted));
    assert_eq!(registry.deliver(SessionHandle(9), ping(3)), None);
    assert_eq!(registry.queued(a), Some(2));
    assert_eq!(registry.queued(b), Some(0));
    assert_eq!(registry.queued(SessionHandle(9)), None);
    assert_eq!(registry.next_outbound(a).unwrap().payload(), "{\"n\":1}");
    assert_eq!(registry.next_outbound(a).unwrap().payload(), "{\"n\":2}");
    assert!(registry.next_outbound(a).is_none());
    assert!(registry.next_outbound(b).is_none());
    assert!(registry.next_outbound(SessionHandle(9)).is_none());
}

#[test]
fn each_session_counts_its_own_losses() {
    let mut registry = Registry::new(1);
    let a = registry.register(ALICE, 1, 0);
    let b = registry.register(BOB, 2, 0);
    registry.deliver(a, ping(1));
    registry.deliver(a, ping(2));
    registry.deliver(a, ping(3));
    registry.deliver(b, ping(4));
    assert_eq!(registry.dropped_count(a), Some(2));
    assert_eq!(registry.dropped_count(b), Some(0));
    assert_eq!(registry.dropped_count(SessionHandle(9)), None);
    assert_eq!(registry.next_outbound(a).unwrap().payload(), "{\"n\":3}");
}
