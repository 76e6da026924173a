use lobic_hub::envelope::{Audience, Envelope, EnvelopeKind};
use lobic_hub::ident::UserId;
use lobic_hub::outbox::{Delivery, Outbox};

fn note(kind: EnvelopeKind, body: &str) -> Envelope {
    Envelope::new(kind, UserId(1), Audience::Friends, false, body.to_string())
}

#[test]
fn a_queue_with_room_accepts() {
    let mut outbox = Outbox::new(2);
    assert_eq!(outbox.capacity(), 2);
    assert!(outbox.is_empty());
    assert_eq!(outbox.deliver(note(EnvelopeKind::Ping, "{}")), Delivery::Accepted);
    assert_eq!(outbox.len(), 1);
    assert!(!outbox.is_empty());
    assert_eq!(outbox.dropped_count(), 0);
}

#[test]
fn envelopes_leave_in_the_order_they_came() {
    let mut outbox = Outbox::new(3);
    outbox.deliver(note(EnvelopeKind::NowPlaying, "{\"n\":1}"));
    outbox.deliver(note(EnvelopeKind::Presence, "{\"n\":2}"));
    outbox.deliver(note(EnvelopeKind::Ping, "{\"n\":3}"));
    assert_eq!(outbox.pop().unwrap().payload(), "{\"n\":1}");
    assert_eq!(outbox.pop().unwrap().payload(), "{\"n\":2}");
    assert_eq!(outbox.pop().unwrap().payload(), "{\"n\":3}");
    assert!(outbox.pop().is_none());
    assert_eq!(outbox.dropped_count(), 0);
}

#[test]
fn a_full_queue_gives_up_its_oldest_expendable_envelope() {
    let mut outbox = Outbox::new(3);
    outbox.deliver(note(EnvelopeKind::Presence, "{\"n\":1}"));
    outbox.deliver(note(EnvelopeKind::NowPlaying, "{\"n\":2}"));
    outbox.deliver(note(EnvelopeKind::Ping, "{\"n\":3}"));
    assert!(!outbox.is_saturated());
    assert_eq!(outbox.deliver(note(EnvelopeKind::NowPlaying, "{\"n\":4}")), Delivery::Accepted);
    assert_eq!(outbox.len(), 3);
    assert_eq!(outbox.dropped_count(), 1);
    assert_eq!(outbox.pop().unwrap().payload(), "{\"n\":1}");
    assert_eq!(outbox.pop().unwrap().payload(), "{\"n\":3}");
    assert_eq!(outbox.pop().unwrap().payload(), "{\"n\":4}");
    assert!(outbox.pop().is_none());
}

#[test]
fn a_critical_newcomer_displaces_an_expendable_envelope() {
    let mut outbox = Outbox::new(1);
    outbox.deliver(note(EnvelopeKind::Ping, "{\"n\":1}"));
    assert_eq!(outbox.deliver(note(EnvelopeKind::FriendRequest, "{\"n\":2}")), Delivery::Accepted);
    assert_eq!(outbox.dropped_count(), 1);
    let left = outbox.pop().unwrap();
    assert_eq!(left.kind(), EnvelopeKind::FriendRequest);
    assert_eq!(left.payload(), "{\"n\":2}");
}

#[test]
fn a_saturated_queue_drops_the_newcomer() {
    let mut outbox = Outbox::new(2);
    outbox.deliver(note(EnvelopeKind::Presence, "{\"n\":1}"));
    outbox.deliver(note(EnvelopeKind::PlaylistUpdate, "{\"n\":2}"));
    assert!(outbox.is_saturated());
    assert_eq!(outbox.deliver(note(EnvelopeKind::NowPlaying, "{\"n\":3}")), Delivery::Dropped);
    assert_eq!(outbox.deliver(note(EnvelopeKind::FriendRequest, "{\"n\":4}")), Delivery::Dropped);
    assert_eq!(outbox.dropped_count(), 2);
    assert_eq!(outbox.len(), 2);
    assert_eq!(outbox.pop().unwrap().payload(), "{\"n\":1}");
    assert_eq!(outbox.pop().unwrap().payload(), "{\"n\":2}");
}

#[test]
fn a_queue_without_room_for_anything_drops_everything() {
    let mut outbox = Outbox::new(0);
    assert!(outbox.is_saturated());
    assert_eq!(outbox.deliver(note(EnvelopeKind::Ping, "{}")), Delivery::Dropped);
    assert_eq!(outbox.deliver(note(EnvelopeKind::Presence, "{}")), Delivery::Dropped);
    assert_eq!(outbox.len(), 0);
    assert_eq!(outbox.dropped_count(), 2);
    assert!(outbox.pop().is_none());
}

#[test]
fn taking_an_envelope_makes_room_again() {
    let mut outbox = Outbox::new(1);
    outbox.deliver(note(EnvelopeKind::Presence, "{\"n\":1}"));
    assert!(outbox.is_saturated());
    assert!(outbox.pop().is_some());
    assert!(!outbox.is_saturated());
    assert_eq!(outbox.deliver(note(EnvelopeKind::Presence, "{\"n\":2}")), Delivery::Accepted);
    assert_eq!(outbox.dropped_count(), 0);
}
