use lobic_hub::envelope::{Audience, Envelope, EnvelopeKind, Frame, ProtocolError};
use lobic_hub::hub::Hub;
use lobic_hub::ident::{SessionHandle, UserId};
use lobic_hub::presence::{announcement, on_deregister, on_register, Transition};
use lobic_hub::router::{fan_out, friends_from_texts, is_listed, route, LookupError, RouteOutcome};
use lobic_hub::registry::Registry;

const ALICE: UserId = UserId(10);
const BOB: UserId = UserId(11);
const CAROL: UserId = UserId(12);
const DAVE: UserId = UserId(13);

fn now_playing_frame(sender: UserId) -> Frame {
    Frame {
        kind: "now-playing".to_string(),
        sender: sender.to_text(),
        target: None,
        broadcast: true,
        exclusive: false,
        payload: "{\"track\":\"so what\"}".to_string(),
    }
}

fn note(kind: EnvelopeKind, sender: UserId, audience: Audience, exclusive: bool) -> Envelope {
    Envelope::new(kind, sender, audience, exclusive, "{}".to_string())
}

fn drain(hub: &mut Hub, handle: SessionHandle) -> Vec<Envelope> {
    let mut all = vec![];
    while let Some(e) = hub.next_outbound(handle) {
        all.push(e);
    }
    all
}

#[test]
fn the_first_session_brings_a_user_online() {
    let mut hub = Hub::new(8);
    let first = hub.connect(ALICE, 1, 0);
    assert!(first.admitted);
    assert_eq!(first.handle, SessionHandle(1));
    let hello = first.announcement.unwrap();
    assert_eq!(hello.kind(), EnvelopeKind::Presence);
    assert_eq!(hello.sender(), ALICE);
    assert_eq!(hello.audience(), Audience::Friends);
    assert!(!hello.is_sender_exclusive());
    assert_eq!(hello.payload(), "{\"state\":\"online\"}");
    let second = hub.connect(ALICE, 2, 0);
    assert!(second.admitted);
    assert!(second.announcement.is_none());
}

#[test]
fn the_last_session_takes_a_user_offline() {
    let mut hub = Hub::new(8);
    hub.connect(ALICE, 1, 0);
    hub.connect(ALICE, 2, 0);
    assert!(hub.disconnect(SessionHandle(1)).is_none());
    assert!(hub.registry().is_online(ALICE));
    let bye = hub.disconnect(SessionHandle(2)).unwrap();
    assert_eq!(bye.kind(), EnvelopeKind::Presence);
    assert_eq!(bye.sender(), ALICE);
    assert_eq!(bye.audience(), Audience::Friends);
    assert_eq!(bye.payload(), "{\"state\":\"offline\"}");
    assert!(!hub.registry().is_online(ALICE));
}

#[test]
fn closing_every_session_and_reopening_announces_each_edge_once() {
    let mut hub = Hub::new(8);
    let mut seen: Vec<String> = vec![];
    for n in 0..4u64 {
        if let Some(e) = hub.connect(ALICE, n, 0).announcement {
            seen.push(e.payload().to_string());
        }
    }
    hub.connect(BOB, 50, 0);
    assert_eq!(seen, vec!["{\"state\":\"online\"}"]);
    seen.clear();
    for handle in hub.registry().sessions_of(ALICE) {
        if let Some(e) = hub.disconnect(handle) {
            assert_eq!(e.sender(), ALICE);
            seen.push(e.payload().to_string());
        }
    }
    if let Some(e) = hub.connect(ALICE, 9, 0).announcement {
        assert_eq!(e.sender(), ALICE);
        seen.push(e.payload().to_string());
    }
    assert_eq!(seen, vec!["{\"state\":\"offline\"}", "{\"state\":\"online\"}"]);
    assert!(hub.registry().is_online(ALICE));
    assert!(hub.registry().is_online(BOB));
}

#[test]
fn a_repeated_connect_or_disconnect_announces_nothing() {
    let mut hub = Hub::new(8);
    assert!(hub.connect(ALICE, 1, 0).announcement.is_some());
    let again = hub.connect(ALICE, 1, 5);
    assert!(!again.admitted);
    assert!(again.announcement.is_none());
    assert_eq!(hub.registry().session_count(ALICE), 1);
    assert!(hub.disconnect(SessionHandle(1)).is_some());
    assert!(hub.disconnect(SessionHandle(1)).is_none());
    assert!(hub.disconnect(SessionHandle(2)).is_none());
    assert_eq!(hub.registry().len(), 0);
}

#[test]
fn the_tracker_goes_by_the_count_after_the_change() {
    assert_eq!(on_register(true, 1), Some(Transition::CameOnline));
    assert_eq!(on_register(true, 2), None);
    assert_eq!(on_register(false, 1), None);
    assert_eq!(on_deregister(true, 0), Some(Transition::WentOffline));
    assert_eq!(on_deregister(true, 1), None);
    assert_eq!(on_deregister(false, 0), None);
    assert_eq!(announcement(BOB, Transition::WentOffline).payload(), "{\"state\":\"offline\"}");
    assert_eq!(announcement(BOB, Transition::CameOnline).sender(), BOB);
}

#[test]
fn a_broadcast_reaches_the_friend_and_not_the_stranger() {
    let mut hub = Hub::new(8);
    let a = hub.connect(ALICE, 1, 0).handle;
    let b = hub.connect(BOB, 2, 0).handle;
    let c = hub.connect(CAROL, 3, 0).handle;
    let envelope = hub.accept(a, now_playing_frame(ALICE), 1).unwrap();
    assert!(envelope.needs_friends());
    let outcome = hub.route(&envelope, Some(a), &Ok(vec![BOB]));
    assert_eq!(outcome, RouteOutcome::Routed { accepted: 1, dropped: 0 });
    let got = drain(&mut hub, b);
    assert_eq!(got.len(), 1);
    assert_eq!(got[0].kind(), EnvelopeKind::NowPlaying);
    assert_eq!(got[0].sender(), ALICE);
    assert_eq!(got[0].payload(), "{\"track\":\"so what\"}");
    assert!(drain(&mut hub, c).is_empty());
    assert!(drain(&mut hub, a).is_empty());
}

#[test]
fn a_broadcast_reaches_every_session_of_every_online_friend() {
    let mut hub = Hub::new(8);
    let a = hub.connect(ALICE, 1, 0).handle;
    let b1 = hub.connect(BOB, 2, 0).handle;
    let c = hub.connect(CAROL, 3, 0).handle;
    let b2 = hub.connect(BOB, 4, 0).handle;
    let d = hub.connect(DAVE, 5, 0).handle;
    let e = note(EnvelopeKind::PlaylistUpdate, ALICE, Audience::Friends, false);
    let offline_friend = UserId(99);
    let outcome = hub.route(&e, Some(a), &Ok(vec![DAVE, offline_friend, BOB]));
    assert_eq!(outcome, RouteOutcome::Routed { accepted: 3, dropped: 0 });
    assert_eq!(hub.registry().queued(b1), Some(1));
    assert_eq!(hub.registry().queued(b2), Some(1));
    assert_eq!(hub.registry().queued(d), Some(1));
    assert_eq!(hub.registry().queued(c), Some(0));
    assert_eq!(hub.registry().queued(a), Some(0));
    assert!(!hub.registry().is_online(offline_friend));
}

#[test]
fn the_senders_other_device_gets_a_copy_unless_exclusive() {
    let mut hub = Hub::new(8);
    let phone = hub.connect(ALICE, 1, 0).handle;
    let laptop = hub.connect(ALICE, 2, 0).handle;
    let open = note(EnvelopeKind::NowPlaying, ALICE, Audience::Friends, false);
    assert_eq!(hub.route(&open, Some(phone), &Ok(vec![])), RouteOutcome::Routed {
        accepted: 1,
        dropped: 0
    });
    assert_eq!(hub.registry().queued(laptop), Some(1));
    assert_eq!(hub.registry().queued(phone), Some(0));
    let closed = note(EnvelopeKind::NowPlaying, ALICE, Audience::Friends, true);
    assert_eq!(hub.route(&closed, Some(phone), &Ok(vec![])), RouteOutcome::Routed {
        accepted: 0,
        dropped: 0
    });
    assert_eq!(hub.registry().queued(laptop), Some(1));
    assert_eq!(hub.registry().queued(phone), Some(0));
}

#[test]
fn an_exclusive_envelope_stays_from_the_sender_even_as_target() {
    let mut hub = Hub::new(8);
    let phone = hub.connect(ALICE, 1, 0).handle;
    let laptop = hub.connect(ALICE, 2, 0).handle;
    let b = hub.connect(BOB, 3, 0).handle;
    let to_self = note(EnvelopeKind::Ping, ALICE, Audience::Direct(ALICE), true);
    hub.route(&to_self, Some(phone), &Ok(vec![BOB]));
    assert_eq!(hub.registry().queued(phone), Some(0));
    assert_eq!(hub.registry().queued(laptop), Some(0));
    assert_eq!(hub.registry().queued(b), Some(0));
}

#[test]
fn a_direct_envelope_reaches_every_session_of_its_target() {
    let mut hub = Hub::new(8);
    let a = hub.connect(ALICE, 1, 0).handle;
    let b1 = hub.connect(BOB, 2, 0).handle;
    let b2 = hub.connect(BOB, 3, 0).handle;
    let c = hub.connect(CAROL, 4, 0).handle;
    let e = note(EnvelopeKind::FriendRequest, ALICE, Audience::Direct(BOB), true);
    assert!(!e.needs_friends());
    let outcome = hub.route(&e, Some(a), &Err(LookupError::Unavailable));
    assert_eq!(outcome, RouteOutcome::Routed { accepted: 2, dropped: 0 });
    assert_eq!(hub.registry().queued(b1), Some(1));
    assert_eq!(hub.registry().queued(b2), Some(1));
    assert_eq!(hub.registry().queued(c), Some(0));
    assert_eq!(hub.registry().queued(a), Some(0));
    assert_eq!(hub.unresolved_count(), 0);
}

#[test]
fn an_unaddressed_envelope_reaches_the_senders_other_devices_only() {
    let mut hub = Hub::new(8);
    let phone = hub.connect(ALICE, 1, 0).handle;
    let laptop = hub.connect(ALICE, 2, 0).handle;
    let b = hub.connect(BOB, 3, 0).handle;
    let e = note(EnvelopeKind::Ping, ALICE, Audience::Unaddressed, false);
    let outcome = hub.route(&e, Some(phone), &Ok(vec![BOB]));
    assert_eq!(outcome, RouteOutcome::Routed { accepted: 1, dropped: 0 });
    assert_eq!(hub.registry().queued(laptop), Some(1));
    assert_eq!(hub.registry().queued(b), Some(0));
}

#[test]
fn a_failed_lookup_gives_the_envelope_up_and_counts_it() {
    let mut hub = Hub::new(8);
    let a = hub.connect(ALICE, 1, 0).handle;
    let laptop = hub.connect(ALICE, 2, 0).handle;
    let b = hub.connect(BOB, 3, 0).handle;
    let e = note(EnvelopeKind::NowPlaying, ALICE, Audience::Friends, false);
    assert_eq!(hub.route(&e, Some(a), &Err(LookupError::Unavailable)), RouteOutcome::Unresolved);
    assert_eq!(hub.unresolved_count(), 1);
    assert_eq!(hub.registry().queued(b), Some(0));
    assert_eq!(hub.registry().queued(laptop), Some(0));
    assert_eq!(hub.route(&e, Some(a), &Ok(vec![BOB])), RouteOutcome::Routed {
        accepted: 2,
        dropped: 0
    });
    assert_eq!(hub.unresolved_count(), 1);
    assert_eq!(hub.registry().queued(b), Some(1));
}

#[test]
fn a_saturated_session_loses_the_envelope_and_the_others_get_it() {
    let mut hub = Hub::new(2);
    let a = hub.connect(ALICE, 1, 0).handle;
    let b = hub.connect(BOB, 2, 0).handle;
    let c = hub.connect(CAROL, 3, 0).handle;
    let d = hub.connect(DAVE, 4, 0).handle;
    let friends = Ok(vec![BOB, CAROL, DAVE]);
    let critical = note(EnvelopeKind::FriendRequest, UserId(50), Audience::Direct(BOB), false);
    hub.route(&critical, None, &Ok(vec![]));
    hub.route(&critical, None, &Ok(vec![]));
    assert_eq!(hub.registry().queued(b), Some(2));
    let e = Envelope::new(
        EnvelopeKind::NowPlaying,
        ALICE,
        Audience::Friends,
        false,
        "{\"track\":\"blue in green\"}".to_string(),
    );
    let outcome = hub.route(&e, Some(a), &friends);
    assert_eq!(outcome, RouteOutcome::Routed { accepted: 2, dropped: 1 });
    assert_eq!(hub.registry().dropped_count(b), Some(1));
    assert_eq!(hub.registry().dropped_count(c), Some(0));
    assert_eq!(hub.registry().dropped_count(d), Some(0));
    let kept = drain(&mut hub, b);
    assert_eq!(kept.len(), 2);
    assert!(kept.iter().all(|k| k.kind() == EnvelopeKind::FriendRequest));
    assert_eq!(drain(&mut hub, c)[0].payload(), "{\"track\":\"blue in green\"}");
    assert_eq!(drain(&mut hub, d)[0].payload(), "{\"track\":\"blue in green\"}");
}

#[test]
fn an_abrupt_disconnect_leaves_the_others_queues_alone() {
    let mut hub = Hub::new(8);
    let a = hub.connect(ALICE, 1, 0).handle;
    let b = hub.connect(BOB, 2, 0).handle;
    let c = hub.connect(CAROL, 3, 0).handle;
    let from_carol =
        Envelope::new(EnvelopeKind::NowPlaying, CAROL, Audience::Direct(BOB), false, "{\"n\":1}".to_string());
    let from_alice =
        Envelope::new(EnvelopeKind::NowPlaying, ALICE, Audience::Direct(BOB), false, "{\"n\":2}".to_string());
    hub.route(&from_carol, Some(c), &Ok(vec![]));
    hub.route(&from_alice, Some(a), &Ok(vec![]));
    assert_eq!(hub.next_outbound(b).unwrap().payload(), "{\"n\":1}");
    let bye = hub.disconnect(a).unwrap();
    assert!(!hub.registry().is_registered(a));
    assert!(!hub.registry().is_online(ALICE));
    assert_eq!(hub.registry().owner_of(a), None);
    assert_eq!(hub.registry().queued(b), Some(1));
    assert_eq!(hub.route(&bye, None, &Ok(vec![BOB])), RouteOutcome::Routed { accepted: 1, dropped: 0 });
    let rest = drain(&mut hub, b);
    assert_eq!(rest.len(), 2);
    assert_eq!(rest[0].payload(), "{\"n\":2}");
    assert_eq!(rest[1].kind(), EnvelopeKind::Presence);
    assert_eq!(rest[1].sender(), ALICE);
    assert_eq!(rest[1].payload(), "{\"state\":\"offline\"}");
    assert!(drain(&mut hub, c).is_empty());
}

#[test]
fn one_senders_envelopes_arrive_in_the_order_they_were_routed() {
    let mut hub = Hub::new(8);
    let a = hub.connect(ALICE, 1, 0).handle;
    let b = hub.connect(BOB, 2, 0).handle;
    for n in 0..5 {
        let e = Envelope::new(
            EnvelopeKind::NowPlaying,
            ALICE,
            Audience::Friends,
            false,
            format!("{{\"n\":{}}}", n),
        );
        hub.route(&e, Some(a), &Ok(vec![BOB]));
    }
    let got: Vec<String> = drain(&mut hub, b).iter().map(|e| e.payload().to_string()).collect();
    assert_eq!(got, vec!["{\"n\":0}", "{\"n\":1}", "{\"n\":2}", "{\"n\":3}", "{\"n\":4}"]);
}

#[test]
fn accept_notes_activity_and_decodes() {
    let mut hub = Hub::new(8);
    let a = hub.connect(ALICE, 1, 10).handle;
    let e = hub.accept(a, now_playing_frame(ALICE), 25).unwrap();
    assert_eq!(e.sender(), ALICE);
    assert_eq!(hub.registry().last_activity(a), Some(25));
    assert_eq!(hub.registry().created_at(a), Some(10));
}

#[test]
fn accept_refuses_a_frame_in_anothers_name() {
    let mut hub = Hub::new(8);
    let a = hub.connect(ALICE, 1, 10).handle;
    hub.connect(BOB, 2, 10);
    let r = hub.accept(a, now_playing_frame(BOB), 25);
    assert_eq!(r.unwrap_err(), ProtocolError::SenderMismatch);
    assert_eq!(hub.registry().last_activity(a), Some(25));
}

#[test]
fn accept_refuses_a_frame_on_a_closed_session() {
    let mut hub = Hub::new(8);
    let a = hub.connect(ALICE, 1, 10).handle;
    hub.disconnect(a);
    let r = hub.accept(a, now_playing_frame(ALICE), 25);
    assert_eq!(r.unwrap_err(), ProtocolError::NoSession);
    assert_eq!(hub.registry().len(), 0);
}

#[test]
fn accept_refuses_a_payload_that_is_no_object() {
    let mut hub = Hub::new(8);
    let a = hub.connect(ALICE, 1, 10).handle;
    let mut frame = now_playing_frame(ALICE);
    frame.payload = "[1,2]".to_string();
    assert_eq!(hub.accept(a, frame, 25).unwrap_err(), ProtocolError::MalformedPayload);
}

#[test]
fn the_router_works_on_a_bare_registry_too() {
    let mut registry = Registry::new(1);
    let a = registry.register(ALICE, 1, 0);
    let b = registry.register(BOB, 2, 0);
    let c = registry.register(CAROL, 3, 0);
    let e = note(EnvelopeKind::Presence, ALICE, Audience::Friends, false);
    assert_eq!(fan_out(&mut registry, &e, Some(a), &vec![BOB, CAROL]), (2, 0));
    assert_eq!(fan_out(&mut registry, &e, Some(a), &vec![BOB]), (0, 1));
    assert_eq!(registry.dropped_count(b), Some(1));
    assert_eq!(registry.dropped_count(c), Some(0));
    assert_eq!(route(&mut registry, &e, Some(a), &Err(LookupError::Unavailable)), RouteOutcome::Unresolved);
    assert_eq!(registry.queued(c), Some(1));
    assert!(is_listed(&vec![BOB, CAROL], CAROL));
    assert!(!is_listed(&vec![BOB, CAROL], ALICE));
    assert!(!is_listed(&vec![], ALICE));
}

#[test]
fn a_new_hub_has_lost_nothing() {
    let hub = Hub::new(3);
    assert_eq!(hub.unresolved_count(), 0);
    assert_eq!(hub.registry().len(), 0);
    assert_eq!(hub.registry().online_count(), 0);
}

#[test]
fn friends_are_read_from_their_texts() {
    let rows = vec![
        BOB.to_text(),
        "not a uuid".to_string(),
        "0000000C-0000-0000-0000-00000000000C".to_string(),
        String::new(),
        BOB.to_text(),
    ];
    let c = UserId(0x0000_000c_0000_0000_0000_0000_0000_000c);
    assert_eq!(friends_from_texts(&rows), vec![BOB, c, BOB]);
    assert_eq!(friends_from_texts(&vec![]), vec![]);
}

#[test]
fn routing_changes_nobodys_presence() {
    let mut hub = Hub::new(1);
    let a = hub.connect(ALICE, 1, 0).handle;
    hub.connect(BOB, 2, 0);
    let e = note(EnvelopeKind::Presence, ALICE, Audience::Friends, false);
    for _ in 0..3 {
        hub.route(&e, Some(a), &Ok(vec![BOB, CAROL]));
    }
    assert_eq!(hub.registry().sessions_of(ALICE), vec![SessionHandle(1)]);
    assert_eq!(hub.registry().sessions_of(BOB), vec![SessionHandle(2)]);
    assert!(!hub.registry().is_online(CAROL));
    assert_eq!(hub.registry().online_count(), 2);
}
