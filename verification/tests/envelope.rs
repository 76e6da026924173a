use lobic_hub::envelope::{Audience, Envelope, EnvelopeKind, Frame, ProtocolError};
use lobic_hub::ident::UserId;
use lobic_hub::text::same_text;

const ALICE: &str = "00000000-0000-0000-0000-00000000000a";
const BOB: &str = "00000000-0000-0000-0000-00000000000b";

fn frame(kind: &str, sender: &str, target: Option<&str>, broadcast: bool, payload: &str) -> Frame {
    Frame {
        kind: kind.to_string(),
        sender: sender.to_string(),
        target: target.map(|t| t.to_string()),
        broadcast,
        exclusive: false,
        payload: payload.to_string(),
    }
}

#[test]
fn every_kind_has_its_tag() {
    assert_eq!(EnvelopeKind::Presence.tag(), "presence");
    assert_eq!(EnvelopeKind::NowPlaying.tag(), "now-playing");
    assert_eq!(EnvelopeKind::PlaylistUpdate.tag(), "playlist-update");
    assert_eq!(EnvelopeKind::FriendRequest.tag(), "friend-request");
    assert_eq!(EnvelopeKind::Ping.tag(), "ping");
}

#[test]
fn every_tag_names_its_kind() {
    let kinds = [
        EnvelopeKind::Presence,
        EnvelopeKind::NowPlaying,
        EnvelopeKind::PlaylistUpdate,
        EnvelopeKind::FriendRequest,
        EnvelopeKind::Ping,
    ];
    for kind in kinds {
        assert_eq!(EnvelopeKind::parse(kind.tag()), Some(kind));
    }
    assert_eq!(EnvelopeKind::parse("Presence"), None);
    assert_eq!(EnvelopeKind::parse("now_playing"), None);
    assert_eq!(EnvelopeKind::parse(""), None);
}

#[test]
fn one_time_events_are_critical() {
    assert!(EnvelopeKind::Presence.is_critical());
    assert!(EnvelopeKind::PlaylistUpdate.is_critical());
    assert!(EnvelopeKind::FriendRequest.is_critical());
    assert!(!EnvelopeKind::NowPlaying.is_critical());
    assert!(!EnvelopeKind::Ping.is_critical());
}

#[test]
fn same_text_compares_characters() {
    assert!(same_text("ping", "ping"));
    assert!(!same_text("ping", "pong"));
    assert!(!same_text("ping", "pin"));
    assert!(same_text("", ""));
}

#[test]
fn an_envelope_shows_what_it_was_built_from() {
    let e = Envelope::new(
        EnvelopeKind::FriendRequest,
        UserId(10),
        Audience::Direct(UserId(11)),
        true,
        "{\"note\":\"hi\"}".to_string(),
    );
    assert_eq!(e.kind(), EnvelopeKind::FriendRequest);
    assert_eq!(e.sender(), UserId(10));
    assert_eq!(e.audience(), Audience::Direct(UserId(11)));
    assert!(e.is_sender_exclusive());
    assert_eq!(e.payload(), "{\"note\":\"hi\"}");
    assert!(!e.needs_friends());
    assert!(e.is_critical());
    let copy = e.clone();
    assert_eq!(copy.kind(), e.kind());
    assert_eq!(copy.sender(), e.sender());
    assert_eq!(copy.audience(), e.audience());
    assert_eq!(copy.is_sender_exclusive(), e.is_sender_exclusive());
    assert_eq!(copy.payload(), e.payload());
}

#[test]
fn a_broadcast_frame_becomes_an_envelope_for_friends() {
    let e = Envelope::from_frame(frame("now-playing", ALICE, None, true, "{\"track\":\"x\"}"), UserId(10))
        .unwrap();
    assert_eq!(e.kind(), EnvelopeKind::NowPlaying);
    assert_eq!(e.sender(), UserId(10));
    assert_eq!(e.audience(), Audience::Friends);
    assert!(e.needs_friends());
    assert!(!e.is_sender_exclusive());
    assert_eq!(e.payload(), "{\"track\":\"x\"}");
}

#[test]
fn a_targeted_frame_becomes_a_direct_envelope() {
    let e = Envelope::from_frame(frame("friend-request", ALICE, Some(BOB), false, "{}"), UserId(10))
        .unwrap();
    assert_eq!(e.audience(), Audience::Direct(UserId(11)));
}

#[test]
fn a_frame_for_nobody_is_unaddressed() {
    let e = Envelope::from_frame(frame("ping", ALICE, None, false, " { } "), UserId(10)).unwrap();
    assert_eq!(e.audience(), Audience::Unaddressed);
    assert_eq!(e.payload(), " { } ");
}

#[test]
fn the_exclusive_mark_is_kept() {
    let mut f = frame("playlist-update", ALICE, None, true, "{}");
    f.exclusive = true;
    let e = Envelope::from_frame(f, UserId(10)).unwrap();
    assert!(e.is_sender_exclusive());
}

#[test]
fn an_unknown_type_is_refused() {
    let r = Envelope::from_frame(frame("shout", ALICE, None, true, "{}"), UserId(10));
    assert_eq!(r.unwrap_err(), ProtocolError::UnknownKind);
}

#[test]
fn a_sender_that_is_no_uuid_is_refused() {
    let r = Envelope::from_frame(frame("ping", "alice", None, true, "{}"), UserId(10));
    assert_eq!(r.unwrap_err(), ProtocolError::BadSender);
}

#[test]
fn a_sender_other_than_the_owner_is_refused() {
    let r = Envelope::from_frame(frame("ping", BOB, None, true, "{}"), UserId(10));
    assert_eq!(r.unwrap_err(), ProtocolError::SenderMismatch);
}

#[test]
fn a_target_that_is_no_uuid_is_refused() {
    let r = Envelope::from_frame(frame("ping", ALICE, Some("bob"), false, "{}"), UserId(10));
    assert_eq!(r.unwrap_err(), ProtocolError::BadTarget);
}

#[test]
fn a_target_together_with_a_broadcast_is_refused() {
    let r = Envelope::from_frame(frame("ping", ALICE, Some(BOB), true, "{}"), UserId(10));
    assert_eq!(r.unwrap_err(), ProtocolError::AmbiguousAudience);
}

#[test]
fn a_payload_that_is_no_object_is_refused() {
    let not_objects = ["", "null", "[]", "3", "\"text\"", "{", "{} {}", "{\"a\":}", "true"];
    for payload in not_objects {
        let r = Envelope::from_frame(frame("ping", ALICE, None, true, payload), UserId(10));
        assert_eq!(r.unwrap_err(), ProtocolError::MalformedPayload);
    }
}

#[test]
fn a_payload_that_is_an_object_is_taken() {
    let objects = ["{}", "{\"a\":1}", "{\"a\":{\"b\":[1,2,null]},\"c\":\"d\"}", "\n{\"a\" : true}\t"];
    for payload in objects {
        let r = Envelope::from_frame(frame("ping", ALICE, None, true, payload), UserId(10));
        assert_eq!(r.unwrap().payload(), payload);
    }
}

#[test]
fn the_first_broken_rule_is_named() {
    let r = Envelope::from_frame(frame("shout", "alice", Some("bob"), true, "[]"), UserId(10));
    assert_eq!(r.unwrap_err(), ProtocolError::UnknownKind);
    let r = Envelope::from_frame(frame("ping", "alice", Some("bob"), true, "[]"), UserId(10));
    assert_eq!(r.unwrap_err(), ProtocolError::BadSender);
    let r = Envelope::from_frame(frame("ping", BOB, Some("bob"), true, "[]"), UserId(10));
    assert_eq!(r.unwrap_err(), ProtocolError::SenderMismatch);
    let r = Envelope::from_frame(frame("ping", ALICE, Some("bob"), true, "[]"), UserId(10));
    assert_eq!(r.unwrap_err(), ProtocolError::BadTarget);
    let r = Envelope::from_frame(frame("ping", ALICE, Some(BOB), true, "[]"), UserId(10));
    assert_eq!(r.unwrap_err(), ProtocolError::AmbiguousAudience);
    let r = Envelope::from_frame(frame("ping", ALICE, Some(BOB), false, "[]"), UserId(10));
    assert_eq!(r.unwrap_err(), ProtocolError::MalformedPayload);
}

#[test]
fn assemble_goes_by_the_verdict_it_is_given() {
    let taken = Envelope::assemble(frame("ping", ALICE, None, true, "[]"), UserId(10), true);
    assert_eq!(taken.unwrap().payload(), "[]");
    let refused = Envelope::assemble(frame("ping", ALICE, None, true, "{}"), UserId(10), false);
    assert_eq!(refused.unwrap_err(), ProtocolError::MalformedPayload);
}

#[test]
fn an_envelope_and_its_frame_go_round() {
    let cases = [
        (EnvelopeKind::NowPlaying, Audience::Friends, false),
        (EnvelopeKind::FriendRequest, Audience::Direct(UserId(11)), true),
        (EnvelopeKind::Ping, Audience::Unaddressed, false),
    ];
    for (kind, audience, exclusive) in cases {
        let e = Envelope::new(kind, UserId(10), audience, exclusive, "{\"k\":1}".to_string());
        let f = e.to_frame();
        assert_eq!(f.kind, kind.tag());
        assert_eq!(f.sender, ALICE);
        assert_eq!(f.broadcast, audience == Audience::Friends);
        assert_eq!(f.exclusive, exclusive);
        assert_eq!(f.payload, "{\"k\":1}");
        let back = Envelope::from_frame(f, UserId(10)).unwrap();
        assert_eq!(back.kind(), kind);
        assert_eq!(back.sender(), UserId(10));
        assert_eq!(back.audience(), audience);
        assert_eq!(back.is_sender_exclusive(), exclusive);
        assert_eq!(back.payload(), "{\"k\":1}");
    }
}

#[test]
fn a_direct_envelope_names_its_target_on_the_wire() {
    let e = Envelope::new(
        EnvelopeKind::FriendRequest,
        UserId(10),
        Audience::Direct(UserId(11)),
        false,
        "{}".to_string(),
    );
    let f = e.to_frame();
    assert_eq!(f.target.as_deref(), Some(BOB));
    assert!(!f.broadcast);
    let broadcast = Envelope::new(EnvelopeKind::Ping, UserId(10), Audience::Friends, false, "{}".to_string());
    assert_eq!(broadcast.to_frame().target, None);
}
