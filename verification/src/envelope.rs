//! The envelope: one discrete message relayed between sessions, and the
//! rules by which a decoded wire frame becomes one.

use vstd::prelude::*;
use vstd::string::*;
use crate::ident::UserId;
use crate::ident::lemma_text_roundtrip;
use crate::ident::parse_user_id;
use crate::ident::text_of;
use crate::text::same_text;

verus! {

/// What an envelope is about.
#[derive(Clone, Copy, PartialEq, Eq, Structural, Debug)]
pub enum EnvelopeKind {
    /// A user came online or went offline.
    Presence,
    /// What a user is listening to right now.
    NowPlaying,
    /// A playlist changed.
    PlaylistUpdate,
    /// Somebody asks to become a friend.
    FriendRequest,
    /// A keep-alive.
    Ping,
}

/// For whom an envelope is meant, besides the sender's own other sessions.
#[derive(Clone, Copy, PartialEq, Eq, Structural, Debug)]
pub enum Audience {
    /// Nobody else.
    Unaddressed,
    /// Every session of one user.
    Direct(UserId),
    /// Every session of every friend of the sender.
    Friends,
}

impl EnvelopeKind {
    /// The tag under which the kind travels on the wire.
    pub open spec fn tag_text(self) -> Seq<char> {
        match self {
            EnvelopeKind::Presence => "presence"@,
            EnvelopeKind::NowPlaying => "now-playing"@,
            EnvelopeKind::PlaylistUpdate => "playlist-update"@,
            EnvelopeKind::FriendRequest => "friend-request"@,
            EnvelopeKind::Ping => "ping"@,
        }
    }

    /// The kind that a wire tag names, if it names one.
    pub open spec fn of_tag(tag: Seq<char>) -> Option<EnvelopeKind> {
        if tag == "presence"@ {
            Some(EnvelopeKind::Presence)
        } else if tag == "now-playing"@ {
            Some(EnvelopeKind::NowPlaying)
        } else if tag == "playlist-update"@ {
            Some(EnvelopeKind::PlaylistUpdate)
        } else if tag == "friend-request"@ {
            Some(EnvelopeKind::FriendRequest)
        } else if tag == "ping"@ {
            Some(EnvelopeKind::Ping)
        } else {
            None
        }
    }

    /// Whether losing an envelope of this kind leaves a client wrong for
    /// good. A one-time event is critical; a status that the next one of its
    /// kind replaces is not.
    pub open spec fn critical(self) -> bool {
        match self {
            EnvelopeKind::Presence => true,
            EnvelopeKind::PlaylistUpdate => true,
            EnvelopeKind::FriendRequest => true,
            EnvelopeKind::NowPlaying => false,
            EnvelopeKind::Ping => false,
        }
    }

    /// The tag under which the kind travels on the wire.
    pub fn tag(self) -> (t: &'static str)
        ensures
            t@ == self.tag_text(),
    {
        match self {
            EnvelopeKind::Presence => "presence",
            EnvelopeKind::NowPlaying => "now-playing",
            EnvelopeKind::PlaylistUpdate => "playlist-update",
            EnvelopeKind::FriendRequest => "friend-request",
            EnvelopeKind::Ping => "ping",
        }
    }

    /// Reads a kind from its wire tag; an unknown tag gives `None`.
    pub fn parse(tag: &str) -> (k: Option<EnvelopeKind>)
        ensures
            k == EnvelopeKind::of_tag(tag@),
    {
        if same_text(tag, "presence") {
            Some(EnvelopeKind::Presence)
        } else if same_text(tag, "now-playing") {
            Some(EnvelopeKind::NowPlaying)
        } else if same_text(tag, "playlist-update") {
            Some(EnvelopeKind::PlaylistUpdate)
        } else if same_text(tag, "friend-request") {
            Some(EnvelopeKind::FriendRequest)
        } else if same_text(tag, "ping") {
            Some(EnvelopeKind::Ping)
        } else {
            None
        }
    }

    /// Whether an envelope of this kind is critical.
    pub fn is_critical(self) -> (c: bool)
        ensures
            c == self.critical(),
    {
        match self {
            EnvelopeKind::Presence => true,
            EnvelopeKind::PlaylistUpdate => true,
            EnvelopeKind::FriendRequest => true,
            EnvelopeKind::NowPlaying => false,
            EnvelopeKind::Ping => false,
        }
    }
}

/// Every kind is read back from its own tag: the five tags differ.
pub proof fn lemma_tag_names_its_kind(kind: EnvelopeKind)
    ensures
        EnvelopeKind::of_tag(kind.tag_text()) == Some(kind),
{
    reveal_strlit("presence");
    reveal_strlit("now-playing");
    reveal_strlit("playlist-update");
    reveal_strlit("friend-request");
    reveal_strlit("ping");
    assert("presence"@.len() == 8);
    assert("now-playing"@.len() == 11);
    assert("playlist-update"@.len() == 15);
    assert("friend-request"@.len() == 14);
    assert("ping"@.len() == 4);
}

/// What an envelope holds.
pub struct EnvelopeView {
    pub kind: EnvelopeKind,
    pub sender: UserId,
    pub audience: Audience,
    pub sender_exclusive: bool,
    pub payload: Seq<char>,
}

/// One message. It is built whole and never changed afterwards: it has no
/// method that alters it.
#[derive(Debug)]
pub struct Envelope {
    kind: EnvelopeKind,
    sender: UserId,
    audience: Audience,
    sender_exclusive: bool,
    payload: String,
}

impl View for Envelope {
    type V = EnvelopeView;

    closed spec fn view(&self) -> EnvelopeView {
        EnvelopeView {
            kind: self.kind,
            sender: self.sender,
            audience: self.audience,
            sender_exclusive: self.sender_exclusive,
            payload: self.payload@,
        }
    }
}

impl Clone for Envelope {
    fn clone(&self) -> (copy: Self)
        ensures
            copy@ == self@,
    {
        Envelope {
            kind: self.kind,
            sender: self.sender,
            audience: self.audience,
            sender_exclusive: self.sender_exclusive,
            payload: self.payload.clone(),
        }
    }
}

impl Envelope {
    /// Builds an envelope from its parts. `sender_exclusive` keeps it from
    /// the sender's own other sessions.
    pub fn new(
        kind: EnvelopeKind,
        sender: UserId,
        audience: Audience,
        sender_exclusive: bool,
        payload: String,
    ) -> (envelope: Envelope)
        ensures
            envelope@ == (EnvelopeView {
                kind,
                sender,
                audience,
                sender_exclusive,
                payload: payload@,
            }),
    {
        Envelope { kind, sender, audience, sender_exclusive, payload }
    }

    /// What the envelope is about.
    pub fn kind(&self) -> (kind: EnvelopeKind)
        ensures
            kind == self@.kind,
    {
        self.kind
    }

    /// Who sent it.
    pub fn sender(&self) -> (sender: UserId)
        ensures
            sender == self@.sender,
    {
        self.sender
    }

    /// For whom it is meant.
    pub fn audience(&self) -> (audience: Audience)
        ensures
            audience == self@.audience,
    {
        self.audience
    }

    /// Whether it is kept from the sender's own other sessions.
    pub fn is_sender_exclusive(&self) -> (exclusive: bool)
        ensures
            exclusive == self@.sender_exclusive,
    {
        self.sender_exclusive
    }

    /// Its payload, as JSON text.
    pub fn payload(&self) -> (payload: &str)
        ensures
            payload@ == self@.payload,
    {
        self.payload.as_str()
    }

    /// Whether routing this envelope takes the sender's friend set.
    pub fn needs_friends(&self) -> (needed: bool)
        ensures
            needed == (self@.audience == Audience::Friends),
    {
        match self.audience {
            Audience::Friends => true,
            _ => false,
        }
    }

    /// Whether the envelope is critical: see [`EnvelopeKind::critical`].
    pub fn is_critical(&self) -> (c: bool)
        ensures
            c == self@.kind.critical(),
    {
        self.kind.is_critical()
    }
}

/// The fields of one decoded wire frame, as text.
#[derive(Debug)]
pub struct Frame {
    /// The `type` tag.
    pub kind: String,
    /// The sender, as UUID text.
    pub sender: String,
    /// The explicit target, as UUID text, if there is one.
    pub target: Option<String>,
    /// The broadcast-to-friends marker.
    pub broadcast: bool,
    /// Keeps the envelope from the sender's own other sessions.
    pub exclusive: bool,
    /// The payload, as JSON text.
    pub payload: String,
}

/// What a frame holds.
pub struct FrameView {
    pub kind: Seq<char>,
    pub sender: Seq<char>,
    pub target: Option<Seq<char>>,
    pub broadcast: bool,
    pub exclusive: bool,
    pub payload: Seq<char>,
}

impl View for Frame {
    type V = FrameView;

    open spec fn view(&self) -> FrameView {
        FrameView {
            kind: self.kind@,
            sender: self.sender@,
            target: match self.target {
                Some(t) => Some(t@),
                None => None,
            },
            broadcast: self.broadcast,
            exclusive: self.exclusive,
            payload: self.payload@,
        }
    }
}

/// Why a frame is no envelope. The connection that sent it is closed.
#[derive(Clone, Copy, PartialEq, Eq, Structural, Debug)]
pub enum ProtocolError {
    /// The `type` tag names no known kind.
    UnknownKind,
    /// The sender field is no UUID.
    BadSender,
    /// The sender field names another user than the one the session
    /// belongs to.
    SenderMismatch,
    /// The target field is no UUID.
    BadTarget,
    /// The frame names a target and asks for a broadcast too.
    AmbiguousAudience,
    /// The payload is no JSON object.
    MalformedPayload,
    /// The session on which the frame arrived is not registered any more.
    NoSession,
}

/// Whether a text is exactly one JSON object, as `serde_json` reads it.
pub uninterp spec fn json_object_text(text: Seq<char>) -> bool;

/// Asks `serde_json::from_str`, at the type `serde_json::Map<String, Value>`,
/// whether the text parses. The contract claims one thing: the answer
/// depends on the characters of the text alone. It gives that answer the
/// name `json_object_text` and says nothing of which texts parse.
#[verifier::external_body]
fn parses_as_json_object(text: &str) -> (ok: bool)
    ensures
        ok == json_object_text(text@),
{
    serde_json::from_str::<serde_json::Map<String, serde_json::Value>>(text).is_ok()
}

/// The audience that a frame's target and broadcast marker name together.
pub open spec fn audience_of(target: Option<Seq<char>>, broadcast: bool) -> Result<
    Audience,
    ProtocolError,
> {
    match target {
        Some(text) => match parse_user_id(text) {
            None => Err(ProtocolError::BadTarget),
            Some(user) => if broadcast {
                Err(ProtocolError::AmbiguousAudience)
            } else {
                Ok(Audience::Direct(user))
            },
        },
        None => if broadcast {
            Ok(Audience::Friends)
        } else {
            Ok(Audience::Unaddressed)
        },
    }
}

/// The envelope that a frame from a session of `owner` stands for, or the
/// first rule that it breaks. `payload_is_object` says whether the payload
/// is a JSON object.
pub open spec fn decode(frame: FrameView, owner: UserId, payload_is_object: bool) -> Result<
    EnvelopeView,
    ProtocolError,
> {
    match EnvelopeKind::of_tag(frame.kind) {
        None => Err(ProtocolError::UnknownKind),
        Some(kind) => match parse_user_id(frame.sender) {
            None => Err(ProtocolError::BadSender),
            Some(sender) => if sender != owner {
                Err(ProtocolError::SenderMismatch)
            } else {
                match audience_of(frame.target, frame.broadcast) {
                    Err(e) => Err(e),
                    Ok(audience) => if !payload_is_object {
                        Err(ProtocolError::MalformedPayload)
                    } else {
                        Ok(
                            EnvelopeView {
                                kind,
                                sender,
                                audience,
                                sender_exclusive: frame.exclusive,
                                payload: frame.payload,
                            },
                        )
                    },
                }
            },
        },
    }
}

/// The view of a decoding result.
pub open spec fn decoded_view(r: Result<Envelope, ProtocolError>) -> Result<
    EnvelopeView,
    ProtocolError,
> {
    match r {
        Ok(e) => Ok(e@),
        Err(e) => Err(e),
    }
}

/// The frame that carries an envelope on the wire.
pub open spec fn frame_of(e: EnvelopeView) -> FrameView {
    FrameView {
        kind: e.kind.tag_text(),
        sender: text_of(e.sender),
        target: match e.audience {
            Audience::Direct(user) => Some(text_of(user)),
            _ => None,
        },
        broadcast: e.audience == Audience::Friends,
        exclusive: e.sender_exclusive,
        payload: e.payload,
    }
}

/// The frame of an envelope is read back as that envelope on a session of
/// its sender, as long as its payload is a JSON object.
pub proof fn lemma_frame_roundtrip(e: EnvelopeView)
    ensures
        decode(frame_of(e), e.sender, true) == Ok::<EnvelopeView, ProtocolError>(e),
        decode(frame_of(e), e.sender, false) == Err::<EnvelopeView, ProtocolError>(
            ProtocolError::MalformedPayload,
        ),
{
    lemma_tag_names_its_kind(e.kind);
    lemma_text_roundtrip(e.sender);
    match e.audience {
        Audience::Direct(user) => {
            lemma_text_roundtrip(user);
        },
        _ => {},
    }
}

fn read_audience(target: &Option<String>, broadcast: bool) -> (r: Result<Audience, ProtocolError>)
    ensures
        r == audience_of(
            match *target {
                Some(t) => Some(t@),
                None => None,
            },
            broadcast,
        ),
{
    match target {
        Some(text) => match UserId::parse(text.as_str()) {
            None => Err(ProtocolError::BadTarget),
            Some(user) => if broadcast {
                Err(ProtocolError::AmbiguousAudience)
            } else {
                Ok(Audience::Direct(user))
            },
        },
        None => if broadcast {
            Ok(Audience::Friends)
        } else {
            Ok(Audience::Unaddressed)
        },
    }
}

impl Envelope {
    /// The frame that carries this envelope on the wire.
    pub fn to_frame(&self) -> (frame: Frame)
        ensures
            frame@ == frame_of(self@),
    {
        let target = match self.audience {
            Audience::Direct(user) => Some(user.to_text()),
            _ => None,
        };
        let broadcast = match self.audience {
            Audience::Friends => true,
            _ => false,
        };
        Frame {
            kind: self.kind.tag().to_owned(),
            sender: self.sender.to_text(),
            target,
            broadcast,
            exclusive: self.sender_exclusive,
            payload: self.payload.clone(),
        }
    }

    /// Turns a frame that arrived on a session of `owner` into an envelope,
    /// or names the first rule that it breaks; `payload_is_object` is the
    /// verdict on its payload.
    pub fn assemble(frame: Frame, owner: UserId, payload_is_object: bool) -> (r: Result<
        Envelope,
        ProtocolError,
    >)
        ensures
            decoded_view(r) == decode(frame@, owner, payload_is_object),
    {
        let kind = match EnvelopeKind::parse(frame.kind.as_str()) {
            None => {
                return Err(ProtocolError::UnknownKind);
            },
            Some(kind) => kind,
        };
        let sender = match UserId::parse(frame.sender.as_str()) {
            None => {
                return Err(ProtocolError::BadSender);
            },
            Some(sender) => sender,
        };
        if sender != owner {
            return Err(ProtocolError::SenderMismatch);
        }
        let audience = match read_audience(&frame.target, frame.broadcast) {
            Err(e) => {
                return Err(e);
            },
            Ok(audience) => audience,
        };
        if !payload_is_object {
            return Err(ProtocolError::MalformedPayload);
        }
        Ok(Envelope::new(kind, sender, audience, frame.exclusive, frame.payload))
    }

    /// Turns a frame that arrived on a session of `owner` into an envelope,
    /// or names the first rule that it breaks.
    pub fn from_frame(frame: Frame, owner: UserId) -> (r: Result<Envelope, ProtocolError>)
        ensures
            decoded_view(r) == decode(frame@, owner, json_object_text(frame.payload@)),
    {
        let payload_is_object = parses_as_json_object(frame.payload.as_str());
        Envelope::assemble(frame, owner, payload_is_object)
    }
}

} // verus!
