//! The broadcast router: who gets an envelope, and the fan-out to them.
//!
//! An envelope goes to the sessions of its audience and, unless it is marked
//! sender-exclusive, to the sender's own other sessions. The session it came
//! from never gets it back. Each recipient's outbox decides on its own
//! whether it takes the envelope: a full one costs the others nothing.

use vstd::prelude::*;
use crate::envelope::Audience;
use crate::envelope::Envelope;
use crate::envelope::EnvelopeView;
use crate::ident::SessionHandle;
use crate::ident::UserId;
use crate::ident::parse_user_id;
use crate::outbox::Delivery;
use crate::outbox::bump;
use crate::outbox::lemma_delivery;
use crate::registry::Registry;
use crate::registry::RegistryView;
use crate::registry::SessionView;
use crate::registry::lemma_same_sessions;

verus! {

/// Why a friend set could not be had.
#[derive(Clone, Copy, PartialEq, Eq, Structural, Debug)]
pub enum LookupError {
    /// The store that holds the friendships did not answer.
    Unavailable,
}

/// What became of one routed envelope.
#[derive(Clone, Copy, PartialEq, Eq, Structural, Debug)]
pub enum RouteOutcome {
    /// It was offered to every recipient: so many took it, so many did not.
    Routed { accepted: usize, dropped: usize },
    /// It was meant for the sender's friends and the friend set could not be
    /// had: nobody got it.
    Unresolved,
}

/// Whether the session `s` is a recipient of `e`, which came in on the
/// session `origin` (if on any), `friends` being the sender's friends.
pub open spec fn is_recipient(
    s: SessionView,
    e: EnvelopeView,
    origin: Option<SessionHandle>,
    friends: Seq<UserId>,
) -> bool {
    if origin == Some(s.handle) {
        false
    } else if s.user == e.sender {
        !e.sender_exclusive
    } else {
        match e.audience {
            Audience::Unaddressed => false,
            Audience::Direct(target) => s.user == target,
            Audience::Friends => friends.contains(s.user),
        }
    }
}

/// The session `s` after the router passed it with `e`.
pub open spec fn session_after_route(
    s: SessionView,
    e: EnvelopeView,
    origin: Option<SessionHandle>,
    friends: Seq<UserId>,
) -> SessionView {
    if is_recipient(s, e, origin, friends) {
        SessionView { outbox: s.outbox.after_delivery(e), ..s }
    } else {
        s
    }
}

/// The table after the router passed its first `k` sessions with `e`.
pub open spec fn routed_upto(
    r: RegistryView,
    e: EnvelopeView,
    origin: Option<SessionHandle>,
    friends: Seq<UserId>,
    k: int,
) -> RegistryView {
    RegistryView {
        sessions: Seq::new(
            r.sessions.len(),
            |i: int|
                if i < k {
                    session_after_route(r.sessions[i], e, origin, friends)
                } else {
                    r.sessions[i]
                },
        ),
        ..r
    }
}

/// The table after `e` was routed.
pub open spec fn after_route(
    r: RegistryView,
    e: EnvelopeView,
    origin: Option<SessionHandle>,
    friends: Seq<UserId>,
) -> RegistryView {
    routed_upto(r, e, origin, friends, r.sessions.len() as int)
}

/// How many of the first `k` sessions are recipients of `e` whose outbox
/// answers `verdict`.
pub open spec fn tally_upto(
    r: RegistryView,
    e: EnvelopeView,
    origin: Option<SessionHandle>,
    friends: Seq<UserId>,
    verdict: Delivery,
    k: int,
) -> nat
    decreases k,
{
    if k <= 0 {
        0
    } else {
        let before = tally_upto(r, e, origin, friends, verdict, k - 1);
        let s = r.sessions[k - 1];
        if is_recipient(s, e, origin, friends) && s.outbox.verdict() == verdict {
            before + 1
        } else {
            before
        }
    }
}

/// How many of the first `k` sessions are recipients of `e`.
pub open spec fn recipients_upto(
    r: RegistryView,
    e: EnvelopeView,
    origin: Option<SessionHandle>,
    friends: Seq<UserId>,
    k: int,
) -> nat
    decreases k,
{
    if k <= 0 {
        0
    } else if is_recipient(r.sessions[k - 1], e, origin, friends) {
        recipients_upto(r, e, origin, friends, k - 1) + 1
    } else {
        recipients_upto(r, e, origin, friends, k - 1)
    }
}

/// How many recipients of `e` have an outbox that answers `verdict`.
pub open spec fn tally(
    r: RegistryView,
    e: EnvelopeView,
    origin: Option<SessionHandle>,
    friends: Seq<UserId>,
    verdict: Delivery,
) -> nat {
    tally_upto(r, e, origin, friends, verdict, r.sessions.len() as int)
}

/// The friend set that routing goes by: the one that was looked up, or
/// nobody where the lookup failed.
pub open spec fn resolved(friends: Result<Vec<UserId>, LookupError>) -> Seq<UserId> {
    match friends {
        Ok(list) => list@,
        Err(_) => Seq::empty(),
    }
}

/// Whether routing `e` fails for want of the friend set.
pub open spec fn unresolved(e: EnvelopeView, friends: Result<Vec<UserId>, LookupError>) -> bool {
    e.audience == Audience::Friends && friends is Err
}

/// The table after `e` was handed to the router with what the lookup of
/// the sender's friends gave.
pub open spec fn table_after(
    r: RegistryView,
    e: EnvelopeView,
    origin: Option<SessionHandle>,
    friends: Result<Vec<UserId>, LookupError>,
) -> RegistryView {
    if unresolved(e, friends) {
        r
    } else {
        after_route(r, e, origin, resolved(friends))
    }
}

/// What the router answers when `e` is handed to it with what the lookup
/// of the sender's friends gave.
pub open spec fn outcome_of(
    r: RegistryView,
    e: EnvelopeView,
    origin: Option<SessionHandle>,
    friends: Result<Vec<UserId>, LookupError>,
) -> RouteOutcome {
    if unresolved(e, friends) {
        RouteOutcome::Unresolved
    } else {
        RouteOutcome::Routed {
            accepted: tally(r, e, origin, resolved(friends), Delivery::Accepted) as usize,
            dropped: tally(r, e, origin, resolved(friends), Delivery::Dropped) as usize,
        }
    }
}

/// The identities among the first `k` of `texts`, in their order; a text
/// that is no UUID stands for nobody.
pub open spec fn identities_upto(texts: Seq<Seq<char>>, k: int) -> Seq<UserId>
    decreases k,
{
    if k <= 0 {
        Seq::empty()
    } else {
        match parse_user_id(texts[k - 1]) {
            Some(user) => identities_upto(texts, k - 1).push(user),
            None => identities_upto(texts, k - 1),
        }
    }
}

/// What a list of texts holds.
pub open spec fn texts_view(texts: Vec<String>) -> Seq<Seq<char>> {
    texts@.map_values(|t: String| t@)
}

/// Reads a friend set from the identifiers that the store holds as text. A
/// row whose text is no UUID names nobody who could be online, and is
/// passed over.
pub fn friends_from_texts(texts: &Vec<String>) -> (friends: Vec<UserId>)
    ensures
        friends@ == identities_upto(texts_view(*texts), texts@.len() as int),
{
    let mut friends: Vec<UserId> = Vec::new();
    let mut i: usize = 0;
    while i < texts.len()
        invariant
            i <= texts@.len(),
            friends@ == identities_upto(texts_view(*texts), i as int),
        decreases texts@.len() - i,
    {
        assert(texts_view(*texts)[i as int] == texts@[i as int]@);
        match UserId::parse(texts[i].as_str()) {
            Some(user) => {
                friends.push(user);
            },
            None => {},
        }
        i = i + 1;
    }
    friends
}

/// Whether `user` stands in `list`.
pub fn is_listed(list: &Vec<UserId>, user: UserId) -> (listed: bool)
    ensures
        listed == list@.contains(user),
{
    let mut i: usize = 0;
    while i < list.len()
        invariant
            i <= list@.len(),
            forall|j: int| 0 <= j < i ==> list@[j] != user,
        decreases list@.len() - i,
    {
        if list[i] == user {
            return true;
        }
        i = i + 1;
    }
    false
}

fn receives(
    handle: SessionHandle,
    user: UserId,
    envelope: &Envelope,
    origin: Option<SessionHandle>,
    friends: &Vec<UserId>,
) -> (yes: bool)
    ensures
        forall|s: SessionView|
            s.handle == handle && s.user == user ==> yes == #[trigger] is_recipient(
                s,
                envelope@,
                origin,
                friends@,
            ),
{
    let from_here = match origin {
        Some(o) => o == handle,
        None => false,
    };
    if from_here {
        false
    } else if user == envelope.sender() {
        !envelope.is_sender_exclusive()
    } else {
        match envelope.audience() {
            Audience::Unaddressed => false,
            Audience::Direct(target) => user == target,
            Audience::Friends => is_listed(friends, user),
        }
    }
}

/// Offers `envelope` to every recipient among the open sessions, `friends`
/// being the sender's friends, and counts who took it and who did not.
pub fn fan_out(
    registry: &mut Registry,
    envelope: &Envelope,
    origin: Option<SessionHandle>,
    friends: &Vec<UserId>,
) -> (counts: (usize, usize))
    ensures
        final(registry)@ == after_route(old(registry)@, envelope@, origin, friends@),
        counts.0 == tally(old(registry)@, envelope@, origin, friends@, Delivery::Accepted),
        counts.1 == tally(old(registry)@, envelope@, origin, friends@, Delivery::Dropped),
        old(registry)@.wf() ==> final(registry)@.wf(),
{
    let ghost before = registry@;
    let ghost e = envelope@;
    let mut accepted: usize = 0;
    let mut dropped: usize = 0;
    let n = registry.len();
    let mut i: usize = 0;
    assert(registry@.sessions =~= routed_upto(before, e, origin, friends@, 0).sessions);
    while i < n
        invariant
            i <= n,
            n == before.sessions.len(),
            e == envelope@,
            registry@ == routed_upto(before, e, origin, friends@, i as int),
            accepted == tally_upto(before, e, origin, friends@, Delivery::Accepted, i as int),
            dropped == tally_upto(before, e, origin, friends@, Delivery::Dropped, i as int),
            accepted + dropped <= i,
            before.wf() ==> registry@.wf(),
        decreases n - i,
    {
        let handle = registry.handle_at(i);
        let user = registry.user_at(i);
        let ghost here = registry@;
        assert(here.sessions[i as int] == before.sessions[i as int]);
        if receives(handle, user, envelope, origin, friends) {
            assert(is_recipient(before.sessions[i as int], e, origin, friends@));
            match registry.deliver_at(i, envelope.clone()) {
                Delivery::Accepted => {
                    accepted = accepted + 1;
                },
                Delivery::Dropped => {
                    dropped = dropped + 1;
                },
            }
        } else {
            assert(!is_recipient(before.sessions[i as int], e, origin, friends@));
        }
        assert(registry@.sessions =~= routed_upto(
            before,
            e,
            origin,
            friends@,
            i as int + 1,
        ).sessions);
        i = i + 1;
    }
    (accepted, dropped)
}

/// Routes `envelope`, which came in on the session `origin` (if on any).
/// `friends` is what the lookup of the sender's friends gave; it is read
/// only where the envelope is meant for them. Where it is and the lookup
/// failed, the envelope is given up and no session hears of it.
pub fn route(
    registry: &mut Registry,
    envelope: &Envelope,
    origin: Option<SessionHandle>,
    friends: &Result<Vec<UserId>, LookupError>,
) -> (outcome: RouteOutcome)
    ensures
        final(registry)@ == table_after(old(registry)@, envelope@, origin, *friends),
        outcome == outcome_of(old(registry)@, envelope@, origin, *friends),
        old(registry)@.wf() ==> final(registry)@.wf(),
{
    match friends {
        Ok(list) => {
            let counts = fan_out(registry, envelope, origin, list);
            RouteOutcome::Routed { accepted: counts.0, dropped: counts.1 }
        },
        Err(_) => {
            if envelope.needs_friends() {
                RouteOutcome::Unresolved
            } else {
                let nobody: Vec<UserId> = Vec::new();
                let counts = fan_out(registry, envelope, origin, &nobody);
                RouteOutcome::Routed { accepted: counts.0, dropped: counts.1 }
            }
        },
    }
}

/// Routing changes only what waits in outboxes: the sessions stay, each
/// with its handle, its owner and its instants; a session that is no
/// recipient stays as it was altogether, and a recipient's outbox is the
/// one that a delivery to it alone would leave.
pub proof fn lemma_route_touches_outboxes_only(
    r: RegistryView,
    e: EnvelopeView,
    origin: Option<SessionHandle>,
    friends: Seq<UserId>,
)
    ensures
        after_route(r, e, origin, friends).same_sessions(r),
        after_route(r, e, origin, friends).queue_capacity == r.queue_capacity,
        forall|i: int|
            #![trigger after_route(r, e, origin, friends).sessions[i]]
            0 <= i < r.sessions.len() ==> after_route(r, e, origin, friends).sessions[i]
                == session_after_route(r.sessions[i], e, origin, friends),
        r.wf() ==> after_route(r, e, origin, friends).wf(),
{
    let after = after_route(r, e, origin, friends);
    if r.wf() {
        assert forall|i: int| 0 <= i < after.sessions.len() implies (
        #[trigger] after.sessions[i]).outbox.bounded() && after.sessions[i].outbox.capacity
            == after.queue_capacity by {
            assert(r.sessions[i].outbox.bounded());
            lemma_delivery(r.sessions[i].outbox, e);
        }
        assert forall|i: int, j: int| 0 <= i < j < after.sessions.len() implies (
        #[trigger] after.sessions[i]).handle != (#[trigger] after.sessions[j]).handle by {
            assert(r.sessions[i].handle != r.sessions[j].handle);
        }
    }
}

/// Routing brings nobody online and takes nobody offline: every user keeps
/// their sessions.
pub proof fn lemma_route_keeps_presence(
    r: RegistryView,
    e: EnvelopeView,
    origin: Option<SessionHandle>,
    friends: Seq<UserId>,
    user: UserId,
)
    ensures
        after_route(r, e, origin, friends).sessions_of(user) == r.sessions_of(user),
        after_route(r, e, origin, friends).online(user) == r.online(user),
{
    lemma_route_touches_outboxes_only(r, e, origin, friends);
    lemma_same_sessions(after_route(r, e, origin, friends), r, user);
}

/// An envelope for the sender's friends is offered to every open session
/// of every friend, but for the session it came in on, and to no session
/// of anybody who is neither a friend nor the sender. A friend's session
/// that is not saturated then holds it as its newest envelope.
pub proof fn lemma_broadcast_reach(
    r: RegistryView,
    e: EnvelopeView,
    origin: Option<SessionHandle>,
    friends: Seq<UserId>,
    i: int,
)
    requires
        r.wf(),
        e.audience == Audience::Friends,
        0 <= i < r.sessions.len(),
        r.sessions[i].user != e.sender,
    ensures
        ({
            let before = r.sessions[i];
            let after = after_route(r, e, origin, friends).sessions[i];
            let offered = friends.contains(before.user) && origin != Some(before.handle);
            &&& offered ==> after.outbox == before.outbox.after_delivery(e)
            &&& offered && !before.outbox.saturated() ==> after.outbox.queue.len() > 0
                && after.outbox.queue.last() == e
            &&& !friends.contains(before.user) ==> after == before
        }),
{
    assert(r.sessions[i].outbox.bounded());
    lemma_delivery(r.sessions[i].outbox, e);
}

/// A recipient whose outbox is saturated loses the envelope and nothing
/// else; every other recipient fares as if it were the only one: one whose
/// outbox is not saturated holds the envelope as its newest.
pub proof fn lemma_backpressure_is_local(
    r: RegistryView,
    e: EnvelopeView,
    origin: Option<SessionHandle>,
    friends: Seq<UserId>,
    stalled: int,
    other: int,
)
    requires
        r.wf(),
        0 <= stalled < r.sessions.len(),
        0 <= other < r.sessions.len(),
        stalled != other,
        is_recipient(r.sessions[stalled], e, origin, friends),
        is_recipient(r.sessions[other], e, origin, friends),
        r.sessions[stalled].outbox.saturated(),
    ensures
        ({
            let after = after_route(r, e, origin, friends);
            &&& after.sessions[stalled].outbox.queue == r.sessions[stalled].outbox.queue
            &&& after.sessions[stalled].outbox.dropped == bump(r.sessions[stalled].outbox.dropped)
            &&& after.sessions[other].outbox == r.sessions[other].outbox.after_delivery(e)
            &&& !r.sessions[other].outbox.saturated() ==> after.sessions[other].outbox.queue.len()
                > 0 && after.sessions[other].outbox.queue.last() == e
        }),
{
    assert(r.sessions[stalled].outbox.bounded());
    assert(r.sessions[other].outbox.bounded());
    lemma_delivery(r.sessions[stalled].outbox, e);
    lemma_delivery(r.sessions[other].outbox, e);
}

/// Every recipient either takes the envelope or does not: the two counts
/// of a routing add up to the number of recipients.
pub proof fn lemma_tally_total(
    r: RegistryView,
    e: EnvelopeView,
    origin: Option<SessionHandle>,
    friends: Seq<UserId>,
    k: int,
)
    requires
        0 <= k <= r.sessions.len(),
    ensures
        tally_upto(r, e, origin, friends, Delivery::Accepted, k) + tally_upto(
            r,
            e,
            origin,
            friends,
            Delivery::Dropped,
            k,
        ) == recipients_upto(r, e, origin, friends, k),
        recipients_upto(r, e, origin, friends, k) <= k,
    decreases k,
{
    if k > 0 {
        lemma_tally_total(r, e, origin, friends, k - 1);
    }
}

} // verus!
