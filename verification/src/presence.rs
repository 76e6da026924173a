//! The presence tracker: who is online, and the transitions between online
//! and offline.
//!
//! Presence is derived: a user is online exactly while the registry holds a
//! session of theirs. A transition fires when a registry change moves a
//! user's session count from none to one or from one to none. It is read
//! off the count after the change, so that every edge is announced once.

use vstd::prelude::*;
use crate::envelope::Audience;
use crate::envelope::Envelope;
use crate::envelope::EnvelopeKind;
use crate::envelope::EnvelopeView;
use crate::ident::SessionHandle;
use crate::ident::UserId;
use crate::registry::RegistryView;
use crate::registry::lemma_deregister_counts;
use crate::registry::lemma_idempotent;
use crate::registry::lemma_listed_handle;
use crate::registry::lemma_position;
use crate::registry::lemma_position_is_first;
use crate::registry::lemma_register_counts;

verus! {

/// Whether a user is there.
#[derive(Clone, Copy, PartialEq, Eq, Structural, Debug)]
pub enum Presence {
    /// No session of the user is open.
    Offline,
    /// At least one session of the user is open.
    Online,
}

/// A change of presence.
#[derive(Clone, Copy, PartialEq, Eq, Structural, Debug)]
pub enum Transition {
    /// From offline to online: the user's first session opened.
    CameOnline,
    /// From online to offline: the user's last session closed.
    WentOffline,
}

/// One change that the registry can undergo.
pub enum Event {
    /// A connection is registered for a user.
    Connect { user: UserId, handle: SessionHandle, now: u64 },
    /// A session is deregistered.
    Disconnect { handle: SessionHandle },
}

/// The presence of `user` in the table `r`.
pub open spec fn presence_of(r: RegistryView, user: UserId) -> Presence {
    if r.online(user) {
        Presence::Online
    } else {
        Presence::Offline
    }
}

/// The transition that leads from one presence to another, if they differ.
pub open spec fn edge(before: Presence, after: Presence) -> Option<Transition> {
    match (before, after) {
        (Presence::Offline, Presence::Online) => Some(Transition::CameOnline),
        (Presence::Online, Presence::Offline) => Some(Transition::WentOffline),
        _ => None,
    }
}

/// The presence to which a transition leads.
pub open spec fn target(t: Transition) -> Presence {
    match t {
        Transition::CameOnline => Presence::Online,
        Transition::WentOffline => Presence::Offline,
    }
}

/// The table after an event.
pub open spec fn step(r: RegistryView, event: Event) -> RegistryView {
    match event {
        Event::Connect { user, handle, now } => r.after_register(user, handle, now),
        Event::Disconnect { handle } => r.after_deregister(handle),
    }
}

/// The transition that the tracker announces on an event, and for whom. It
/// goes by whether the event changed the table and by the session count
/// after it.
pub open spec fn emitted(r: RegistryView, event: Event) -> Option<(UserId, Transition)> {
    match event {
        Event::Connect { user, handle, now } => {
            if !r.registered(handle) && step(r, event).session_count(user) == 1 {
                Some((user, Transition::CameOnline))
            } else {
                None
            }
        },
        Event::Disconnect { handle } => {
            let owner = r.session(handle).user;
            if r.registered(handle) && step(r, event).session_count(owner) == 0 {
                Some((owner, Transition::WentOffline))
            } else {
                None
            }
        },
    }
}

/// The transition of `user` that the tracker announces on an event.
pub open spec fn emitted_for(r: RegistryView, event: Event, user: UserId) -> Option<Transition> {
    match emitted(r, event) {
        Some((who, t)) => if who == user {
            Some(t)
        } else {
            None
        },
        None => None,
    }
}

/// The table after a run of events.
pub open spec fn run(r: RegistryView, events: Seq<Event>) -> RegistryView
    decreases events.len(),
{
    if events.len() == 0 {
        r
    } else {
        run(step(r, events[0]), events.drop_first())
    }
}

/// The transitions of `user` that the tracker announces over a run of
/// events, in their order.
pub open spec fn log_for(r: RegistryView, events: Seq<Event>, user: UserId) -> Seq<Transition>
    decreases events.len(),
{
    if events.len() == 0 {
        Seq::empty()
    } else {
        let rest = log_for(step(r, events[0]), events.drop_first(), user);
        match emitted_for(r, events[0], user) {
            Some(t) => seq![t] + rest,
            None => rest,
        }
    }
}

/// Where a user who starts at `from` stands after the transitions `log`,
/// if each of them is a real change: coming online while online, or going
/// offline while offline, is none.
pub open spec fn replay(from: Presence, log: Seq<Transition>) -> Option<Presence>
    decreases log.len(),
{
    if log.len() == 0 {
        Some(from)
    } else if target(log[0]) == from {
        None
    } else {
        replay(target(log[0]), log.drop_first())
    }
}

/// The events that close every session of `user`, oldest first.
pub open spec fn closing_all(r: RegistryView, user: UserId) -> Seq<Event> {
    r.sessions_of(user).map_values(|h: SessionHandle| Event::Disconnect { handle: h })
}

/// The payload of a presence announcement.
pub open spec fn presence_payload(t: Transition) -> Seq<char> {
    match t {
        Transition::CameOnline => "{\"state\":\"online\"}"@,
        Transition::WentOffline => "{\"state\":\"offline\"}"@,
    }
}

/// The envelope that announces a transition of `user` to their friends.
pub open spec fn announcement_of(user: UserId, t: Transition) -> EnvelopeView {
    EnvelopeView {
        kind: EnvelopeKind::Presence,
        sender: user,
        audience: Audience::Friends,
        sender_exclusive: false,
        payload: presence_payload(t),
    }
}

/// The transition to announce after a registration: `admitted` says
/// whether it added a session, `count_after` how many sessions the user has
/// now.
pub fn on_register(admitted: bool, count_after: usize) -> (t: Option<Transition>)
    ensures
        t == if admitted && count_after == 1 {
            Some(Transition::CameOnline)
        } else {
            None
        },
{
    if admitted && count_after == 1 {
        Some(Transition::CameOnline)
    } else {
        None
    }
}

/// The transition to announce after a deregistration: `removed` says
/// whether it took a session away, `count_after` how many sessions its
/// owner has now.
pub fn on_deregister(removed: bool, count_after: usize) -> (t: Option<Transition>)
    ensures
        t == if removed && count_after == 0 {
            Some(Transition::WentOffline)
        } else {
            None
        },
{
    if removed && count_after == 0 {
        Some(Transition::WentOffline)
    } else {
        None
    }
}

/// Builds the envelope that announces a transition of `user` to their
/// friends.
pub fn announcement(user: UserId, t: Transition) -> (envelope: Envelope)
    ensures
        envelope@ == announcement_of(user, t),
{
    let payload = match t {
        Transition::CameOnline => "{\"state\":\"online\"}".to_owned(),
        Transition::WentOffline => "{\"state\":\"offline\"}".to_owned(),
    };
    Envelope::new(EnvelopeKind::Presence, user, Audience::Friends, false, payload)
}

/// On every event and for every user, the tracker announces a transition
/// exactly if the event changes that user's presence, and it announces the
/// change that happened.
pub proof fn lemma_transition_is_edge(r: RegistryView, event: Event, user: UserId)
    ensures
        emitted_for(r, event, user) == edge(presence_of(r, user), presence_of(step(r, event), user)),
{
    match event {
        Event::Connect { user: who, handle, now } => {
            if !r.registered(handle) {
                lemma_register_counts(r, who, handle, now, user);
            }
        },
        Event::Disconnect { handle } => {
            if r.registered(handle) {
                lemma_deregister_counts(r, handle, user);
            }
        },
    }
}

/// Over any run of events, the transitions announced for a user are real
/// changes, each the opposite of the one before, and they lead from the
/// user's presence before the run to their presence after it.
pub proof fn lemma_log_is_edges(r: RegistryView, events: Seq<Event>, user: UserId)
    ensures
        replay(presence_of(r, user), log_for(r, events, user)) == Some(
            presence_of(run(r, events), user),
        ),
    decreases events.len(),
{
    if events.len() > 0 {
        let next = step(r, events[0]);
        lemma_transition_is_edge(r, events[0], user);
        lemma_log_is_edges(next, events.drop_first(), user);
        let rest = log_for(next, events.drop_first(), user);
        match emitted_for(r, events[0], user) {
            Some(t) => {
                let log = seq![t] + rest;
                assert(log[0] == t);
                assert(log.drop_first() =~= rest);
            },
            None => {},
        }
    }
}

/// The log of a run that ends with one more event is the log of the run,
/// and then what that event announces.
pub proof fn lemma_log_push(r: RegistryView, events: Seq<Event>, last: Event, user: UserId)
    ensures
        run(r, events.push(last)) == step(run(r, events), last),
        log_for(r, events.push(last), user) == log_for(r, events, user) + (match emitted_for(
            run(r, events),
            last,
            user,
        ) {
            Some(t) => seq![t],
            None => Seq::empty(),
        }),
    decreases events.len(),
{
    let all = events.push(last);
    let tail = match emitted_for(run(r, events), last, user) {
        Some(t) => seq![t],
        None => Seq::<Transition>::empty(),
    };
    if events.len() == 0 {
        assert(all.drop_first() =~= Seq::<Event>::empty());
        assert(all[0] == last);
        assert(log_for(step(r, last), all.drop_first(), user) =~= Seq::<Transition>::empty());
        assert(run(step(r, last), all.drop_first()) == step(r, last));
        assert(log_for(r, all, user) =~= log_for(r, events, user) + tail);
    } else {
        assert(all.drop_first() =~= events.drop_first().push(last));
        assert(all[0] == events[0]);
        lemma_log_push(step(r, events[0]), events.drop_first(), last, user);
        assert(log_for(r, all, user) =~= log_for(r, events, user) + tail);
    }
}

/// A run of disconnections brings nobody online, and announces for a user
/// one departure if it takes them offline and nothing otherwise.
pub proof fn lemma_closings_log(r: RegistryView, events: Seq<Event>, user: UserId)
    requires
        forall|i: int| 0 <= i < events.len() ==> (#[trigger] events[i]) is Disconnect,
    ensures
        !r.online(user) ==> !run(r, events).online(user),
        log_for(r, events, user) == if r.online(user) && !run(r, events).online(user) {
            seq![Transition::WentOffline]
        } else {
            Seq::empty()
        },
    decreases events.len(),
{
    if events.len() > 0 {
        let next = step(r, events[0]);
        assert(events[0] is Disconnect);
        lemma_transition_is_edge(r, events[0], user);
        assert forall|i: int| 0 <= i < events.drop_first().len() implies (
        #[trigger] events.drop_first()[i]) is Disconnect by {
            assert(events[i + 1] is Disconnect);
        }
        lemma_closings_log(next, events.drop_first(), user);
        let rest = log_for(next, events.drop_first(), user);
        match emitted_for(r, events[0], user) {
            Some(t) => {
                assert(seq![t] + rest =~= seq![t]);
            },
            None => {},
        }
    }
}

/// Closing every session of a user, oldest first, leaves them without a
/// session, keeps the table well formed and registers no handle.
pub proof fn lemma_closing_all(r: RegistryView, user: UserId)
    requires
        r.wf(),
    ensures
        !run(r, closing_all(r, user)).online(user),
        run(r, closing_all(r, user)).wf(),
        forall|h: SessionHandle| !r.registered(h) ==> !run(r, closing_all(r, user)).registered(h),
        forall|i: int|
            0 <= i < closing_all(r, user).len() ==> (#[trigger] closing_all(r, user)[i])
                is Disconnect,
    decreases r.sessions_of(user).len(),
{
    let handles = r.sessions_of(user);
    let events = closing_all(r, user);
    let n = r.sessions.len() as int;
    if handles.len() > 0 {
        let h0 = handles[0];
        lemma_listed_handle(r, user, n, 0);
        let i = choose|i: int|
            0 <= i < n && (#[trigger] r.sessions[i]).user == user && r.sessions[i].handle == h0
                && r.handles_upto(user, i).len() == 0;
        assert forall|j: int| 0 <= j < i implies (#[trigger] r.sessions[j]).handle != h0 by {}
        lemma_position(r, h0, 0, i);
        lemma_deregister_counts(r, h0, user);
        lemma_idempotent(r, user, user, h0, 0, 0);
        let next = r.after_deregister(h0);
        assert(events[0] == Event::Disconnect { handle: h0 });
        assert(step(r, events[0]) == next);
        assert(next.sessions_of(user) =~= handles.drop_first());
        assert(events.drop_first() =~= closing_all(next, user));
        lemma_closing_all(next, user);
        assert forall|h: SessionHandle| !r.registered(h) implies !run(r, events).registered(h) by {
            lemma_deregister_keeps_out(r, h0, h);
        }
    }
}

/// A deregistration registers nothing: a handle that named no session
/// before names none after.
pub proof fn lemma_deregister_keeps_out(r: RegistryView, gone: SessionHandle, h: SessionHandle)
    requires
        !r.registered(h),
    ensures
        !r.after_deregister(gone).registered(h),
{
    let after = r.after_deregister(gone);
    lemma_position_is_first(r, h, 0);
    lemma_position_is_first(r, gone, 0);
    if r.registered(gone) {
        let p = r.position(gone);
        assert forall|j: int| 0 <= j < after.sessions.len() implies (
        #[trigger] after.sessions[j]).handle != h by {
            if j < p {
                assert(after.sessions[j] == r.sessions[j]);
            } else {
                assert(after.sessions[j] == r.sessions[j + 1]);
            }
        }
        lemma_position(after, h, 0, after.sessions.len() as int);
    }
}

/// A user with open sessions closes them all and then opens a new one:
/// the tracker announces for that user one departure and then one arrival,
/// and nothing else.
pub proof fn lemma_close_all_and_reopen(
    r: RegistryView,
    user: UserId,
    handle: SessionHandle,
    now: u64,
)
    requires
        r.wf(),
        r.online(user),
        !r.registered(handle),
    ensures
        log_for(
            r,
            closing_all(r, user).push(Event::Connect { user, handle, now }),
            user,
        ) == seq![Transition::WentOffline, Transition::CameOnline],
        run(r, closing_all(r, user).push(Event::Connect { user, handle, now })).online(user),
{
    let closings = closing_all(r, user);
    let reopen = Event::Connect { user, handle, now };
    lemma_closing_all(r, user);
    lemma_closings_log(r, closings, user);
    lemma_log_push(r, closings, reopen, user);
    let closed = run(r, closings);
    lemma_transition_is_edge(closed, reopen, user);
    lemma_register_counts(closed, user, handle, now, user);
    assert(seq![Transition::WentOffline] + seq![Transition::CameOnline] =~= seq![
        Transition::WentOffline,
        Transition::CameOnline,
    ]);
}

} // verus!
