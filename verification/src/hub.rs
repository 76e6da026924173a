//! The hub: the registry, the tracker and the router behind one door.
//!
//! Every method is one atomic step on the hub's state. Whoever shares a hub
//! between connections keeps it behind one lock, takes the lock for one call
//! at a time, and does its waiting (for the wire, for the friend store)
//! between calls.

use vstd::prelude::*;
use crate::envelope::Envelope;
use crate::envelope::EnvelopeView;
use crate::envelope::Frame;
use crate::envelope::ProtocolError;
use crate::envelope::decode;
use crate::envelope::decoded_view;
use crate::envelope::json_object_text;
use crate::ident::SessionHandle;
use crate::ident::UserId;
use crate::outbox::bump;
use crate::presence::Event;
use crate::presence::announcement;
use crate::presence::announcement_of;
use crate::presence::emitted;
use crate::presence::on_deregister;
use crate::presence::on_register;
use crate::presence::step;
use crate::registry::Registry;
use crate::registry::RegistryView;
use crate::router::LookupError;
use crate::router::RouteOutcome;
use crate::router::outcome_of;
use crate::router::route;
use crate::router::table_after;
use crate::router::unresolved;

verus! {

/// What the hub holds: the table of sessions, and how many envelopes it
/// gave up because the sender's friends could not be looked up.
pub struct HubView {
    pub registry: RegistryView,
    pub unresolved: u64,
}

/// The hub.
#[derive(Debug)]
pub struct Hub {
    registry: Registry,
    unresolved: u64,
}

impl View for Hub {
    type V = HubView;

    closed spec fn view(&self) -> HubView {
        HubView { registry: self.registry@, unresolved: self.unresolved }
    }
}

/// What a connection attempt gave.
#[derive(Debug)]
pub struct Admission {
    /// The handle of the session.
    pub handle: SessionHandle,
    /// Whether the attempt added a session; not so if the connection was
    /// registered already.
    pub admitted: bool,
    /// The announcement to route, if the user came online by it.
    pub announcement: Option<Envelope>,
}

/// What an optional envelope holds.
pub open spec fn view_of(envelope: Option<Envelope>) -> Option<EnvelopeView> {
    match envelope {
        Some(e) => Some(e@),
        None => None,
    }
}

/// The announcement that the tracker owes on an event.
pub open spec fn announced(r: RegistryView, event: Event) -> Option<EnvelopeView> {
    match emitted(r, event) {
        Some((user, t)) => Some(announcement_of(user, t)),
        None => None,
    }
}

impl Hub {
    /// A hub without sessions, whose sessions will each get an outbox of
    /// `queue_capacity` envelopes.
    pub fn new(queue_capacity: usize) -> (hub: Hub)
        ensures
            hub@.registry == (RegistryView {
                sessions: Seq::empty(),
                queue_capacity: queue_capacity as nat,
            }),
            hub@.unresolved == 0,
            hub@.registry.wf(),
    {
        Hub { registry: Registry::new(queue_capacity), unresolved: 0 }
    }

    /// The table of sessions, to ask it who is online and what waits.
    pub fn registry(&self) -> (registry: &Registry)
        ensures
            registry@ == self@.registry,
    {
        &self.registry
    }

    /// How many envelopes the hub gave up because the sender's friends
    /// could not be looked up.
    pub fn unresolved_count(&self) -> (count: u64)
        ensures
            count == self@.unresolved,
    {
        self.unresolved
    }

    /// Admits the connection that the transport accepted under the number
    /// `connection` as a session of `user`. If the user came online by it,
    /// the admission carries the announcement for their friends.
    pub fn connect(&mut self, user: UserId, connection: u64, now: u64) -> (admission: Admission)
        ensures
            admission.handle == SessionHandle(connection),
            admission.admitted == !old(self)@.registry.registered(admission.handle),
            final(self)@.registry == step(
                old(self)@.registry,
                Event::Connect { user, handle: admission.handle, now },
            ),
            view_of(admission.announcement) == announced(
                old(self)@.registry,
                Event::Connect { user, handle: admission.handle, now },
            ),
            final(self)@.unresolved == old(self)@.unresolved,
            old(self)@.registry.wf() ==> final(self)@.registry.wf(),
    {
        let admitted = !self.registry.is_registered(SessionHandle(connection));
        let handle = self.registry.register(user, connection, now);
        let count_after = self.registry.session_count(user);
        let announcement = match on_register(admitted, count_after) {
            Some(t) => Some(announcement(user, t)),
            None => None,
        };
        Admission { handle, admitted, announcement }
    }

    /// Closes the session that `handle` names: after a read error, a write
    /// error, a protocol error or a request to close. If its owner went
    /// offline by it, the result is the announcement for their friends. A
    /// handle that names no session changes nothing.
    pub fn disconnect(&mut self, handle: SessionHandle) -> (announcement: Option<Envelope>)
        ensures
            final(self)@.registry == step(old(self)@.registry, Event::Disconnect { handle }),
            view_of(announcement) == announced(old(self)@.registry, Event::Disconnect { handle }),
            final(self)@.unresolved == old(self)@.unresolved,
            old(self)@.registry.wf() ==> final(self)@.registry.wf(),
    {
        let owner = match self.registry.owner_of(handle) {
            None => {
                let _ = self.registry.deregister(handle);
                return None;
            },
            Some(owner) => owner,
        };
        let removed = self.registry.deregister(handle);
        let count_after = self.registry.session_count(owner);
        match on_deregister(removed, count_after) {
            Some(t) => Some(announcement(owner, t)),
            None => None,
        }
    }

    /// Takes in a frame that arrived on the session that `handle` names, at
    /// the instant `now`: notes the activity and turns the frame into an
    /// envelope to route, or names the rule that it breaks.
    pub fn accept(&mut self, handle: SessionHandle, frame: Frame, now: u64) -> (r: Result<
        Envelope,
        ProtocolError,
    >)
        ensures
            final(self)@.registry == old(self)@.registry.after_touch(handle, now),
            final(self)@.unresolved == old(self)@.unresolved,
            !old(self)@.registry.registered(handle) ==> r == Err::<Envelope, ProtocolError>(
                ProtocolError::NoSession,
            ),
            old(self)@.registry.registered(handle) ==> decoded_view(r) == decode(
                frame@,
                old(self)@.registry.session(handle).user,
                json_object_text(frame.payload@),
            ),
            old(self)@.registry.wf() ==> final(self)@.registry.wf(),
    {
        let owner = match self.registry.owner_of(handle) {
            None => {
                let _ = self.registry.touch(handle, now);
                return Err(ProtocolError::NoSession);
            },
            Some(owner) => owner,
        };
        let _ = self.registry.touch(handle, now);
        Envelope::from_frame(frame, owner)
    }

    /// Routes `envelope`, which came in on the session `origin` (if on
    /// any). `friends` is what the lookup of the sender's friends gave; it
    /// is read only where the envelope is meant for them. Where it is and
    /// the lookup failed, the envelope is given up, the loss is counted and
    /// no session hears of it.
    pub fn route(
        &mut self,
        envelope: &Envelope,
        origin: Option<SessionHandle>,
        friends: &Result<Vec<UserId>, LookupError>,
    ) -> (outcome: RouteOutcome)
        ensures
            final(self)@.registry == table_after(old(self)@.registry, envelope@, origin, *friends),
            outcome == outcome_of(old(self)@.registry, envelope@, origin, *friends),
            final(self)@.unresolved == if unresolved(envelope@, *friends) {
                bump(old(self)@.unresolved)
            } else {
                old(self)@.unresolved
            },
            old(self)@.registry.wf() ==> final(self)@.registry.wf(),
    {
        let outcome = route(&mut self.registry, envelope, origin, friends);
        match outcome {
            RouteOutcome::Unresolved => {
                if self.unresolved < u64::MAX {
                    self.unresolved = self.unresolved + 1;
                }
            },
            RouteOutcome::Routed { .. } => {},
        }
        outcome
    }

    /// Takes the oldest envelope that waits on the session that `handle`
    /// names, for its connection to write. `None` if nothing waits or the
    /// handle names no session.
    pub fn next_outbound(&mut self, handle: SessionHandle) -> (next: Option<Envelope>)
        ensures
            match next {
                Some(e) => {
                    let waiting = old(self)@.registry.session(handle).outbox.queue;
                    &&& old(self)@.registry.registered(handle)
                    &&& waiting.len() > 0
                    &&& e@ == waiting[0]
                    &&& final(self)@.registry == old(self)@.registry.after_pop_at(
                        old(self)@.registry.position(handle),
                    )
                },
                None => {
                    let waiting = old(self)@.registry.session(handle).outbox.queue;
                    &&& final(self)@.registry == old(self)@.registry
                    &&& old(self)@.registry.registered(handle) ==> waiting.len() == 0
                },
            },
            final(self)@.unresolved == old(self)@.unresolved,
            old(self)@.registry.wf() ==> final(self)@.registry.wf(),
    {
        self.registry.next_outbound(handle)
    }
}

} // verus!
