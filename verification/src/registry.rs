//! The connection registry: the one table of open sessions.
//!
//! Every session stands in the table from the moment it is registered until
//! it is deregistered, and nowhere else. Whether a user is online is never
//! stored: it is read off the table.

use vstd::prelude::*;
use crate::envelope::Envelope;
use crate::envelope::EnvelopeView;
use crate::ident::SessionHandle;
use crate::ident::UserId;
use crate::outbox::Delivery;
use crate::outbox::Outbox;
use crate::outbox::OutboxView;

verus! {

/// What the table knows of one session.
pub struct SessionView {
    pub handle: SessionHandle,
    pub user: UserId,
    pub created_at: u64,
    pub last_activity: u64,
    pub outbox: OutboxView,
}

/// One open session: a live connection bound to one user.
#[derive(Debug)]
pub struct Session {
    handle: SessionHandle,
    user: UserId,
    created_at: u64,
    last_activity: u64,
    outbox: Outbox,
}

impl View for Session {
    type V = SessionView;

    closed spec fn view(&self) -> SessionView {
        SessionView {
            handle: self.handle,
            user: self.user,
            created_at: self.created_at,
            last_activity: self.last_activity,
            outbox: self.outbox@,
        }
    }
}

/// The later of two instants.
pub open spec fn later(a: u64, b: u64) -> u64 {
    if a >= b {
        a
    } else {
        b
    }
}

/// The table: the sessions in the order in which they were registered, and
/// the limit that the outbox of each new session gets.
pub struct RegistryView {
    pub sessions: Seq<SessionView>,
    pub queue_capacity: nat,
}

impl RegistryView {
    /// The place of the first session at or after `from` that `handle`
    /// names, or the number of sessions if there is none.
    pub open spec fn position_from(self, handle: SessionHandle, from: int) -> int
        decreases self.sessions.len() - from,
    {
        if from < 0 || from >= self.sessions.len() {
            self.sessions.len() as int
        } else if self.sessions[from].handle == handle {
            from
        } else {
            self.position_from(handle, from + 1)
        }
    }

    /// The place of the session that `handle` names, or the number of
    /// sessions if it names none.
    pub open spec fn position(self, handle: SessionHandle) -> int {
        self.position_from(handle, 0)
    }

    /// Whether `handle` names a session of the table.
    pub open spec fn registered(self, handle: SessionHandle) -> bool {
        self.position(handle) < self.sessions.len()
    }

    /// The session that `handle` names; it is read only of a handle that
    /// names one.
    pub open spec fn session(self, handle: SessionHandle) -> SessionView {
        self.sessions[self.position(handle)]
    }

    /// The handles of the sessions of `user` among the first `upto`
    /// sessions, oldest first.
    pub open spec fn handles_upto(self, user: UserId, upto: int) -> Seq<SessionHandle>
        decreases upto,
    {
        if upto <= 0 {
            Seq::empty()
        } else {
            let before = self.handles_upto(user, upto - 1);
            if self.sessions[upto - 1].user == user {
                before.push(self.sessions[upto - 1].handle)
            } else {
                before
            }
        }
    }

    /// The handles of the sessions of `user`, oldest first.
    pub open spec fn sessions_of(self, user: UserId) -> Seq<SessionHandle> {
        self.handles_upto(user, self.sessions.len() as int)
    }

    /// How many sessions `user` has open.
    pub open spec fn session_count(self, user: UserId) -> nat {
        self.sessions_of(user).len()
    }

    /// Whether `user` is online: whether at least one session is theirs.
    pub open spec fn online(self, user: UserId) -> bool {
        self.session_count(user) >= 1
    }

    /// The owner of each session, in the order of the sessions.
    pub open spec fn owners(self) -> Seq<UserId> {
        self.sessions.map_values(|s: SessionView| s.user)
    }

    /// The users who are online.
    pub open spec fn online_users(self) -> Set<UserId> {
        self.owners().to_set()
    }

    /// Whether two tables hold the same sessions of the same users in the
    /// same order, whatever waits in their outboxes.
    pub open spec fn same_sessions(self, other: RegistryView) -> bool {
        &&& self.sessions.len() == other.sessions.len()
        &&& forall|i: int|
            0 <= i < self.sessions.len() ==> (#[trigger] self.sessions[i]).handle
                == other.sessions[i].handle && self.sessions[i].user == other.sessions[i].user
    }

    /// The session that a registration at the instant `now` adds.
    pub open spec fn fresh_session(self, user: UserId, handle: SessionHandle, now: u64) -> SessionView {
        SessionView {
            handle,
            user,
            created_at: now,
            last_activity: now,
            outbox: OutboxView { capacity: self.queue_capacity, queue: Seq::empty(), dropped: 0 },
        }
    }

    /// The table after `handle` is registered for `user`: one session
    /// longer, or as it was if `handle` already names a session.
    pub open spec fn after_register(self, user: UserId, handle: SessionHandle, now: u64) -> RegistryView {
        if self.registered(handle) {
            self
        } else {
            RegistryView { sessions: self.sessions.push(self.fresh_session(user, handle, now)), ..self }
        }
    }

    /// The table after `handle` is deregistered: without the session that
    /// it names, or as it was if it names none.
    pub open spec fn after_deregister(self, handle: SessionHandle) -> RegistryView {
        if self.registered(handle) {
            RegistryView { sessions: self.sessions.remove(self.position(handle)), ..self }
        } else {
            self
        }
    }

    /// The table after the session that `handle` names was active at `now`.
    pub open spec fn after_touch(self, handle: SessionHandle, now: u64) -> RegistryView {
        if self.registered(handle) {
            let i = self.position(handle);
            let s = self.sessions[i];
            RegistryView {
                sessions: self.sessions.update(
                    i,
                    SessionView { last_activity: later(s.last_activity, now), ..s },
                ),
                ..self
            }
        } else {
            self
        }
    }

    /// The table after `e` is delivered to the session at place `i`.
    pub open spec fn after_delivery_at(self, i: int, e: EnvelopeView) -> RegistryView {
        let s = self.sessions[i];
        RegistryView {
            sessions: self.sessions.update(
                i,
                SessionView { outbox: s.outbox.after_delivery(e), ..s },
            ),
            ..self
        }
    }

    /// The table after the session at place `i` handed its oldest waiting
    /// envelope to its connection.
    pub open spec fn after_pop_at(self, i: int) -> RegistryView {
        let s = self.sessions[i];
        RegistryView {
            sessions: self.sessions.update(
                i,
                SessionView {
                    outbox: OutboxView { queue: s.outbox.queue.drop_first(), ..s.outbox },
                    ..s
                },
            ),
            ..self
        }
    }

    /// The table's invariant: no two sessions share a handle, and every
    /// outbox has the table's limit and keeps within it.
    pub open spec fn wf(self) -> bool {
        &&& forall|i: int, j: int|
            0 <= i < j < self.sessions.len() ==> (#[trigger] self.sessions[i]).handle != (
            #[trigger] self.sessions[j]).handle
        &&& forall|i: int|
            0 <= i < self.sessions.len() ==> (#[trigger] self.sessions[i]).outbox.bounded()
                && self.sessions[i].outbox.capacity == self.queue_capacity
    }
}

/// `position_from` finds the first session that `handle` names: if none in
/// `from..i` bears it and `i` is the end or bears it, the answer is `i`.
pub proof fn lemma_position(r: RegistryView, handle: SessionHandle, from: int, i: int)
    requires
        0 <= from <= i <= r.sessions.len(),
        forall|j: int| from <= j < i ==> (#[trigger] r.sessions[j]).handle != handle,
        i < r.sessions.len() ==> r.sessions[i].handle == handle,
    ensures
        r.position_from(handle, from) == i,
    decreases i - from,
{
    if from < i {
        assert(r.sessions[from].handle != handle);
        lemma_position(r, handle, from + 1, i);
    }
}

/// What `position_from` answers is in range, bears the handle unless it is
/// the end, and no session before it does.
pub proof fn lemma_position_is_first(r: RegistryView, handle: SessionHandle, from: int)
    requires
        0 <= from <= r.sessions.len(),
    ensures
        from <= r.position_from(handle, from) <= r.sessions.len(),
        r.position_from(handle, from) < r.sessions.len() ==> r.sessions[r.position_from(
            handle,
            from,
        )].handle == handle,
        forall|j: int|
            from <= j < r.position_from(handle, from) ==> (#[trigger] r.sessions[j]).handle
                != handle,
    decreases r.sessions.len() - from,
{
    if from < r.sessions.len() && r.sessions[from].handle != handle {
        lemma_position_is_first(r, handle, from + 1);
    }
}

/// Two tables whose first `k` sessions have the same handles and owners
/// list the same handles for every user among those `k`.
pub proof fn lemma_handles_of_prefix(a: RegistryView, b: RegistryView, user: UserId, k: int)
    requires
        0 <= k <= a.sessions.len(),
        k <= b.sessions.len(),
        forall|i: int|
            0 <= i < k ==> (#[trigger] a.sessions[i]).handle == b.sessions[i].handle
                && a.sessions[i].user == b.sessions[i].user,
    ensures
        a.handles_upto(user, k) == b.handles_upto(user, k),
    decreases k,
{
    if k > 0 {
        lemma_handles_of_prefix(a, b, user, k - 1);
        assert(a.sessions[k - 1].handle == b.sessions[k - 1].handle);
    }
}

/// What waits in the outboxes has no part in who is online: tables with the
/// same sessions list the same handles for every user.
pub proof fn lemma_same_sessions(a: RegistryView, b: RegistryView, user: UserId)
    requires
        a.same_sessions(b),
    ensures
        a.sessions_of(user) == b.sessions_of(user),
        a.online(user) == b.online(user),
        forall|h: SessionHandle| a.registered(h) == b.registered(h),
{
    lemma_handles_of_prefix(a, b, user, a.sessions.len() as int);
    assert forall|h: SessionHandle| a.registered(h) == b.registered(h) by {
        lemma_position_is_first(a, h, 0);
        lemma_position_is_first(b, h, 0);
        let pa = a.position(h);
        let pb = b.position(h);
        if pa < a.sessions.len() {
            assert(a.sessions[pa].handle == b.sessions[pa].handle);
            if pb > pa {
                assert(b.sessions[pa].handle != h);
            }
        }
        if pb < b.sessions.len() {
            assert(a.sessions[pb].handle == b.sessions[pb].handle);
            if pa > pb {
                assert(a.sessions[pb].handle != h);
            }
        }
    }
}

/// The handles listed for `user` among the first `k` sessions are as many
/// as `k` at most, and there is one exactly if one of those sessions is
/// theirs.
pub proof fn lemma_handles_upto(r: RegistryView, user: UserId, k: int)
    requires
        0 <= k <= r.sessions.len(),
    ensures
        r.handles_upto(user, k).len() <= k,
        r.handles_upto(user, k).len() > 0 <==> exists|i: int|
            0 <= i < k && (#[trigger] r.sessions[i]).user == user,
    decreases k,
{
    if k > 0 {
        lemma_handles_upto(r, user, k - 1);
        if r.sessions[k - 1].user == user {
        } else if r.handles_upto(user, k).len() > 0 {
            let i = choose|i: int| 0 <= i < k - 1 && (#[trigger] r.sessions[i]).user == user;
            assert(0 <= i < k && r.sessions[i].user == user);
        } else {
            assert forall|i: int| 0 <= i < k implies (#[trigger] r.sessions[i]).user != user by {
                if i < k - 1 {
                    assert(!(0 <= i < k - 1 && r.sessions[i].user == user));
                }
            }
        }
    }
}

/// A user is online exactly if a session of the table is theirs, and
/// exactly then they stand among the online users.
pub proof fn lemma_online(r: RegistryView, user: UserId)
    ensures
        r.online(user) <==> exists|i: int|
            0 <= i < r.sessions.len() && (#[trigger] r.sessions[i]).user == user,
        r.online(user) <==> r.online_users().contains(user),
        r.online_users().finite(),
{
    lemma_handles_upto(r, user, r.sessions.len() as int);
    vstd::seq_lib::seq_to_set_is_finite(r.owners());
    if r.online(user) {
        let i = choose|i: int| 0 <= i < r.sessions.len() && (#[trigger] r.sessions[i]).user == user;
        assert(r.owners()[i] == user);
        assert(r.owners().contains(user));
    }
    if r.online_users().contains(user) {
        let i = choose|i: int| 0 <= i < r.owners().len() && r.owners()[i] == user;
        assert(r.sessions[i].user == user);
    }
}

/// A session of a user among the first `k` has its handle in the list of
/// that user's handles among those `k`.
pub proof fn lemma_handle_listed(r: RegistryView, user: UserId, i: int, k: int)
    requires
        0 <= i < k <= r.sessions.len(),
        r.sessions[i].user == user,
    ensures
        r.handles_upto(user, k).contains(r.sessions[i].handle),
    decreases k,
{
    let list = r.handles_upto(user, k);
    if i == k - 1 {
        assert(list[list.len() - 1] == r.sessions[i].handle);
    } else {
        lemma_handle_listed(r, user, i, k - 1);
        let before = r.handles_upto(user, k - 1);
        let j = choose|j: int| 0 <= j < before.len() && before[j] == r.sessions[i].handle;
        assert(list[j] == r.sessions[i].handle);
    }
}

/// Each handle listed for a user among the first `k` sessions belongs to
/// one of those sessions, which is theirs, and stands in the list where
/// that session stands among theirs.
pub proof fn lemma_listed_handle(r: RegistryView, user: UserId, k: int, j: int)
    requires
        0 <= k <= r.sessions.len(),
        0 <= j < r.handles_upto(user, k).len(),
    ensures
        exists|i: int|
            0 <= i < k && (#[trigger] r.sessions[i]).user == user && r.sessions[i].handle
                == r.handles_upto(user, k)[j] && r.handles_upto(user, i).len() == j,
    decreases k,
{
    if k > 0 {
        let before = r.handles_upto(user, k - 1);
        if j < before.len() {
            lemma_listed_handle(r, user, k - 1, j);
            let i = choose|i: int|
                0 <= i < k - 1 && (#[trigger] r.sessions[i]).user == user && r.sessions[i].handle
                    == before[j] && r.handles_upto(user, i).len() == j;
            assert(0 <= i < k && r.sessions[i].user == user && r.sessions[i].handle
                == r.handles_upto(user, k)[j] && r.handles_upto(user, i).len() == j);
        } else {
            let i = k - 1;
            assert(0 <= i < k && r.sessions[i].user == user && r.sessions[i].handle
                == r.handles_upto(user, k)[j] && r.handles_upto(user, i).len() == j);
        }
    }
}

/// The handles listed for a user are those, and only those, that name a
/// session of theirs.
pub proof fn lemma_sessions_of(r: RegistryView, user: UserId, h: SessionHandle)
    requires
        r.wf(),
    ensures
        r.sessions_of(user).contains(h) <==> r.registered(h) && r.session(h).user == user,
{
    let n = r.sessions.len() as int;
    lemma_position_is_first(r, h, 0);
    if r.sessions_of(user).contains(h) {
        let list = r.sessions_of(user);
        let j = choose|j: int| 0 <= j < list.len() && list[j] == h;
        lemma_listed_handle(r, user, n, j);
        let i = choose|i: int|
            0 <= i < n && (#[trigger] r.sessions[i]).user == user && r.sessions[i].handle == h
                && r.handles_upto(user, i).len() == j;
        let p = r.position(h);
        if p < i {
            assert(r.sessions[p].handle != r.sessions[i].handle);
        }
    }
    if r.registered(h) && r.session(h).user == user {
        lemma_handle_listed(r, user, r.position(h), n);
    }
}

/// Registering a handle that names no session yet gives `user` one session
/// more, the newest, and leaves every other user's sessions as they were.
pub proof fn lemma_register_counts(
    r: RegistryView,
    user: UserId,
    handle: SessionHandle,
    now: u64,
    other: UserId,
)
    requires
        !r.registered(handle),
    ensures
        r.after_register(user, handle, now).sessions_of(user) == r.sessions_of(user).push(handle),
        other != user ==> r.after_register(user, handle, now).sessions_of(other) == r.sessions_of(
            other,
        ),
{
    let after = r.after_register(user, handle, now);
    let n = r.sessions.len() as int;
    lemma_handles_of_prefix(after, r, user, n);
    lemma_handles_of_prefix(after, r, other, n);
    assert(after.sessions[n] == r.fresh_session(user, handle, now));
    assert(after.handles_upto(user, n + 1) == after.handles_upto(user, n).push(handle));
    if other != user {
        assert(after.handles_upto(other, n + 1) == after.handles_upto(other, n));
    }
}

/// Without its session at place `p`, a table lists for the owner of that
/// session one handle fewer, and for every other user the same handles.
pub proof fn lemma_remove_counts(r: RegistryView, p: int, user: UserId, k: int)
    requires
        0 <= p < r.sessions.len(),
        0 <= k < r.sessions.len(),
    ensures
        ({
            let after = RegistryView { sessions: r.sessions.remove(p), ..r };
            if k <= p {
                after.handles_upto(user, k) == r.handles_upto(user, k)
            } else if r.sessions[p].user == user {
                after.handles_upto(user, k) == r.handles_upto(user, k + 1).remove(
                    r.handles_upto(user, p).len() as int,
                )
            } else {
                after.handles_upto(user, k) == r.handles_upto(user, k + 1)
            }
        }),
    decreases k,
{
    let after = RegistryView { sessions: r.sessions.remove(p), ..r };
    if k <= p {
        assert forall|i: int| 0 <= i < k implies (#[trigger] after.sessions[i]).handle
            == r.sessions[i].handle && after.sessions[i].user == r.sessions[i].user by {}
        lemma_handles_of_prefix(after, r, user, k);
    } else {
        lemma_remove_counts(r, p, user, k - 1);
        assert(after.sessions[k - 1] == r.sessions[k]);
        let at = r.handles_upto(user, p).len() as int;
        lemma_handles_upto(r, user, p);
        if r.sessions[p].user == user {
            if k - 1 == p {
                assert(r.handles_upto(user, p + 1) == r.handles_upto(user, p).push(
                    r.sessions[p].handle,
                ));
                assert(r.handles_upto(user, p + 1).remove(at) =~= r.handles_upto(user, p));
            } else {
                let longer = r.handles_upto(user, k);
                lemma_handles_grow(r, user, p + 1, k);
                assert(at < longer.len());
                if r.sessions[k].user == user {
                    assert(longer.push(r.sessions[k].handle).remove(at) =~= longer.remove(at).push(
                        r.sessions[k].handle,
                    ));
                }
            }
        } else {
            if k - 1 == p {
                assert(r.handles_upto(user, p + 1) == r.handles_upto(user, p));
            }
        }
    }
}

/// The list of a user's handles only grows along the table.
pub proof fn lemma_handles_grow(r: RegistryView, user: UserId, j: int, k: int)
    requires
        0 <= j <= k <= r.sessions.len(),
    ensures
        r.handles_upto(user, j).len() <= r.handles_upto(user, k).len(),
    decreases k - j,
{
    if j < k {
        lemma_handles_grow(r, user, j, k - 1);
    }
}

/// Deregistering a handle that names a session takes that one handle from
/// its owner's list and leaves every other user's sessions as they were.
pub proof fn lemma_deregister_counts(r: RegistryView, handle: SessionHandle, user: UserId)
    requires
        r.registered(handle),
    ensures
        ({
            let owner = r.session(handle).user;
            let after = r.after_deregister(handle);
            &&& user == owner ==> after.session_count(user) + 1 == r.session_count(user)
            &&& user == owner ==> after.sessions_of(user) == r.sessions_of(user).remove(
                r.handles_upto(user, r.position(handle)).len() as int,
            )
            &&& user != owner ==> after.sessions_of(user) == r.sessions_of(user)
        }),
{
    let p = r.position(handle);
    lemma_position_is_first(r, handle, 0);
    let n = r.sessions.len() as int;
    lemma_remove_counts(r, p, user, n - 1);
    if r.sessions[p].user == user {
        lemma_handles_grow(r, user, p + 1, n);
        lemma_handles_upto(r, user, p);
        r.sessions_of(user).remove_ensures(r.handles_upto(user, p).len() as int);
    }
}

/// Registering a connection twice is registering it once, and
/// deregistering a handle twice is deregistering it once; a handle that
/// names no session is deregistered without a trace.
pub proof fn lemma_idempotent(
    r: RegistryView,
    user: UserId,
    again: UserId,
    handle: SessionHandle,
    now: u64,
    later_on: u64,
)
    requires
        r.wf(),
    ensures
        r.after_register(user, handle, now).wf(),
        r.after_deregister(handle).wf(),
        r.after_register(user, handle, now).after_register(again, handle, later_on)
            == r.after_register(user, handle, now),
        r.after_deregister(handle).after_deregister(handle) == r.after_deregister(handle),
        !r.registered(handle) ==> r.after_deregister(handle) == r,
        !r.after_deregister(handle).registered(handle),
        r.after_register(user, handle, now).registered(handle),
{
    lemma_position_is_first(r, handle, 0);
    let reg = r.after_register(user, handle, now);
    if !r.registered(handle) {
        lemma_position(reg, handle, 0, r.sessions.len() as int);
    }
    let dereg = r.after_deregister(handle);
    if r.registered(handle) {
        let p = r.position(handle);
        assert forall|j: int| 0 <= j < dereg.sessions.len() implies (
        #[trigger] dereg.sessions[j]).handle != handle by {
            if j < p {
                assert(dereg.sessions[j] == r.sessions[j]);
            } else {
                assert(dereg.sessions[j] == r.sessions[j + 1]);
            }
        }
        lemma_position(dereg, handle, 0, dereg.sessions.len() as int);
    }
}

/// The connection registry.
#[derive(Debug)]
pub struct Registry {
    sessions: Vec<Session>,
    queue_capacity: usize,
}

impl View for Registry {
    type V = RegistryView;

    closed spec fn view(&self) -> RegistryView {
        RegistryView {
            sessions: self.sessions@.map_values(|s: Session| s@),
            queue_capacity: self.queue_capacity as nat,
        }
    }
}

impl Registry {
    /// An empty table whose sessions will each get an outbox of
    /// `queue_capacity` envelopes.
    pub fn new(queue_capacity: usize) -> (registry: Registry)
        ensures
            registry@ == (RegistryView {
                sessions: Seq::empty(),
                queue_capacity: queue_capacity as nat,
            }),
            registry@.wf(),
    {
        let registry = Registry { sessions: Vec::new(), queue_capacity };
        assert(registry@.sessions =~= Seq::empty());
        registry
    }

    /// How many sessions are open, of all users together.
    pub fn len(&self) -> (len: usize)
        ensures
            len == self@.sessions.len(),
    {
        self.sessions.len()
    }

    fn find(&self, handle: SessionHandle) -> (i: usize)
        ensures
            i == self@.position(handle),
            i <= self@.sessions.len(),
            i < self@.sessions.len() ==> self@.sessions[i as int].handle == handle,
    {
        let mut i: usize = 0;
        while i < self.sessions.len()
            invariant
                i <= self.sessions@.len(),
                forall|j: int| 0 <= j < i ==> (#[trigger] self@.sessions[j]).handle != handle,
            decreases self.sessions@.len() - i,
        {
            if self.sessions[i].handle == handle {
                proof {
                    lemma_position(self@, handle, 0, i as int);
                }
                return i;
            }
            i = i + 1;
        }
        proof {
            lemma_position(self@, handle, 0, i as int);
        }
        i
    }

    /// Whether `handle` names an open session.
    pub fn is_registered(&self, handle: SessionHandle) -> (registered: bool)
        ensures
            registered == self@.registered(handle),
    {
        self.find(handle) < self.sessions.len()
    }

    /// Admits the connection that the transport accepted under the number
    /// `connection` as a session of `user`, at the instant `now`. A
    /// connection that is registered already stays bound as it is, and the
    /// table stays as it is.
    pub fn register(&mut self, user: UserId, connection: u64, now: u64) -> (handle: SessionHandle)
        ensures
            handle == SessionHandle(connection),
            final(self)@ == old(self)@.after_register(user, handle, now),
            old(self)@.wf() ==> final(self)@.wf(),
    {
        let handle = SessionHandle(connection);
        let i = self.find(handle);
        if i < self.sessions.len() {
            return handle;
        }
        let session = Session {
            handle,
            user,
            created_at: now,
            last_activity: now,
            outbox: Outbox::new(self.queue_capacity),
        };
        self.sessions.push(session);
        proof {
            assert(self@.sessions =~= old(self)@.sessions.push(
                old(self)@.fresh_session(user, handle, now),
            ));
            if old(self)@.wf() {
                lemma_position_is_first(old(self)@, handle, 0);
            }
        }
        handle
    }

    /// Removes the session that `handle` names. A handle that names none,
    /// because the session is gone already or never was, changes nothing.
    pub fn deregister(&mut self, handle: SessionHandle) -> (removed: bool)
        ensures
            removed == old(self)@.registered(handle),
            final(self)@ == old(self)@.after_deregister(handle),
            old(self)@.wf() ==> final(self)@.wf(),
    {
        let i = self.find(handle);
        if i >= self.sessions.len() {
            return false;
        }
        let _ = self.sessions.remove(i);
        proof {
            assert(self@.sessions =~= old(self)@.sessions.remove(i as int));
        }
        true
    }

    /// The handles of the sessions that `user` has open right now, oldest
    /// first.
    pub fn sessions_of(&self, user: UserId) -> (handles: Vec<SessionHandle>)
        ensures
            handles@ == self@.sessions_of(user),
    {
        let mut handles: Vec<SessionHandle> = Vec::new();
        let mut i: usize = 0;
        while i < self.sessions.len()
            invariant
                i <= self.sessions@.len(),
                handles@ == self@.handles_upto(user, i as int),
            decreases self.sessions@.len() - i,
        {
            if self.sessions[i].user == user {
                handles.push(self.sessions[i].handle);
            }
            i = i + 1;
        }
        handles
    }

    /// How many sessions `user` has open.
    pub fn session_count(&self, user: UserId) -> (count: usize)
        ensures
            count == self@.session_count(user),
    {
        let mut count: usize = 0;
        let mut i: usize = 0;
        while i < self.sessions.len()
            invariant
                i <= self.sessions@.len(),
                count == self@.handles_upto(user, i as int).len(),
                count <= i,
            decreases self.sessions@.len() - i,
        {
            if self.sessions[i].user == user {
                count = count + 1;
            }
            i = i + 1;
        }
        count
    }

    /// Whether `user` has at least one session open.
    pub fn is_online(&self, user: UserId) -> (online: bool)
        ensures
            online == self@.online(user),
            online == (self@.session_count(user) >= 1),
    {
        self.session_count(user) >= 1
    }

    /// Notes that the session that `handle` names was active at the instant
    /// `now`. Its last activity never moves back.
    pub fn touch(&mut self, handle: SessionHandle, now: u64) -> (touched: bool)
        ensures
            touched == old(self)@.registered(handle),
            final(self)@ == old(self)@.after_touch(handle, now),
            old(self)@.wf() ==> final(self)@.wf(),
    {
        let i = self.find(handle);
        if i >= self.sessions.len() {
            return false;
        }
        if now > self.sessions[i].last_activity {
            self.sessions[i].last_activity = now;
        }
        proof {
            let s = old(self)@.sessions[i as int];
            assert(self@.sessions =~= old(self)@.sessions.update(
                i as int,
                SessionView { last_activity: later(s.last_activity, now), ..s },
            ));
        }
        true
    }

    /// The handle of the session at place `i`.
    pub(crate) fn handle_at(&self, i: usize) -> (handle: SessionHandle)
        requires
            i < self@.sessions.len(),
        ensures
            handle == self@.sessions[i as int].handle,
    {
        self.sessions[i].handle
    }

    /// The owner of the session at place `i`.
    pub(crate) fn user_at(&self, i: usize) -> (user: UserId)
        requires
            i < self@.sessions.len(),
        ensures
            user == self@.sessions[i as int].user,
    {
        self.sessions[i].user
    }

    /// Delivers to the session at place `i`.
    pub(crate) fn deliver_at(&mut self, i: usize, envelope: Envelope) -> (delivery: Delivery)
        requires
            i < old(self)@.sessions.len(),
        ensures
            final(self)@ == old(self)@.after_delivery_at(i as int, envelope@),
            delivery == old(self)@.sessions[i as int].outbox.verdict(),
            old(self)@.wf() ==> final(self)@.wf(),
    {
        let delivery = self.sessions[i].outbox.deliver(envelope);
        proof {
            let s = old(self)@.sessions[i as int];
            assert(self@.sessions =~= old(self)@.sessions.update(
                i as int,
                SessionView { outbox: s.outbox.after_delivery(envelope@), ..s },
            ));
            if old(self)@.wf() {
                crate::outbox::lemma_delivery(s.outbox, envelope@);
            }
        }
        delivery
    }

    /// Enqueues `envelope` on the session that `handle` names, without
    /// waiting. `None` if the handle names no session.
    pub fn deliver(&mut self, handle: SessionHandle, envelope: Envelope) -> (delivery: Option<
        Delivery,
    >)
        ensures
            old(self)@.registered(handle) ==> delivery == Some(
                old(self)@.session(handle).outbox.verdict(),
            ) && final(self)@ == old(self)@.after_delivery_at(
                old(self)@.position(handle),
                envelope@,
            ),
            !old(self)@.registered(handle) ==> delivery is None && final(self)@ == old(self)@,
            old(self)@.wf() ==> final(self)@.wf(),
    {
        let i = self.find(handle);
        if i >= self.sessions.len() {
            return None;
        }
        Some(self.deliver_at(i, envelope))
    }

    /// Takes the oldest envelope that waits on the session that `handle`
    /// names, for its connection to write. `None` if nothing waits or the
    /// handle names no session.
    pub fn next_outbound(&mut self, handle: SessionHandle) -> (next: Option<Envelope>)
        ensures
            match next {
                Some(e) => {
                    let waiting = old(self)@.session(handle).outbox.queue;
                    &&& old(self)@.registered(handle)
                    &&& waiting.len() > 0
                    &&& e@ == waiting[0]
                    &&& final(self)@ == old(self)@.after_pop_at(old(self)@.position(handle))
                },
                None => {
                    let waiting = old(self)@.session(handle).outbox.queue;
                    &&& final(self)@ == old(self)@
                    &&& old(self)@.registered(handle) ==> waiting.len() == 0
                },
            },
            old(self)@.wf() ==> final(self)@.wf(),
    {
        let i = self.find(handle);
        if i >= self.sessions.len() {
            return None;
        }
        let next = self.sessions[i].outbox.pop();
        proof {
            let s = old(self)@.sessions[i as int];
            if next is Some {
                assert(self@.sessions =~= old(self)@.sessions.update(
                    i as int,
                    SessionView {
                        outbox: OutboxView { queue: s.outbox.queue.drop_first(), ..s.outbox },
                        ..s
                    },
                ));
            } else {
                assert(self@.sessions =~= old(self)@.sessions);
            }
        }
        next
    }

    /// How many envelopes the session that `handle` names has lost.
    pub fn dropped_count(&self, handle: SessionHandle) -> (dropped: Option<u64>)
        ensures
            dropped == if self@.registered(handle) {
                Some(self@.session(handle).outbox.dropped)
            } else {
                None
            },
    {
        let i = self.find(handle);
        if i < self.sessions.len() {
            Some(self.sessions[i].outbox.dropped_count())
        } else {
            None
        }
    }

    /// When the session that `handle` names was registered.
    pub fn created_at(&self, handle: SessionHandle) -> (at: Option<u64>)
        ensures
            at == if self@.registered(handle) {
                Some(self@.session(handle).created_at)
            } else {
                None
            },
    {
        let i = self.find(handle);
        if i < self.sessions.len() {
            Some(self.sessions[i].created_at)
        } else {
            None
        }
    }

    /// When the session that `handle` names was last active.
    pub fn last_activity(&self, handle: SessionHandle) -> (at: Option<u64>)
        ensures
            at == if self@.registered(handle) {
                Some(self@.session(handle).last_activity)
            } else {
                None
            },
    {
        let i = self.find(handle);
        if i < self.sessions.len() {
            Some(self.sessions[i].last_activity)
        } else {
            None
        }
    }

    /// How many envelopes wait on the session that `handle` names.
    pub fn queued(&self, handle: SessionHandle) -> (queued: Option<usize>)
        ensures
            queued == if self@.registered(handle) {
                Some(self@.session(handle).outbox.queue.len() as usize)
            } else {
                None
            },
    {
        let i = self.find(handle);
        if i < self.sessions.len() {
            Some(self.sessions[i].outbox.len())
        } else {
            None
        }
    }

    /// How many users are online.
    pub fn online_count(&self) -> (count: usize)
        ensures
            count == self@.online_users().len(),
    {
        let ghost owners = self@.owners();
        let mut count: usize = 0;
        let mut i: usize = 0;
        assert(owners.take(0) =~= Seq::empty());
        assert(owners.take(0).to_set() =~= Set::empty());
        while i < self.sessions.len()
            invariant
                i <= self.sessions@.len(),
                owners == self@.owners(),
                count == owners.take(i as int).to_set().len(),
                count <= i,
            decreases self.sessions@.len() - i,
        {
            let user = self.sessions[i].user;
            let mut seen = false;
            let mut j: usize = 0;
            while j < i
                invariant
                    j <= i,
                    i < self.sessions@.len(),
                    owners == self@.owners(),
                    user == owners[i as int],
                    seen == exists|k: int| 0 <= k < j && owners[k] == user,
                decreases i - j,
            {
                if self.sessions[j].user == user {
                    seen = true;
                    assert(owners[j as int] == user);
                }
                j = j + 1;
            }
            proof {
                let before = owners.take(i as int);
                assert(owners.take(i as int + 1) =~= before.push(user));
                before.lemma_push_to_set_commute(user);
                vstd::seq_lib::seq_to_set_is_finite(before);
                vstd::set::axiom_set_insert_len(before.to_set(), user);
                if seen {
                    let k = choose|k: int| 0 <= k < i && owners[k] == user;
                    assert(before[k] == user);
                    assert(before.contains(user));
                } else if before.to_set().contains(user) {
                    let k = choose|k: int| 0 <= k < before.len() && before[k] == user;
                    assert(owners[k] == user);
                }
            }
            if !seen {
                count = count + 1;
            }
            i = i + 1;
        }
        assert(owners.take(i as int) =~= owners);
        count
    }

    /// The user to whom the session that `handle` names belongs.
    pub fn owner_of(&self, handle: SessionHandle) -> (owner: Option<UserId>)
        ensures
            owner == if self@.registered(handle) {
                Some(self@.session(handle).user)
            } else {
                None
            },
    {
        let i = self.find(handle);
        if i < self.sessions.len() {
            Some(self.sessions[i].user)
        } else {
            None
        }
    }
}

} // verus!
