//! The bounded outbound queue of one session.
//!
//! Delivery only enqueues and never waits. A full queue makes room by giving
//! up its oldest envelope that is not critical; a full queue of critical
//! envelopes refuses the newcomer. Either way one envelope is lost and
//! counted.

use vstd::prelude::*;
use crate::envelope::Envelope;
use crate::envelope::EnvelopeView;

verus! {

/// What became of one delivery.
#[derive(Clone, Copy, PartialEq, Eq, Structural, Debug)]
pub enum Delivery {
    /// The envelope stands in the queue.
    Accepted,
    /// The envelope was given up.
    Dropped,
}

/// What an outbox holds: its limit, the waiting envelopes from oldest to
/// newest, and how many envelopes it has lost.
pub struct OutboxView {
    pub capacity: nat,
    pub queue: Seq<EnvelopeView>,
    pub dropped: u64,
}

/// A loss counter one step on; it stays at its largest value once there.
pub open spec fn bump(n: u64) -> u64 {
    if n < u64::MAX {
        (n + 1) as u64
    } else {
        n
    }
}

/// The place of the oldest envelope at or after `from` that is not
/// critical, or the queue's length if there is none.
pub open spec fn first_expendable(queue: Seq<EnvelopeView>, from: int) -> int
    decreases queue.len() - from,
{
    if from < 0 || from >= queue.len() {
        queue.len() as int
    } else if !queue[from].kind.critical() {
        from
    } else {
        first_expendable(queue, from + 1)
    }
}

impl OutboxView {
    /// Full, and everything in it critical: nothing can make room.
    pub open spec fn saturated(self) -> bool {
        &&& self.queue.len() >= self.capacity
        &&& forall|i: int| 0 <= i < self.queue.len() ==> (#[trigger] self.queue[i]).kind.critical()
    }

    /// What the next delivery answers, whatever is delivered.
    pub open spec fn verdict(self) -> Delivery {
        if self.queue.len() < self.capacity || first_expendable(self.queue, 0) < self.queue.len() {
            Delivery::Accepted
        } else {
            Delivery::Dropped
        }
    }

    /// The outbox after a delivery of `e`.
    pub open spec fn after_delivery(self, e: EnvelopeView) -> OutboxView {
        if self.queue.len() < self.capacity {
            OutboxView { queue: self.queue.push(e), ..self }
        } else {
            let i = first_expendable(self.queue, 0);
            if i < self.queue.len() {
                OutboxView { queue: self.queue.remove(i).push(e), dropped: bump(self.dropped), ..self }
            } else {
                OutboxView { dropped: bump(self.dropped), ..self }
            }
        }
    }

    /// The queue never holds more than its limit.
    pub open spec fn bounded(self) -> bool {
        self.queue.len() <= self.capacity
    }
}

/// `first_expendable` finds the first envelope that is not critical: if
/// everything in `from..i` is critical and `i` is the end or not critical,
/// the answer is `i`.
pub proof fn lemma_first_expendable(queue: Seq<EnvelopeView>, from: int, i: int)
    requires
        0 <= from <= i <= queue.len(),
        forall|j: int| from <= j < i ==> (#[trigger] queue[j]).kind.critical(),
        i < queue.len() ==> !queue[i].kind.critical(),
    ensures
        first_expendable(queue, from) == i,
    decreases i - from,
{
    if from < i {
        assert(queue[from].kind.critical());
        lemma_first_expendable(queue, from + 1, i);
    }
}

/// What `first_expendable` answers is in range, is not critical unless it
/// is the end, and has only critical envelopes before it.
pub proof fn lemma_first_expendable_is_first(queue: Seq<EnvelopeView>, from: int)
    requires
        0 <= from <= queue.len(),
    ensures
        from <= first_expendable(queue, from) <= queue.len(),
        first_expendable(queue, from) < queue.len() ==> !queue[first_expendable(
            queue,
            from,
        )].kind.critical(),
        forall|j: int|
            from <= j < first_expendable(queue, from) ==> (#[trigger] queue[j]).kind.critical(),
    decreases queue.len() - from,
{
    if from < queue.len() && queue[from].kind.critical() {
        lemma_first_expendable_is_first(queue, from + 1);
    }
}

/// A delivery is dropped exactly when the outbox is saturated, and then the
/// queue stays as it was; an accepted envelope is the newest in the queue.
/// The queue stays within its limit, and the limit stays.
pub proof fn lemma_delivery(o: OutboxView, e: EnvelopeView)
    requires
        o.bounded(),
    ensures
        o.verdict() == Delivery::Dropped <==> o.saturated(),
        o.saturated() ==> o.after_delivery(e).queue == o.queue,
        o.verdict() == Delivery::Accepted ==> o.after_delivery(e).queue.len() > 0
            && o.after_delivery(e).queue.last() == e,
        o.after_delivery(e).bounded(),
        o.after_delivery(e).capacity == o.capacity,
        o.queue.len() < o.capacity ==> o.after_delivery(e).dropped == o.dropped,
        o.queue.len() >= o.capacity ==> o.after_delivery(e).dropped == bump(o.dropped),
{
    lemma_first_expendable_is_first(o.queue, 0);
    let i = first_expendable(o.queue, 0);
    if o.queue.len() >= o.capacity && i < o.queue.len() {
        o.queue.remove_ensures(i);
    }
}

/// Envelopes leave in the order in which they came: while there is room,
/// two deliveries stand at the end of the queue, the first before the
/// second, behind everything that waited already.
pub proof fn lemma_enqueue_order(o: OutboxView, first: EnvelopeView, second: EnvelopeView)
    requires
        o.queue.len() + 2 <= o.capacity,
    ensures
        o.after_delivery(first).after_delivery(second).queue == o.queue.push(first).push(second),
        o.after_delivery(first).after_delivery(second).dropped == o.dropped,
{
}

/// The bounded outbound queue of one session.
#[derive(Debug)]
pub struct Outbox {
    capacity: usize,
    queue: Vec<Envelope>,
    dropped: u64,
}

impl View for Outbox {
    type V = OutboxView;

    closed spec fn view(&self) -> OutboxView {
        OutboxView {
            capacity: self.capacity as nat,
            queue: self.queue@.map_values(|e: Envelope| e@),
            dropped: self.dropped,
        }
    }
}

impl Outbox {
    /// An empty outbox that holds at most `capacity` envelopes.
    pub fn new(capacity: usize) -> (outbox: Outbox)
        ensures
            outbox@ == (OutboxView { capacity: capacity as nat, queue: Seq::empty(), dropped: 0 }),
            outbox@.bounded(),
    {
        let outbox = Outbox { capacity, queue: Vec::new(), dropped: 0 };
        assert(outbox@.queue =~= Seq::empty());
        outbox
    }

    /// The most envelopes that can wait.
    pub fn capacity(&self) -> (capacity: usize)
        ensures
            capacity == self@.capacity,
    {
        self.capacity
    }

    /// How many envelopes wait.
    pub fn len(&self) -> (len: usize)
        ensures
            len == self@.queue.len(),
    {
        self.queue.len()
    }

    /// Whether no envelope waits.
    pub fn is_empty(&self) -> (empty: bool)
        ensures
            empty == (self@.queue.len() == 0),
    {
        self.queue.len() == 0
    }

    /// How many envelopes this outbox has lost.
    pub fn dropped_count(&self) -> (dropped: u64)
        ensures
            dropped == self@.dropped,
    {
        self.dropped
    }

    /// Whether the next delivery will be dropped.
    pub fn is_saturated(&self) -> (saturated: bool)
        ensures
            saturated == self@.saturated(),
    {
        proof {
            lemma_first_expendable_is_first(self@.queue, 0);
        }
        if self.queue.len() < self.capacity {
            return false;
        }
        let i = self.find_expendable();
        i >= self.queue.len()
    }

    fn find_expendable(&self) -> (i: usize)
        ensures
            i == first_expendable(self@.queue, 0),
            i <= self.queue@.len(),
    {
        let mut i: usize = 0;
        while i < self.queue.len()
            invariant
                i <= self.queue@.len(),
                forall|j: int| 0 <= j < i ==> (#[trigger] self@.queue[j]).kind.critical(),
            decreases self.queue@.len() - i,
        {
            if !self.queue[i].is_critical() {
                proof {
                    lemma_first_expendable(self@.queue, 0, i as int);
                }
                return i;
            }
            i = i + 1;
        }
        proof {
            lemma_first_expendable(self@.queue, 0, i as int);
        }
        i
    }

    /// Enqueues `envelope` without waiting. A full queue gives up its oldest
    /// envelope that is not critical; if it has none, it gives up
    /// `envelope`. Each loss is counted.
    pub fn deliver(&mut self, envelope: Envelope) -> (delivery: Delivery)
        ensures
            final(self)@ == old(self)@.after_delivery(envelope@),
            delivery == old(self)@.verdict(),
            old(self)@.bounded() ==> final(self)@.bounded(),
    {
        proof {
            if self@.bounded() {
                lemma_delivery(self@, envelope@);
            }
        }
        if self.queue.len() < self.capacity {
            self.queue.push(envelope);
            assert(self@.queue =~= old(self)@.queue.push(envelope@));
            return Delivery::Accepted;
        }
        let i = self.find_expendable();
        if self.dropped < u64::MAX {
            self.dropped = self.dropped + 1;
        }
        if i < self.queue.len() {
            let _ = self.queue.remove(i);
            self.queue.push(envelope);
            assert(self@.queue =~= old(self)@.queue.remove(i as int).push(envelope@));
            Delivery::Accepted
        } else {
            assert(self@.queue =~= old(self)@.queue);
            Delivery::Dropped
        }
    }

    /// Takes the oldest waiting envelope, if there is one.
    pub fn pop(&mut self) -> (next: Option<Envelope>)
        ensures
            match next {
                Some(e) => old(self)@.queue.len() > 0 && e@ == old(self)@.queue[0] && final(self)@
                    == (OutboxView { queue: old(self)@.queue.drop_first(), ..old(self)@ }),
                None => old(self)@.queue.len() == 0 && final(self)@ == old(self)@,
            },
            old(self)@.bounded() ==> final(self)@.bounded(),
    {
        if self.queue.len() == 0 {
            return None;
        }
        let e = self.queue.remove(0);
        assert(self@.queue =~= old(self)@.queue.drop_first());
        Some(e)
    }
}

} // verus!
