//! The input relay: a bounded queue of control events fed by the consumer and
//! drained once per duplex-loop iteration, each drained event becoming one
//! touch-injection handshake payload in enqueue order.

use vstd::prelude::*;

use crate::event::{payload_of, touch_payload, MouseEvent, TouchPayload};

verus! {

/// Bounded first-in-first-out queue of control events awaiting relay to the
/// device. Enqueueing never blocks: when the queue is full the event is
/// rejected and the queue is left untouched. Draining empties the queue and
/// yields one wire payload per queued event, oldest first.
pub struct InputRelay {
    events: Vec<MouseEvent>,
    capacity: usize,
}

impl View for InputRelay {
    type V = Seq<MouseEvent>;

    /// The queued events, oldest first.
    closed spec fn view(&self) -> Seq<MouseEvent> {
        self.events@
    }
}

impl InputRelay {
    /// The bound the relay was created with.
    pub closed spec fn cap(self) -> int {
        self.capacity as int
    }

    /// The queue never holds more events than its bound.
    pub closed spec fn wf(self) -> bool {
        self.events@.len() <= self.capacity
    }

    /// Creates an empty relay that accepts at most `capacity` queued events.
    pub fn new(capacity: usize) -> (r: InputRelay)
        ensures
            r@ == Seq::<MouseEvent>::empty(),
            r.cap() == capacity,
            r.wf(),
    {
        InputRelay { events: Vec::new(), capacity }
    }

    /// Number of events currently queued.
    pub fn len(&self) -> (n: usize)
        ensures
            n == self@.len(),
    {
        self.events.len()
    }

    /// Attempts to enqueue one control event without blocking. The event is
    /// appended exactly when the queue is below its bound; a full queue
    /// rejects the event and keeps the already-queued events untouched.
    pub fn try_enqueue(&mut self, e: MouseEvent) -> (accepted: bool)
        requires
            old(self).wf(),
        ensures
            final(self).wf(),
            final(self).cap() == old(self).cap(),
            accepted <==> old(self)@.len() < old(self).cap(),
            accepted ==> final(self)@ == old(self)@.push(e),
            !accepted ==> final(self)@ == old(self)@,
            final(self)@ == enqueue_spec(old(self)@, old(self).cap(), e),
    {
        if self.events.len() < self.capacity {
            self.events.push(e);
            true
        } else {
            false
        }
    }

    /// Pops every currently-queued event and returns the touch-injection
    /// payload of each, in enqueue order; the relay is left empty. The caller
    /// issues one handshake per returned payload.
    pub fn drain(&mut self) -> (out: Vec<TouchPayload>)
        requires
            old(self).wf(),
        ensures
            final(self).wf(),
            final(self).cap() == old(self).cap(),
            final(self)@ == Seq::<MouseEvent>::empty(),
            out@.len() == old(self)@.len(),
            forall|i: int| 0 <= i < out@.len() ==> out@[i] == payload_of(old(self)@[i]),
    {
        let mut out: Vec<TouchPayload> = Vec::new();
        let n: usize = self.events.len();
        let mut i: usize = 0;
        while i < n
            invariant
                i <= n,
                n == self.events@.len(),
                out@.len() == i,
                forall|j: int| 0 <= j < i ==> out@[j] == payload_of(self.events@[j]),
            decreases n - i,
        {
            out.push(touch_payload(self.events[i]));
            i = i + 1;
        }
        self.events.clear();
        out
    }
}

/// What one non-blocking enqueue attempt does to the queued sequence: appends
/// the event when below the bound, otherwise leaves the queue as it was.
pub open spec fn enqueue_spec(q: Seq<MouseEvent>, cap: int, e: MouseEvent) -> Seq<MouseEvent> {
    if q.len() < cap {
        q.push(e)
    } else {
        q
    }
}

/// The queued sequence after attempting to enqueue each of `es` in turn.
pub open spec fn enqueue_all(q: Seq<MouseEvent>, cap: int, es: Seq<MouseEvent>) -> Seq<MouseEvent>
    decreases es.len(),
{
    if es.len() == 0 {
        q
    } else {
        enqueue_all(enqueue_spec(q, cap, es[0]), cap, es.drop_first())
    }
}

/// How many of `es` a queue holding `qlen` events below bound `cap` accepts:
/// all of them, unless the remaining room runs out first.
pub open spec fn accepted_count(qlen: int, cap: int, es: Seq<MouseEvent>) -> int {
    if cap - qlen <= es.len() {
        cap - qlen
    } else {
        es.len() as int
    }
}

/// Enqueue attempts fill a queue in order: after attempting every event of
/// `es`, the queue holds what it held before followed by the longest prefix
/// of `es` that fits under the bound; events past that prefix are rejected
/// and nothing is reordered.
pub proof fn lemma_enqueue_all_keeps_prefix(q: Seq<MouseEvent>, cap: int, es: Seq<MouseEvent>)
    requires
        q.len() <= cap,
    ensures
        enqueue_all(q, cap, es) == q + es.take(accepted_count(q.len() as int, cap, es)),
        enqueue_all(q, cap, es).len() <= cap,
    decreases es.len(),
{
    let k = accepted_count(q.len() as int, cap, es);
    if es.len() == 0 {
        assert(enqueue_all(q, cap, es) =~= q + es.take(k));
    } else {
        if q.len() < cap {
            let q2 = q.push(es[0]);
            lemma_enqueue_all_keeps_prefix(q2, cap, es.drop_first());
            let k2 = accepted_count(q2.len() as int, cap, es.drop_first());
            assert(k2 == k - 1);
            assert(q2 + es.drop_first().take(k2) =~= q + es.take(k));
        } else {
            lemma_enqueue_all_keeps_prefix(q, cap, es.drop_first());
            assert(q + es.drop_first().take(0) =~= q + es.take(k));
        }
    }
}

/// Starting from an empty relay, attempting to enqueue N events and then
/// draining yields at most N payloads, and the payload at each position is
/// exactly the translation of the event enqueued at that position: first in,
/// first out, with nothing reordered or invented.
pub proof fn lemma_relay_is_fifo(cap: int, es: Seq<MouseEvent>)
    requires
        0 <= cap,
    ensures
        enqueue_all(Seq::<MouseEvent>::empty(), cap, es).len() <= es.len(),
        forall|i: int|
            0 <= i < enqueue_all(Seq::<MouseEvent>::empty(), cap, es).len() ==> enqueue_all(
                Seq::<MouseEvent>::empty(),
                cap,
                es,
            )[i] == es[i],
{
    let q0 = Seq::<MouseEvent>::empty();
    lemma_enqueue_all_keeps_prefix(q0, cap, es);
    let k = accepted_count(0, cap, es);
    assert(enqueue_all(q0, cap, es) =~= es.take(k));
}

} // verus!
