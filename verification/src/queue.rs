use vstd::prelude::*;
use crate::envelope::Envelope;

verus! {

/// What one bounded, best-effort enqueue leaves behind: the envelope is
/// appended while there is room; once the queue is full the newest envelope
/// is shed, never an older one, and the sender is never blocked.
pub open spec fn push_spec(q: Seq<Envelope>, cap: nat, e: Envelope) -> Seq<Envelope> {
    if q.len() < cap {
        q.push(e)
    } else {
        q
    }
}

/// What a whole sequence of bounded enqueues leaves behind.
pub open spec fn push_all_spec(q: Seq<Envelope>, cap: nat, msgs: Seq<Envelope>) -> Seq<Envelope>
    decreases msgs.len(),
{
    if msgs.len() == 0 {
        q
    } else {
        push_all_spec(push_spec(q, cap, msgs.first()), cap, msgs.drop_first())
    }
}

/// Law: a bounded queue sheds the newest messages and only those. Enqueueing
/// any burst into a queue that still has `cap - q.len()` free slots keeps the
/// queue as it was, extended by exactly the longest prefix of the burst that
/// fits; everything past that prefix (in particular the `cap + 1`-th message
/// sent to a full queue) is dropped.
pub proof fn lemma_bounded_queue_sheds_newest(q: Seq<Envelope>, cap: nat, msgs: Seq<Envelope>)
    requires
        q.len() <= cap,
    ensures
        push_all_spec(q, cap, msgs) == q + msgs.take(vstd::math::min(
            cap - q.len(),
            msgs.len() as int,
        )),
        push_all_spec(q, cap, msgs).len() == vstd::math::min((q.len() + msgs.len()) as int, cap as int),
    decreases msgs.len(),
{
    if msgs.len() == 0 {
        assert(push_all_spec(q, cap, msgs) =~= q + msgs.take(0));
    } else if q.len() < cap {
        lemma_bounded_queue_sheds_newest(q.push(msgs.first()), cap, msgs.drop_first());
        assert(q.push(msgs.first()) + msgs.drop_first().take(vstd::math::min(
            cap - q.len() - 1,
            msgs.len() - 1,
        )) =~= q + msgs.take(vstd::math::min(cap - q.len(), msgs.len() as int)));
    } else {
        lemma_bounded_queue_sheds_newest(q, cap, msgs.drop_first());
        assert(q + msgs.drop_first().take(0) =~= q + msgs.take(0));
    }
}

/// A bounded FIFO of envelopes waiting to be written to one connection's
/// transport. Fan-out to many recipients is one `push` per recipient; the
/// bound keeps a stalled consumer from growing memory without limit.
#[derive(Debug)]
pub struct OutboundQueue {
    items: Vec<Envelope>,
    capacity: usize,
}

impl OutboundQueue {
    /// The envelopes queued for delivery, oldest first.
    pub closed spec fn contents(self) -> Seq<Envelope> {
        self.items@
    }

    /// The fixed bound the queue was created with.
    pub closed spec fn cap(self) -> nat {
        self.capacity as nat
    }

    pub closed spec fn wf(self) -> bool {
        self.items@.len() <= self.capacity
    }

    pub fn new(capacity: usize) -> (q: OutboundQueue)
        ensures
            q.contents() == Seq::<Envelope>::empty(),
            q.cap() == capacity as nat,
            q.wf(),
    {
        OutboundQueue { items: Vec::new(), capacity }
    }

    /// Best-effort enqueue: appends while there is room, sheds the newest
    /// envelope once full, and never blocks the caller.
    pub fn push(&mut self, e: Envelope)
        requires
            old(self).wf(),
        ensures
            final(self).wf(),
            final(self).cap() == old(self).cap(),
            final(self).contents() == push_spec(old(self).contents(), old(self).cap(), e),
    {
        if self.items.len() < self.capacity {
            self.items.push(e);
        }
    }

    /// FIFO dequeue, used by the outbound pump: envelopes leave in the order
    /// they were accepted.
    pub fn pop(&mut self) -> (r: Option<Envelope>)
        requires
            old(self).wf(),
        ensures
            final(self).wf(),
            final(self).cap() == old(self).cap(),
            old(self).contents().len() == 0 ==> r is None && final(self).contents()
                == old(self).contents(),
            old(self).contents().len() > 0 ==> r == Some(old(self).contents().first())
                && final(self).contents() == old(self).contents().drop_first(),
    {
        if self.items.len() > 0 {
            let e = self.items.remove(0);
            proof {
                assert(self.items@ =~= old(self).items@.drop_first());
            }
            Some(e)
        } else {
            None
        }
    }

    pub fn len(&self) -> (n: usize)
        ensures
            n == self.contents().len(),
    {
        self.items.len()
    }
}

} // verus!
