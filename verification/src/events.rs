//! The notification log of the newer flow: a bounded ring of timestamps.
//!
//! The ring itself is circular_queue's `CircularQueue`, used through
//! contracts that state what its source shows: a push appends the newest
//! item and, at capacity, drops the oldest.  `queue_items` names what the
//! queue holds, oldest first.

use vstd::prelude::*;

verus! {

#[verifier::external_type_specification]
#[verifier::external_body]
#[verifier::reject_recursive_types(T)]
pub struct ExCircularQueue<T>(circular_queue::CircularQueue<T>);

/// What a timestamp queue holds, oldest first.
pub uninterp spec fn queue_items(q: circular_queue::CircularQueue<i64>) -> Seq<i64>;

/// The capacity a timestamp queue was created with.
pub uninterp spec fn queue_capacity(q: circular_queue::CircularQueue<i64>) -> nat;

/// Relies on circular_queue's `with_capacity`: a fresh queue is empty and
/// keeps the requested capacity.
#[verifier::external_body]
fn cq_with_capacity(capacity: usize) -> (q: circular_queue::CircularQueue<i64>)
    ensures
        queue_items(q) == Seq::<i64>::empty(),
        queue_capacity(q) == capacity,
{
    circular_queue::CircularQueue::with_capacity(capacity)
}

/// Relies on circular_queue's `push`: the item goes in newest; at
/// capacity the oldest item leaves; a zero-capacity queue stays empty.
#[verifier::external_body]
fn cq_push(q: &mut circular_queue::CircularQueue<i64>, x: i64)
    ensures
        queue_capacity(*final(q)) == queue_capacity(*old(q)),
        queue_items(*final(q)) == (if queue_capacity(*old(q)) == 0 {
            queue_items(*old(q))
        } else if queue_items(*old(q)).len() < queue_capacity(*old(q)) {
            queue_items(*old(q)).push(x)
        } else {
            queue_items(*old(q)).subrange(1, queue_items(*old(q)).len() as int).push(x)
        }),
{
    q.push(x);
}

/// Relies on circular_queue's `asc_iter`: the items, oldest first.
#[verifier::external_body]
fn cq_items(q: &circular_queue::CircularQueue<i64>) -> (v: Vec<i64>)
    ensures
        v@ == queue_items(*q),
{
    q.asc_iter().cloned().collect()
}

/// How many entries of `s` are strictly after `since`.
pub open spec fn spec_count_after(s: Seq<i64>, since: int) -> int
    decreases s.len(),
{
    if s.len() == 0 {
        0
    } else {
        spec_count_after(s.drop_last(), since) + if s.last() > since {
            1int
        } else {
            0int
        }
    }
}

/// Every entry strictly after the horizon counts.
pub proof fn lemma_count_after_all(s: Seq<i64>, since: int)
    requires
        forall|i: int| 0 <= i < s.len() ==> s[i] > since,
    ensures
        spec_count_after(s, since) == s.len(),
    decreases s.len(),
{
    if s.len() > 0 {
        lemma_count_after_all(s.drop_last(), since);
    }
}

/// No entry at or before the horizon counts.
pub proof fn lemma_count_after_none(s: Seq<i64>, since: int)
    requires
        forall|i: int| 0 <= i < s.len() ==> s[i] <= since,
    ensures
        spec_count_after(s, since) == 0,
    decreases s.len(),
{
    if s.len() > 0 {
        lemma_count_after_none(s.drop_last(), since);
    }
}

/// When at most the last entry lies after the horizon, at most one
/// counts.
pub proof fn lemma_count_after_at_most_one(s: Seq<i64>, since: int)
    requires
        forall|i: int| 0 <= i < s.len() - 1 ==> s[i] <= since,
    ensures
        spec_count_after(s, since) <= 1,
{
    if s.len() > 0 {
        lemma_count_after_none(s.drop_last(), since);
    }
}

/// The bounded notification log: the timestamps of the most recent
/// `limit + 1` notifications, oldest first.
pub struct Events {
    events: circular_queue::CircularQueue<i64>,
}

impl Events {
    /// The recorded timestamps, oldest first.
    pub closed spec fn items(&self) -> Seq<i64> {
        queue_items(self.events)
    }

    /// The ring's capacity.
    pub closed spec fn capacity(&self) -> nat {
        queue_capacity(self.events)
    }

    /// The ring never holds more than its capacity.
    pub closed spec fn wf(&self) -> bool {
        self.items().len() <= self.capacity() && self.capacity() >= 1
    }

    /// A ring for the timestamps of up to `limit + 1` notifications.
    pub fn new(limit: usize) -> (r: Events)
        requires
            limit < usize::MAX,
        ensures
            r.wf(),
            r.capacity() == limit + 1,
            r.items().len() == 0,
    {
        Events { events: cq_with_capacity(limit + 1) }
    }

    /// Records a notification at `now`: appended newest; at capacity the
    /// oldest entry is overwritten.
    pub fn record(&mut self, now: i64)
        requires
            old(self).wf(),
        ensures
            final(self).wf(),
            final(self).capacity() == old(self).capacity(),
            final(self).items() == (if old(self).items().len() < old(self).capacity() {
                old(self).items().push(now)
            } else {
                old(self).items().subrange(1, old(self).items().len() as int).push(now)
            }),
    {
        cq_push(&mut self.events, now);
    }

    /// How many recorded notifications lie strictly after `since`.
    pub fn events_since(&mut self, since: i64) -> (r: usize)
        requires
            old(self).wf(),
        ensures
            *final(self) == *old(self),
            r == spec_count_after(old(self).items(), since as int),
    {
        let items = cq_items(&self.events);
        let mut count: usize = 0;
        let mut i: usize = 0;
        while i < items.len()
            invariant
                i <= items@.len(),
                count == spec_count_after(items@.subrange(0, i as int), since as int),
                count <= i,
            decreases items@.len() - i,
        {
            proof {
                assert(items@.subrange(0, i + 1).drop_last() =~= items@.subrange(0, i as int));
                assert(items@.subrange(0, i + 1).last() == items@[i as int]);
            }
            if items[i] > since {
                count = count + 1;
            }
            i = i + 1;
        }
        proof {
            assert(items@.subrange(0, items@.len() as int) =~= items@);
        }
        count
    }
}

} // verus!
