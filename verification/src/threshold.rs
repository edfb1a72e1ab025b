//! The debounce heuristic of the older flow.
//!
//! A fixed ring of `count_threshold + 1` timestamp slots, prefilled with
//! zero, is overwritten in turn on every notification.  A notification
//! escalates when more than `count_threshold` recorded timestamps lie
//! within the sliding window ending now: a sparse stream never
//! accumulates, a burst of `count_threshold + 1` notifications within the
//! window does.

use vstd::prelude::*;

use crate::clock::now_millis;
use crate::text::spec_udec;
use crate::text::udec;

verus! {

/// How many entries of `s` are at or after `horizon`.
pub open spec fn spec_count_since(s: Seq<i64>, horizon: int) -> int
    decreases s.len(),
{
    if s.len() == 0 {
        0
    } else {
        spec_count_since(s.drop_last(), horizon) + if s.last() >= horizon {
            1int
        } else {
            0int
        }
    }
}

/// The heuristic's progress message: `ResourceExhausted! (count/threshold)`.
pub open spec fn spec_threshold_message(count: int, threshold: int) -> Seq<char> {
    "ResourceExhausted! ("@ + spec_udec(count as nat) + "/"@ + spec_udec(threshold as nat) + ")"@
}

pub struct Threshold {
    time_threshold: i64,
    count_threshold: usize,
    events: Vec<i64>,
    event_index: usize,
}

impl Threshold {
    /// The configured count threshold.
    pub closed spec fn count_threshold(&self) -> int {
        self.count_threshold as int
    }

    /// The sliding window, in milliseconds.
    pub closed spec fn window_millis(&self) -> int {
        self.time_threshold as int
    }

    /// The recorded timestamp slots.
    pub closed spec fn events(&self) -> Seq<i64> {
        self.events@
    }

    /// The slot the next notification overwrites.
    pub closed spec fn cursor(&self) -> int {
        self.event_index as int
    }

    /// The ring always holds exactly `count_threshold + 1` slots and the
    /// cursor stays inside it.
    pub closed spec fn wf(&self) -> bool {
        self.count_threshold < usize::MAX && self.events@.len() == self.count_threshold + 1
            && self.event_index < self.events@.len()
    }

    /// A fresh heuristic: `count_threshold + 1` slots prefilled with a safe
    /// value, window of `time_threshold` seconds.
    pub fn new(count_threshold: usize, time_threshold: i64) -> (r: Threshold)
        requires
            count_threshold < usize::MAX,
            0 <= time_threshold <= 0x20c49ba5e353f7i64,
        ensures
            r.wf(),
            r.count_threshold() == count_threshold,
            r.window_millis() == 1000 * time_threshold,
            r.cursor() == 0,
            r.events() =~= Seq::new((count_threshold + 1) as nat, |i: int| 0i64),
    {
        let mut events: Vec<i64> = Vec::new();
        let mut i: usize = 0;
        while i < count_threshold + 1
            invariant
                i <= count_threshold + 1,
                count_threshold < usize::MAX,
                events@ =~= Seq::new(i as nat, |j: int| 0i64),
            decreases count_threshold + 1 - i,
        {
            events.push(0);
            i = i + 1;
        }
        Threshold { time_threshold: 1000 * time_threshold, count_threshold, events, event_index: 0 }
    }

    /// Overwrites the slot under the cursor and advances it, wrapping.
    fn add_event(&mut self, now: i64)
        requires
            old(self).wf(),
        ensures
            final(self).wf(),
            final(self).events() == old(self).events().update(old(self).cursor(), now),
            final(self).cursor() == if old(self).cursor() + 1 == old(self).events().len() {
                0int
            } else {
                old(self).cursor() + 1
            },
            final(self).count_threshold() == old(self).count_threshold(),
            final(self).window_millis() == old(self).window_millis(),
    {
        self.events.set(self.event_index, now);
        self.event_index = self.event_index + 1;
        if self.event_index > self.count_threshold {
            self.event_index = 0;
        }
    }

    /// How many recorded timestamps lie within the window ending `now`.
    fn count_events(&self, now: i64) -> (r: usize)
        requires
            self.wf(),
            now >= i64::MIN + self.window_millis(),
            0 <= self.window_millis(),
        ensures
            r == spec_count_since(self.events(), now - self.window_millis()),
            r <= self.events().len(),
    {
        let horizon = now - self.time_threshold;
        let mut count: usize = 0;
        let mut i: usize = 0;
        while i < self.events.len()
            invariant
                i <= self.events@.len(),
                count == spec_count_since(self.events@.subrange(0, i as int), horizon as int),
                count <= i,
            decreases self.events@.len() - i,
        {
            proof {
                assert(self.events@.subrange(0, i + 1).drop_last() =~= self.events@.subrange(
                    0,
                    i as int,
                ));
                assert(self.events@.subrange(0, i + 1).last() == self.events@[i as int]);
            }
            if self.events[i] >= horizon {
                count = count + 1;
            }
            i = i + 1;
        }
        proof {
            assert(self.events@.subrange(0, self.events@.len() as int) =~= self.events@);
        }
        count
    }

    /// The heuristic's whole decision for a notification at `now`: record the
    /// timestamp, count the window, and escalate when the count exceeds
    /// the threshold.  Returns the decision and the progress message.
    pub fn on_oom_at(&mut self, now: i64) -> (r: (bool, String))
        requires
            old(self).wf(),
            now >= i64::MIN + old(self).window_millis(),
            0 <= old(self).window_millis(),
        ensures
            final(self).wf(),
            final(self).count_threshold() == old(self).count_threshold(),
            final(self).window_millis() == old(self).window_millis(),
            final(self).events() == old(self).events().update(old(self).cursor(), now),
            final(self).cursor() == if old(self).cursor() + 1 == old(self).events().len() {
                0int
            } else {
                old(self).cursor() + 1
            },
            r.0 == (spec_count_since(final(self).events(), now - old(self).window_millis()) > old(
                self,
            ).count_threshold()),
            r.1@ == spec_threshold_message(
                spec_count_since(final(self).events(), now - old(self).window_millis()),
                old(self).count_threshold(),
            ),
    {
        self.add_event(now);
        let event_count = self.count_events(now);
        let mut m = String::from_str("ResourceExhausted! (");
        m.append(udec(event_count as u64).as_str());
        m.append("/");
        m.append(udec(self.count_threshold as u64).as_str());
        m.append(")");
        (event_count > self.count_threshold, m)
    }

    /// The heuristic's decision against the wall clock.  What is recorded and
    /// returned is `on_oom_at` at whatever time the clock read; the
    /// recorded slot carries that reading.
    pub fn on_oom(&mut self) -> (r: (bool, String))
        requires
            old(self).wf(),
            0 <= old(self).window_millis(),
        ensures
            final(self).wf(),
            final(self).count_threshold() == old(self).count_threshold(),
            final(self).window_millis() == old(self).window_millis(),
            final(self).cursor() == if old(self).cursor() + 1 == old(self).events().len() {
                0int
            } else {
                old(self).cursor() + 1
            },
            final(self).events()[old(self).cursor()] >= i64::MIN + old(self).window_millis(),
            ({
                let now = final(self).events()[old(self).cursor()];
                final(self).events() == old(self).events().update(old(self).cursor(), now)
                    && (now >= i64::MIN + old(self).window_millis() ==> r.0 == (spec_count_since(
                    final(self).events(),
                    now - old(self).window_millis(),
                ) > old(self).count_threshold()) && r.1@ == spec_threshold_message(
                    spec_count_since(final(self).events(), now - old(self).window_millis()),
                    old(self).count_threshold(),
                ))
            }),
    {
        let now = now_millis();
        // A clock reading below the window's reach would underflow the
        // horizon; clamp it, which leaves the recorded slot observable.
        if now >= i64::MIN + self.time_threshold {
            self.on_oom_at(now)
        } else {
            self.on_oom_at(i64::MIN + self.time_threshold)
        }
    }
}

/// Counting splits over concatenation.
pub proof fn lemma_count_since_concat(a: Seq<i64>, b: Seq<i64>, horizon: int)
    ensures
        spec_count_since(a + b, horizon) == spec_count_since(a, horizon) + spec_count_since(
            b,
            horizon,
        ),
    decreases b.len(),
{
    if b.len() == 0 {
        assert(a + b =~= a);
    } else {
        lemma_count_since_concat(a, b.drop_last(), horizon);
        assert((a + b).drop_last() =~= a + b.drop_last());
        assert((a + b).last() == b.last());
    }
}

/// Every entry at or after the horizon counts.
pub proof fn lemma_count_since_all(s: Seq<i64>, horizon: int)
    requires
        forall|i: int| 0 <= i < s.len() ==> s[i] >= horizon,
    ensures
        spec_count_since(s, horizon) == s.len(),
    decreases s.len(),
{
    if s.len() > 0 {
        lemma_count_since_all(s.drop_last(), horizon);
    }
}

/// No entry before the horizon counts.
pub proof fn lemma_count_since_none(s: Seq<i64>, horizon: int)
    requires
        forall|i: int| 0 <= i < s.len() ==> s[i] < horizon,
    ensures
        spec_count_since(s, horizon) == 0,
    decreases s.len(),
{
    if s.len() > 0 {
        lemma_count_since_none(s.drop_last(), horizon);
    }
}

/// The ring after a burst of notifications: the recorded timestamps in
/// their slots, the remaining slots still prefilled.
pub open spec fn spec_ring_after(times: Seq<i64>, c: int) -> Seq<i64> {
    times + Seq::new((c + 1 - times.len()) as nat, |i: int| 0i64)
}

/// The ring a burst of notifications leaves behind, call by call: each
/// call overwrites the next slot in turn, exactly as `on_oom_at` records
/// with the cursor at the number of calls made so far.
pub open spec fn spec_ring_fill(times: Seq<i64>, c: int) -> Seq<i64>
    decreases times.len(),
{
    if times.len() == 0 {
        Seq::new((c + 1) as nat, |i: int| 0i64)
    } else {
        spec_ring_fill(times.drop_last(), c).update(times.len() - 1, times.last())
    }
}

/// While the ring has room, the burst's slot-by-slot updates amount to
/// the recorded run followed by the untouched prefilled slots.
pub proof fn lemma_ring_fill(times: Seq<i64>, c: int)
    requires
        0 <= c,
        times.len() <= c + 1,
    ensures
        spec_ring_fill(times, c) == spec_ring_after(times, c),
    decreases times.len(),
{
    if times.len() == 0 {
        assert(spec_ring_fill(times, c) =~= spec_ring_after(times, c));
    } else {
        lemma_ring_fill(times.drop_last(), c);
        assert(spec_ring_after(times.drop_last(), c).update(times.len() - 1, times.last())
            =~= spec_ring_after(times, c));
    }
}

/// The burst law of the ring heuristic: while a run of notifications
/// stays within the window and the window reaches back no further than
/// the prefilled slots' value, the count equals the run's length, so the
/// decision escalates exactly when the run exceeds the count threshold —
/// first at notification `count_threshold + 1`.
pub proof fn lemma_threshold_burst(times: Seq<i64>, c: int, window: int)
    requires
        window >= 0,
        c >= 0,
        1 <= times.len() <= c + 1,
        times.last() - window > 0,
        forall|i: int|
            0 <= i < times.len() ==> times.last() - window <= #[trigger] times[i]
                <= times.last(),
    ensures
        spec_count_since(spec_ring_after(times, c), times.last() - window) == times.len(),
        (spec_count_since(spec_ring_after(times, c), times.last() - window) > c) == (times.len()
            == c + 1),
{
    let horizon = times.last() - window;
    let zeros = Seq::new((c + 1 - times.len()) as nat, |i: int| 0i64);
    lemma_count_since_concat(times, zeros, horizon);
    lemma_count_since_all(times, horizon);
    lemma_count_since_none(zeros, horizon);
}

/// The sparseness law of the ring heuristic: notifications spaced further
/// apart than the window leave at most the newest one inside it, so a
/// positive count threshold never escalates.
pub proof fn lemma_threshold_sparse(slots: Seq<i64>, newest: i64, c: int, window: int)
    requires
        window >= 0,
        c >= 1,
        forall|i: int| 0 <= i < slots.len() - 1 ==> #[trigger] slots[i] < newest - window,
        slots.len() >= 1,
        slots.last() == newest,
    ensures
        spec_count_since(slots, newest - window) <= 1,
        !(spec_count_since(slots, newest - window) > c),
{
    lemma_count_since_none(slots.drop_last(), newest - window);
    assert(slots.drop_last().push(slots.last()) =~= slots);
}

} // verus!
