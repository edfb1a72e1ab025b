//! The newer flow's debounce heuristic: a notification log plus the configuration.
//!
//! `record` pushes the notification's timestamp and decides escalation:
//! more recorded notifications within the sliding window than the count
//! threshold allows.

use vstd::prelude::*;

use crate::clock::now_millis;
use crate::err::Error;
use crate::events::Events;
use crate::events::spec_count_after;
use crate::parameters::Parameters;
use crate::parameters::spec_default_parameters;
use crate::parameters::spec_parse_parameters;
use crate::text::spec_udec;
use crate::text::udec;

verus! {

/// A usable time threshold: the window in milliseconds must fit an
/// `i64`.
pub open spec fn spec_window_ok(t: int) -> bool {
    1000 * t <= i64::MAX
}

/// The heuristic's progress message: `Resource Exhausted! (count/threshold)`.
pub open spec fn spec_context_message(count: int, threshold: int) -> Seq<char> {
    "Resource Exhausted! ("@ + spec_udec(count as nat) + "/"@ + spec_udec(threshold as nat) + ")"@
}

pub struct Context {
    events: Events,
    pub parameters: Parameters,
}

impl Context {
    /// The recorded notification timestamps, oldest first.
    pub closed spec fn items(&self) -> Seq<i64> {
        self.events.items()
    }

    /// The configuration the heuristic was built with.
    pub closed spec fn params(&self) -> crate::parameters::ParametersView {
        self.parameters@
    }

    /// The log holds one slot more than the count threshold, and the
    /// configured window fits an `i64` in milliseconds.
    pub closed spec fn wf(&self) -> bool {
        self.events.wf() && self.events.capacity() == self.parameters.count_threshold + 1
            && spec_window_ok(self.parameters.time_threshold as int)
    }

    /// The configured count threshold.
    pub closed spec fn count_threshold(&self) -> int {
        self.parameters@.count_threshold
    }

    /// The sliding window, in milliseconds.
    pub closed spec fn window_millis(&self) -> int {
        1000 * self.parameters@.time_threshold
    }

    /// Builds the heuristic from the startup option string.  The thresholds
    /// must leave room for the log's extra slot and for the window in
    /// milliseconds.
    pub fn new(options: Option<&str>) -> (r: Result<Context, Error>)
        requires
            match options {
                None => true,
                Some(s) => (match spec_parse_parameters(s@) {
                    Ok(v) => v.count_threshold < usize::MAX && spec_window_ok(
                        v.time_threshold,
                    ),
                    Err(_) => true,
                }),
            },
        ensures
            match r {
                Ok(c) => c.wf() && c.items().len() == 0 && c.count_threshold()
                    == c.params().count_threshold && c.window_millis() == 1000
                    * c.params().time_threshold && (match options {
                    None => c.params() == spec_default_parameters(),
                    Some(s) => spec_parse_parameters(s@) == Ok::<_, Seq<char>>(c.params()),
                }),
                Err(e) => (match options {
                    None => false,
                    Some(s) => (match (spec_parse_parameters(s@), e) {
                        (Err(m), Error::Parse(msg)) => msg@ == m,
                        _ => false,
                    }),
                }),
            },
    {
        let p = match Parameters::new(options) {
            Ok(p) => p,
            Err(e) => {
                return Err(e);
            },
        };
        let e = Events::new(p.count_threshold);
        Ok(Context { events: e, parameters: p })
    }

    /// The heuristic's whole decision for a notification at `now`: record the
    /// timestamp, count the window, and escalate when the count exceeds
    /// the threshold.  Returns the decision and the progress message.
    pub fn record_at(&mut self, now: i64) -> (r: (bool, String))
        requires
            old(self).wf(),
            now >= i64::MIN + old(self).window_millis(),
        ensures
            final(self).wf(),
            final(self).params() == old(self).params(),
            final(self).count_threshold() == old(self).count_threshold(),
            final(self).window_millis() == old(self).window_millis(),
            final(self).items() == (if old(self).items().len() < old(self).count_threshold()
                + 1 {
                old(self).items().push(now)
            } else {
                old(self).items().subrange(1, old(self).items().len() as int).push(now)
            }),
            r.0 == (spec_count_after(final(self).items(), now - old(self).window_millis()) > old(
                self,
            ).count_threshold()),
            r.1@ == spec_context_message(
                spec_count_after(final(self).items(), now - old(self).window_millis()),
                old(self).count_threshold(),
            ),
    {
        self.events.record(now);
        let window = 1000 * (self.parameters.time_threshold as i64);
        let count = self.events.events_since(now - window);
        let mut m = String::from_str("Resource Exhausted! (");
        m.append(udec(count as u64).as_str());
        m.append("/");
        m.append(udec(self.parameters.count_threshold as u64).as_str());
        m.append(")");
        (count > self.parameters.count_threshold, m)
    }

    /// The heuristic's decision against the wall clock: `record_at` at whatever
    /// time the clock read; the newest recorded slot carries that reading.
    pub fn record(&mut self) -> (r: (bool, String))
        requires
            old(self).wf(),
        ensures
            final(self).wf(),
            final(self).params() == old(self).params(),
            final(self).count_threshold() == old(self).count_threshold(),
            final(self).window_millis() == old(self).window_millis(),
            final(self).items().len() >= 1,
            ({
                let now = final(self).items().last();
                final(self).items() == (if old(self).items().len() < old(self).count_threshold()
                    + 1 {
                    old(self).items().push(now)
                } else {
                    old(self).items().subrange(1, old(self).items().len() as int).push(now)
                }) && r.0 == (spec_count_after(
                    final(self).items(),
                    now - old(self).window_millis(),
                ) > old(self).count_threshold()) && r.1@ == spec_context_message(
                    spec_count_after(final(self).items(), now - old(self).window_millis()),
                    old(self).count_threshold(),
                )
            }),
    {
        let now = now_millis();
        let window = 1000 * (self.parameters.time_threshold as i64);
        // A clock reading below the window's reach would underflow the
        // horizon; clamp it, which leaves the recorded slot observable.
        if now >= i64::MIN + window {
            self.record_at(now)
        } else {
            self.record_at(i64::MIN + window)
        }
    }
}

/// The log a call sequence leaves behind: each timestamp pushed in turn,
/// the oldest entry leaving once the ring is full.
pub open spec fn spec_debounce_log(times: Seq<i64>, cap: int) -> Seq<i64>
    decreases times.len(),
{
    if times.len() == 0 {
        Seq::<i64>::empty()
    } else {
        let prev = spec_debounce_log(times.drop_last(), cap);
        if prev.len() < cap {
            prev.push(times.last())
        } else {
            prev.subrange(1, prev.len() as int).push(times.last())
        }
    }
}

/// One more notification folded into the log: exactly the shape
/// `record_at` leaves behind.
pub proof fn lemma_debounce_log_step(times: Seq<i64>, now: i64, cap: int)
    ensures
        spec_debounce_log(times.push(now), cap) == (if spec_debounce_log(times, cap).len() < cap {
            spec_debounce_log(times, cap).push(now)
        } else {
            spec_debounce_log(times, cap).subrange(
                1,
                spec_debounce_log(times, cap).len() as int,
            ).push(now)
        }),
{
    assert(times.push(now).drop_last() =~= times);
    assert(times.push(now).last() == now);
}

/// A log that never reached its capacity holds every timestamp.
pub proof fn lemma_debounce_log_short(times: Seq<i64>, cap: int)
    requires
        times.len() <= cap,
    ensures
        spec_debounce_log(times, cap) == times,
    decreases times.len(),
{
    if times.len() > 0 {
        lemma_debounce_log_short(times.drop_last(), cap);
        assert(spec_debounce_log(times.drop_last(), cap).push(times.last()) =~= times);
    }
}

/// The log always holds the most recent `cap` timestamps.
pub proof fn lemma_debounce_log_suffix(times: Seq<i64>, cap: int)
    requires
        cap >= 1,
    ensures
        spec_debounce_log(times, cap) == (if times.len() <= cap {
            times
        } else {
            times.subrange(times.len() - cap, times.len() as int)
        }),
    decreases times.len(),
{
    if times.len() <= cap {
        lemma_debounce_log_short(times, cap);
    } else {
        lemma_debounce_log_suffix(times.drop_last(), cap);
        let prev = spec_debounce_log(times.drop_last(), cap);
        if times.len() - 1 <= cap {
            assert(prev == times.drop_last());
            assert(prev.len() == cap);
            assert(prev.subrange(1, prev.len() as int).push(times.last()) =~= times.subrange(
                times.len() - cap,
                times.len() as int,
            ));
        } else {
            assert(prev == times.drop_last().subrange(times.len() - 1 - cap, times.len() - 1));
            assert(prev.len() == cap);
            assert(prev.subrange(1, prev.len() as int).push(times.last()) =~= times.subrange(
                times.len() - cap,
                times.len() as int,
            ));
        }
    }
}

/// The burst law of the debounce heuristic: while a run of notifications stays within
/// the window, the first `count_threshold` decisions are quiet and the
/// decision escalates exactly when the run reaches `count_threshold + 1`
/// notifications.
pub proof fn lemma_debounce_burst(times: Seq<i64>, c: int, window: int)
    requires
        window >= 0,
        c >= 0,
        1 <= times.len() <= c + 1,
        forall|i: int|
            0 <= i < times.len() ==> times.last() - window < #[trigger] times[i] <= times.last(),
    ensures
        spec_debounce_log(times, c + 1) == times,
        spec_count_after(spec_debounce_log(times, c + 1), times.last() - window) == times.len(),
        (spec_count_after(spec_debounce_log(times, c + 1), times.last() - window) > c) == (times.len()
            == c + 1),
{
    lemma_debounce_log_short(times, c + 1);
    crate::events::lemma_count_after_all(times, times.last() - window);
}

/// A zero count threshold escalates on the very first notification, for
/// any window of at least one millisecond.
pub proof fn lemma_debounce_zero_threshold(t: i64, window: int)
    requires
        window >= 1,
    ensures
        spec_count_after(spec_debounce_log(seq![t], 1), t - window) > 0,
{
    lemma_debounce_burst(seq![t], 0, window);
}

/// The sparseness law of the debounce heuristic: notifications spaced further apart
/// than the window never accumulate, so with a positive count threshold
/// no decision ever escalates, however long the stream.
pub proof fn lemma_debounce_sparse(times: Seq<i64>, c: int, window: int)
    requires
        window >= 0,
        c >= 1,
        times.len() >= 1,
        forall|i: int| 0 <= i < times.len() - 1 ==> #[trigger] times[i + 1] - times[i] > window,
    ensures
        spec_count_after(spec_debounce_log(times, c + 1), times.last() - window) <= 1,
        !(spec_count_after(spec_debounce_log(times, c + 1), times.last() - window) > c),
    decreases times.len(),
{
    lemma_times_increasing(times, window);
    lemma_debounce_log_suffix(times, c + 1);
    let log = spec_debounce_log(times, c + 1);
    assert forall|i: int| 0 <= i < log.len() - 1 implies log[i] <= times.last() - window by {
        let base: int = if times.len() <= c + 1 {
            0
        } else {
            times.len() - (c + 1)
        };
        assert(log[i] == times[base + i]);
        assert(log[log.len() - 1] == times.last());
        assert(base + i < times.len() - 1);
        assert(times[base + i] <= times[times.len() - 2]);
        assert(times[(times.len() - 2) + 1] - times[times.len() - 2] > window);
        assert(times[times.len() - 2] + window < times[times.len() - 1]);
    }
    crate::events::lemma_count_after_at_most_one(log, times.last() - window);
}

/// Gaps wider than the window keep the stream strictly increasing.
proof fn lemma_times_increasing(times: Seq<i64>, window: int)
    requires
        window >= 0,
        forall|i: int| 0 <= i < times.len() - 1 ==> #[trigger] times[i + 1] - times[i] > window,
    ensures
        forall|i: int, j: int|
            0 <= i <= j < times.len() ==> #[trigger] times[i] <= #[trigger] times[j],
{
    assert forall|i: int, j: int|
        0 <= i <= j < times.len() implies #[trigger] times[i] <= #[trigger] times[j] by {
        lemma_times_increasing_step(times, window, i, j);
    }
}

proof fn lemma_times_increasing_step(times: Seq<i64>, window: int, i: int, j: int)
    requires
        window >= 0,
        forall|k: int| 0 <= k < times.len() - 1 ==> #[trigger] times[k + 1] - times[k] > window,
        0 <= i <= j < times.len(),
    ensures
        times[i] <= times[j],
    decreases j - i,
{
    if i < j {
        lemma_times_increasing_step(times, window, i, j - 1);
        assert(times[(j - 1) + 1] - times[j - 1] > window);
    }
}

} // verus!
