//! The single-writer aggregator.
//!
//! All mutation of the tracking state is serialized through one ordered
//! event queue, applied strictly in arrival order; producers only enqueue,
//! consumers only read value-copied snapshots, so no other synchronization
//! is needed. Closing the event source moves the aggregator from `Running`
//! to `Draining`; already-queued events are still processed, and when the
//! queue empties the aggregator reaches `Stopped`. Submitting to a stopped
//! aggregator reports the closed condition and drops the event; that is the
//! only reportable failure.

use vstd::prelude::*;

use crate::keytable::last_match;
use crate::messages::UpdateMessage;
use crate::snapshot::{snapshot_matches, Snapshot};
use crate::tracking::{day_rolled, day_unchanged, hour_rolled, hour_unchanged, key_bumped,
    minute_rolled, Tracking};

verus! {

/// Lifecycle of the aggregator: running, draining the queue after the
/// source closed, or stopped.
#[derive(Clone, Copy, Debug, PartialEq, Eq, Structural)]
pub enum AggregatorStatus {
    Running,
    Draining,
    Stopped,
}

/// The closed condition: the event was submitted after shutdown and was
/// dropped.
#[derive(Clone, Copy, Debug, PartialEq, Eq, Structural)]
pub enum SubmitError {
    Closed,
}

/// What one event does to the tracking state: exactly the contract of
/// `increment_count_by_key` or of `minute_complete`.
pub open spec fn applies(pre: Tracking, post: Tracking, message: UpdateMessage) -> bool {
    match message {
        UpdateMessage::NewTweet(key) => {
            &&& post.wf()
            &&& (last_match(pre.keys@, key@) == -1 ==> post == pre)
            &&& (last_match(pre.keys@, key@) >= 0 ==> key_bumped(pre, post, last_match(pre.keys@,
                key@)))
        },
        UpdateMessage::NewMinute => {
            &&& post.wf()
            &&& minute_rolled(pre, post)
            &&& (pre.minute_count != 59 ==> hour_unchanged(pre, post) && day_unchanged(pre, post))
            &&& (pre.minute_count == 59 ==> hour_rolled(pre, post))
            &&& (pre.minute_count == 59 && pre.hour_count != 23 ==> day_unchanged(pre, post))
            &&& (pre.minute_count == 59 && pre.hour_count == 23 ==> day_rolled(pre, post))
        },
    }
}

/// The state `post` is reached from `pre` by applying every event of `evs`,
/// in order.
pub open spec fn runs_to(pre: Tracking, post: Tracking, evs: Seq<UpdateMessage>) -> bool
    decreases evs.len(),
{
    if evs.len() == 0 {
        post == pre
    } else {
        exists|mid: Tracking|
            runs_to(pre, mid, evs.drop_last()) && #[trigger] applies(mid, post, evs.last())
    }
}

/// The single writer owning all tracking state, its event queue, and its
/// lifecycle status.
pub struct Aggregator {
    /// The aggregated state; only this aggregator mutates it.
    pub tracking: Tracking,
    /// The pending events, in arrival order.
    pub queue: Vec<UpdateMessage>,
    /// Where in its lifecycle the aggregator stands.
    pub status: AggregatorStatus,
}

impl Aggregator {
    /// The tracking state is well formed.
    pub open spec fn wf(self) -> bool {
        self.tracking.wf()
    }

    /// A fresh aggregator over the given tracked keys: running, with an
    /// empty queue and fresh tracking state.
    pub fn new(keys: &Vec<String>) -> (a: Aggregator)
        ensures
            a.wf(),
            a.status == AggregatorStatus::Running,
            a.queue@.len() == 0,
            a.tracking.keys@ == keys@.map_values(|s: String| s@),
            a.tracking.ticks@ == 0 && a.tracking.hour_ticks@ == 0 && a.tracking.day_ticks@ == 0,
            forall|k: int| 0 <= k < keys@.len() ==> (#[trigger] a.tracking.one_hour@[k])@
                =~= Seq::new(60, |i: int| 0u64),
            forall|k: int| 0 <= k < keys@.len() ==> (#[trigger] a.tracking.one_day@[k])@
                =~= Seq::new(24, |i: int| 0u64),
            forall|k: int| 0 <= k < keys@.len() ==> (#[trigger] a.tracking.one_week@[k])@
                =~= Seq::new(7, |i: int| 0u64),
            forall|k: int| 0 <= k < keys@.len() ==> #[trigger] a.tracking.trend_by_minute@[k]
                == crate::rollup::spec_fresh_stat(),
            forall|k: int| 0 <= k < keys@.len() ==> #[trigger] a.tracking.trend_by_hour@[k]
                == crate::rollup::spec_fresh_stat(),
            forall|k: int| 0 <= k < keys@.len() ==> #[trigger] a.tracking.trend_by_day@[k]
                == crate::rollup::spec_fresh_stat(),
    {
        Aggregator {
            tracking: Tracking::new(keys),
            queue: Vec::new(),
            status: AggregatorStatus::Running,
        }
    }

    /// Enqueues one event. Never fails while the aggregator is running or
    /// draining; once it has stopped, the closed condition is reported and
    /// the event is dropped.
    pub fn submit(&mut self, message: UpdateMessage) -> (r: Result<(), SubmitError>)
        requires
            old(self).wf(),
        ensures
            final(self).wf(),
            old(self).status != AggregatorStatus::Stopped ==> r == Ok::<(), SubmitError>(())
                && final(self).queue@ == old(self).queue@.push(message) && final(self).status
                == old(self).status && final(self).tracking == old(self).tracking,
            old(self).status == AggregatorStatus::Stopped ==> r == Err::<(), SubmitError>(
                SubmitError::Closed) && *final(self) == *old(self),
    {
        match self.status {
            AggregatorStatus::Stopped => Err(SubmitError::Closed),
            _ => {
                self.queue.push(message);
                Ok(())
            },
        }
    }

    /// Closes the event source: a running aggregator starts draining;
    /// closing again changes nothing.
    pub fn close(&mut self)
        requires
            old(self).wf(),
        ensures
            final(self).wf(),
            final(self).queue == old(self).queue,
            final(self).tracking == old(self).tracking,
            final(self).status == if old(self).status == AggregatorStatus::Running {
                AggregatorStatus::Draining
            } else {
                old(self).status
            },
    {
        match self.status {
            AggregatorStatus::Running => {
                self.status = AggregatorStatus::Draining;
            },
            _ => {},
        }
    }

    /// Processes the next queued event, if any, applying it to the tracking
    /// state; events are taken strictly in arrival order. Returns whether an
    /// event was processed. When the queue is empty and the source is
    /// closed, the aggregator stops.
    pub fn process_next(&mut self) -> (r: bool)
        requires
            old(self).wf(),
        ensures
            final(self).wf(),
            old(self).queue@.len() > 0 ==> r && applies(old(self).tracking, final(self).tracking,
                old(self).queue@[0]) && final(self).queue@ == old(self).queue@.subrange(1,
                old(self).queue@.len() as int) && final(self).status == old(self).status,
            old(self).queue@.len() == 0 ==> !r && final(self).tracking == old(self).tracking
                && final(self).queue == old(self).queue && final(self).status == (if old(
            self).status == AggregatorStatus::Draining {
                AggregatorStatus::Stopped
            } else {
                old(self).status
            }),
    {
        if self.queue.len() > 0 {
            let message = self.queue.remove(0);
            proof {
                assert(self.queue@ =~= old(self).queue@.subrange(1,
                    old(self).queue@.len() as int));
            }
            match message {
                UpdateMessage::NewTweet(key) => self.tracking.increment_count_by_key(key.as_str()),
                UpdateMessage::NewMinute => self.tracking.minute_complete(),
            }
            true
        } else {
            match self.status {
                AggregatorStatus::Draining => {
                    self.status = AggregatorStatus::Stopped;
                },
                _ => {},
            }
            false
        }
    }

    /// Graceful drain after the source closed: every event enqueued before
    /// the close is processed, in arrival order, and only then does the
    /// aggregator stop. The final tracking state is the queued events folded
    /// over the state at the close.
    pub fn drain(&mut self)
        requires
            old(self).wf(),
            old(self).status == AggregatorStatus::Draining,
        ensures
            final(self).wf(),
            final(self).status == AggregatorStatus::Stopped,
            final(self).queue@.len() == 0,
            runs_to(old(self).tracking, final(self).tracking, old(self).queue@),
    {
        let ghost evs = self.queue@;
        let ghost pre = self.tracking;
        let ghost mut i: int = 0;
        while self.queue.len() > 0
            invariant
                self.wf(),
                self.status == AggregatorStatus::Draining,
                0 <= i <= evs.len(),
                self.queue@ == evs.subrange(i, evs.len() as int),
                runs_to(pre, self.tracking, evs.take(i)),
            decreases self.queue@.len(),
        {
            let ghost cur = self.tracking;
            self.process_next();
            proof {
                assert(self.queue@ =~= evs.subrange(i + 1, evs.len() as int));
                assert(evs.take(i + 1).drop_last() =~= evs.take(i));
                assert(evs.take(i + 1).last() == evs[i]);
                assert(applies(cur, self.tracking, evs[i]));
                assert(runs_to(pre, cur, evs.take(i + 1).drop_last()) && applies(cur,
                    self.tracking, evs.take(i + 1).last()));
                i = i + 1;
            }
        }
        proof {
            assert(evs.take(i) =~= evs);
        }
        self.process_next();
    }

    /// Publishes the current state as a fresh snapshot; safe to call from
    /// any number of consumers, and never blocks the aggregator.
    pub fn snapshot(&self) -> (s: Snapshot)
        requires
            self.wf(),
        ensures
            snapshot_matches(self.tracking, s),
    {
        self.tracking.snapshot()
    }
}

} // verus!
