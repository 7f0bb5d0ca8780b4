//! Tracking and aggregation of keyword-match history.
//!
//! For every tracked keyword three ring buffers of counters are kept: the
//! last hour bucketed by minute, the last day bucketed by hour, and the last
//! week bucketed by day. All buffers of one resolution share a cursor and a
//! warm level, since they advance in lockstep. A minute tick rolls the minute
//! buffers over; when the minute cursor wraps, the rollover cascades to the
//! hour buffers, and when the hour cursor wraps, to the day buffers.
//!
//! Each buffer is paired with a [`TrendStat`] holding the running window sum
//! and the moving-average and trend rationals, maintained in O(1) per
//! rollover by the rollup engine.
//!
//! The running sums of all three resolutions start from zero.
//!
//! Ghost tick counters (total minute ticks, hour rollovers, day rollovers)
//! tie cursors and warm levels to the number of ticks processed, so the
//! saturation of the warm level and the exact cascade schedule are part of
//! the well-formedness invariant.

use vstd::prelude::*;

use crate::keytable::{last_match, lemma_last_match, KeyTable};
use crate::rollup::{fresh_stat, roll_row, rolled_stat, row_linked, spec_fresh_stat, stat_wf,
    TrendStat};
use crate::sums::{lemma_range_sum_update, seq_sum};

verus! {

/// Buckets per hour at the minute resolution.
pub const MIN_PER_HOUR: usize = 60;

/// Buckets per day at the hour resolution.
pub const HOURS_PER_DAY: usize = 24;

/// Buckets per week at the day resolution.
pub const DAYS_PER_WEEK: usize = 7;

/// The cursor position after one rollover of a ring with `cap` slots.
pub open spec fn next_slot(c: int, cap: int) -> int {
    if c + 1 == cap {
        0
    } else {
        c + 1
    }
}

/// A counter bumped by one, saturating at the largest `u64` value.
pub open spec fn sat_inc(v: u64) -> u64 {
    if v == u64::MAX {
        v
    } else {
        (v + 1) as u64
    }
}

/// Well-formedness of one resolution: per-key rows of `cap` buckets, a
/// shared cursor and warm level, and per-key statistics whose running sum is
/// the sum of the finalized buckets of the row. `rticks` counts the
/// rollovers this resolution has seen.
pub open spec fn res_wf(
    rows: Seq<Vec<u64>>,
    stats: Seq<TrendStat>,
    cap: int,
    count: int,
    level: int,
    rticks: nat,
    nkeys: int,
) -> bool {
    &&& rows.len() == nkeys
    &&& stats.len() == nkeys
    &&& 0 <= count < cap
    &&& level == if rticks + 1 < cap {
        rticks as int + 1
    } else {
        cap
    }
    &&& (level < cap ==> count == level - 1)
    &&& forall|k: int| 0 <= k < nkeys ==> (#[trigger] rows[k])@.len() == cap
    &&& forall|k: int| 0 <= k < nkeys ==> stat_wf(#[trigger] stats[k])
    &&& forall|k: int| 0 <= k < nkeys ==> row_linked((#[trigger] rows[k])@, count, stats[k])
    &&& (level < cap ==> forall|k: int, i: int|
        0 <= k < nkeys && level <= i < cap ==> (#[trigger] rows[k]@[i]) == 0)
}

/// Tracking and aggregation of keyword-match history.
pub struct Tracking {
    /// History of the last hour, per key, bucketed by minute.
    pub one_hour: Vec<Vec<u64>>,
    /// History of the last day, per key, bucketed by hour.
    pub one_day: Vec<Vec<u64>>,
    /// History of the last week, per key, bucketed by day.
    pub one_week: Vec<Vec<u64>>,
    /// Moving average and trend per minute over one hour.
    pub trend_by_minute: Vec<TrendStat>,
    /// Moving average and trend per hour over one day.
    pub trend_by_hour: Vec<TrendStat>,
    /// Moving average and trend per day over one week.
    pub trend_by_day: Vec<TrendStat>,
    /// Minute cursor: the bucket accumulating the current minute.
    pub minute_count: usize,
    /// Hour cursor.
    pub hour_count: usize,
    /// Day cursor.
    pub day_count: usize,
    /// Warm level of the minute buffers.
    pub minute_level: u64,
    /// Warm level of the hour buffers.
    pub hour_level: u64,
    /// Warm level of the day buffers.
    pub day_level: u64,
    /// Keyword-to-index table.
    pub keys: KeyTable,
    /// Total minute ticks processed.
    pub ticks: Ghost<nat>,
    /// Hour rollovers processed (one per 60 ticks).
    pub hour_ticks: Ghost<nat>,
    /// Day rollovers processed (one per 24 hour rollovers).
    pub day_ticks: Ghost<nat>,
}

impl Tracking {
    /// The full well-formedness invariant: each resolution is well formed,
    /// and the ghost tick counters tie the cursors together — `ticks` splits
    /// into whole hours plus the minute cursor, and hours into whole days
    /// plus the hour cursor.
    pub open spec fn wf(self) -> bool {
        let n = self.keys@.len() as int;
        &&& res_wf(self.one_hour@, self.trend_by_minute@, 60, self.minute_count as int,
            self.minute_level as int, self.ticks@, n)
        &&& res_wf(self.one_day@, self.trend_by_hour@, 24, self.hour_count as int,
            self.hour_level as int, self.hour_ticks@, n)
        &&& res_wf(self.one_week@, self.trend_by_day@, 7, self.day_count as int,
            self.day_level as int, self.day_ticks@, n)
        &&& self.ticks@ == 60 * self.hour_ticks@ + self.minute_count
        &&& self.hour_ticks@ == 24 * self.day_ticks@ + self.hour_count
    }

    /// How many keys are tracked.
    pub open spec fn key_count(self) -> int {
        self.keys@.len() as int
    }
}

/// All rows hold the same contents except row `k`, whose bucket at `slot`
/// has been bumped by one, saturating.
pub open spec fn bumped_rows(pre: Seq<Vec<u64>>, post: Seq<Vec<u64>>, k: int, slot: int) -> bool {
    &&& post.len() == pre.len()
    &&& forall|j: int| 0 <= j < pre.len() && j != k ==> post[j] == #[trigger] pre[j]
    &&& post[k]@ == pre[k]@.update(slot, sat_inc(pre[k]@[slot]))
}

/// One increment of key `k`: the current bucket of each of its three rows is
/// bumped; everything else — other keys' rows, all statistics, cursors,
/// levels, the key table and the tick counters — is unchanged.
pub open spec fn key_bumped(pre: Tracking, post: Tracking, k: int) -> bool {
    &&& bumped_rows(pre.one_hour@, post.one_hour@, k, pre.minute_count as int)
    &&& bumped_rows(pre.one_day@, post.one_day@, k, pre.hour_count as int)
    &&& bumped_rows(pre.one_week@, post.one_week@, k, pre.day_count as int)
    &&& post.trend_by_minute == pre.trend_by_minute
    &&& post.trend_by_hour == pre.trend_by_hour
    &&& post.trend_by_day == pre.trend_by_day
    &&& post.minute_count == pre.minute_count
    &&& post.hour_count == pre.hour_count
    &&& post.day_count == pre.day_count
    &&& post.minute_level == pre.minute_level
    &&& post.hour_level == pre.hour_level
    &&& post.day_level == pre.day_level
    &&& post.keys == pre.keys
    &&& post.ticks == pre.ticks
    &&& post.hour_ticks == pre.hour_ticks
    &&& post.day_ticks == pre.day_ticks
}

/// Every row rolled over: the bucket at `next` cleared for the new period.
pub open spec fn rows_rolled(pre: Seq<Vec<u64>>, post: Seq<Vec<u64>>, next: int) -> bool {
    &&& post.len() == pre.len()
    &&& forall|k: int| 0 <= k < pre.len() ==> (#[trigger] post[k])@ == pre[k]@.update(next, 0u64)
}

/// Every statistic rolled over with its row's finalized and evicted values.
pub open spec fn stats_rolled(
    pre: Seq<TrendStat>,
    post: Seq<TrendStat>,
    rows: Seq<Vec<u64>>,
    prev: int,
    next: int,
    level: u64,
) -> bool {
    &&& post.len() == pre.len()
    &&& forall|k: int| 0 <= k < pre.len() ==> rolled_stat(pre[k], #[trigger] post[k],
        rows[k]@[prev], rows[k]@[next], level)
}

/// Effect of one minute rollover on the minute-resolution state and the key
/// table (which it never changes).
pub open spec fn minute_rolled(pre: Tracking, post: Tracking) -> bool {
    let next = next_slot(pre.minute_count as int, 60);
    &&& rows_rolled(pre.one_hour@, post.one_hour@, next)
    &&& stats_rolled(pre.trend_by_minute@, post.trend_by_minute@, pre.one_hour@,
        pre.minute_count as int, next, pre.minute_level)
    &&& post.minute_count == next
    &&& post.minute_level == if pre.minute_level < 60 {
        (pre.minute_level + 1) as u64
    } else {
        pre.minute_level
    }
    &&& post.ticks@ == pre.ticks@ + 1
    &&& post.keys == pre.keys
}

/// Effect of one hour rollover on the hour-resolution state.
pub open spec fn hour_rolled(pre: Tracking, post: Tracking) -> bool {
    let next = next_slot(pre.hour_count as int, 24);
    &&& rows_rolled(pre.one_day@, post.one_day@, next)
    &&& stats_rolled(pre.trend_by_hour@, post.trend_by_hour@, pre.one_day@, pre.hour_count as int,
        next, pre.hour_level)
    &&& post.hour_count == next
    &&& post.hour_level == if pre.hour_level < 24 {
        (pre.hour_level + 1) as u64
    } else {
        pre.hour_level
    }
    &&& post.hour_ticks@ == pre.hour_ticks@ + 1
}

/// Effect of one day rollover on the day-resolution state.
pub open spec fn day_rolled(pre: Tracking, post: Tracking) -> bool {
    let next = next_slot(pre.day_count as int, 7);
    &&& rows_rolled(pre.one_week@, post.one_week@, next)
    &&& stats_rolled(pre.trend_by_day@, post.trend_by_day@, pre.one_week@, pre.day_count as int,
        next, pre.day_level)
    &&& post.day_count == next
    &&& post.day_level == if pre.day_level < 7 {
        (pre.day_level + 1) as u64
    } else {
        pre.day_level
    }
    &&& post.day_ticks@ == pre.day_ticks@ + 1
}

/// The hour-resolution state is untouched.
pub open spec fn hour_unchanged(pre: Tracking, post: Tracking) -> bool {
    &&& post.one_day == pre.one_day
    &&& post.trend_by_hour == pre.trend_by_hour
    &&& post.hour_count == pre.hour_count
    &&& post.hour_level == pre.hour_level
    &&& post.hour_ticks == pre.hour_ticks
}

/// The day-resolution state is untouched.
pub open spec fn day_unchanged(pre: Tracking, post: Tracking) -> bool {
    &&& post.one_week == pre.one_week
    &&& post.trend_by_day == pre.trend_by_day
    &&& post.day_count == pre.day_count
    &&& post.day_level == pre.day_level
    &&& post.day_ticks == pre.day_ticks
}

impl Tracking {
    /// Creates the tracking state for the given ordered key list: all
    /// buckets zero, all cursors at zero, all warm levels one, all
    /// statistics fresh (zero running sum at every resolution).
    pub fn new(keys: &Vec<String>) -> (t: Tracking)
        ensures
            t.wf(),
            t.keys@ == keys@.map_values(|s: String| s@),
            t.key_count() == keys@.len(),
            t.minute_count == 0 && t.hour_count == 0 && t.day_count == 0,
            t.minute_level == 1 && t.hour_level == 1 && t.day_level == 1,
            t.ticks@ == 0 && t.hour_ticks@ == 0 && t.day_ticks@ == 0,
            t.one_hour@.len() == keys@.len() && t.one_day@.len() == keys@.len()
                && t.one_week@.len() == keys@.len(),
            forall|k: int| 0 <= k < keys@.len() ==> (#[trigger] t.one_hour@[k])@ =~= Seq::new(60,
                |i: int| 0u64),
            forall|k: int| 0 <= k < keys@.len() ==> (#[trigger] t.one_day@[k])@ =~= Seq::new(24,
                |i: int| 0u64),
            forall|k: int| 0 <= k < keys@.len() ==> (#[trigger] t.one_week@[k])@ =~= Seq::new(7,
                |i: int| 0u64),
            forall|k: int| 0 <= k < keys@.len() ==> #[trigger] t.trend_by_minute@[k]
                == spec_fresh_stat(),
            forall|k: int| 0 <= k < keys@.len() ==> #[trigger] t.trend_by_hour@[k]
                == spec_fresh_stat(),
            forall|k: int| 0 <= k < keys@.len() ==> #[trigger] t.trend_by_day@[k]
                == spec_fresh_stat(),
    {
        let n = keys.len();
        let t = Tracking {
            one_hour: init_buffer(n, MIN_PER_HOUR),
            one_day: init_buffer(n, HOURS_PER_DAY),
            one_week: init_buffer(n, DAYS_PER_WEEK),
            trend_by_minute: init_stats(n),
            trend_by_hour: init_stats(n),
            trend_by_day: init_stats(n),
            minute_count: 0,
            hour_count: 0,
            day_count: 0,
            minute_level: 1,
            hour_level: 1,
            day_level: 1,
            keys: KeyTable::new(keys),
            ticks: Ghost(0),
            hour_ticks: Ghost(0),
            day_ticks: Ghost(0),
        };
        proof {
            assert forall|k: int| 0 <= k < n implies row_linked((#[trigger] t.one_hour@[k])@, 0,
                t.trend_by_minute@[k]) by {
                crate::sums::lemma_range_sum_zero(t.one_hour@[k]@, 0, 60);
            }
            assert forall|k: int| 0 <= k < n implies row_linked((#[trigger] t.one_day@[k])@, 0,
                t.trend_by_hour@[k]) by {
                crate::sums::lemma_range_sum_zero(t.one_day@[k]@, 0, 24);
            }
            assert forall|k: int| 0 <= k < n implies row_linked((#[trigger] t.one_week@[k])@, 0,
                t.trend_by_day@[k]) by {
                crate::sums::lemma_range_sum_zero(t.one_week@[k]@, 0, 7);
            }
        }
        t
    }

    /// Increments the match count for a tracked key name. An unknown name is
    /// a no-op: keyword validity is a configuration-time concern, never a
    /// runtime error.
    pub fn increment_count_by_key(&mut self, key: &str)
        requires
            old(self).wf(),
        ensures
            final(self).wf(),
            last_match(old(self).keys@, key@) == -1 ==> *final(self) == *old(self),
            last_match(old(self).keys@, key@) >= 0 ==> key_bumped(*old(self), *final(self),
                last_match(old(self).keys@, key@)),
    {
        proof {
            lemma_last_match(self.keys@, key@);
        }
        match self.keys.index_of(key) {
            Some(i) => self.increment_count_by_index(i),
            None => (),
        }
    }

    /// Increments the match count for a tracked key index: the bucket under
    /// the cursor of each of the key's three rows grows by one, saturating.
    /// An out-of-range index is a no-op.
    pub fn increment_count_by_index(&mut self, index: usize)
        requires
            old(self).wf(),
        ensures
            final(self).wf(),
            index < old(self).key_count() ==> key_bumped(*old(self), *final(self), index as int),
            index >= old(self).key_count() ==> *final(self) == *old(self),
    {
        if index < self.keys.len() {
            let m = self.minute_count;
            let h = self.hour_count;
            let d = self.day_count;
            bump_row(&mut self.one_hour, index, m);
            bump_row(&mut self.one_day, index, h);
            bump_row(&mut self.one_week, index, d);
            proof {
                let pre = *old(self);
                let n = pre.key_count();
                lemma_bumped_res_wf(pre.one_hour@, self.one_hour@, pre.trend_by_minute@, 60,
                    m as int, pre.minute_level as int, pre.ticks@, n, index as int);
                lemma_bumped_res_wf(pre.one_day@, self.one_day@, pre.trend_by_hour@, 24, h as int,
                    pre.hour_level as int, pre.hour_ticks@, n, index as int);
                lemma_bumped_res_wf(pre.one_week@, self.one_week@, pre.trend_by_day@, 7, d as int,
                    pre.day_level as int, pre.day_ticks@, n, index as int);
            }
        }
    }
}

impl Tracking {
    /// To be called once per completed minute: rolls every key's minute
    /// buffer over, updating the running sum, moving average and trend, and
    /// cascades to the hour buffers exactly when the minute cursor wraps
    /// (every 60th tick), which in turn cascades to the day buffers exactly
    /// when the hour cursor wraps (every 1440th tick).
    pub fn minute_complete(&mut self)
        requires
            old(self).wf(),
        ensures
            final(self).wf(),
            minute_rolled(*old(self), *final(self)),
            old(self).minute_count != 59 ==> hour_unchanged(*old(self), *final(self))
                && day_unchanged(*old(self), *final(self)),
            old(self).minute_count == 59 ==> hour_rolled(*old(self), *final(self)),
            old(self).minute_count == 59 && old(self).hour_count != 23 ==> day_unchanged(
                *old(self), *final(self)),
            old(self).minute_count == 59 && old(self).hour_count == 23 ==> day_rolled(*old(self),
                *final(self)),
    {
        let previous_minute = self.minute_count;
        let next_minute = (previous_minute + 1) % MIN_PER_HOUR;
        proof {
            if previous_minute + 1 < 60 {
                vstd::arithmetic::div_mod::lemma_small_mod((previous_minute + 1) as nat, 60nat);
            } else {
                vstd::arithmetic::div_mod::lemma_mod_self_0(60int);
            }
        }
        let minute_level = self.minute_level;
        roll_all(&mut self.one_hour, &mut self.trend_by_minute, previous_minute, next_minute,
            minute_level, MIN_PER_HOUR);
        self.minute_count = next_minute;
        if minute_level < MIN_PER_HOUR as u64 {
            self.minute_level = minute_level + 1;
        }
        self.ticks = Ghost(self.ticks@ + 1);
        proof {
            lemma_rolled_res_wf(old(self).one_hour@, self.one_hour@, old(self).trend_by_minute@,
                self.trend_by_minute@, 60, old(self).minute_count as int, old(self).minute_level,
                old(self).ticks@, old(self).keys@.len() as int);
        }
        if next_minute == 0 {
            self.hour_complete();
        }
    }

    /// Rolls the hour buffers over; cascades to the day buffers exactly when
    /// the hour cursor wraps.
    fn hour_complete(&mut self)
        requires
            res_wf(old(self).one_day@, old(self).trend_by_hour@, 24, old(self).hour_count as int,
                old(self).hour_level as int, old(self).hour_ticks@, old(self).keys@.len() as int),
            res_wf(old(self).one_week@, old(self).trend_by_day@, 7, old(self).day_count as int,
                old(self).day_level as int, old(self).day_ticks@, old(self).keys@.len() as int),
            old(self).hour_ticks@ == 24 * old(self).day_ticks@ + old(self).hour_count,
        ensures
            hour_rolled(*old(self), *final(self)),
            old(self).hour_count != 23 ==> day_unchanged(*old(self), *final(self)),
            old(self).hour_count == 23 ==> day_rolled(*old(self), *final(self)),
            final(self).one_hour == old(self).one_hour,
            final(self).trend_by_minute == old(self).trend_by_minute,
            final(self).minute_count == old(self).minute_count,
            final(self).minute_level == old(self).minute_level,
            final(self).ticks == old(self).ticks,
            final(self).keys == old(self).keys,
            res_wf(final(self).one_day@, final(self).trend_by_hour@, 24,
                final(self).hour_count as int, final(self).hour_level as int,
                final(self).hour_ticks@, old(self).keys@.len() as int),
            res_wf(final(self).one_week@, final(self).trend_by_day@, 7,
                final(self).day_count as int, final(self).day_level as int,
                final(self).day_ticks@, old(self).keys@.len() as int),
            final(self).hour_ticks@ == 24 * final(self).day_ticks@ + final(self).hour_count,
    {
        let previous_hour = self.hour_count;
        let next_hour = (previous_hour + 1) % HOURS_PER_DAY;
        proof {
            if previous_hour + 1 < 24 {
                vstd::arithmetic::div_mod::lemma_small_mod((previous_hour + 1) as nat, 24nat);
            } else {
                vstd::arithmetic::div_mod::lemma_mod_self_0(24int);
            }
        }
        let hour_level = self.hour_level;
        roll_all(&mut self.one_day, &mut self.trend_by_hour, previous_hour, next_hour, hour_level,
            HOURS_PER_DAY);
        self.hour_count = next_hour;
        if hour_level < HOURS_PER_DAY as u64 {
            self.hour_level = hour_level + 1;
        }
        self.hour_ticks = Ghost(self.hour_ticks@ + 1);
        proof {
            lemma_rolled_res_wf(old(self).one_day@, self.one_day@, old(self).trend_by_hour@,
                self.trend_by_hour@, 24, old(self).hour_count as int, old(self).hour_level,
                old(self).hour_ticks@, old(self).keys@.len() as int);
        }
        if next_hour == 0 {
            self.day_complete();
        }
    }

    /// Rolls the day buffers over. The week-level day buffer cascades no
    /// further.
    fn day_complete(&mut self)
        requires
            res_wf(old(self).one_week@, old(self).trend_by_day@, 7, old(self).day_count as int,
                old(self).day_level as int, old(self).day_ticks@, old(self).keys@.len() as int),
        ensures
            day_rolled(*old(self), *final(self)),
            final(self).one_hour == old(self).one_hour,
            final(self).trend_by_minute == old(self).trend_by_minute,
            final(self).minute_count == old(self).minute_count,
            final(self).minute_level == old(self).minute_level,
            final(self).ticks == old(self).ticks,
            final(self).one_day == old(self).one_day,
            final(self).trend_by_hour == old(self).trend_by_hour,
            final(self).hour_count == old(self).hour_count,
            final(self).hour_level == old(self).hour_level,
            final(self).hour_ticks == old(self).hour_ticks,
            final(self).keys == old(self).keys,
            res_wf(final(self).one_week@, final(self).trend_by_day@, 7,
                final(self).day_count as int, final(self).day_level as int,
                final(self).day_ticks@, old(self).keys@.len() as int),
    {
        let previous_day = self.day_count;
        let next_day = (previous_day + 1) % DAYS_PER_WEEK;
        proof {
            if previous_day + 1 < 7 {
                vstd::arithmetic::div_mod::lemma_small_mod((previous_day + 1) as nat, 7nat);
            } else {
                vstd::arithmetic::div_mod::lemma_mod_self_0(7int);
            }
        }
        let day_level = self.day_level;
        roll_all(&mut self.one_week, &mut self.trend_by_day, previous_day, next_day, day_level,
            DAYS_PER_WEEK);
        self.day_count = next_day;
        if day_level < DAYS_PER_WEEK as u64 {
            self.day_level = day_level + 1;
        }
        self.day_ticks = Ghost(self.day_ticks@ + 1);
        proof {
            lemma_rolled_res_wf(old(self).one_week@, self.one_week@, old(self).trend_by_day@,
                self.trend_by_day@, 7, old(self).day_count as int, old(self).day_level,
                old(self).day_ticks@, old(self).keys@.len() as int);
        }
    }
}

/// Rolls every row of one resolution over, with its statistics.
fn roll_all(
    rows: &mut Vec<Vec<u64>>,
    stats: &mut Vec<TrendStat>,
    prev: usize,
    next: usize,
    level: u64,
    cap: usize,
)
    requires
        old(rows).len() == old(stats).len(),
        2 <= cap <= 60,
        prev < cap,
        next < cap,
        prev != next,
        level >= 1,
        forall|k: int| 0 <= k < old(rows).len() ==> (#[trigger] old(rows)@[k])@.len() == cap,
        forall|k: int| 0 <= k < old(stats).len() ==> stat_wf(#[trigger] old(stats)@[k]),
        forall|k: int| 0 <= k < old(rows).len() ==> row_linked((#[trigger] old(rows)@[k])@,
            prev as int, old(stats)@[k]),
    ensures
        rows_rolled(old(rows)@, final(rows)@, next as int),
        stats_rolled(old(stats)@, final(stats)@, old(rows)@, prev as int, next as int, level),
        forall|k: int| 0 <= k < old(stats).len() ==> stat_wf(#[trigger] final(stats)@[k]),
        forall|k: int| 0 <= k < old(rows).len() ==> row_linked((#[trigger] final(rows)@[k])@,
            next as int, final(stats)@[k]),
{
    let n = rows.len();
    let mut k: usize = 0;
    while k < n
        invariant
            k <= n,
            n == old(rows)@.len(),
            n == old(stats)@.len(),
            rows@.len() == n,
            stats@.len() == n,
            2 <= cap <= 60,
            prev < cap,
            next < cap,
            prev != next,
            level >= 1,
            forall|j: int| 0 <= j < n ==> (#[trigger] old(rows)@[j])@.len() == cap,
            forall|j: int| 0 <= j < n ==> stat_wf(#[trigger] old(stats)@[j]),
            forall|j: int| 0 <= j < n ==> row_linked((#[trigger] old(rows)@[j])@, prev as int,
                old(stats)@[j]),
            forall|j: int| 0 <= j < k ==> (#[trigger] rows@[j])@ == old(rows)@[j]@.update(
                next as int, 0u64),
            forall|j: int| 0 <= j < k ==> rolled_stat(old(stats)@[j], #[trigger] stats@[j],
                old(rows)@[j]@[prev as int], old(rows)@[j]@[next as int], level),
            forall|j: int| 0 <= j < k ==> stat_wf(#[trigger] stats@[j]),
            forall|j: int| 0 <= j < k ==> row_linked((#[trigger] rows@[j])@, next as int,
                stats@[j]),
            forall|j: int| k <= j < n ==> #[trigger] rows@[j] == old(rows)@[j],
            forall|j: int| k <= j < n ==> #[trigger] stats@[j] == old(stats)@[j],
        decreases n - k,
    {
        roll_row(&mut rows[k], &mut stats[k], prev, next, level);
        k += 1;
    }
}

/// One rollover preserves a resolution's well-formedness and advances its
/// cursor, warm level and rollover count together.
proof fn lemma_rolled_res_wf(
    pre_rows: Seq<Vec<u64>>,
    post_rows: Seq<Vec<u64>>,
    pre_stats: Seq<TrendStat>,
    post_stats: Seq<TrendStat>,
    cap: int,
    count: int,
    level: u64,
    rticks: nat,
    nkeys: int,
)
    requires
        res_wf(pre_rows, pre_stats, cap, count, level as int, rticks, nkeys),
        rows_rolled(pre_rows, post_rows, next_slot(count, cap)),
        stats_rolled(pre_stats, post_stats, pre_rows, count, next_slot(count, cap), level),
        forall|k: int| 0 <= k < nkeys ==> stat_wf(#[trigger] post_stats[k]),
        forall|k: int| 0 <= k < nkeys ==> row_linked((#[trigger] post_rows[k])@,
            next_slot(count, cap), post_stats[k]),
    ensures
        res_wf(post_rows, post_stats, cap, next_slot(count, cap), if level < cap {
            level as int + 1
        } else {
            cap
        }, rticks + 1, nkeys),
{
    let next = next_slot(count, cap);
    let new_level: int = if level < cap {
        level as int + 1
    } else {
        cap
    };
    assert forall|k: int| 0 <= k < nkeys implies (#[trigger] post_rows[k])@.len() == cap by {
        assert(post_rows[k]@ == pre_rows[k]@.update(next, 0u64));
    }
    if new_level < cap {
        assert forall|k: int, i: int| 0 <= k < nkeys && new_level <= i < cap implies (
        #[trigger] post_rows[k]@[i]) == 0 by {
            assert(post_rows[k]@ == pre_rows[k]@.update(next, 0u64));
            assert(pre_rows[k]@[i] == 0);
        }
    }
}

/// A bump of the cursor bucket of one row preserves the resolution's
/// well-formedness: the running sums leave the cursor bucket out, and the
/// bucket bumped lies inside the warm region.
proof fn lemma_bumped_res_wf(
    pre: Seq<Vec<u64>>,
    post: Seq<Vec<u64>>,
    stats: Seq<TrendStat>,
    cap: int,
    count: int,
    level: int,
    rticks: nat,
    nkeys: int,
    index: int,
)
    requires
        res_wf(pre, stats, cap, count, level, rticks, nkeys),
        0 <= index < nkeys,
        bumped_rows(pre, post, index, count),
    ensures
        res_wf(post, stats, cap, count, level, rticks, nkeys),
{
    let v = sat_inc(pre[index]@[count]);
    assert forall|k: int| 0 <= k < nkeys implies (#[trigger] post[k])@.len() == cap by {
        if k == index {
            assert(post[k]@ == pre[k]@.update(count, v));
        } else {
            assert(post[k] == pre[k]);
        }
    }
    assert forall|k: int| 0 <= k < nkeys implies row_linked((#[trigger] post[k])@, count,
        stats[k]) by {
        if k == index {
            let old_row = pre[k]@;
            lemma_range_sum_update(old_row, 0, cap, count, v);
            assert(post[k]@ == old_row.update(count, v));
            assert(seq_sum(post[k]@) == seq_sum(old_row) - old_row[count] + v);
        } else {
            assert(post[k] == pre[k]);
        }
    }
    if level < cap {
        assert forall|k: int, i: int| 0 <= k < nkeys && level <= i < cap implies (
        #[trigger] post[k]@[i]) == 0 by {
            assert(pre[k]@[i] == 0);
            if k == index {
                assert(post[k]@ == pre[k]@.update(count, v));
                assert(count < level);
            } else {
                assert(post[k] == pre[k]);
            }
        }
    }
}

/// Bumps the bucket at `slot` of row `index` by one, saturating.
fn bump_row(rows: &mut Vec<Vec<u64>>, index: usize, slot: usize)
    requires
        index < old(rows).len(),
        slot < old(rows)@[index as int]@.len(),
    ensures
        bumped_rows(old(rows)@, final(rows)@, index as int, slot as int),
{
    let row = &mut rows[index];
    let v = row[slot];
    let nv = if v == u64::MAX {
        v
    } else {
        v + 1
    };
    row.set(slot, nv);
}

/// A fresh column of `key_len` rows of `data_len` zeroed buckets.
fn init_buffer(key_len: usize, data_len: usize) -> (b: Vec<Vec<u64>>)
    ensures
        b@.len() == key_len,
        forall|k: int| 0 <= k < key_len ==> (#[trigger] b@[k])@ =~= Seq::new(data_len as nat,
            |i: int| 0u64),
{
    let mut b: Vec<Vec<u64>> = Vec::new();
    let mut k: usize = 0;
    while k < key_len
        invariant
            k <= key_len,
            b@.len() == k,
            forall|j: int| 0 <= j < k ==> (#[trigger] b@[j])@ =~= Seq::new(data_len as nat,
                |i: int| 0u64),
        decreases key_len - k,
    {
        let mut row: Vec<u64> = Vec::new();
        let mut i: usize = 0;
        while i < data_len
            invariant
                i <= data_len,
                row@.len() == i,
                forall|j: int| 0 <= j < i ==> row@[j] == 0u64,
            decreases data_len - i,
        {
            row.push(0);
            i += 1;
        }
        b.push(row);
        k += 1;
    }
    b
}

/// A fresh column of `key_len` zeroed statistics.
fn init_stats(key_len: usize) -> (s: Vec<TrendStat>)
    ensures
        s@.len() == key_len,
        forall|k: int| 0 <= k < key_len ==> #[trigger] s@[k] == spec_fresh_stat(),
{
    let mut s: Vec<TrendStat> = Vec::new();
    let mut k: usize = 0;
    while k < key_len
        invariant
            k <= key_len,
            s@.len() == k,
            forall|j: int| 0 <= j < k ==> #[trigger] s@[j] == spec_fresh_stat(),
        decreases key_len - k,
    {
        s.push(fresh_stat());
        k += 1;
    }
    s
}

} // verus!
