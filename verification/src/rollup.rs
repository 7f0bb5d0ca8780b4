//! The rollup engine: one rollover step of a ring-buffer row and its paired
//! trend statistics.
//!
//! Each tracked key owns one counter row per resolution (minute, hour, day).
//! A rollover finalizes the bucket at the old cursor, evicts the bucket that
//! the cursor is about to reach, and updates the running statistics in O(1):
//!
//! * `running_sum += finalized - evicted`, kept exactly equal to the sum of
//!   the finalized buckets currently in the window;
//! * the moving average is the exact rational `running_sum / avg_window`;
//! * the trend percentage is the exact rational
//!   `((finalized / avg_window) - average) / average * 100`, which reduces to
//!   `-(100 * (running_sum - finalized)) / running_sum`; it is skipped when
//!   the average is zero.
//!
//! Counters are `u64`; sums are carried in `u128`, which cannot overflow for
//! rows of at most 60 buckets, so the statistics stay exact where the same
//! arithmetic on `u64` could wrap. All three statistics start from zero.

use vstd::prelude::*;

use crate::sums::{lemma_pair_le_seq_sum, lemma_range_sum_bound, lemma_range_sum_split,
    lemma_range_sum_update, lemma_range_sum_zero, lemma_window_sum_no_wrap,
    lemma_window_sum_wrap, seq_sum, window_sum};

verus! {

/// Running statistics of one window buffer: the running sum of the finalized
/// buckets in the window, and the moving average and trend percentage as
/// exact rationals.
///
/// * moving average = `running_sum / avg_window`;
/// * trend percentage = `-trend_down / trend_den` (never positive, since a
///   single period divided by the window size is at most the whole window
///   sum divided by the same size).
#[derive(Clone, Copy, Debug, PartialEq, Eq, Structural)]
pub struct TrendStat {
    /// Sum of the finalized buckets currently in the window.
    pub running_sum: u128,
    /// Divisor of the moving average: the warm level at the last rollover.
    pub avg_window: u64,
    /// Magnitude of the (non-positive) trend numerator:
    /// `100 * (running_sum - finalized)` at the last update.
    pub trend_down: u128,
    /// Trend denominator: the running sum at the last update.
    pub trend_den: u128,
}

/// Basic shape of a trend statistic: both divisors are at least one.
pub open spec fn stat_wf(st: TrendStat) -> bool {
    &&& st.avg_window >= 1
    &&& st.trend_den >= 1
}

/// The statistics of a window that has seen nothing yet: sum zero, average
/// zero (over a window of one period), trend zero.
pub open spec fn spec_fresh_stat() -> TrendStat {
    TrendStat { running_sum: 0, avg_window: 1, trend_down: 0, trend_den: 1 }
}

/// Exec constructor for the fresh statistic.
pub fn fresh_stat() -> (st: TrendStat)
    ensures
        st == spec_fresh_stat(),
{
    TrendStat { running_sum: 0, avg_window: 1, trend_down: 0, trend_den: 1 }
}

/// The running sum equals the sum of all buckets of the row except the one
/// at the cursor, which is still accumulating. This is the central window
/// invariant: every bucket but the cursor's holds a finalized period.
pub open spec fn row_linked(row: Seq<u64>, cursor: int, st: TrendStat) -> bool {
    st.running_sum == seq_sum(row) - row[cursor]
}

/// How one rollover rewrites a trend statistic, given the finalized and
/// evicted bucket values and the warm level in force at the rollover.
pub open spec fn rolled_stat(
    pre: TrendStat,
    post: TrendStat,
    finalized: u64,
    evicted: u64,
    level: u64,
) -> bool {
    let new_sum = pre.running_sum - evicted + finalized;
    &&& post.running_sum == new_sum
    &&& post.avg_window == level
    &&& (new_sum != 0 ==> post.trend_down == 100 * (new_sum - finalized) && post.trend_den
        == new_sum)
    &&& (new_sum == 0 ==> post.trend_down == pre.trend_down && post.trend_den == pre.trend_den)
}

/// One rollover of a single row and its statistics. `prev` is the cursor
/// whose bucket has just completed; `next` is the bucket being evicted and
/// cleared for the new period.
pub fn roll_row(row: &mut Vec<u64>, st: &mut TrendStat, prev: usize, next: usize, level: u64)
    requires
        2 <= old(row).len() <= 60,
        prev < old(row).len(),
        next < old(row).len(),
        prev != next,
        level >= 1,
        stat_wf(*old(st)),
        row_linked(old(row)@, prev as int, *old(st)),
    ensures
        final(row)@ == old(row)@.update(next as int, 0u64),
        rolled_stat(*old(st), *final(st), old(row)@[prev as int], old(row)@[next as int], level),
        stat_wf(*final(st)),
        row_linked(final(row)@, next as int, *final(st)),
{
    let ghost pre_row = row@;
    let n = row.len();
    let finalized = row[prev];
    let evicted = row[next];
    proof {
        lemma_pair_le_seq_sum(pre_row, prev as int, next as int);
        lemma_range_sum_bound(pre_row, 0, pre_row.len() as int);
        lemma_range_sum_update(pre_row, 0, pre_row.len() as int, next as int, 0u64);
    }
    row.set(next, 0);
    let new_sum: u128 = st.running_sum - (evicted as u128) + (finalized as u128);
    st.running_sum = new_sum;
    st.avg_window = level;
    if new_sum != 0 {
        st.trend_down = 100 * (new_sum - (finalized as u128));
        st.trend_den = new_sum;
    }
}

/// The bounded-window sum, stated over recency: right after a rollover (the
/// cursor bucket is still empty), the running sum equals the sum of the last
/// `min(level, capacity)` buckets counted backwards from the cursor.
///
/// The hypotheses are exactly the window invariants that `Tracking`
/// maintains: the cursor trails the warm level while the buffer is cold, the
/// never-written buckets are zero, and the running sum is the sum of the
/// finalized buckets.
pub proof fn lemma_running_sum_is_window(row: Seq<u64>, cursor: int, level: int, sum: int)
    requires
        2 <= row.len(),
        0 <= cursor < row.len(),
        1 <= level <= row.len(),
        level < row.len() ==> cursor == level - 1,
        level < row.len() ==> forall|i: int| level <= i < row.len() ==> row[i] == 0,
        row[cursor] == 0,
        sum == seq_sum(row) - row[cursor],
    ensures
        sum == window_sum(row, cursor, if level < row.len() { level } else { row.len() as int }),
{
    let n = row.len() as int;
    if level == n {
        assert(back_pos_is_cursor(row, cursor)) by {
            vstd::arithmetic::div_mod::lemma_small_mod(cursor as nat, n as nat);
        };
        if cursor == n - 1 {
            lemma_window_sum_no_wrap(row, cursor, n - 1);
            lemma_range_sum_split(row, 0, cursor, n);
            lemma_range_sum_split(row, cursor, cursor + 1, n);
        } else {
            lemma_window_sum_wrap(row, cursor, n - 1);
            lemma_range_sum_split(row, 0, cursor, n);
            lemma_range_sum_split(row, cursor, cursor + 1, n);
        }
    } else {
        lemma_window_sum_wrap(row, cursor, level);
        lemma_range_sum_split(row, 0, cursor, n);
        lemma_range_sum_split(row, cursor, cursor + 1, n);
        lemma_range_sum_zero(row, cursor + 1, n);
        lemma_range_sum_zero(row, n - 1, n);
    }
}

/// Helper naming the fact that position `capacity` steps behind the cursor
/// is the cursor itself.
spec fn back_pos_is_cursor(row: Seq<u64>, cursor: int) -> bool {
    crate::sums::back_pos(cursor, row.len() as int, row.len() as int) == cursor
}

} // verus!
