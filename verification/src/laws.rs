//! The stated laws of the aggregation engine, proved once and for all:
//! the bounded-window sum invariant, warm-level saturation, the trend
//! formula, and the exactness of the rollover cascade.

use vstd::prelude::*;

use crate::rollup::{lemma_running_sum_is_window, rolled_stat, TrendStat};
use crate::sums::window_sum;
use crate::tracking::{day_rolled, hour_rolled, minute_rolled, next_slot, rows_rolled, Tracking};

verus! {

/// Bounded-window sum invariant, minute resolution: right after a tick (the
/// cursor bucket is still zero), the running sum equals the sum of the last
/// `min(warm level, 60)` buckets counted backwards from the cursor. This
/// holds after every tick of every sequence of increments and ticks, since
/// `wf()` is maintained by every operation and a tick leaves the cursor
/// bucket zero.
pub proof fn lemma_bounded_window_sum_minute(t: Tracking, k: int)
    requires
        t.wf(),
        0 <= k < t.key_count(),
        t.one_hour@[k]@[t.minute_count as int] == 0,
    ensures
        t.trend_by_minute@[k].running_sum == window_sum(t.one_hour@[k]@, t.minute_count as int,
            if t.minute_level < 60 { t.minute_level as int } else { 60 }),
{
    lemma_running_sum_is_window(t.one_hour@[k]@, t.minute_count as int, t.minute_level as int,
        t.trend_by_minute@[k].running_sum as int);
}

/// Bounded-window sum invariant, hour resolution: as for the minute level,
/// right after an hour rollover.
pub proof fn lemma_bounded_window_sum_hour(t: Tracking, k: int)
    requires
        t.wf(),
        0 <= k < t.key_count(),
        t.one_day@[k]@[t.hour_count as int] == 0,
    ensures
        t.trend_by_hour@[k].running_sum == window_sum(t.one_day@[k]@, t.hour_count as int,
            if t.hour_level < 24 { t.hour_level as int } else { 24 }),
{
    lemma_running_sum_is_window(t.one_day@[k]@, t.hour_count as int, t.hour_level as int,
        t.trend_by_hour@[k].running_sum as int);
}

/// Bounded-window sum invariant, day resolution: as for the minute level,
/// right after a day rollover.
pub proof fn lemma_bounded_window_sum_day(t: Tracking, k: int)
    requires
        t.wf(),
        0 <= k < t.key_count(),
        t.one_week@[k]@[t.day_count as int] == 0,
    ensures
        t.trend_by_day@[k].running_sum == window_sum(t.one_week@[k]@, t.day_count as int,
            if t.day_level < 7 { t.day_level as int } else { 7 }),
{
    lemma_running_sum_is_window(t.one_week@[k]@, t.day_count as int, t.day_level as int,
        t.trend_by_day@[k].running_sum as int);
}

/// Bounded-window sum invariant after a tick: whatever sequence of
/// increments and ticks produced `pre`, one tick leaves every key's minute
/// running sum equal to the sum of the last `min(warm level, 60)` buckets.
/// The hypotheses are exactly `minute_complete`'s postconditions.
pub proof fn lemma_bounded_window_sum_after_tick(pre: Tracking, post: Tracking, k: int)
    requires
        pre.wf(),
        post.wf(),
        minute_rolled(pre, post),
        0 <= k < post.key_count(),
    ensures
        post.trend_by_minute@[k].running_sum == window_sum(post.one_hour@[k]@,
            post.minute_count as int, if post.minute_level < 60 {
                post.minute_level as int
            } else {
                60
            }),
{
    let next = next_slot(pre.minute_count as int, 60);
    assert(rows_rolled(pre.one_hour@, post.one_hour@, next));
    assert(post.one_hour@[k]@ == pre.one_hour@[k]@.update(next, 0u64));
    assert(post.minute_count == next);
    assert(pre.one_hour@[k]@.len() == 60);
    assert(post.one_hour@[k]@[post.minute_count as int] == 0);
    lemma_bounded_window_sum_minute(post, k);
}

/// Bounded-window sum invariant after an hour rollover, as for the minute
/// level.
pub proof fn lemma_bounded_window_sum_after_hour_rollover(pre: Tracking, post: Tracking, k: int)
    requires
        pre.wf(),
        post.wf(),
        hour_rolled(pre, post),
        0 <= k < post.key_count(),
    ensures
        post.trend_by_hour@[k].running_sum == window_sum(post.one_day@[k]@,
            post.hour_count as int, if post.hour_level < 24 {
                post.hour_level as int
            } else {
                24
            }),
{
    let next = next_slot(pre.hour_count as int, 24);
    assert(rows_rolled(pre.one_day@, post.one_day@, next));
    assert(post.one_day@[k]@ == pre.one_day@[k]@.update(next, 0u64));
    assert(post.hour_count == next);
    assert(pre.one_day@[k]@.len() == 24);
    assert(post.one_day@[k]@[post.hour_count as int] == 0);
    lemma_bounded_window_sum_hour(post, k);
}

/// Bounded-window sum invariant after a day rollover, as for the minute
/// level.
pub proof fn lemma_bounded_window_sum_after_day_rollover(pre: Tracking, post: Tracking, k: int)
    requires
        pre.wf(),
        post.wf(),
        day_rolled(pre, post),
        0 <= k < post.key_count(),
    ensures
        post.trend_by_day@[k].running_sum == window_sum(post.one_week@[k]@,
            post.day_count as int, if post.day_level < 7 {
                post.day_level as int
            } else {
                7
            }),
{
    let next = next_slot(pre.day_count as int, 7);
    assert(rows_rolled(pre.one_week@, post.one_week@, next));
    assert(post.one_week@[k]@ == pre.one_week@[k]@.update(next, 0u64));
    assert(post.day_count == next);
    assert(pre.one_week@[k]@.len() == 7);
    assert(post.one_week@[k]@[post.day_count as int] == 0);
    lemma_bounded_window_sum_day(post, k);
}

/// Warm-level saturation: starting from a fresh state (warm level 1 at zero
/// ticks), each warm level is one more than the rollovers seen, until it
/// reaches its capacity — after 59 minute ticks the minute level is 60 — and
/// stays there for all further ticks.
pub proof fn lemma_warm_level_saturation(t: Tracking)
    requires
        t.wf(),
    ensures
        t.ticks@ + 1 < 60 ==> t.minute_level == t.ticks@ + 1,
        t.ticks@ + 1 >= 60 ==> t.minute_level == 60,
        t.hour_ticks@ + 1 < 24 ==> t.hour_level == t.hour_ticks@ + 1,
        t.hour_ticks@ + 1 >= 24 ==> t.hour_level == 24,
        t.day_ticks@ + 1 < 7 ==> t.day_level == t.day_ticks@ + 1,
        t.day_ticks@ + 1 >= 7 ==> t.day_level == 7,
{
}

/// Trend formula: when the new running sum (and so the moving average) is
/// not zero, the stored trend pair `-trend_down / trend_den` equals, as an
/// exact rational, the specified
/// `((finalized / level) - average) / average * 100` with
/// `average == running_sum / level`: cross-multiplied, the two fractions
/// agree. (When the new running sum is zero, `rolled_stat` states directly
/// that the trend is left unchanged.)
pub proof fn lemma_trend_formula(
    pre: TrendStat,
    post: TrendStat,
    finalized: u64,
    evicted: u64,
    level: u64,
)
    requires
        level >= 1,
        rolled_stat(pre, post, finalized, evicted, level),
        pre.running_sum - evicted + finalized != 0,
    ensures
        post.running_sum == pre.running_sum - evicted + finalized,
        post.avg_window == level,
        post.trend_den == post.running_sum,
        (100 * (finalized - post.running_sum) * level) * (post.trend_den as int) == (0
            - post.trend_down) * (level * post.running_sum),
{
    let s = post.running_sum as int;
    let f = finalized as int;
    let l = level as int;
    assert((100 * (f - s) * l) * s == (0 - (100 * (s - f))) * (l * s)) by (nonlinear_arith);
}

/// Cascade exactness, stated over the tick ordinal: a tick cascades to the
/// hour level exactly when it is a multiple of 60 (the minute cursor is at
/// 59), and to the day level exactly when it is a multiple of 1440 (minute
/// cursor 59 and hour cursor 23). Together with `minute_complete`'s
/// contract — which rolls the hour state exactly when the minute cursor is
/// 59 — this pins the cascade schedule.
pub proof fn lemma_cascade_criterion(t: Tracking)
    requires
        t.wf(),
    ensures
        (t.minute_count == 59) <==> ((t.ticks@ + 1) % 60 == 0),
        (t.minute_count == 59 && t.hour_count == 23) <==> ((t.ticks@ + 1) % 1440 == 0),
{
    let h = t.hour_ticks@ as int;
    let d = t.day_ticks@ as int;
    let mc = t.minute_count as int;
    let hc = t.hour_count as int;
    let next = t.ticks@ as int + 1;
    assert(next == 60 * h + mc + 1);
    assert(h == 24 * d + hc);
    if mc == 59 {
        assert(next == (h + 1) * 60);
        vstd::arithmetic::div_mod::lemma_mod_multiples_basic(h + 1, 60);
        if hc == 23 {
            assert(next == (d + 1) * 1440) by (nonlinear_arith)
                requires next == (h + 1) * 60 && h + 1 == 24 * (d + 1),
            {};
            vstd::arithmetic::div_mod::lemma_mod_multiples_basic(d + 1, 1440);
        } else {
            assert(next == d * 1440 + (60 * hc + 60)) by (nonlinear_arith)
                requires next == (h + 1) * 60 && h == 24 * d + hc,
            {};
            vstd::arithmetic::div_mod::lemma_fundamental_div_mod_converse_mod(next, 1440, d, 60
                * hc + 60);
        }
    } else {
        vstd::arithmetic::div_mod::lemma_fundamental_div_mod_converse_mod(next, 60, h, mc + 1);
        assert(next == d * 1440 + (60 * hc + mc + 1)) by (nonlinear_arith)
            requires next == 60 * h + mc + 1 && h == 24 * d + hc,
        {};
        vstd::arithmetic::div_mod::lemma_fundamental_div_mod_converse_mod(next, 1440, d, 60 * hc
            + mc + 1);
    }
}

/// In any window of `m` consecutive tick ordinals there is exactly one at
/// which the next tick count is a multiple of `m`: with `m == 60`, exactly
/// one tick of any 60 consecutive ticks cascades to the hour level; with
/// `m == 1440`, exactly one tick of any 1440 cascades to the day level.
pub proof fn lemma_single_cascade_in_window(a: nat, m: nat)
    requires
        m >= 1,
    ensures
        exists|k: nat| a <= k < a + m && #[trigger] ((k + 1) % m) == 0,
        forall|k1: nat, k2: nat|
            a <= k1 < a + m && a <= k2 < a + m && #[trigger] ((k1 + 1) % m) == 0
                && #[trigger] ((k2 + 1) % m) == 0 ==> k1 == k2,
{
    let mi = m as int;
    let ai = a as int;
    vstd::arithmetic::div_mod::lemma_mod_division_less_than_divisor(ai, mi);
    vstd::arithmetic::div_mod::lemma_fundamental_div_mod(ai, mi);
    let q = ai / mi;
    let r = ai % mi;
    assert(0 <= r < mi);
    assert(ai == mi * q + r);
    let k = (a + m - 1 - r) as nat;
    assert(k as int + 1 == (q + 1) * mi + 0) by (nonlinear_arith)
        requires
            ai == mi * q + r,
            k as int + 1 == ai + mi - r,
    {};
    vstd::arithmetic::div_mod::lemma_fundamental_div_mod_converse_mod(k as int + 1, mi, q + 1, 0);
    assert((k + 1) % m == 0);
    assert(a <= k < a + m);
    assert forall|k1: nat, k2: nat|
        a <= k1 < a + m && a <= k2 < a + m && #[trigger] ((k1 + 1) % m) == 0 && #[trigger] ((k2
            + 1) % m) == 0 implies k1 == k2 by {
        vstd::arithmetic::div_mod::lemma_fundamental_div_mod(k1 as int + 1, mi);
        vstd::arithmetic::div_mod::lemma_fundamental_div_mod(k2 as int + 1, mi);
        let q1 = (k1 as int + 1) / mi;
        let q2 = (k2 as int + 1) / mi;
        assert(k1 as int + 1 == mi * q1);
        assert(k2 as int + 1 == mi * q2);
        assert(q1 == q2) by (nonlinear_arith)
            requires
                k1 as int + 1 == mi * q1,
                k2 as int + 1 == mi * q2,
                mi >= 1,
                k1 as int + mi > k2 as int,
                k2 as int + mi > k1 as int,
        {};
    }
}

} // verus!
