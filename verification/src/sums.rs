//! Mathematical sums over ring-buffer contents.
//!
//! A window buffer is a sequence of `u64` counters with a cursor; the running
//! statistics are stated as sums over parts of that sequence. This module
//! holds the spec-level sum functions and the lemmas connecting them: sums
//! over index ranges, the sum of a whole buffer, and the sum of the last `k`
//! buckets counted backwards from the cursor around the ring.

use vstd::prelude::*;

verus! {

/// Sum of the values of `s` at indices in `[lo, hi)`.
pub open spec fn range_sum(s: Seq<u64>, lo: int, hi: int) -> int
    decreases hi - lo,
{
    if lo >= hi {
        0
    } else {
        s[lo] + range_sum(s, lo + 1, hi)
    }
}

/// Sum of all values of `s`.
pub open spec fn seq_sum(s: Seq<u64>) -> int {
    range_sum(s, 0, s.len() as int)
}

/// The ring position `j` steps behind `cursor` in a buffer of length `n`.
pub open spec fn back_pos(cursor: int, j: int, n: int) -> int {
    (cursor - j + n) % n
}

/// Sum of the `k` buckets behind `cursor`, wrapping around the ring:
/// positions `cursor - 1`, `cursor - 2`, ..., `cursor - k`, taken modulo the
/// buffer length. This is the sum of the most recent `k` finalized periods.
pub open spec fn window_sum(s: Seq<u64>, cursor: int, k: int) -> int
    decreases k,
{
    if k <= 0 {
        0
    } else {
        window_sum(s, cursor, k - 1) + s[back_pos(cursor, k, s.len() as int)]
    }
}

/// A range sum splits at any midpoint.
pub proof fn lemma_range_sum_split(s: Seq<u64>, lo: int, mid: int, hi: int)
    requires
        0 <= lo <= mid <= hi <= s.len(),
    ensures
        range_sum(s, lo, hi) == range_sum(s, lo, mid) + range_sum(s, mid, hi),
    decreases mid - lo,
{
    if lo < mid {
        lemma_range_sum_split(s, lo + 1, mid, hi);
    }
}

/// Range sums of unsigned values are non-negative.
pub proof fn lemma_range_sum_nonneg(s: Seq<u64>, lo: int, hi: int)
    requires
        0 <= lo, hi <= s.len(),
    ensures
        range_sum(s, lo, hi) >= 0,
    decreases hi - lo,
{
    if lo < hi {
        lemma_range_sum_nonneg(s, lo + 1, hi);
    }
}

/// A range sum of `u64` values is bounded by the number of summands times
/// the largest `u64` value.
pub proof fn lemma_range_sum_bound(s: Seq<u64>, lo: int, hi: int)
    requires
        0 <= lo <= hi <= s.len(),
    ensures
        range_sum(s, lo, hi) <= (hi - lo) * (u64::MAX as int),
    decreases hi - lo,
{
    if lo == hi {
        assert((hi - lo) * (u64::MAX as int) == 0) by (nonlinear_arith)
            requires hi == lo,
        {};
    } else {
        lemma_range_sum_bound(s, lo + 1, hi);
        assert((hi - lo) * (u64::MAX as int) == (hi - (lo + 1)) * (u64::MAX as int) + u64::MAX)
            by (nonlinear_arith);
    }
}

/// A range of zeros sums to zero.
pub proof fn lemma_range_sum_zero(s: Seq<u64>, lo: int, hi: int)
    requires
        0 <= lo, hi <= s.len(),
        forall|i: int| lo <= i < hi ==> s[i] == 0,
    ensures
        range_sum(s, lo, hi) == 0,
    decreases hi - lo,
{
    if lo < hi {
        lemma_range_sum_zero(s, lo + 1, hi);
    }
}

/// Two distinct elements together are at most the whole sum.
pub proof fn lemma_pair_le_seq_sum(s: Seq<u64>, i: int, j: int)
    requires
        0 <= i < s.len(),
        0 <= j < s.len(),
        i != j,
    ensures
        s[i] + s[j] <= seq_sum(s),
{
    let lo = if i < j { i } else { j };
    let hi = if i < j { j } else { i };
    let n = s.len() as int;
    lemma_range_sum_split(s, 0, lo, n);
    lemma_range_sum_split(s, lo, lo + 1, n);
    lemma_range_sum_split(s, lo + 1, hi, n);
    lemma_range_sum_split(s, hi, hi + 1, n);
    lemma_range_sum_nonneg(s, 0, lo);
    lemma_range_sum_nonneg(s, lo + 1, hi);
    lemma_range_sum_nonneg(s, hi + 1, n);
}

/// Updating one position changes a range sum by the difference at that
/// position; positions outside the range leave it unchanged.
pub proof fn lemma_range_sum_update(s: Seq<u64>, lo: int, hi: int, i: int, v: u64)
    requires
        0 <= lo, hi <= s.len(),
        0 <= i < s.len(),
    ensures
        lo <= i < hi ==> range_sum(s.update(i, v), lo, hi) == range_sum(s, lo, hi) - s[i] + v,
        !(lo <= i < hi) ==> range_sum(s.update(i, v), lo, hi) == range_sum(s, lo, hi),
    decreases hi - lo,
{
    if lo < hi {
        lemma_range_sum_update(s, lo + 1, hi, i, v);
    }
}

/// A window that does not wrap around is a plain range sum.
pub proof fn lemma_window_sum_no_wrap(s: Seq<u64>, cursor: int, k: int)
    requires
        1 <= s.len(),
        0 <= cursor < s.len(),
        0 <= k <= cursor,
    ensures
        window_sum(s, cursor, k) == range_sum(s, cursor - k, cursor),
    decreases k,
{
    let n = s.len() as int;
    if k > 0 {
        lemma_window_sum_no_wrap(s, cursor, k - 1);
        assert(back_pos(cursor, k, n) == cursor - k) by {
            vstd::arithmetic::div_mod::lemma_mod_add_multiples_vanish(cursor - k, n);
            vstd::arithmetic::div_mod::lemma_small_mod((cursor - k) as nat, n as nat);
        };
        assert(range_sum(s, cursor - k, cursor) == s[cursor - k] + range_sum(s, cursor - k + 1,
            cursor));
    }
}

/// A window that wraps around the ring splits into the prefix before the
/// cursor and a suffix at the end of the buffer.
pub proof fn lemma_window_sum_wrap(s: Seq<u64>, cursor: int, k: int)
    requires
        1 <= s.len(),
        0 <= cursor < s.len(),
        cursor < k <= s.len(),
    ensures
        window_sum(s, cursor, k) == range_sum(s, 0, cursor) + range_sum(s, cursor - k + s.len(), s.len() as int),
    decreases k,
{
    let n = s.len() as int;
    assert(back_pos(cursor, k, n) == cursor - k + n) by {
        vstd::arithmetic::div_mod::lemma_small_mod((cursor - k + n) as nat, n as nat);
    };
    if k == cursor + 1 {
        lemma_window_sum_no_wrap(s, cursor, cursor);
        assert(window_sum(s, cursor, k) == window_sum(s, cursor, cursor) + s[cursor - k + n]);
        assert(range_sum(s, n, n) == 0);
        assert(range_sum(s, n - 1, n) == s[n - 1] + range_sum(s, n, n));
    } else {
        lemma_window_sum_wrap(s, cursor, k - 1);
        assert(range_sum(s, cursor - k + n, n) == s[cursor - k + n] + range_sum(s, cursor - k + n
            + 1, n));
    }
}

} // verus!
