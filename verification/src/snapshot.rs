//! Immutable snapshots of the tracking state.
//!
//! A snapshot is a value copy of every tracked key's state — name, the raw
//! contents of all three ring buffers, and the three trend statistics — safe
//! to hand to any number of consumers with no further synchronization. All
//! three resolutions' statistics are exported, the day level included.

use vstd::prelude::*;

use crate::rollup::TrendStat;
use crate::tracking::Tracking;

verus! {

/// The exported state of one tracked key.
pub struct SnapshotEntry {
    /// The tracked keyword.
    pub name: String,
    /// The minute buffer: the last hour's counts, in slot order.
    pub current_hour: Vec<u64>,
    /// The hour buffer: the last day's counts, in slot order.
    pub current_day: Vec<u64>,
    /// The day buffer: the last week's counts, in slot order.
    pub current_week: Vec<u64>,
    /// Moving average and trend per minute over one hour.
    pub trend_by_minute: TrendStat,
    /// Moving average and trend per hour over one day.
    pub trend_by_hour: TrendStat,
    /// Moving average and trend per day over one week.
    pub trend_by_day: TrendStat,
}

/// A point-in-time copy of the whole tracking state, one entry per key.
pub struct Snapshot {
    pub entries: Vec<SnapshotEntry>,
}

/// The snapshot is an exact copy of the tracking state.
pub open spec fn snapshot_matches(t: Tracking, s: Snapshot) -> bool {
    &&& s.entries@.len() == t.key_count()
    &&& forall|k: int| 0 <= k < t.key_count() ==> {
        let e = #[trigger] s.entries@[k];
        &&& e.name@ == t.keys@[k]
        &&& e.current_hour@ == t.one_hour@[k]@
        &&& e.current_day@ == t.one_day@[k]@
        &&& e.current_week@ == t.one_week@[k]@
        &&& e.trend_by_minute == t.trend_by_minute@[k]
        &&& e.trend_by_hour == t.trend_by_hour@[k]
        &&& e.trend_by_day == t.trend_by_day@[k]
    }
}

/// A value copy of a counter row.
fn copy_row(row: &Vec<u64>) -> (c: Vec<u64>)
    ensures
        c@ == row@,
{
    let mut c: Vec<u64> = Vec::new();
    let mut i: usize = 0;
    while i < row.len()
        invariant
            i <= row@.len(),
            c@ =~= row@.take(i as int),
        decreases row@.len() - i,
    {
        c.push(row[i]);
        proof {
            assert(row@.take(i + 1) =~= row@.take(i as int).push(row@[i as int]));
        }
        i += 1;
    }
    proof {
        assert(row@.take(row@.len() as int) =~= row@);
    }
    c
}

impl Tracking {
    /// Publishes a fresh snapshot: an exact value copy of the current state,
    /// with no identity beyond the moment it is handed out.
    pub fn snapshot(&self) -> (s: Snapshot)
        requires
            self.wf(),
        ensures
            snapshot_matches(*self, s),
    {
        let n = self.keys.len();
        let mut entries: Vec<SnapshotEntry> = Vec::new();
        let mut k: usize = 0;
        while k < n
            invariant
                self.wf(),
                n == self.key_count(),
                k <= n,
                entries@.len() == k,
                forall|j: int| 0 <= j < k ==> {
                    let e = #[trigger] entries@[j];
                    &&& e.name@ == self.keys@[j]
                    &&& e.current_hour@ == self.one_hour@[j]@
                    &&& e.current_day@ == self.one_day@[j]@
                    &&& e.current_week@ == self.one_week@[j]@
                    &&& e.trend_by_minute == self.trend_by_minute@[j]
                    &&& e.trend_by_hour == self.trend_by_hour@[j]
                    &&& e.trend_by_day == self.trend_by_day@[j]
                },
            decreases n - k,
        {
            let entry = SnapshotEntry {
                name: self.keys.name_at(k),
                current_hour: copy_row(&self.one_hour[k]),
                current_day: copy_row(&self.one_day[k]),
                current_week: copy_row(&self.one_week[k]),
                trend_by_minute: self.trend_by_minute[k],
                trend_by_hour: self.trend_by_hour[k],
                trend_by_day: self.trend_by_day[k],
            };
            entries.push(entry);
            k += 1;
        }
        Snapshot { entries }
    }
}

} // verus!
