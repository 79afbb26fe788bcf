//! A bounded, time-stamped history of samples and the system health report.
use vstd::prelude::*;
use crate::string_map::StringMap;
use crate::time::elapsed_ms;

verus! {

/// The latest samples, each with the clock reading it was recorded at; the
/// oldest are dropped beyond the limit.
pub struct BoundedHistory<T> {
    entries: Vec<(u64, T)>,
    max_history: usize,
}

impl<T> BoundedHistory<T> {
    pub closed spec fn wf(&self) -> bool {
        self.entries@.len() <= self.max_history
    }

    /// The recorded samples with their clock readings, oldest first.
    pub closed spec fn entries(&self) -> Seq<(u64, T)> {
        self.entries@
    }

    pub closed spec fn limit(&self) -> usize {
        self.max_history
    }

    pub fn new(max_history: usize) -> (h: BoundedHistory<T>)
        ensures
            h.wf(),
            h.entries().len() == 0,
            h.limit() == max_history,
    {
        BoundedHistory { entries: Vec::new(), max_history }
    }

    /// Records a sample taken at `now_ms`, keeping only the latest `limit` samples.
    pub fn record(&mut self, now_ms: u64, sample: T)
        requires
            old(self).wf(),
        ensures
            final(self).wf(),
            final(self).limit() == old(self).limit(),
            ({
                let all = old(self).entries().push((now_ms, sample));
                final(self).entries() == all.skip(all.len() - (if all.len() > old(self).limit() {
                    old(self).limit() as int
                } else {
                    all.len() as int
                }))
            }),
    {
        self.entries.push((now_ms, sample));
        let ghost all = self.entries@;
        if self.entries.len() > self.max_history {
            let _dropped = self.entries.remove(0);
            assert(self.entries@ =~= all.skip(all.len() - self.max_history));
        } else {
            assert(self.entries@ =~= all.skip(0));
        }
    }

    /// The latest sample.
    pub fn latest(&self) -> (r: Option<&T>)
        ensures
            self.entries().len() == 0 ==> r is None,
            self.entries().len() > 0 ==> r == Some(&self.entries().last().1),
    {
        if self.entries.len() == 0 {
            None
        } else {
            Some(&self.entries[self.entries.len() - 1].1)
        }
    }

    /// The samples recorded at most `window_ms` before `now_ms`, oldest first.
    pub fn within(&self, window_ms: u64, now_ms: u64) -> (r: Vec<&T>)
        ensures
            r@ == self.entries().filter(|e: (u64, T)| elapsed_ms(now_ms, e.0) <= window_ms).map_values(
                |e: (u64, T)| &e.1,
            ),
    {
        let ghost keep = |e: (u64, T)| elapsed_ms(now_ms, e.0) <= window_ms;
        let mut r: Vec<&T> = Vec::new();
        let mut i: usize = 0;
        while i < self.entries.len()
            invariant
                i <= self.entries@.len(),
                keep == (|e: (u64, T)| elapsed_ms(now_ms, e.0) <= window_ms),
                r@ == self.entries@.take(i as int).filter(keep).map_values(|e: (u64, T)| &e.1),
            decreases self.entries@.len() - i,
        {
            proof {
                reveal_with_fuel(Seq::filter, 1);
                assert(self.entries@.take(i + 1).drop_last() =~= self.entries@.take(i as int));
            }
            let e = &self.entries[i];
            let age = if now_ms >= e.0 { now_ms - e.0 } else { 0 };
            if age <= window_ms {
                r.push(&e.1);
                assert(r@ =~= self.entries@.take(i + 1).filter(keep).map_values(|e: (u64, T)| &e.1));
            } else {
                assert(r@ =~= self.entries@.take(i + 1).filter(keep).map_values(|e: (u64, T)| &e.1));
            }
            i += 1;
        }
        assert(self.entries@.take(self.entries@.len() as int) =~= self.entries@);
        r
    }
}

/// The outcome of a health check.
#[derive(Debug)]
pub struct HealthCheckResult {
    pub healthy: bool,
    pub message: String,
    pub details: StringMap<String>,
}

/// Samples kept by the monitor.
pub const MONITOR_HISTORY: usize = 1000;

/// The system health report: healthy, operational, at this package's version (0.1.0).
pub fn system_health() -> (r: HealthCheckResult)
    ensures
        r.healthy,
        r.message@ == "System is healthy"@,
        r.details.wf(),
        r.details@.dom() == set!["status"@, "version"@],
        r.details@["status"@]@ == "operational"@,
        r.details@["version"@]@ == "0.1.0"@,
{
    let mut details: StringMap<String> = StringMap::new();
    details.insert(String::from_str("status"), String::from_str("operational"));
    details.insert(String::from_str("version"), String::from_str("0.1.0"));
    proof {
        reveal_strlit("status");
        reveal_strlit("version");
        assert("status"@[0] == 's' && "version"@[0] == 'v');
        assert(details@.dom() =~= set!["status"@, "version"@]);
    }
    HealthCheckResult { healthy: true, message: String::from_str("System is healthy"), details }
}

/// With room for at least one sample, the latest sample after recording is the one
/// just recorded, and the history never holds more than its limit.
pub proof fn lemma_latest_is_last_recorded<T>(before: Seq<(u64, T)>, limit: usize, now_ms: u64, sample: T)
    requires
        limit >= 1,
    ensures
        ({
            let all = before.push((now_ms, sample));
            let after = all.skip(all.len() - (if all.len() > limit { limit as int } else { all.len() as int }));
            &&& after.len() > 0
            &&& after.last() == (now_ms, sample)
            &&& after.len() <= limit
        }),
{
    let all = before.push((now_ms, sample));
    let n = if all.len() > limit { limit as int } else { all.len() as int };
    let after = all.skip(all.len() - n);
    assert(after.len() == n);
    assert(after[n - 1] == all[all.len() - 1]);
}

} // verus!
