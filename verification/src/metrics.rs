//! Download attempt telemetry: cumulative counters and a bounded,
//! newest-first history of attempt snapshots.

use vstd::prelude::*;
use std::collections::VecDeque;

verus! {

/// Upper bound on the length of the recent-attempt history.
pub const RECENT_ATTEMPTS_CAP: usize = 20;

/// Outcome of a single download attempt.
#[derive(Debug, Clone, Copy, PartialEq, Eq, Structural)]
pub enum AttemptStatus {
    Retrying,
    Success,
    Failed,
}

/// Immutable record of one download attempt, produced once per attempt.
#[derive(Debug)]
pub struct DownloadAttemptSnapshot {
    pub file_hash: String,
    /// 1-based attempt number within one download invocation.
    pub attempt: u32,
    pub max_attempts: u32,
    pub status: AttemptStatus,
    pub duration_ms: u64,
    /// Unix timestamp in seconds.
    pub timestamp: u64,
}

impl Clone for DownloadAttemptSnapshot {
    fn clone(&self) -> (r: Self)
        ensures
            r == *self,
    {
        DownloadAttemptSnapshot {
            file_hash: self.file_hash.clone(),
            attempt: self.attempt,
            max_attempts: self.max_attempts,
            status: self.status,
            duration_ms: self.duration_ms,
            timestamp: self.timestamp,
        }
    }
}

/// Immutable copy of the aggregate metrics state.
#[derive(Debug)]
pub struct DownloadMetricsSnapshot {
    pub total_success: u64,
    pub total_failures: u64,
    pub total_retries: u64,
    /// Newest first; never longer than `RECENT_ATTEMPTS_CAP`.
    pub recent_attempts: Vec<DownloadAttemptSnapshot>,
}

/// Aggregate state behind the metrics API: saturating counters plus the
/// bounded recent-attempt history.
#[derive(Debug)]
pub struct DownloadMetrics {
    pub total_success: u64,
    pub total_failures: u64,
    pub total_retries: u64,
    /// Newest first.
    pub recent_attempts: VecDeque<DownloadAttemptSnapshot>,
}

/// Saturating increment of a counter.
pub open spec fn spec_sat_inc(x: u64) -> u64 {
    if x < u64::MAX {
        (x + 1) as u64
    } else {
        x
    }
}

/// The three counters after recording one attempt with the given status:
/// exactly one of them is incremented, saturating.
pub open spec fn spec_counters_after(
    success: u64,
    failures: u64,
    retries: u64,
    status: AttemptStatus,
) -> (u64, u64, u64) {
    match status {
        AttemptStatus::Retrying => (success, failures, spec_sat_inc(retries)),
        AttemptStatus::Success => (spec_sat_inc(success), failures, retries),
        AttemptStatus::Failed => (success, spec_sat_inc(failures), retries),
    }
}

/// The three counters after recording a sequence of statuses in order.
pub open spec fn spec_counters_after_all(
    success: u64,
    failures: u64,
    retries: u64,
    statuses: Seq<AttemptStatus>,
) -> (u64, u64, u64)
    decreases statuses.len(),
{
    if statuses.len() == 0 {
        (success, failures, retries)
    } else {
        let c = spec_counters_after(success, failures, retries, statuses[0]);
        spec_counters_after_all(c.0, c.1, c.2, statuses.skip(1))
    }
}

/// The recent-attempt history after recording one snapshot: pushed at the
/// head, evicted from the tail once the length exceeds the cap.
pub open spec fn spec_recent_after(
    recent: Seq<DownloadAttemptSnapshot>,
    snapshot: DownloadAttemptSnapshot,
) -> Seq<DownloadAttemptSnapshot> {
    let pushed = seq![snapshot] + recent;
    if pushed.len() <= RECENT_ATTEMPTS_CAP {
        pushed
    } else {
        pushed.take(RECENT_ATTEMPTS_CAP as int)
    }
}

impl DownloadMetrics {
    /// The bounded-history invariant.
    pub open spec fn wf(self) -> bool {
        self.recent_attempts@.len() <= RECENT_ATTEMPTS_CAP
    }

    pub fn new() -> (m: Self)
        ensures
            m.wf(),
            m.total_success == 0,
            m.total_failures == 0,
            m.total_retries == 0,
            m.recent_attempts@ == Seq::<DownloadAttemptSnapshot>::empty(),
    {
        DownloadMetrics {
            total_success: 0,
            total_failures: 0,
            total_retries: 0,
            recent_attempts: VecDeque::new(),
        }
    }

    /// Record one attempt: bump exactly one counter (saturating) and push
    /// the snapshot to the front of the history, evicting from the back
    /// once the length exceeds `RECENT_ATTEMPTS_CAP`.
    pub fn record_attempt(&mut self, snapshot: DownloadAttemptSnapshot)
        requires
            old(self).wf(),
        ensures
            final(self).wf(),
            (final(self).total_success, final(self).total_failures, final(self).total_retries)
                == spec_counters_after(
                    old(self).total_success,
                    old(self).total_failures,
                    old(self).total_retries,
                    snapshot.status,
                ),
            final(self).recent_attempts@
                == spec_recent_after(old(self).recent_attempts@, snapshot),
            final(self).recent_attempts@[0] == snapshot,
    {
        let ghost snap = snapshot;
        match snapshot.status {
            AttemptStatus::Retrying => {
                if self.total_retries < u64::MAX {
                    self.total_retries = self.total_retries + 1;
                }
            },
            AttemptStatus::Success => {
                if self.total_success < u64::MAX {
                    self.total_success = self.total_success + 1;
                }
            },
            AttemptStatus::Failed => {
                if self.total_failures < u64::MAX {
                    self.total_failures = self.total_failures + 1;
                }
            },
        }

        self.recent_attempts.push_front(snapshot);
        let ghost pushed = self.recent_attempts@;
        proof {
            assert(pushed.take(pushed.len() as int) =~= pushed);
        }
        while self.recent_attempts.len() > RECENT_ATTEMPTS_CAP
            invariant
                self.recent_attempts@.len() <= pushed.len(),
                self.recent_attempts@ == pushed.take(self.recent_attempts@.len() as int),
                self.recent_attempts@.len() >= RECENT_ATTEMPTS_CAP
                    || self.recent_attempts@ == pushed,
                (self.total_success, self.total_failures, self.total_retries)
                    == spec_counters_after(
                        old(self).total_success,
                        old(self).total_failures,
                        old(self).total_retries,
                        snap.status,
                    ),
            decreases self.recent_attempts@.len(),
        {
            let _dropped = self.recent_attempts.pop_back();
            proof {
                let n = self.recent_attempts@.len() as int;
                assert(pushed.take(n + 1).subrange(0, n) =~= pushed.take(n));
            }
        }
        proof {
            assert(self.recent_attempts@ == spec_recent_after(
                old(self).recent_attempts@,
                snap,
            ));
        }
    }

    /// An immutable copy of the aggregate state.
    pub fn snapshot(&self) -> (r: DownloadMetricsSnapshot)
        ensures
            r.total_success == self.total_success,
            r.total_failures == self.total_failures,
            r.total_retries == self.total_retries,
            r.recent_attempts@ == self.recent_attempts@,
    {
        let mut recent: Vec<DownloadAttemptSnapshot> = Vec::new();
        let mut i: usize = 0;
        while i < self.recent_attempts.len()
            invariant
                i <= self.recent_attempts@.len(),
                recent@ == self.recent_attempts@.take(i as int),
            decreases self.recent_attempts@.len() - i,
        {
            recent.push(self.recent_attempts[i].clone());
            i = i + 1;
            proof {
                assert(recent@ =~= self.recent_attempts@.take(i as int));
            }
        }
        proof {
            assert(recent@ =~= self.recent_attempts@);
        }
        DownloadMetricsSnapshot {
            total_success: self.total_success,
            total_failures: self.total_failures,
            total_retries: self.total_retries,
            recent_attempts: recent,
        }
    }
}

} // verus!
