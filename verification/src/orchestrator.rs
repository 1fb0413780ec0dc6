//! The retrying download orchestrator: one `DownloadRun` tracks a single
//! download invocation through its bounded attempt budget.
//!
//! The run itself performs no I/O. The caller looks the hash up in the
//! content store, performs the destination write, and reports each
//! attempt's outcome through `note_attempt`, which hands back the snapshot
//! to record and decides whether the invocation continues, succeeded, or
//! failed for good.

use vstd::prelude::*;
use crate::backoff::{spec_backoff_delay, backoff_delay, MAX_DOWNLOAD_ATTEMPTS};
use crate::metrics::{AttemptStatus, DownloadAttemptSnapshot, spec_counters_after_all};

verus! {

/// Outcome of one download attempt, as observed by the caller.
#[derive(Debug, Clone, Copy, PartialEq, Eq, Structural)]
pub enum AttemptOutcome {
    /// The content was found and the destination write succeeded.
    Completed,
    /// The content hash is absent from the local store.
    NotFoundLocally,
    /// The content was found but writing it to the destination failed.
    IoFailure,
}

/// Where a download invocation stands.
#[derive(Debug, Clone, Copy, PartialEq, Eq, Structural)]
pub enum RunState {
    /// More attempts are allowed.
    Active,
    /// The invocation is over.
    Done { succeeded: bool },
}

/// State of one download invocation.
#[derive(Debug)]
pub struct DownloadRun {
    pub file_hash: String,
    /// Attempts made so far; 1-based numbering of emitted snapshots.
    pub attempts: u32,
    pub state: RunState,
    /// The most recent failure, reported to the caller when the budget is
    /// exhausted; never `Completed`.
    pub last_failure: Option<AttemptOutcome>,
}

/// Status emitted for attempt number `attempt` with the given success:
/// `Success` on success, `Failed` on the final allowed attempt, and
/// `Retrying` before that.
pub open spec fn spec_attempt_status(attempt: u32, ok: bool) -> AttemptStatus {
    if ok {
        AttemptStatus::Success
    } else if attempt >= MAX_DOWNLOAD_ATTEMPTS {
        AttemptStatus::Failed
    } else {
        AttemptStatus::Retrying
    }
}

/// Run state after attempt number `attempt` with the given success.
pub open spec fn spec_state_after(attempt: u32, ok: bool) -> RunState {
    if ok {
        RunState::Done { succeeded: true }
    } else if attempt >= MAX_DOWNLOAD_ATTEMPTS {
        RunState::Done { succeeded: false }
    } else {
        RunState::Active
    }
}

/// The `(attempt number, status)` pairs emitted by an invocation that has
/// already made `attempts` attempts and then observes `outcomes` in order,
/// stopping as soon as the run leaves the `Active` state. This fold
/// mirrors `DownloadRun::note_attempt`'s contract step by step.
pub open spec fn spec_emitted_from(attempts: u32, outcomes: Seq<AttemptOutcome>) -> Seq<
    (u32, AttemptStatus),
>
    decreases outcomes.len(),
{
    if outcomes.len() == 0 || attempts >= MAX_DOWNLOAD_ATTEMPTS {
        Seq::empty()
    } else {
        let n = (attempts + 1) as u32;
        let ok = outcomes[0] is Completed;
        let head = seq![(n, spec_attempt_status(n, ok))];
        if spec_state_after(n, ok) is Active {
            head + spec_emitted_from(n, outcomes.skip(1))
        } else {
            head
        }
    }
}

/// The snapshots emitted by one whole invocation, from the first attempt.
pub open spec fn spec_invocation_emits(outcomes: Seq<AttemptOutcome>) -> Seq<
    (u32, AttemptStatus),
> {
    spec_emitted_from(0, outcomes)
}

/// The statuses of emitted `(attempt, status)` pairs, in emission order.
pub open spec fn spec_statuses_of(emitted: Seq<(u32, AttemptStatus)>) -> Seq<AttemptStatus> {
    emitted.map_values(|p: (u32, AttemptStatus)| p.1)
}

impl DownloadRun {
    /// The attempt budget is never exceeded, and an active run still has
    /// budget left.
    pub open spec fn wf(self) -> bool {
        &&& self.attempts <= MAX_DOWNLOAD_ATTEMPTS
        &&& (self.state is Active ==> self.attempts < MAX_DOWNLOAD_ATTEMPTS)
        &&& (match self.last_failure {
            Some(f) => !(f is Completed),
            None => true,
        })
    }

    /// A fresh invocation for one content hash.
    pub fn new(file_hash: String) -> (r: Self)
        ensures
            r.wf(),
            r.file_hash == file_hash,
            r.attempts == 0,
            r.state == RunState::Active,
            r.last_failure is None,
    {
        DownloadRun { file_hash, attempts: 0, state: RunState::Active, last_failure: None }
    }

    pub fn is_active(&self) -> (b: bool)
        ensures
            b == (self.state is Active),
    {
        match self.state {
            RunState::Active => true,
            RunState::Done { .. } => false,
        }
    }

    pub fn succeeded(&self) -> (b: bool)
        ensures
            b == (self.state == RunState::Done { succeeded: true }),
    {
        match self.state {
            RunState::Done { succeeded } => succeeded,
            RunState::Active => false,
        }
    }

    /// How long to sleep before acting on the next attempt: nothing before
    /// the first attempt, the capped exponential schedule afterwards.
    pub fn next_delay_ms(&self) -> (d: u64)
        requires
            self.wf(),
            self.state is Active,
        ensures
            d == spec_backoff_delay((self.attempts + 1) as u32),
    {
        backoff_delay(self.attempts + 1)
    }

    /// Note the outcome of the attempt the caller just performed. Exactly
    /// one snapshot comes back per attempt, numbered contiguously from 1;
    /// the run leaves `Active` on success or once the budget is spent.
    pub fn note_attempt(
        &mut self,
        outcome: AttemptOutcome,
        duration_ms: u64,
        timestamp: u64,
    ) -> (snap: DownloadAttemptSnapshot)
        requires
            old(self).wf(),
            old(self).state is Active,
        ensures
            final(self).wf(),
            final(self).file_hash == old(self).file_hash,
            final(self).attempts == old(self).attempts + 1,
            final(self).state == spec_state_after(
                (old(self).attempts + 1) as u32,
                outcome is Completed,
            ),
            final(self).last_failure == (if outcome is Completed {
                old(self).last_failure
            } else {
                Some(outcome)
            }),
            snap == (DownloadAttemptSnapshot {
                file_hash: old(self).file_hash,
                attempt: (old(self).attempts + 1) as u32,
                max_attempts: MAX_DOWNLOAD_ATTEMPTS,
                status: spec_attempt_status((old(self).attempts + 1) as u32, outcome is Completed),
                duration_ms,
                timestamp,
            }),
    {
        self.attempts = self.attempts + 1;
        let ok = match outcome {
            AttemptOutcome::Completed => true,
            _ => false,
        };
        let status = if ok {
            AttemptStatus::Success
        } else if self.attempts >= MAX_DOWNLOAD_ATTEMPTS {
            AttemptStatus::Failed
        } else {
            AttemptStatus::Retrying
        };
        self.state = if ok {
            RunState::Done { succeeded: true }
        } else if self.attempts >= MAX_DOWNLOAD_ATTEMPTS {
            RunState::Done { succeeded: false }
        } else {
            RunState::Active
        };
        if !ok {
            self.last_failure = Some(outcome);
        }
        DownloadAttemptSnapshot {
            file_hash: self.file_hash.clone(),
            attempt: self.attempts,
            max_attempts: MAX_DOWNLOAD_ATTEMPTS,
            status,
            duration_ms,
            timestamp,
        }
    }
}

proof fn lemma_emitted_from_shape(attempts: u32, outcomes: Seq<AttemptOutcome>)
    requires
        attempts <= MAX_DOWNLOAD_ATTEMPTS,
    ensures
        spec_emitted_from(attempts, outcomes).len() <= MAX_DOWNLOAD_ATTEMPTS - attempts,
        forall|i: int|
            0 <= i < spec_emitted_from(attempts, outcomes).len()
                ==> (#[trigger] spec_emitted_from(attempts, outcomes)[i]).0 == attempts + 1 + i,
    decreases outcomes.len(),
{
    if outcomes.len() == 0 || attempts >= MAX_DOWNLOAD_ATTEMPTS {
    } else {
        let n = (attempts + 1) as u32;
        let ok = outcomes[0] is Completed;
        if spec_state_after(n, ok) is Active {
            lemma_emitted_from_shape(n, outcomes.skip(1));
        }
    }
}

/// Law: over one whole download invocation, whatever the attempt outcomes,
/// the emitted attempt numbers are exactly the contiguous sequence
/// `1..=k` for some `k <= MAX_DOWNLOAD_ATTEMPTS`.
pub proof fn lemma_attempt_numbers_contiguous(outcomes: Seq<AttemptOutcome>)
    ensures
        spec_invocation_emits(outcomes).len() <= MAX_DOWNLOAD_ATTEMPTS,
        forall|i: int|
            0 <= i < spec_invocation_emits(outcomes).len()
                ==> (#[trigger] spec_invocation_emits(outcomes)[i]).0 == i + 1,
{
    lemma_emitted_from_shape(0, outcomes);
}

/// Law: when the content is present and the destination write succeeds on
/// the first try, the invocation emits exactly one snapshot, a `Success`
/// with attempt number 1, and recording it adds one to `total_success`
/// and nothing to `total_retries` or `total_failures`.
pub proof fn lemma_first_attempt_success(
    outcomes: Seq<AttemptOutcome>,
    success: u64,
    failures: u64,
    retries: u64,
)
    requires
        outcomes.len() >= 1,
        outcomes[0] is Completed,
        success < u64::MAX,
    ensures
        spec_invocation_emits(outcomes) == seq![(1u32, AttemptStatus::Success)],
        spec_counters_after_all(
            success,
            failures,
            retries,
            spec_statuses_of(spec_invocation_emits(outcomes)),
        ) == ((success + 1) as u64, failures, retries),
{
    reveal_with_fuel(spec_emitted_from, 2);
    reveal_with_fuel(spec_counters_after_all, 2);
    let em = spec_invocation_emits(outcomes);
    assert(em =~= seq![(1u32, AttemptStatus::Success)]);
    let statuses = spec_statuses_of(em);
    assert(statuses =~= seq![AttemptStatus::Success]);
    assert(statuses.skip(1) =~= Seq::<AttemptStatus>::empty());
}

/// Law: when the content is absent, every attempt misses, so the
/// invocation makes exactly `MAX_DOWNLOAD_ATTEMPTS` attempts, emits
/// `[Retrying, Retrying, Failed]`, and recording those statuses adds one
/// to `total_failures` and two to `total_retries`.
pub proof fn lemma_missing_content_fails(
    outcomes: Seq<AttemptOutcome>,
    success: u64,
    failures: u64,
    retries: u64,
)
    requires
        outcomes.len() >= MAX_DOWNLOAD_ATTEMPTS,
        forall|i: int| 0 <= i < outcomes.len() ==> (#[trigger] outcomes[i]) is NotFoundLocally,
        failures < u64::MAX,
        retries + 2 <= u64::MAX,
    ensures
        spec_invocation_emits(outcomes) == seq![
            (1u32, AttemptStatus::Retrying),
            (2u32, AttemptStatus::Retrying),
            (3u32, AttemptStatus::Failed),
        ],
        spec_counters_after_all(
            success,
            failures,
            retries,
            spec_statuses_of(spec_invocation_emits(outcomes)),
        ) == (success, (failures + 1) as u64, (retries + 2) as u64),
{
    reveal_with_fuel(spec_emitted_from, 4);
    let em = spec_invocation_emits(outcomes);
    assert(outcomes.skip(1)[0] == outcomes[1]);
    assert(outcomes.skip(1).skip(1)[0] == outcomes[2]);
    assert(em =~= seq![
        (1u32, AttemptStatus::Retrying),
        (2u32, AttemptStatus::Retrying),
        (3u32, AttemptStatus::Failed),
    ]);
    let statuses = spec_statuses_of(em);
    assert(statuses =~= seq![
        AttemptStatus::Retrying,
        AttemptStatus::Retrying,
        AttemptStatus::Failed,
    ]);
    lemma_counters_three(success, failures, retries, statuses);
}

/// Law: when the destination write fails twice and then succeeds, the
/// invocation emits exactly `[Retrying, Retrying, Success]` with attempt
/// numbers 1, 2, 3, and recording those statuses adds two to
/// `total_retries` and one to `total_success`.
pub proof fn lemma_retry_twice_then_succeed(
    outcomes: Seq<AttemptOutcome>,
    success: u64,
    failures: u64,
    retries: u64,
)
    requires
        outcomes.len() >= 3,
        outcomes[0] is IoFailure,
        outcomes[1] is IoFailure,
        outcomes[2] is Completed,
        success < u64::MAX,
        retries + 2 <= u64::MAX,
    ensures
        spec_invocation_emits(outcomes) == seq![
            (1u32, AttemptStatus::Retrying),
            (2u32, AttemptStatus::Retrying),
            (3u32, AttemptStatus::Success),
        ],
        spec_counters_after_all(
            success,
            failures,
            retries,
            spec_statuses_of(spec_invocation_emits(outcomes)),
        ) == ((success + 1) as u64, failures, (retries + 2) as u64),
{
    reveal_with_fuel(spec_emitted_from, 4);
    let em = spec_invocation_emits(outcomes);
    assert(outcomes.skip(1)[0] == outcomes[1]);
    assert(outcomes.skip(1).skip(1)[0] == outcomes[2]);
    assert(em =~= seq![
        (1u32, AttemptStatus::Retrying),
        (2u32, AttemptStatus::Retrying),
        (3u32, AttemptStatus::Success),
    ]);
    let statuses = spec_statuses_of(em);
    assert(statuses =~= seq![
        AttemptStatus::Retrying,
        AttemptStatus::Retrying,
        AttemptStatus::Success,
    ]);
    lemma_counters_three(success, failures, retries, statuses);
}

/// Unfolds the counter fold over exactly three statuses.
proof fn lemma_counters_three(
    success: u64,
    failures: u64,
    retries: u64,
    statuses: Seq<AttemptStatus>,
)
    requires
        statuses.len() == 3,
    ensures
        spec_counters_after_all(success, failures, retries, statuses) == ({
            let c0 = crate::metrics::spec_counters_after(success, failures, retries, statuses[0]);
            let c1 = crate::metrics::spec_counters_after(c0.0, c0.1, c0.2, statuses[1]);
            crate::metrics::spec_counters_after(c1.0, c1.1, c1.2, statuses[2])
        }),
{
    reveal_with_fuel(spec_counters_after_all, 4);
    assert(statuses.skip(1)[0] == statuses[1]);
    assert(statuses.skip(1).skip(1)[0] == statuses[2]);
    assert(statuses.skip(1).skip(1).skip(1) =~= Seq::<AttemptStatus>::empty());
}

} // verus!
