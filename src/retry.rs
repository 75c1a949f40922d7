//! Bounded retries of a failing read.
//!
//! The driver does not read or sleep itself: it is told the outcome of each
//! attempt and answers with what to do next.
use vstd::prelude::*;

use crate::ingest::ReadError;
use crate::messages::DhtSensors;

verus! {

/// The pause between two attempts, in milliseconds.
pub const BACKOFF_MILLIS: u64 = 100;

/// What to do after an attempt.
#[derive(Debug)]
pub enum RetryStep {
    /// The attempt succeeded: use this snapshot.
    Success(DhtSensors),
    /// The attempt failed and the budget allows another: wait this many
    /// milliseconds, then read again.
    Retry(u64),
    /// The attempt failed and the budget is spent: this is the last error.
    GiveUp(ReadError),
}

/// Counts the attempts of one read against a budget.
#[derive(Clone, Copy, Debug, PartialEq, Eq, Structural)]
pub struct RetryDriver {
    pub max_attempts: u32,
    pub attempts: u32,
}

/// The number of attempts allowed by `max_attempts`: a budget of zero still
/// makes the first attempt.
pub open spec fn budget(max_attempts: u32) -> nat {
    if max_attempts == 0 {
        1
    } else {
        max_attempts as nat
    }
}

/// The driver's state and answer after an attempt with this outcome.
pub open spec fn step(d: RetryDriver, outcome: Result<DhtSensors, ReadError>) -> (RetryDriver, RetryStep) {
    match outcome {
        Ok(s) => (d, RetryStep::Success(s)),
        Err(e) => {
            let next = RetryDriver { max_attempts: d.max_attempts, attempts: (d.attempts + 1) as u32 };
            if next.attempts >= budget(d.max_attempts) {
                (next, RetryStep::GiveUp(e))
            } else {
                (next, RetryStep::Retry(BACKOFF_MILLIS))
            }
        },
    }
}

/// The answers a driver gives to a sequence of outcomes, up to and including
/// the first answer that is not a retry.
pub open spec fn run(d: RetryDriver, outcomes: Seq<Result<DhtSensors, ReadError>>) -> Seq<RetryStep>
    decreases outcomes.len(),
{
    if outcomes.len() == 0 || !d.active() {
        Seq::empty()
    } else {
        let (next, s) = step(d, outcomes[0]);
        if s is Retry {
            seq![s] + run(next, outcomes.drop_first())
        } else {
            seq![s]
        }
    }
}

impl RetryDriver {
    /// The driver may still be told of an attempt.
    pub open spec fn active(&self) -> bool {
        self.attempts < budget(self.max_attempts)
    }

    /// A driver that has seen no attempt yet.
    pub fn new(max_attempts: u32) -> (r: RetryDriver)
        ensures
            r.max_attempts == max_attempts,
            r.attempts == 0,
            r.active(),
    {
        RetryDriver { max_attempts, attempts: 0 }
    }

    /// Records the outcome of an attempt. A success is handed back at once; a
    /// failure counts against the budget, and is handed back unchanged once the
    /// budget is spent.
    pub fn record(&mut self, outcome: Result<DhtSensors, ReadError>) -> (r: RetryStep)
        requires
            old(self).active(),
        ensures
            (*final(self), r) == step(*old(self), outcome),
    {
        match outcome {
            Ok(s) => RetryStep::Success(s),
            Err(e) => {
                self.attempts = self.attempts + 1;
                if self.max_attempts == 0 || self.attempts >= self.max_attempts {
                    RetryStep::GiveUp(e)
                } else {
                    RetryStep::Retry(BACKOFF_MILLIS)
                }
            },
        }
    }
}

proof fn lemma_run_failing(d: RetryDriver, errors: Seq<ReadError>)
    requires
        d.active(),
        errors.len() >= budget(d.max_attempts) - d.attempts,
    ensures
        ({
            let steps = run(d, errors.map_values(|e: ReadError| Err::<DhtSensors, ReadError>(e)));
            let n = budget(d.max_attempts) - d.attempts;
            &&& steps.len() == n
            &&& forall|i: int| 0 <= i < n - 1 ==> #[trigger] steps[i] == RetryStep::Retry(BACKOFF_MILLIS)
            &&& steps[n - 1] == RetryStep::GiveUp(errors[n - 1])
        }),
    decreases budget(d.max_attempts) - d.attempts,
{
    let outcomes = errors.map_values(|e: ReadError| Err::<DhtSensors, ReadError>(e));
    let (next, s) = step(d, outcomes[0]);
    let rest = errors.drop_first();
    assert(outcomes.drop_first() =~= rest.map_values(|e: ReadError| Err::<DhtSensors, ReadError>(e)));
    if s is Retry {
        lemma_run_failing(next, rest);
        let steps = run(d, outcomes);
        let n = budget(d.max_attempts) - d.attempts;
        assert forall|i: int| 0 <= i < n - 1 implies #[trigger] steps[i] == RetryStep::Retry(BACKOFF_MILLIS) by {
            if i > 0 {
                assert(steps[i] == run(next, outcomes.drop_first())[i - 1]);
            }
        }
        assert(steps[n - 1] == run(next, outcomes.drop_first())[n - 2]);
        assert(rest[n - 2] == errors[n - 1]);
    }
}

/// A source that fails every time is read exactly as many times as the budget
/// allows: every failure but the last is answered with a retry after the
/// fixed pause, and the last with giving up, carrying that last error as it
/// came.
pub proof fn lemma_failing_source_exhausts_budget(max_attempts: u32, errors: Seq<ReadError>)
    requires
        errors.len() >= budget(max_attempts),
    ensures
        ({
            let d = RetryDriver { max_attempts, attempts: 0 };
            let steps = run(d, errors.map_values(|e: ReadError| Err::<DhtSensors, ReadError>(e)));
            let n = budget(max_attempts);
            &&& steps.len() == n
            &&& forall|i: int| 0 <= i < n - 1 ==> #[trigger] steps[i] == RetryStep::Retry(BACKOFF_MILLIS)
            &&& steps[n - 1] == RetryStep::GiveUp(errors[n - 1])
        }),
{
    lemma_run_failing(RetryDriver { max_attempts, attempts: 0 }, errors);
}

} // verus!
