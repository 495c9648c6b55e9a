//! Retry with exponential backoff. An operation classifies each of its
//! own attempts as success, transient failure, or permanent failure;
//! this module decides, after every attempt, whether to finish, give
//! up, or try again after a delay. Delays start at a configured
//! interval and double from one retry to the next; the cumulative
//! delay is bounded by a time budget, after which the last transient
//! error surfaces wrapped as budget exhaustion.
//!
//! The module is oblivious to HTTP and document semantics. The caller
//! (the surrounding application, or a test harness) performs the
//! attempts and the sleeping; all decisions are made here.

use vstd::prelude::*;
use crate::error::FirebaseError;
use crate::json::JsonValue;

verus! {

/// First inter-attempt delay, in milliseconds.
pub const INITIAL_RETRY_INTERVAL_MS: u64 = 500;

/// What one attempt of an operation came to, classified by the
/// operation itself.
pub enum AttemptOutcome {
    Success(JsonValue),
    Transient(FirebaseError),
    Permanent(FirebaseError),
}

/// What the executor tells the caller to do after an attempt.
#[derive(Debug)]
pub enum RetryDecision {
    /// The operation succeeded; here is its response.
    Finish(JsonValue),
    /// The operation failed for good; propagate this error.
    Fail(FirebaseError),
    /// Sleep this many milliseconds, then attempt again.
    RetryAfter(u64),
}

/// The doubled interval, saturating instead of overflowing.
pub open spec fn spec_next_interval(interval: u64) -> u64 {
    if interval > u64::MAX / 2 {
        u64::MAX
    } else {
        (2 * interval) as u64
    }
}

/// Progress of one retried operation.
pub struct RetryState {
    /// Total delay handed out so far, in milliseconds.
    pub elapsed_ms: u64,
    /// Delay that the next retry would be told to sleep.
    pub interval_ms: u64,
    /// Maximum cumulative delay before the operation gives up.
    pub budget_ms: u64,
}

impl RetryState {
    pub open spec fn wf(self) -> bool {
        &&& self.elapsed_ms <= self.budget_ms
        &&& self.interval_ms >= 1
    }

    /// A fresh state for an operation allowed `budget_ms` of cumulative
    /// delay.
    pub fn new(budget_ms: u64) -> (r: RetryState)
        ensures
            r.wf(),
            r.elapsed_ms == 0,
            r.interval_ms == INITIAL_RETRY_INTERVAL_MS,
            r.budget_ms == budget_ms,
    {
        RetryState { elapsed_ms: 0, interval_ms: INITIAL_RETRY_INTERVAL_MS, budget_ms }
    }

    /// Decides what follows one attempt. Success and permanent failure
    /// pass through untouched and leave the state alone. A transient
    /// failure is retried after the current interval — which then
    /// doubles — unless the interval no longer fits into the remaining
    /// budget, in which case the transient error surfaces wrapped as
    /// budget exhaustion.
    pub fn on_outcome(&mut self, outcome: AttemptOutcome) -> (r: RetryDecision)
        requires
            old(self).wf(),
        ensures
            final(self).wf(),
            final(self).budget_ms == old(self).budget_ms,
            match outcome {
                AttemptOutcome::Success(v) => r == RetryDecision::Finish(v) && *final(self)
                    == *old(self),
                AttemptOutcome::Permanent(e) => r == RetryDecision::Fail(e) && *final(self)
                    == *old(self),
                AttemptOutcome::Transient(e) => {
                    if old(self).elapsed_ms + old(self).interval_ms > old(self).budget_ms {
                        &&& (r matches RetryDecision::Fail(FirebaseError::BudgetExhausted(inner))
                            && *inner == e)
                        &&& *final(self) == *old(self)
                    } else {
                        &&& r == RetryDecision::RetryAfter(old(self).interval_ms)
                        &&& final(self).elapsed_ms == old(self).elapsed_ms + old(
                            self,
                        ).interval_ms
                        &&& final(self).interval_ms == spec_next_interval(old(self).interval_ms)
                        &&& final(self).interval_ms >= old(self).interval_ms
                    }
                },
            },
    {
        match outcome {
            AttemptOutcome::Success(v) => RetryDecision::Finish(v),
            AttemptOutcome::Permanent(e) => RetryDecision::Fail(e),
            AttemptOutcome::Transient(e) => {
                if self.interval_ms > self.budget_ms - self.elapsed_ms {
                    RetryDecision::Fail(FirebaseError::BudgetExhausted(Box::new(e)))
                } else {
                    let delay = self.interval_ms;
                    self.elapsed_ms = self.elapsed_ms + delay;
                    self.interval_ms = if delay > u64::MAX / 2 {
                        u64::MAX
                    } else {
                        2 * delay
                    };
                    RetryDecision::RetryAfter(delay)
                }
            },
        }
    }

    /// Charges time that an attempt itself consumed — the request on
    /// the wire, not a backoff sleep — against the budget, so that
    /// the bound covers cumulative wall-clock time. The elapsed count
    /// saturates at the budget; once it is reached, the next
    /// transient failure surfaces as budget exhaustion.
    pub fn charge_elapsed(&mut self, spent_ms: u64)
        requires
            old(self).wf(),
        ensures
            final(self).wf(),
            final(self).interval_ms == old(self).interval_ms,
            final(self).budget_ms == old(self).budget_ms,
            final(self).elapsed_ms == (if old(self).elapsed_ms + spent_ms <= old(
                self,
            ).budget_ms {
                (old(self).elapsed_ms + spent_ms) as u64
            } else {
                old(self).budget_ms
            }),
    {
        if spent_ms <= self.budget_ms - self.elapsed_ms {
            self.elapsed_ms = self.elapsed_ms + spent_ms;
        } else {
            self.elapsed_ms = self.budget_ms;
        }
    }
}

/// How a run over a finite sequence of attempt outcomes ends.
pub enum RunModel {
    /// An attempt succeeded with this response.
    Done(JsonValue),
    /// An attempt failed permanently with this error.
    Failed(FirebaseError),
    /// The budget ran out; this was the last transient error.
    Exhausted(FirebaseError),
    /// The sequence ended while the operation was still pending.
    Starved,
}

/// How the executor ends when the attempts come out as `script` says,
/// starting from the given elapsed time and interval.
pub open spec fn spec_run(
    script: Seq<AttemptOutcome>,
    elapsed: u64,
    interval: u64,
    budget: u64,
) -> RunModel
    decreases script.len(),
{
    if script.len() == 0 {
        RunModel::Starved
    } else {
        match script[0] {
            AttemptOutcome::Success(v) => RunModel::Done(v),
            AttemptOutcome::Permanent(e) => RunModel::Failed(e),
            AttemptOutcome::Transient(e) => {
                if elapsed + interval > budget {
                    RunModel::Exhausted(e)
                } else {
                    spec_run(
                        script.subrange(1, script.len() as int),
                        (elapsed + interval) as u64,
                        spec_next_interval(interval),
                        budget,
                    )
                }
            },
        }
    }
}

/// The delays handed out during that same run, in order.
pub open spec fn spec_run_delays(
    script: Seq<AttemptOutcome>,
    elapsed: u64,
    interval: u64,
    budget: u64,
) -> Seq<u64>
    decreases script.len(),
{
    if script.len() == 0 {
        Seq::empty()
    } else {
        match script[0] {
            AttemptOutcome::Success(v) => Seq::empty(),
            AttemptOutcome::Permanent(e) => Seq::empty(),
            AttemptOutcome::Transient(e) => {
                if elapsed + interval > budget {
                    Seq::empty()
                } else {
                    seq![interval] + spec_run_delays(
                        script.subrange(1, script.len() as int),
                        (elapsed + interval) as u64,
                        spec_next_interval(interval),
                        budget,
                    )
                }
            },
        }
    }
}

/// Inter-attempt delays never shrink: every delay of a run is at least
/// the interval the run started with, and the sequence of delays is
/// sorted.
pub proof fn lemma_delays_nondecreasing(
    script: Seq<AttemptOutcome>,
    elapsed: u64,
    interval: u64,
    budget: u64,
)
    ensures
        forall|i: int|
            0 <= i < spec_run_delays(script, elapsed, interval, budget).len() ==> spec_run_delays(
                script,
                elapsed,
                interval,
                budget,
            )[i] >= interval,
        forall|i: int, j: int|
            0 <= i <= j < spec_run_delays(script, elapsed, interval, budget).len()
                ==> spec_run_delays(script, elapsed, interval, budget)[i] <= spec_run_delays(
                script,
                elapsed,
                interval,
                budget,
            )[j],
    decreases script.len(),
{
    if script.len() > 0 {
        match script[0] {
            AttemptOutcome::Transient(e) => {
                if elapsed + interval <= budget {
                    let sub = script.subrange(1, script.len() as int);
                    let interval2 = spec_next_interval(interval);
                    lemma_delays_nondecreasing(sub, (elapsed + interval) as u64, interval2, budget);
                    let d = spec_run_delays(script, elapsed, interval, budget);
                    let rest = spec_run_delays(sub, (elapsed + interval) as u64, interval2, budget);
                    assert(d == seq![interval] + rest);
                    assert(d[0] == interval);
                    assert(forall|i: int| 1 <= i < d.len() ==> d[i] == rest[i - 1]);
                    assert(interval2 >= interval);
                }
            },
            _ => {},
        }
    }
}

/// The executor never retries forever: when every attempt keeps
/// failing transiently and enough attempts are on offer, the run ends
/// with budget exhaustion — not by running out of attempts, and not by
/// succeeding or failing permanently.
pub proof fn lemma_budget_exhaustion(
    script: Seq<AttemptOutcome>,
    elapsed: u64,
    interval: u64,
    budget: u64,
)
    requires
        forall|i: int| 0 <= i < script.len() ==> script[i] is Transient,
        interval >= 1,
        elapsed + script.len() * interval > budget,
        script.len() >= 1,
    ensures
        spec_run(script, elapsed, interval, budget) is Exhausted,
    decreases script.len(),
{
    if elapsed + interval > budget {
        // Exhaustion triggers on the very first attempt.
    } else {
        let rest = script.subrange(1, script.len() as int);
        let interval2 = spec_next_interval(interval);
        assert(script.len() >= 2) by {
            if script.len() == 1 {
                assert(elapsed + 1 * interval > budget);
            }
        }
        assert(rest.len() * interval2 >= rest.len() * interval) by (nonlinear_arith)
            requires
                interval2 >= interval,
                rest.len() >= 0,
        ;
        assert(elapsed + interval + rest.len() * interval > budget) by (nonlinear_arith)
            requires
                elapsed + script.len() * interval > budget,
                rest.len() == script.len() - 1,
        ;
        lemma_budget_exhaustion(rest, (elapsed + interval) as u64, interval2, budget);
    }
}

/// Report of a finished run: the operation's result, how many attempts
/// were made, and the delays that were slept between them.
pub struct ExecReport {
    pub result: Result<JsonValue, FirebaseError>,
    pub attempts: usize,
    pub delays: Vec<u64>,
}

/// Runs an operation whose successive attempts come out as `script`
/// says — the shape a mocked transport takes in tests. Retries exactly
/// as [`RetryState::on_outcome`] decides, collecting the delays instead
/// of sleeping them.
pub fn execute_script(script: Vec<AttemptOutcome>, budget_ms: u64) -> (r: ExecReport)
    ensures
        (spec_run(script@, 0, INITIAL_RETRY_INTERVAL_MS, budget_ms) matches RunModel::Done(v)
            ==> r.result == Ok::<JsonValue, FirebaseError>(v)),
        (spec_run(script@, 0, INITIAL_RETRY_INTERVAL_MS, budget_ms) matches RunModel::Failed(e)
            ==> r.result == Err::<JsonValue, FirebaseError>(e)),
        (spec_run(script@, 0, INITIAL_RETRY_INTERVAL_MS, budget_ms) matches RunModel::Exhausted(e)
            ==> (r.result matches Err(FirebaseError::BudgetExhausted(inner)) && *inner == e)),
        (spec_run(script@, 0, INITIAL_RETRY_INTERVAL_MS, budget_ms) is Starved ==> (
        r.result matches Err(FirebaseError::Transport(_)))),
        r.delays@ == spec_run_delays(script@, 0, INITIAL_RETRY_INTERVAL_MS, budget_ms),
        !(spec_run(script@, 0, INITIAL_RETRY_INTERVAL_MS, budget_ms) is Starved) ==> r.attempts
            == r.delays@.len() + 1,
{
    let ghost whole = script@;
    let mut rem = script;
    let n0 = rem.len();
    let mut state = RetryState::new(budget_ms);
    let mut attempts: usize = 0;
    let mut delays: Vec<u64> = Vec::new();
    proof {
        assert(whole.len() == n0);
        assert(delays@ + spec_run_delays(whole, 0, INITIAL_RETRY_INTERVAL_MS, budget_ms)
            =~= spec_run_delays(whole, 0, INITIAL_RETRY_INTERVAL_MS, budget_ms));
    }
    loop
        invariant
            whole == script@,
            state.wf(),
            state.budget_ms == budget_ms,
            whole.len() <= usize::MAX,
            attempts == delays@.len(),
            attempts == whole.len() - rem@.len(),
            spec_run(whole, 0, INITIAL_RETRY_INTERVAL_MS, budget_ms) == spec_run(
                rem@,
                state.elapsed_ms,
                state.interval_ms,
                budget_ms,
            ),
            spec_run_delays(whole, 0, INITIAL_RETRY_INTERVAL_MS, budget_ms) == delays@
                + spec_run_delays(rem@, state.elapsed_ms, state.interval_ms, budget_ms),
        decreases rem@.len(),
    {
        let ghost prev = rem@;
        let ghost elapsed0 = state.elapsed_ms;
        let ghost interval0 = state.interval_ms;
        if rem.len() == 0 {
            return ExecReport {
                result: Err(
                    FirebaseError::Transport(
                        "attempts ended while the operation was still pending".to_owned(),
                    ),
                ),
                attempts,
                delays,
            };
        }
        let outcome = rem.remove(0);
        let ghost out0 = outcome;
        proof {
            assert(rem@ =~= prev.subrange(1, prev.len() as int));
        }
        attempts = attempts + 1;
        let ghost delays0 = delays@;
        let decision = state.on_outcome(outcome);
        match decision {
            RetryDecision::Finish(v) => {
                proof {
                    assert(spec_run(prev, elapsed0, interval0, budget_ms) == RunModel::Done(v));
                    assert(spec_run_delays(prev, elapsed0, interval0, budget_ms)
                        =~= Seq::<u64>::empty());
                    assert(delays0 + Seq::<u64>::empty() =~= delays0);
                }
                return ExecReport { result: Ok(v), attempts, delays };
            },
            RetryDecision::Fail(e) => {
                proof {
                    match out0 {
                        AttemptOutcome::Permanent(pe) => {
                            assert(spec_run(prev, elapsed0, interval0, budget_ms)
                                == RunModel::Failed(pe));
                        },
                        _ => {},
                    }
                    assert(spec_run_delays(prev, elapsed0, interval0, budget_ms)
                        =~= Seq::<u64>::empty());
                    assert(delays0 + Seq::<u64>::empty() =~= delays0);
                }
                return ExecReport { result: Err(e), attempts, delays };
            },
            RetryDecision::RetryAfter(delay) => {
                delays.push(delay);
                proof {
                    assert(spec_run_delays(prev, elapsed0, interval0, budget_ms) == seq![delay]
                        + spec_run_delays(
                        rem@,
                        state.elapsed_ms,
                        state.interval_ms,
                        budget_ms,
                    ));
                    assert(delays0 + (seq![delay] + spec_run_delays(
                        rem@,
                        state.elapsed_ms,
                        state.interval_ms,
                        budget_ms,
                    )) =~= (delays0 + seq![delay]) + spec_run_delays(
                        rem@,
                        state.elapsed_ms,
                        state.interval_ms,
                        budget_ms,
                    ));
                }
            },
        }
    }
}

} // verus!
