//! Monte Carlo driver: independent trials fanned out by index, gathered in
//! trial order, then summarized.
//!
//! Trial `t` is a pure function of the stack, the effective seed and `t`
//! alone, so a run is replayable and trials are independent: no trial
//! reads another's state.  A budgeted run stops after a caller-chosen
//! number of trials and tags its result incomplete instead of failing —
//! cooperative cancellation without discarding what was collected.

use vstd::prelude::*;
use crate::model::{
    SimulationConfig,
    SimulationError,
    SimulationResult,
    StackDefinition,
    ToleranceEntry,
    simulated_count,
    DEFAULT_SEED,
    SAMPLE_LIMIT,
    ENTRY_LIMIT,
    ITERATION_LIMIT,
};
use crate::evaluate::{trial_value, trial_in_range, eval_trial};
use crate::rng::trial_rng;
use crate::stats::{summarize, summarizable, mean_spec, std_dev_spec, min_spec, max_spec};

verus! {

/// Effective seed of a run: the configured one, or the fixed default.
pub open spec fn seed_of(c: SimulationConfig) -> u64 {
    match c.random_seed {
        Some(s) => s,
        None => DEFAULT_SEED,
    }
}

/// Whether the configuration itself is rejected: non-positive iteration
/// count or sigma, or a request past the engine's capacity.
pub open spec fn config_rejected(
    entries: Seq<ToleranceEntry>,
    c: SimulationConfig,
    budget: int,
) -> bool {
    ||| c.iterations == 0
    ||| c.assembly_sigma <= 0
    ||| c.iterations > ITERATION_LIMIT
    ||| entries.len() > ENTRY_LIMIT
    ||| budget <= 0
}

/// Number of trials a budgeted run performs.
pub open spec fn trials_of(c: SimulationConfig, budget: int) -> int {
    if budget < c.iterations {
        budget
    } else {
        c.iterations as int
    }
}

/// Whether some performed trial leaves the representable sample range.
pub open spec fn some_trial_overflows(
    entries: Seq<ToleranceEntry>,
    seed: u64,
    trials: int,
) -> bool {
    exists|t: int| 0 <= t < trials && !trial_in_range(entries, seed, t)
}

/// Full behaviour of a (budgeted) run over `entries`.
pub open spec fn run_post(
    entries: Seq<ToleranceEntry>,
    c: SimulationConfig,
    budget: int,
    r: Result<SimulationResult, SimulationError>,
) -> bool {
    let seed = seed_of(c);
    let trials = trials_of(c, budget);
    match r {
        Err(SimulationError::ConfigError) => config_rejected(entries, c, budget),
        Err(SimulationError::InvalidStackError) => !config_rejected(entries, c, budget)
            && simulated_count(entries) == 0,
        Err(SimulationError::NonFiniteResultError) => !config_rejected(entries, c, budget)
            && simulated_count(entries) != 0 && some_trial_overflows(entries, seed, trials),
        Ok(res) => {
            &&& !config_rejected(entries, c, budget)
            &&& simulated_count(entries) != 0
            &&& !some_trial_overflows(entries, seed, trials)
            &&& res.samples@.len() == trials
            &&& forall|t: int|
                0 <= t < trials ==> #[trigger] res.samples@[t] as int == trial_value(
                    entries,
                    seed,
                    t,
                )
            &&& res.mean as int == mean_spec(res.samples@)
            &&& res.std_dev as int == std_dev_spec(res.samples@)
            &&& res.min as int == min_spec(res.samples@)
            &&& res.max as int == max_spec(res.samples@)
            &&& res.complete == (budget >= c.iterations)
        },
    }
}

/// Gather the resultants of trials `0 .. n`, or report which trial left
/// the representable range.
fn collect_trials(entries: &Vec<ToleranceEntry>, seed: u64, n: usize) -> (r: Option<Vec<i64>>)
    requires
        entries@.len() <= ENTRY_LIMIT,
        n <= ITERATION_LIMIT,
    ensures
        match r {
            Some(v) => {
                &&& v@.len() == n
                &&& forall|j: int|
                    0 <= j < n ==> #[trigger] (v@[j] as int) == trial_value(entries@, seed, j)
                &&& forall|j: int| 0 <= j < n ==> trial_in_range(entries@, seed, j)
            },
            None => some_trial_overflows(entries@, seed, n as int),
        },
{
    let mut samples: Vec<i64> = Vec::new();
    let mut t: usize = 0;
    while t < n
        invariant
            n <= ITERATION_LIMIT,
            entries@.len() <= ENTRY_LIMIT,
            t <= n,
            samples@.len() == t,
            forall|j: int|
                0 <= j < t ==> #[trigger] (samples@[j] as int) == trial_value(entries@, seed, j),
            forall|j: int| 0 <= j < t ==> trial_in_range(entries@, seed, j),
        decreases n - t,
    {
        let start = trial_rng(seed, t);
        proof {
            reveal(trial_value);
        }
        match eval_trial(entries, start) {
            Some(v) => {
                samples.push(v);
            },
            None => {
                assert(!trial_in_range(entries@, seed, t as int));
                return None;
            },
        }
        t = t + 1;
    }
    Some(samples)
}

/// Summarize a run's gathered samples and tag them complete or not.
fn summarize_run(samples: Vec<i64>, complete: bool) -> (res: SimulationResult)
    requires
        summarizable(samples@),
    ensures
        res.samples@ == samples@,
        res.mean as int == mean_spec(samples@),
        res.std_dev as int == std_dev_spec(samples@),
        res.min as int == min_spec(samples@),
        res.max as int == max_spec(samples@),
        res.complete == complete,
{
    match summarize(samples) {
        Ok(res) => {
            let mut out = res;
            out.complete = complete;
            out
        },
        Err(_) => {
            proof {
                assert(false);
            }
            vstd::pervasive::unreached()
        },
    }
}

/// Run at most `budget` of the configured trials, tagging the result
/// incomplete when the budget cut the run short.  A zero budget is a
/// configuration failure: a run that completed no trial has no result.
pub fn run_budgeted(stack: &StackDefinition, config: &SimulationConfig, budget: usize) -> (r:
    Result<SimulationResult, SimulationError>)
    ensures
        run_post(stack.entries@, *config, budget as int, r),
{
    if config.iterations == 0 || config.assembly_sigma <= 0 || config.iterations > ITERATION_LIMIT
        || budget == 0 {
        return Err(SimulationError::ConfigError);
    }
    if stack.entries.len() > ENTRY_LIMIT {
        return Err(SimulationError::ConfigError);
    }
    if stack.count_simulated() == 0 {
        return Err(SimulationError::InvalidStackError);
    }
    let seed: u64 = match config.random_seed {
        Some(s) => s,
        None => DEFAULT_SEED,
    };
    let n: usize = if budget < config.iterations {
        budget
    } else {
        config.iterations
    };

    let samples: Vec<i64> = match collect_trials(&stack.entries, seed, n) {
        Some(v) => v,
        None => {
            return Err(SimulationError::NonFiniteResultError);
        },
    };

    proof {
        assert forall|i: int|
            0 <= i < samples@.len() implies -SAMPLE_LIMIT <= #[trigger] samples@[i]
            <= SAMPLE_LIMIT by {
            assert(trial_in_range(stack.entries@, seed, i));
            assert((samples@[i] as int) == trial_value(stack.entries@, seed, i));
        }
        assert(summarizable(samples@));
    }
    let res = summarize_run(samples, budget >= config.iterations);
    Ok(res)
}

/// Run the configured number of trials and summarize them.
///
/// Fails with `ConfigError` on a non-positive iteration count or sigma
/// (or a request past capacity), with `InvalidStackError` when no entry is
/// active and valid, both before any sampling; and with
/// `NonFiniteResultError` when a trial's resultant leaves the
/// representable range, discarding the partial samples of that run.
pub fn run(stack: &StackDefinition, config: &SimulationConfig) -> (r: Result<
    SimulationResult,
    SimulationError,
>)
    ensures
        run_post(stack.entries@, *config, config.iterations as int, r),
        r matches Ok(res) ==> res.complete,
{
    run_budgeted(stack, config, config.iterations)
}

} // verus!
