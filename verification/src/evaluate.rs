//! Stack evaluation: one Monte Carlo trial reduced to one resultant value.
//!
//! A trial walks the stack in order.  Every entry that takes part
//! ([`crate::model::simulated`]) draws its realized value from the shared
//! generator state and contributes it under its direction sign; entries
//! that are disabled or invalid are absent from the sum and consume no
//! randomness.

use vstd::prelude::*;
use crate::model::{Sign, ToleranceEntry, simulated, ENTRY_LIMIT, SAMPLE_LIMIT};
use crate::rng::trial_start;
use crate::sampler::{kind_value, kind_state, sample_kind, ENTRY_VALUE_LIMIT};

verus! {

/// Direction of contribution as a factor.
pub open spec fn sign_of(d: Sign) -> int {
    match d {
        Sign::Positive => 1,
        Sign::Negative => -1,
    }
}

/// Signed contribution of one entry drawn from generator state `s`.
pub open spec fn contribution(e: ToleranceEntry, s: u64) -> int {
    sign_of(e.direction) * kind_value(e.kind, s)
}

/// Resultant of the trial over `entries[i..]`, starting from generator
/// state `s`: simulated entries contribute in order and thread the state,
/// the rest are skipped outright.  Kept opaque: callers of the driver
/// reason about whole trials, not about this recursion.
#[verifier::opaque]
pub open spec fn trial_from(entries: Seq<ToleranceEntry>, i: int, s: u64) -> int
    decreases entries.len() - i,
{
    if i < 0 || i >= entries.len() {
        0
    } else if simulated(entries[i]) {
        contribution(entries[i], s) + trial_from(entries, i + 1, kind_state(entries[i].kind, s))
    } else {
        trial_from(entries, i + 1, s)
    }
}

/// Resultant value of trial `t` of a run over `entries` under `seed`.
/// Opaque like [`trial_from`]: the driver's callers treat a trial's value
/// as one atom.
#[verifier::opaque]
pub open spec fn trial_value(entries: Seq<ToleranceEntry>, seed: u64, t: int) -> int {
    trial_from(entries, 0, trial_start(seed, t))
}

/// Whether trial `t`'s resultant stays in the representable sample range.
pub open spec fn trial_in_range(entries: Seq<ToleranceEntry>, seed: u64, t: int) -> bool {
    -SAMPLE_LIMIT <= trial_value(entries, seed, t) <= SAMPLE_LIMIT
}

/// Run one trial over the whole stack from generator state `s0`.  Returns
/// `None` exactly when the resultant leaves the representable range.
pub fn eval_trial(entries: &Vec<ToleranceEntry>, s0: u64) -> (r: Option<i64>)
    requires
        entries@.len() <= ENTRY_LIMIT,
    ensures
        match r {
            Some(v) => v as int == trial_from(entries@, 0, s0) && -SAMPLE_LIMIT <= v
                <= SAMPLE_LIMIT,
            None => !(-SAMPLE_LIMIT <= trial_from(entries@, 0, s0) <= SAMPLE_LIMIT),
        },
{
    let n = entries.len();
    let mut total: i128 = 0;
    let mut s: u64 = s0;
    let mut i: usize = 0;
    while i < n
        invariant
            n == entries@.len(),
            n <= ENTRY_LIMIT,
            i <= n,
            trial_from(entries@, 0, s0) == total + trial_from(entries@, i as int, s),
            -((i as int) * (ENTRY_VALUE_LIMIT as int)) <= total as int <= (i as int) * (
            ENTRY_VALUE_LIMIT as int),
        decreases n - i,
    {
        proof {
            reveal(trial_from);
            assert((i as int + 1) * (ENTRY_VALUE_LIMIT as int) == (i as int) * (ENTRY_VALUE_LIMIT
                as int) + (ENTRY_VALUE_LIMIT as int)) by (nonlinear_arith);
            assert((i as int) * (ENTRY_VALUE_LIMIT as int) <= (ENTRY_LIMIT as int) * (
            ENTRY_VALUE_LIMIT as int)) by (nonlinear_arith)
                requires
                    0 <= i as int <= ENTRY_LIMIT as int,
            ;
        }
        let e = &entries[i];
        if e.active && e.valid && crate::model::check_kind(&e.kind) {
            let (v, s_next) = sample_kind(&e.kind, s);
            let c: i128 = match e.direction {
                Sign::Positive => v,
                Sign::Negative => -v,
            };
            proof {
                assert(c as int == contribution(entries@[i as int], s));
            }
            total = total + c;
            s = s_next;
        }
        i = i + 1;
    }
    proof {
        reveal(trial_from);
        assert(trial_from(entries@, n as int, s) == 0);
    }
    if -SAMPLE_LIMIT as i128 <= total && total <= SAMPLE_LIMIT as i128 {
        Some(total as i64)
    } else {
        None
    }
}

} // verus!
