//! Engine-wide laws, stated and proved over the same spec functions the
//! public contracts use.

use vstd::prelude::*;
use crate::model::{
    LinearBand,
    SimulationConfig,
    SimulationError,
    SimulationResult,
    ToleranceEntry,
    ToleranceKind,
    SCALE,
};
use crate::sampler::{kind_value, lemma_zero_band_exact};
use crate::evaluate::{trial_from, trial_value};
use crate::rng::{normal_of, normal_state};
use crate::stats::{count_outside, prob_fail_spec, rss_mean_spec, rss_sq_spec};
use crate::driver::run_post;

verus! {

/// A linear entry whose two tolerances are both zero realizes exactly its
/// nominal, whatever generator state the trial hands it — so for every
/// seed and every iteration, its sample is the nominal.
pub proof fn lemma_zero_tolerance_linear(band: LinearBand, sigma: i64, s: u64)
    requires
        band.tol_pos == 0,
        band.tol_neg == 0,
        sigma > 0,
    ensures
        kind_value(ToleranceKind::Linear { band, sigma }, s) == band.nominal,
{
    lemma_zero_band_exact(band, sigma as int, normal_of(s));
}

/// A float fit whose four tolerances are all zero realizes exactly its
/// nominal clearance, whatever generator state the trial hands it.
pub proof fn lemma_zero_tolerance_fit(hole: LinearBand, pin: LinearBand, sigma: i64, s: u64)
    requires
        hole.tol_pos == 0,
        hole.tol_neg == 0,
        pin.tol_pos == 0,
        pin.tol_neg == 0,
        sigma > 0,
    ensures
        kind_value(ToleranceKind::Float { hole, pin, sigma }, s) == hole.nominal - pin.nominal,
{
    lemma_zero_band_exact(hole, sigma as int, normal_of(s));
    lemma_zero_band_exact(pin, sigma as int, normal_of(normal_state(s)));
}

/// A run is a function of stack, configuration and budget alone: any two
/// outcomes admitted by the driver's contract for the same inputs are the
/// same outcome, sample for sample and statistic for statistic.
pub proof fn lemma_run_deterministic(
    entries: Seq<ToleranceEntry>,
    c: SimulationConfig,
    budget: int,
    r1: Result<SimulationResult, SimulationError>,
    r2: Result<SimulationResult, SimulationError>,
)
    requires
        run_post(entries, c, budget, r1),
        run_post(entries, c, budget, r2),
    ensures
        match (r1, r2) {
            (Ok(a), Ok(b)) => {
                &&& a.samples@ == b.samples@
                &&& a.mean == b.mean
                &&& a.std_dev == b.std_dev
                &&& a.min == b.min
                &&& a.max == b.max
                &&& a.complete == b.complete
            },
            (Err(e1), Err(e2)) => e1 == e2,
            _ => false,
        },
{
    match (r1, r2) {
        (Ok(a), Ok(b)) => {
            assert forall|t: int| 0 <= t < a.samples@.len() implies a.samples@[t]
                == b.samples@[t] by {
                assert(a.samples@[t] as int == trial_value(entries, crate::driver::seed_of(c), t));
                assert(b.samples@[t] as int == trial_value(entries, crate::driver::seed_of(c), t));
            }
            assert(a.samples@ =~= b.samples@);
        },
        (Ok(_), Err(_)) => {},
        (Err(_), Ok(_)) => {},
        (Err(_), Err(_)) => {},
    }
}

/// Tightening the limits can only add nonconforming samples.
proof fn lemma_count_outside_monotone(s: Seq<i64>, lsl1: int, usl1: int, lsl2: int, usl2: int)
    requires
        lsl1 <= lsl2,
        usl2 <= usl1,
    ensures
        count_outside(s, lsl1, usl1) <= count_outside(s, lsl2, usl2),
    decreases s.len(),
{
    if s.len() > 0 {
        lemma_count_outside_monotone(s.drop_last(), lsl1, usl1, lsl2, usl2);
    }
}

/// The probability of nonconformance is monotone: shrinking the
/// specification window toward zero width never lowers it, for a fixed
/// sample population.
pub proof fn lemma_prob_fail_monotone(s: Seq<i64>, lsl1: int, usl1: int, lsl2: int, usl2: int)
    requires
        s.len() >= 1,
        lsl1 <= lsl2,
        usl2 <= usl1,
    ensures
        prob_fail_spec(s, lsl1, usl1) <= prob_fail_spec(s, lsl2, usl2),
{
    lemma_count_outside_monotone(s, lsl1, usl1, lsl2, usl2);
    vstd::arithmetic::mul::lemma_mul_inequality(
        count_outside(s, lsl1, usl1),
        count_outside(s, lsl2, usl2),
        SCALE as int,
    );
    vstd::arithmetic::div_mod::lemma_div_is_ordered(
        count_outside(s, lsl1, usl1) * (SCALE as int),
        count_outside(s, lsl2, usl2) * (SCALE as int),
        s.len() as int,
    );
}

/// Whether a kind's bands all have zero width.
pub open spec fn zero_width(k: ToleranceKind) -> bool {
    match k {
        ToleranceKind::Linear { band, .. } => band.tol_pos == 0 && band.tol_neg == 0,
        ToleranceKind::Float { hole, pin, .. } => hole.tol_pos == 0 && hole.tol_neg == 0
            && pin.tol_pos == 0 && pin.tol_neg == 0,
    }
}

/// Signed nominal sum over `entries[i..]`, mirroring the walk of a trial.
spec fn nominal_from(entries: Seq<ToleranceEntry>, i: int) -> int
    decreases entries.len() - i,
{
    if i < 0 || i >= entries.len() {
        0
    } else if crate::model::simulated(entries[i]) {
        crate::evaluate::sign_of(entries[i].direction) * crate::stats::kind_nominal(
            entries[i].kind,
        ) + nominal_from(entries, i + 1)
    } else {
        nominal_from(entries, i + 1)
    }
}

/// With zero-width bands, a trial walk sums the signed nominals exactly.
proof fn lemma_degenerate_trial_from(entries: Seq<ToleranceEntry>, i: int, s: u64)
    requires
        forall|j: int|
            0 <= j < entries.len() && crate::model::simulated(#[trigger] entries[j])
                ==> zero_width(entries[j].kind),
    ensures
        trial_from(entries, i, s) == nominal_from(entries, i),
    decreases entries.len() - i,
{
    reveal(trial_from);
    if 0 <= i < entries.len() {
        let e = entries[i];
        if crate::model::simulated(e) {
            match e.kind {
                ToleranceKind::Linear { band, sigma } => {
                    lemma_zero_tolerance_linear(band, sigma, s);
                },
                ToleranceKind::Float { hole, pin, sigma } => {
                    lemma_zero_tolerance_fit(hole, pin, sigma, s);
                },
            }
            lemma_degenerate_trial_from(entries, i + 1, crate::sampler::kind_state(e.kind, s));
        } else {
            lemma_degenerate_trial_from(entries, i + 1, s);
        }
    }
}

/// The two recursions over a stack — front-to-back as a trial walks it,
/// and back-to-front as the closed form folds it — sum the same nominals.
proof fn lemma_nominal_from_is_rss_mean(entries: Seq<ToleranceEntry>, i: int)
    requires
        0 <= i <= entries.len(),
    ensures
        nominal_from(entries, i) == rss_mean_spec(entries) - rss_mean_spec(entries.take(i)),
    decreases entries.len() - i,
{
    if i == entries.len() {
        assert(entries.take(i) =~= entries);
    } else {
        lemma_nominal_from_is_rss_mean(entries, i + 1);
        assert(entries.take(i + 1).drop_last() =~= entries.take(i));
        assert(entries.take(i + 1).last() == entries[i]);
    }
}

/// For a stack whose simulated entries all have zero-width bands, every
/// trial's resultant equals the closed-form root-sum-square mean exactly,
/// for every seed and every trial index: in the degenerate case the Monte
/// Carlo path and the closed form agree not just in the limit but sample
/// for sample.
pub proof fn lemma_degenerate_stack_matches_closed_form(
    entries: Seq<ToleranceEntry>,
    seed: u64,
    t: int,
)
    requires
        forall|j: int|
            0 <= j < entries.len() && crate::model::simulated(#[trigger] entries[j])
                ==> zero_width(entries[j].kind),
    ensures
        trial_value(entries, seed, t) == rss_mean_spec(entries),
{
    reveal(trial_value);
    lemma_degenerate_trial_from(entries, 0, crate::rng::trial_start(seed, t));
    lemma_nominal_from_is_rss_mean(entries, 0);
    assert(entries.take(0) =~= Seq::<ToleranceEntry>::empty());
}

/// The sum of a constant population.
proof fn lemma_sum_constant(s: Seq<i64>, v: i64)
    requires
        forall|i: int| 0 <= i < s.len() ==> #[trigger] s[i] == v,
    ensures
        crate::stats::sum_of(s) == s.len() * v,
    decreases s.len(),
{
    if s.len() > 0 {
        lemma_sum_constant(s.drop_last(), v);
        vstd::arithmetic::mul::lemma_mul_is_distributive_add_other_way(
            v as int,
            s.len() - 1,
            1,
        );
    }
}

/// The mean of a constant population is that constant: a run whose trials
/// all land on one value reports exactly that value as its mean.
pub proof fn lemma_constant_population_mean(s: Seq<i64>, v: i64)
    requires
        s.len() >= 1,
        forall|i: int| 0 <= i < s.len() ==> #[trigger] s[i] == v,
    ensures
        crate::stats::mean_spec(s) == v,
{
    lemma_sum_constant(s, v);
    if v >= 0 {
        vstd::arithmetic::div_mod::lemma_div_multiples_vanish(v as int, s.len() as int);
    } else {
        vstd::arithmetic::div_mod::lemma_div_multiples_vanish(-(v as int), s.len() as int);
        vstd::arithmetic::mul::lemma_mul_unary_negation(s.len() as int, v as int);
    }
}

/// The entry with its active flag cleared.
pub open spec fn deactivated(e: ToleranceEntry) -> ToleranceEntry {
    ToleranceEntry { active: false, ..e }
}

/// Past the disabled index, the disabled stack and the shortened stack
/// walk the same entries with the same generator states.
proof fn lemma_omit_tail(entries: Seq<ToleranceEntry>, i: int, k: int, s: u64)
    requires
        0 <= i < entries.len(),
        i <= k <= entries.len(),
    ensures
        trial_from(entries.update(i, deactivated(entries[i])), k + 1, s) == trial_from(
            entries.remove(i),
            k,
            s,
        ),
    decreases entries.len() - k,
{
    reveal(trial_from);
    let upd = entries.update(i, deactivated(entries[i]));
    let rem = entries.remove(i);
    if k < rem.len() {
        assert(rem[k] == upd[k + 1]);
        if crate::model::simulated(rem[k]) {
            lemma_omit_tail(entries, i, k + 1, crate::sampler::kind_state(rem[k].kind, s));
        } else {
            lemma_omit_tail(entries, i, k + 1, s);
        }
    }
}

/// Before the disabled index, both stacks walk identical entries.
proof fn lemma_omit_prefix(entries: Seq<ToleranceEntry>, i: int, j: int, s: u64)
    requires
        0 <= i < entries.len(),
        0 <= j <= i,
    ensures
        trial_from(entries.update(i, deactivated(entries[i])), j, s) == trial_from(
            entries.remove(i),
            j,
            s,
        ),
    decreases i - j,
{
    reveal(trial_from);
    let upd = entries.update(i, deactivated(entries[i]));
    let rem = entries.remove(i);
    if j == i {
        assert(!crate::model::simulated(upd[i]));
        lemma_omit_tail(entries, i, i, s);
    } else {
        assert(upd[j] == rem[j]);
        if crate::model::simulated(upd[j]) {
            lemma_omit_prefix(entries, i, j + 1, crate::sampler::kind_state(upd[j].kind, s));
        } else {
            lemma_omit_prefix(entries, i, j + 1, s);
        }
    }
}

/// The root-sum-square closed form also omits a disabled entry outright.
proof fn lemma_rss_omit(entries: Seq<ToleranceEntry>, i: int)
    requires
        0 <= i < entries.len(),
    ensures
        rss_mean_spec(entries.update(i, deactivated(entries[i]))) == rss_mean_spec(
            entries.remove(i),
        ),
        rss_sq_spec(entries.update(i, deactivated(entries[i]))) == rss_sq_spec(entries.remove(i)),
    decreases entries.len(),
{
    let upd = entries.update(i, deactivated(entries[i]));
    let rem = entries.remove(i);
    if i == entries.len() - 1 {
        assert(upd.drop_last() =~= entries.drop_last());
        assert(rem =~= entries.drop_last());
        assert(!crate::model::simulated(upd.last()));
    } else {
        assert(upd.drop_last() =~= entries.drop_last().update(i, deactivated(entries[i])));
        assert(entries.drop_last()[i] == entries[i]);
        assert(rem.drop_last() =~= entries.drop_last().remove(i));
        lemma_rss_omit(entries.drop_last(), i);
        assert(upd.last() == entries.last());
        assert(rem.last() == entries.last());
    }
}

/// Disabling an entry changes the analysis exactly as removing it would:
/// every Monte Carlo trial walks the same values, and the closed-form
/// root-sum-square mean and summed squares are unchanged — both paths
/// simply omit the entry.
pub proof fn lemma_disable_equals_omit(entries: Seq<ToleranceEntry>, i: int)
    requires
        0 <= i < entries.len(),
    ensures
        forall|s: u64|
            trial_from(entries.update(i, deactivated(entries[i])), 0, s) == trial_from(
                entries.remove(i),
                0,
                s,
            ),
        forall|seed: u64, t: int|
            trial_value(entries.update(i, deactivated(entries[i])), seed, t) == trial_value(
                entries.remove(i),
                seed,
                t,
            ),
        rss_mean_spec(entries.update(i, deactivated(entries[i]))) == rss_mean_spec(
            entries.remove(i),
        ),
        rss_sq_spec(entries.update(i, deactivated(entries[i]))) == rss_sq_spec(entries.remove(i)),
{
    assert forall|s: u64|
        trial_from(entries.update(i, deactivated(entries[i])), 0, s) == trial_from(
            entries.remove(i),
            0,
            s,
        ) by {
        lemma_omit_prefix(entries, i, 0, s);
    }
    assert forall|seed: u64, t: int|
        trial_value(entries.update(i, deactivated(entries[i])), seed, t) == trial_value(
            entries.remove(i),
            seed,
            t,
        ) by {
        reveal(trial_value);
        lemma_omit_prefix(entries, i, 0, crate::rng::trial_start(seed, t));
    }
    lemma_rss_omit(entries, i);
}

} // verus!
