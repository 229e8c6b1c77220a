//! Statistics aggregation: population summary of a sample sequence,
//! conformance against specification limits, and the closed-form estimates
//! that need no trials.
//!
//! The population formulas are used throughout (no Bessel correction): the
//! run's samples are the whole population being summarized, not a
//! sub-sample of one.  All quotients truncate toward zero and the standard
//! deviation is the integer square-root floor of the population variance,
//! so every statistic is an exact function of the samples.

use vstd::prelude::*;
use crate::model::{
    CpkEstimate,
    EvalReport,
    LinearBand,
    RssEstimate,
    SimulationError,
    SimulationResult,
    SpecLimits,
    StackDefinition,
    ToleranceEntry,
    ToleranceKind,
    WorstCaseBounds,
    band_ok,
    check_kind,
    simulated,
    ENTRY_LIMIT,
    ITERATION_LIMIT,
    SAMPLE_LIMIT,
    SCALE,
};
use crate::evaluate::sign_of;

verus! {

/// Largest per-sigma standard deviation one band may contribute to the
/// root-sum-square estimate; keeps the summed squares inside `u128`.
pub const RSS_SIGMA_LIMIT: u128 = 1_000_000_000_000_000;

/// Sum of a sample sequence.
pub open spec fn sum_of(s: Seq<i64>) -> int
    decreases s.len(),
{
    if s.len() == 0 {
        0
    } else {
        sum_of(s.drop_last()) + s.last()
    }
}

/// Quotient truncated toward zero (for a positive divisor), the rounding
/// every aggregate here uses.
pub open spec fn div_to_zero(a: int, b: int) -> int {
    if a >= 0 {
        a / b
    } else {
        -((-a) / b)
    }
}

/// Whether every sample lies in the representable resultant range.
pub open spec fn all_in_limit(s: Seq<i64>) -> bool {
    forall|i: int| 0 <= i < s.len() ==> -SAMPLE_LIMIT <= #[trigger] s[i] <= SAMPLE_LIMIT
}

/// Population mean, truncated toward zero.
pub open spec fn mean_spec(s: Seq<i64>) -> int {
    div_to_zero(sum_of(s), s.len() as int)
}

/// Sum of squared deviations from `m`.
pub open spec fn sq_dev_sum(s: Seq<i64>, m: int) -> int
    decreases s.len(),
{
    if s.len() == 0 {
        0
    } else {
        sq_dev_sum(s.drop_last(), m) + ((s.last() - m) * (s.last() - m))
    }
}

/// Population variance about the truncated mean.
pub open spec fn var_spec(s: Seq<i64>) -> int {
    sq_dev_sum(s, mean_spec(s)) / (s.len() as int)
}

/// Integer square-root floor.
pub open spec fn sqrt_floor(x: int) -> int
    decreases x,
{
    if x <= 0 {
        0
    } else {
        let r = sqrt_floor(x - 1);
        if (r + 1) * (r + 1) <= x {
            r + 1
        } else {
            r
        }
    }
}

/// Population standard deviation: square-root floor of the variance.
pub open spec fn std_dev_spec(s: Seq<i64>) -> int {
    sqrt_floor(var_spec(s))
}

/// Smallest sample (first element for the empty-guarded base case).
pub open spec fn min_spec(s: Seq<i64>) -> int
    decreases s.len(),
{
    if s.len() <= 1 {
        s[0] as int
    } else {
        let m = min_spec(s.drop_last());
        if s.last() < m {
            s.last() as int
        } else {
            m
        }
    }
}

/// Largest sample.
pub open spec fn max_spec(s: Seq<i64>) -> int
    decreases s.len(),
{
    if s.len() <= 1 {
        s[0] as int
    } else {
        let m = max_spec(s.drop_last());
        if s.last() > m {
            s.last() as int
        } else {
            m
        }
    }
}

/// Whether a sequence can be summarized: at least one sample, not past the
/// iteration capacity, and every sample in range.
pub open spec fn summarizable(s: Seq<i64>) -> bool {
    1 <= s.len() <= ITERATION_LIMIT && all_in_limit(s)
}

/// What [`summarize`] promises of a successful summary.
pub open spec fn summary_of(s: Seq<i64>, r: SimulationResult) -> bool {
    &&& r.samples@ == s
    &&& r.mean as int == mean_spec(s)
    &&& r.std_dev as int == std_dev_spec(s)
    &&& r.min as int == min_spec(s)
    &&& r.max as int == max_spec(s)
    &&& r.complete
}

/// The square-root floor is the unique non-negative root bracketing `x`.
pub proof fn lemma_sqrt_floor_bounds(x: int)
    requires
        x >= 0,
    ensures
        sqrt_floor(x) >= 0,
        sqrt_floor(x) * sqrt_floor(x) <= x,
        x < (sqrt_floor(x) + 1) * (sqrt_floor(x) + 1),
    decreases x,
{
    if x > 0 {
        lemma_sqrt_floor_bounds(x - 1);
        let r = sqrt_floor(x - 1);
        if (r + 1) * (r + 1) <= x {
            assert(x == (r + 1) * (r + 1)) by (nonlinear_arith)
                requires
                    x - 1 < (r + 1) * (r + 1),
                    (r + 1) * (r + 1) <= x,
            ;
            assert(x < (r + 2) * (r + 2)) by (nonlinear_arith)
                requires
                    r >= 0,
                    x == (r + 1) * (r + 1),
            ;
        }
    }
}

/// Any non-negative `r` with `r^2 <= x < (r+1)^2` is the square-root floor.
pub proof fn lemma_sqrt_floor_unique(x: int, r: int)
    requires
        x >= 0,
        r >= 0,
        r * r <= x,
        x < (r + 1) * (r + 1),
    ensures
        r == sqrt_floor(x),
{
    lemma_sqrt_floor_bounds(x);
    let f = sqrt_floor(x);
    if r < f {
        assert((r + 1) * (r + 1) <= f * f) by (nonlinear_arith)
            requires
                0 <= r,
                r + 1 <= f,
        ;
    }
    if r > f {
        assert((f + 1) * (f + 1) <= r * r) by (nonlinear_arith)
            requires
                0 <= f,
                f + 1 <= r,
        ;
    }
}

/// Integer square-root floor of a `u128`, by bisection.
pub fn isqrt(x: u128) -> (r: u128)
    ensures
        r as int == sqrt_floor(x as int),
        (r as int) * (r as int) <= x as int,
        (x as int) < ((r as int) + 1) * ((r as int) + 1),
{
    let mut lo: u128 = 0;
    let mut hi: u128 = 0x1_0000_0000_0000_0000;
    proof {
        assert((hi as int) * (hi as int) > x as int) by (nonlinear_arith)
            requires
                hi as int == 0x1_0000_0000_0000_0000,
                x as int <= 0xFFFF_FFFF_FFFF_FFFF_FFFF_FFFF_FFFF_FFFFu128 as int,
        ;
    }
    while hi - lo > 1
        invariant
            lo < hi,
            hi <= 0x1_0000_0000_0000_0000,
            (lo as int) * (lo as int) <= x as int,
            (x as int) < (hi as int) * (hi as int),
        decreases hi - lo,
    {
        let mid: u128 = lo + (hi - lo) / 2;
        proof {
            assert(lo < mid < hi);
            vstd::arithmetic::mul::lemma_mul_upper_bound(
                mid as int,
                0xFFFF_FFFF_FFFF_FFFFu64 as int,
                mid as int,
                0xFFFF_FFFF_FFFF_FFFFu64 as int,
            );
        }
        let sq: u128 = mid * mid;
        if sq <= x {
            lo = mid;
        } else {
            hi = mid;
        }
    }
    proof {
        lemma_sqrt_floor_unique(x as int, lo as int);
    }
    lo
}

/// Reduce a sample population to its summary statistics.
///
/// Succeeds exactly on a [`summarizable`] population; an empty or
/// over-long population is a configuration failure, an out-of-range
/// sample a non-finite-result failure.
pub fn summarize(samples: Vec<i64>) -> (r: Result<SimulationResult, SimulationError>)
    ensures
        r is Ok <==> summarizable(samples@),
        match r {
            Ok(res) => summary_of(samples@, res),
            Err(e) => {
                &&& (e is ConfigError <==> (samples@.len() == 0 || samples@.len()
                    > ITERATION_LIMIT))
                &&& (e is NonFiniteResultError <==> (1 <= samples@.len() <= ITERATION_LIMIT
                    && !all_in_limit(samples@)))
                &&& !(e is InvalidStackError)
            },
        },
{
    let n = samples.len();
    if n == 0 || n > ITERATION_LIMIT {
        return Err(SimulationError::ConfigError);
    }
    let mut i: usize = 0;
    while i < n
        invariant
            n == samples@.len(),
            1 <= n <= ITERATION_LIMIT,
            i <= n,
            forall|j: int| 0 <= j < i ==> -SAMPLE_LIMIT <= #[trigger] samples@[j] <= SAMPLE_LIMIT,
        decreases n - i,
    {
        let x = samples[i];
        if x < -SAMPLE_LIMIT || x > SAMPLE_LIMIT {
            assert(!all_in_limit(samples@));
            return Err(SimulationError::NonFiniteResultError);
        }
        i = i + 1;
    }
    assert(all_in_limit(samples@));

    let first = samples[0];
    let mut sum: i128 = first as i128;
    let mut mn: i64 = first;
    let mut mx: i64 = first;
    let mut i: usize = 1;
    proof {
        assert(samples@.take(1).drop_last() =~= samples@.take(0));
        assert(samples@.take(1).last() == samples@[0]);
        assert(sum_of(samples@.take(0)) == 0);
        assert(sum as int == sum_of(samples@.take(1)));
    }
    while i < n
        invariant
            n == samples@.len(),
            1 <= n <= ITERATION_LIMIT,
            all_in_limit(samples@),
            1 <= i <= n,
            sum as int == sum_of(samples@.take(i as int)),
            -((i as int) * (SAMPLE_LIMIT as int)) <= sum as int <= (i as int) * (SAMPLE_LIMIT
                as int),
            mn as int == min_spec(samples@.take(i as int)),
            mx as int == max_spec(samples@.take(i as int)),
        decreases n - i,
    {
        let x = samples[i];
        proof {
            assert(samples@.take(i + 1).drop_last() =~= samples@.take(i as int));
            assert(samples@.take(i + 1).last() == samples@[i as int]);
            assert((i as int + 1) * (SAMPLE_LIMIT as int) == (i as int) * (SAMPLE_LIMIT as int) + (
            SAMPLE_LIMIT as int)) by (nonlinear_arith);
        }
        sum = sum + (x as i128);
        if x < mn {
            mn = x;
        }
        if x > mx {
            mx = x;
        }
        i = i + 1;
    }
    proof {
        assert(samples@.take(n as int) =~= samples@);
        assert((n as int) * (SAMPLE_LIMIT as int) <= (ITERATION_LIMIT as int) * (SAMPLE_LIMIT
            as int)) by (nonlinear_arith)
            requires
                1 <= n as int <= ITERATION_LIMIT as int,
        ;
    }

    let mean: i64 = if sum >= 0 {
        proof {
            vstd::arithmetic::div_mod::lemma_div_is_ordered(
                sum as int,
                (n as int) * (SAMPLE_LIMIT as int),
                n as int,
            );
            vstd::arithmetic::div_mod::lemma_div_multiples_vanish(SAMPLE_LIMIT as int, n as int);
            vstd::arithmetic::div_mod::lemma_div_pos_is_pos(sum as int, n as int);
        }
        let q: u128 = (sum as u128) / (n as u128);
        q as i64
    } else {
        proof {
            vstd::arithmetic::div_mod::lemma_div_is_ordered(
                -(sum as int),
                (n as int) * (SAMPLE_LIMIT as int),
                n as int,
            );
            vstd::arithmetic::div_mod::lemma_div_multiples_vanish(SAMPLE_LIMIT as int, n as int);
            vstd::arithmetic::div_mod::lemma_div_pos_is_pos(-(sum as int), n as int);
        }
        let neg: i128 = -sum;
        let q: u128 = (neg as u128) / (n as u128);
        -(q as i64)
    };
    proof {
        assert(mean as int == mean_spec(samples@));
        assert(-SAMPLE_LIMIT <= mean as int <= SAMPLE_LIMIT);
    }

    let ghost m: int = mean_spec(samples@);
    let mut acc: u128 = 0;
    let mut i: usize = 0;
    while i < n
        invariant
            n == samples@.len(),
            1 <= n <= ITERATION_LIMIT,
            all_in_limit(samples@),
            -SAMPLE_LIMIT <= mean as int <= SAMPLE_LIMIT,
            mean as int == m,
            i <= n,
            acc as int == sq_dev_sum(samples@.take(i as int), m),
            acc as int <= (i as int) * 40_000_000_000_000_000_000_000_000_000,
        decreases n - i,
    {
        let x = samples[i];
        let diff: i128 = (x as i128) - (mean as i128);
        let ud: u128 = if diff >= 0 {
            diff as u128
        } else {
            (-diff) as u128
        };
        proof {
            assert(samples@.take(i + 1).drop_last() =~= samples@.take(i as int));
            assert(samples@.take(i + 1).last() == samples@[i as int]);
            assert(ud as int <= 200_000_000_000_000);
            vstd::arithmetic::mul::lemma_mul_upper_bound(
                ud as int,
                200_000_000_000_000,
                ud as int,
                200_000_000_000_000,
            );
            assert((ud as int) * (ud as int) == (samples@[i as int] - m) * (samples@[i as int]
                - m)) by (nonlinear_arith)
                requires
                    ud as int == samples@[i as int] - m || ud as int == -(samples@[i as int] - m),
            ;
            assert((i as int + 1) * 40_000_000_000_000_000_000_000_000_000 == (i as int)
                * 40_000_000_000_000_000_000_000_000_000 + 40_000_000_000_000_000_000_000_000_000)
                by (nonlinear_arith);
            assert((i as int + 1) * 40_000_000_000_000_000_000_000_000_000 <= (ITERATION_LIMIT
                as int) * 40_000_000_000_000_000_000_000_000_000) by (nonlinear_arith)
                requires
                    0 <= i as int && i as int + 1 <= ITERATION_LIMIT as int,
            ;
        }
        let sq: u128 = ud * ud;
        acc = acc + sq;
        i = i + 1;
    }
    proof {
        assert(samples@.take(n as int) =~= samples@);
        assert((n as int) * 40_000_000_000_000_000_000_000_000_000 <= (ITERATION_LIMIT as int)
            * 40_000_000_000_000_000_000_000_000_000) by (nonlinear_arith)
            requires
                1 <= n as int <= ITERATION_LIMIT as int,
        ;
        vstd::arithmetic::div_mod::lemma_div_is_ordered(
            acc as int,
            (n as int) * 40_000_000_000_000_000_000_000_000_000,
            n as int,
        );
        vstd::arithmetic::div_mod::lemma_div_multiples_vanish(
            40_000_000_000_000_000_000_000_000_000,
            n as int,
        );
        vstd::arithmetic::div_mod::lemma_div_pos_is_pos(acc as int, n as int);
    }
    let var: u128 = acc / (n as u128);
    let sd: u128 = isqrt(var);
    proof {
        assert(sd as int <= 200_000_000_000_000) by (nonlinear_arith)
            requires
                (sd as int) * (sd as int) <= 40_000_000_000_000_000_000_000_000_000,
                sd as int >= 0,
        ;
    }
    let std_dev: i64 = sd as i64;

    Ok(SimulationResult { samples, mean, std_dev, min: mn, max: mx, complete: true })
}

/// Number of samples strictly outside `[lsl, usl]`.
pub open spec fn count_outside(s: Seq<i64>, lsl: int, usl: int) -> int
    decreases s.len(),
{
    if s.len() == 0 {
        0
    } else {
        count_outside(s.drop_last(), lsl, usl) + if s.last() < lsl || s.last() > usl {
            1int
        } else {
            0int
        }
    }
}

/// Empirical probability of nonconformance in fixed point: the fraction
/// of samples strictly outside the limits, times `SCALE`.
pub open spec fn prob_fail_spec(s: Seq<i64>, lsl: int, usl: int) -> int {
    (count_outside(s, lsl, usl) * SCALE) / (s.len() as int)
}

/// The smaller margin between the mean and either limit.
pub open spec fn cpk_margin(mean: int, lsl: int, usl: int) -> int {
    if usl - mean <= mean - lsl {
        usl - mean
    } else {
        mean - lsl
    }
}

/// Process capability estimate: `margin / (3 * std_dev)` in fixed point,
/// unbounded when the variance is zero.
pub open spec fn cpk_spec(mean: int, std_dev: int, lsl: int, usl: int) -> CpkEstimate {
    if std_dev == 0 {
        if cpk_margin(mean, lsl, usl) >= 0 {
            CpkEstimate::PosInfinite
        } else {
            CpkEstimate::NegInfinite
        }
    } else {
        CpkEstimate::Finite(div_to_zero(cpk_margin(mean, lsl, usl) * SCALE, 3 * std_dev) as i128)
    }
}

/// The count of nonconforming samples never exceeds the sample count.
pub proof fn lemma_count_outside_bounds(s: Seq<i64>, lsl: int, usl: int)
    ensures
        0 <= count_outside(s, lsl, usl) <= s.len(),
    decreases s.len(),
{
    if s.len() > 0 {
        lemma_count_outside_bounds(s.drop_last(), lsl, usl);
    }
}

/// Evaluate a population against specification limits: empirical
/// probability of nonconformance and the capability index built from the
/// summary's mean and standard deviation.
pub fn evaluate_against(result: &SimulationResult, limits: SpecLimits) -> (r: EvalReport)
    requires
        1 <= result.samples@.len() <= ITERATION_LIMIT,
        result.std_dev >= 0,
    ensures
        r.probability_fail as int == prob_fail_spec(
            result.samples@,
            limits.lsl as int,
            limits.usl as int,
        ),
        0 <= r.probability_fail <= SCALE,
        r.estimated_cpk == cpk_spec(
            result.mean as int,
            result.std_dev as int,
            limits.lsl as int,
            limits.usl as int,
        ),
{
    let n = result.samples.len();
    let mut outside: usize = 0;
    let mut i: usize = 0;
    while i < n
        invariant
            n == result.samples@.len(),
            1 <= n <= ITERATION_LIMIT,
            i <= n,
            outside <= i,
            outside as int == count_outside(
                result.samples@.take(i as int),
                limits.lsl as int,
                limits.usl as int,
            ),
        decreases n - i,
    {
        let x = result.samples[i];
        proof {
            assert(result.samples@.take(i + 1).drop_last() =~= result.samples@.take(i as int));
            assert(result.samples@.take(i + 1).last() == result.samples@[i as int]);
        }
        if x < limits.lsl || x > limits.usl {
            outside = outside + 1;
        }
        i = i + 1;
    }
    proof {
        assert(result.samples@.take(n as int) =~= result.samples@);
        vstd::arithmetic::mul::lemma_mul_inequality(outside as int, n as int, SCALE as int);
        vstd::arithmetic::div_mod::lemma_div_is_ordered(
            (outside as int) * (SCALE as int),
            (n as int) * (SCALE as int),
            n as int,
        );
        vstd::arithmetic::div_mod::lemma_div_multiples_vanish(SCALE as int, n as int);
        vstd::arithmetic::mul::lemma_mul_nonnegative(outside as int, SCALE as int);
        vstd::arithmetic::div_mod::lemma_div_pos_is_pos(
            (outside as int) * (SCALE as int),
            n as int,
        );
    }
    let scaled: u128 = (outside as u128) * (SCALE as u128);
    let probability_fail: i64 = (scaled / (n as u128)) as i64;

    let mean_w: i128 = result.mean as i128;
    let margin: i128 = if (limits.usl as i128) - mean_w <= mean_w - (limits.lsl as i128) {
        (limits.usl as i128) - mean_w
    } else {
        mean_w - (limits.lsl as i128)
    };
    let estimated_cpk: CpkEstimate = if result.std_dev == 0 {
        if margin >= 0 {
            CpkEstimate::PosInfinite
        } else {
            CpkEstimate::NegInfinite
        }
    } else {
        let denom: u128 = 3 * (result.std_dev as u128);
        let cpk: i128 = if margin >= 0 {
            let num: u128 = (margin as u128) * (SCALE as u128);
            (num / denom) as i128
        } else {
            let num: u128 = ((-margin) as u128) * (SCALE as u128);
            proof {
                vstd::arithmetic::div_mod::lemma_div_pos_is_pos(num as int, denom as int);
            }
            -((num / denom) as i128)
        };
        CpkEstimate::Finite(cpk)
    };
    EvalReport { probability_fail, estimated_cpk }
}

/// The larger of a band's two tolerances: the conservative side used by
/// the root-sum-square estimate.
pub open spec fn larger_tol(b: LinearBand) -> int {
    if b.tol_pos >= b.tol_neg {
        b.tol_pos as int
    } else {
        b.tol_neg as int
    }
}

/// One band's per-sigma standard deviation in fixed point.
pub open spec fn band_sigma(b: LinearBand, sigma: int) -> int {
    (larger_tol(b) * SCALE) / sigma
}

/// Nominal contribution of a kind before the direction sign.
pub open spec fn kind_nominal(k: ToleranceKind) -> int {
    match k {
        ToleranceKind::Linear { band, .. } => band.nominal as int,
        ToleranceKind::Float { hole, pin, .. } => hole.nominal - pin.nominal,
    }
}

/// Squared per-sigma standard deviation a kind adds to the sum of squares
/// (a float fit spans two independent bands).
pub open spec fn kind_sq(k: ToleranceKind) -> int {
    match k {
        ToleranceKind::Linear { band, sigma } => band_sigma(band, sigma as int) * band_sigma(
            band,
            sigma as int,
        ),
        ToleranceKind::Float { hole, pin, sigma } => band_sigma(hole, sigma as int) * band_sigma(
            hole,
            sigma as int,
        ) + band_sigma(pin, sigma as int) * band_sigma(pin, sigma as int),
    }
}

/// Whether a kind's per-sigma standard deviations are representable.
pub open spec fn kind_rss_ok(k: ToleranceKind) -> bool {
    match k {
        ToleranceKind::Linear { band, sigma } => band_sigma(band, sigma as int)
            <= RSS_SIGMA_LIMIT,
        ToleranceKind::Float { hole, pin, sigma } => band_sigma(hole, sigma as int)
            <= RSS_SIGMA_LIMIT && band_sigma(pin, sigma as int) <= RSS_SIGMA_LIMIT,
    }
}

/// Whether every simulated entry's deviations are representable.
pub open spec fn rss_ok_spec(s: Seq<ToleranceEntry>) -> bool {
    forall|j: int| 0 <= j < s.len() && simulated(#[trigger] s[j]) ==> kind_rss_ok(s[j].kind)
}

/// Signed sum of the simulated entries' nominals.
pub open spec fn rss_mean_spec(s: Seq<ToleranceEntry>) -> int
    decreases s.len(),
{
    if s.len() == 0 {
        0
    } else {
        rss_mean_spec(s.drop_last()) + if simulated(s.last()) {
            sign_of(s.last().direction) * kind_nominal(s.last().kind)
        } else {
            0int
        }
    }
}

/// Sum of squared per-sigma standard deviations of the simulated entries.
pub open spec fn rss_sq_spec(s: Seq<ToleranceEntry>) -> int
    decreases s.len(),
{
    if s.len() == 0 {
        0
    } else {
        rss_sq_spec(s.drop_last()) + if simulated(s.last()) {
            kind_sq(s.last().kind)
        } else {
            0int
        }
    }
}

/// One band's per-sigma standard deviation, executably.
fn rss_band_sigma(b: &LinearBand, sigma: i64) -> (q: u128)
    requires
        band_ok(*b),
        sigma > 0,
    ensures
        q as int == band_sigma(*b, sigma as int),
{
    let lt: i64 = if b.tol_pos >= b.tol_neg {
        b.tol_pos
    } else {
        b.tol_neg
    };
    proof {
        vstd::arithmetic::mul::lemma_mul_upper_bound(
            lt as int,
            i64::MAX as int,
            SCALE as int,
            SCALE as int,
        );
        vstd::arithmetic::div_mod::lemma_div_pos_is_pos(
            (lt as int) * (SCALE as int),
            sigma as int,
        );
    }
    let num: u128 = (lt as u128) * (SCALE as u128);
    num / (sigma as u128)
}

/// Closed-form root-sum-square estimate over the simulated entries:
/// resultant mean as the signed sum of nominals, resultant standard
/// deviation as the root of the summed squared per-sigma deviations,
/// without running any trial.
pub fn rss_estimate(stack: &StackDefinition) -> (r: Result<RssEstimate, SimulationError>)
    ensures
        r is Ok <==> (stack.entries@.len() <= ENTRY_LIMIT && rss_ok_spec(stack.entries@)),
        match r {
            Ok(e) => {
                &&& e.mean as int == rss_mean_spec(stack.entries@)
                &&& e.std_dev as int == sqrt_floor(rss_sq_spec(stack.entries@))
            },
            Err(e) => {
                &&& (e is ConfigError <==> stack.entries@.len() > ENTRY_LIMIT)
                &&& (e is NonFiniteResultError <==> (stack.entries@.len() <= ENTRY_LIMIT
                    && !rss_ok_spec(stack.entries@)))
                &&& !(e is InvalidStackError)
            },
        },
{
    let entries = &stack.entries;
    let n = entries.len();
    if n > ENTRY_LIMIT {
        return Err(SimulationError::ConfigError);
    }
    let mut mean_acc: i128 = 0;
    let mut sq_acc: u128 = 0;
    let mut i: usize = 0;
    while i < n
        invariant
            entries@ == stack.entries@,
            n == entries@.len(),
            n <= ENTRY_LIMIT,
            i <= n,
            mean_acc as int == rss_mean_spec(entries@.take(i as int)),
            -((i as int) * 18_446_744_073_709_551_616) <= mean_acc as int <= (i as int)
                * 18_446_744_073_709_551_616,
            sq_acc as int == rss_sq_spec(entries@.take(i as int)),
            sq_acc as int <= (i as int) * 2_000_000_000_000_000_000_000_000_000_000,
            forall|j: int|
                0 <= j < i && simulated(#[trigger] entries@[j]) ==> kind_rss_ok(entries@[j].kind),
        decreases n - i,
    {
        let e = &entries[i];
        proof {
            assert(entries@.take(i + 1).drop_last() =~= entries@.take(i as int));
            assert(entries@.take(i + 1).last() == entries@[i as int]);
            assert((i as int + 1) * 18_446_744_073_709_551_616 == (i as int)
                * 18_446_744_073_709_551_616 + 18_446_744_073_709_551_616) by (nonlinear_arith);
            assert((i as int + 1) * 2_000_000_000_000_000_000_000_000_000_000 == (i as int)
                * 2_000_000_000_000_000_000_000_000_000_000
                + 2_000_000_000_000_000_000_000_000_000_000) by (nonlinear_arith);
            assert((i as int + 1) * 2_000_000_000_000_000_000_000_000_000_000 <= (ENTRY_LIMIT
                as int) * 2_000_000_000_000_000_000_000_000_000_000) by (nonlinear_arith)
                requires
                    0 <= i as int && i as int + 1 <= ENTRY_LIMIT as int,
            ;
            assert((i as int + 1) * 18_446_744_073_709_551_616 <= (ENTRY_LIMIT as int)
                * 18_446_744_073_709_551_616) by (nonlinear_arith)
                requires
                    0 <= i as int && i as int + 1 <= ENTRY_LIMIT as int,
            ;
        }
        if e.active && e.valid && check_kind(&e.kind) {
            let (sq, nominal): (u128, i128) = match &e.kind {
                ToleranceKind::Linear { band, sigma } => {
                    let q = rss_band_sigma(band, *sigma);
                    if q > RSS_SIGMA_LIMIT {
                        assert(simulated(entries@[i as int]));
                        assert(!kind_rss_ok(entries@[i as int].kind));
                        assert(!rss_ok_spec(entries@));
                        return Err(SimulationError::NonFiniteResultError);
                    }
                    proof {
                        vstd::arithmetic::mul::lemma_mul_upper_bound(
                            q as int,
                            RSS_SIGMA_LIMIT as int,
                            q as int,
                            RSS_SIGMA_LIMIT as int,
                        );
                    }
                    (q * q, band.nominal as i128)
                },
                ToleranceKind::Float { hole, pin, sigma } => {
                    let qh = rss_band_sigma(hole, *sigma);
                    let qp = rss_band_sigma(pin, *sigma);
                    if qh > RSS_SIGMA_LIMIT || qp > RSS_SIGMA_LIMIT {
                        assert(simulated(entries@[i as int]));
                        assert(!kind_rss_ok(entries@[i as int].kind));
                        assert(!rss_ok_spec(entries@));
                        return Err(SimulationError::NonFiniteResultError);
                    }
                    proof {
                        vstd::arithmetic::mul::lemma_mul_upper_bound(
                            qh as int,
                            RSS_SIGMA_LIMIT as int,
                            qh as int,
                            RSS_SIGMA_LIMIT as int,
                        );
                        vstd::arithmetic::mul::lemma_mul_upper_bound(
                            qp as int,
                            RSS_SIGMA_LIMIT as int,
                            qp as int,
                            RSS_SIGMA_LIMIT as int,
                        );
                    }
                    (qh * qh + qp * qp, (hole.nominal as i128) - (pin.nominal as i128))
                },
            };
            sq_acc = sq_acc + sq;
            mean_acc = mean_acc + match e.direction {
                crate::model::Sign::Positive => nominal,
                crate::model::Sign::Negative => -nominal,
            };
        }
        i = i + 1;
    }
    proof {
        assert(entries@.take(n as int) =~= entries@);
        assert((n as int) * 2_000_000_000_000_000_000_000_000_000_000 <= (ENTRY_LIMIT as int)
            * 2_000_000_000_000_000_000_000_000_000_000) by (nonlinear_arith)
            requires
                0 <= n as int <= ENTRY_LIMIT as int,
        ;
    }
    let sd: u128 = isqrt(sq_acc);
    proof {
        assert(sd as int <= 1_500_000_000_000_000_000) by (nonlinear_arith)
            requires
                sd as int >= 0,
                (sd as int) * (sd as int) <= 2_000_000_000_000_000_000_000_000_000_000_000_000,
        ;
    }
    Ok(RssEstimate { mean: mean_acc, std_dev: sd as i64 })
}

/// Lowest value a kind can realize with every band at the adverse end of
/// its stated range.
pub open spec fn kind_lo(k: ToleranceKind) -> int {
    match k {
        ToleranceKind::Linear { band, .. } => band.nominal - band.tol_neg,
        ToleranceKind::Float { hole, pin, .. } => (hole.nominal - hole.tol_neg) - (pin.nominal
            + pin.tol_pos),
    }
}

/// Highest value a kind can realize within its stated bands.
pub open spec fn kind_hi(k: ToleranceKind) -> int {
    match k {
        ToleranceKind::Linear { band, .. } => band.nominal + band.tol_pos,
        ToleranceKind::Float { hole, pin, .. } => (hole.nominal + hole.tol_pos) - (pin.nominal
            - pin.tol_neg),
    }
}

/// Lower end of one entry's signed contribution interval.
pub open spec fn entry_lo(e: ToleranceEntry) -> int {
    if e.direction is Positive {
        kind_lo(e.kind)
    } else {
        -kind_hi(e.kind)
    }
}

/// Upper end of one entry's signed contribution interval.
pub open spec fn entry_hi(e: ToleranceEntry) -> int {
    if e.direction is Positive {
        kind_hi(e.kind)
    } else {
        -kind_lo(e.kind)
    }
}

/// Worst-case minimum resultant over the simulated entries.
pub open spec fn wc_min_spec(s: Seq<ToleranceEntry>) -> int
    decreases s.len(),
{
    if s.len() == 0 {
        0
    } else {
        wc_min_spec(s.drop_last()) + if simulated(s.last()) {
            entry_lo(s.last())
        } else {
            0int
        }
    }
}

/// Worst-case maximum resultant over the simulated entries.
pub open spec fn wc_max_spec(s: Seq<ToleranceEntry>) -> int
    decreases s.len(),
{
    if s.len() == 0 {
        0
    } else {
        wc_max_spec(s.drop_last()) + if simulated(s.last()) {
            entry_hi(s.last())
        } else {
            0int
        }
    }
}

/// Worst-case closed form: the extreme resultants with every simulated
/// entry at an end of its stated band, without running any trial.
pub fn worst_case(stack: &StackDefinition) -> (r: Result<WorstCaseBounds, SimulationError>)
    ensures
        r is Ok <==> stack.entries@.len() <= ENTRY_LIMIT,
        match r {
            Ok(w) => {
                &&& w.min as int == wc_min_spec(stack.entries@)
                &&& w.max as int == wc_max_spec(stack.entries@)
            },
            Err(e) => e is ConfigError,
        },
{
    let entries = &stack.entries;
    let n = entries.len();
    if n > ENTRY_LIMIT {
        return Err(SimulationError::ConfigError);
    }
    let mut lo_acc: i128 = 0;
    let mut hi_acc: i128 = 0;
    let mut i: usize = 0;
    while i < n
        invariant
            entries@ == stack.entries@,
            n == entries@.len(),
            n <= ENTRY_LIMIT,
            i <= n,
            lo_acc as int == wc_min_spec(entries@.take(i as int)),
            hi_acc as int == wc_max_spec(entries@.take(i as int)),
            -((i as int) * 36_893_488_147_419_103_232) <= lo_acc as int <= (i as int)
                * 36_893_488_147_419_103_232,
            -((i as int) * 36_893_488_147_419_103_232) <= hi_acc as int <= (i as int)
                * 36_893_488_147_419_103_232,
        decreases n - i,
    {
        let e = &entries[i];
        proof {
            assert(entries@.take(i + 1).drop_last() =~= entries@.take(i as int));
            assert(entries@.take(i + 1).last() == entries@[i as int]);
            assert((i as int + 1) * 36_893_488_147_419_103_232 == (i as int)
                * 36_893_488_147_419_103_232 + 36_893_488_147_419_103_232) by (nonlinear_arith);
            assert((i as int + 1) * 36_893_488_147_419_103_232 <= (ENTRY_LIMIT as int)
                * 36_893_488_147_419_103_232) by (nonlinear_arith)
                requires
                    0 <= i as int && i as int + 1 <= ENTRY_LIMIT as int,
            ;
        }
        if e.active && e.valid && check_kind(&e.kind) {
            let (k_lo, k_hi): (i128, i128) = match &e.kind {
                ToleranceKind::Linear { band, .. } => (
                    (band.nominal as i128) - (band.tol_neg as i128),
                    (band.nominal as i128) + (band.tol_pos as i128),
                ),
                ToleranceKind::Float { hole, pin, .. } => (
                    ((hole.nominal as i128) - (hole.tol_neg as i128)) - ((pin.nominal as i128)
                        + (pin.tol_pos as i128)),
                    ((hole.nominal as i128) + (hole.tol_pos as i128)) - ((pin.nominal as i128)
                        - (pin.tol_neg as i128)),
                ),
            };
            match e.direction {
                crate::model::Sign::Positive => {
                    lo_acc = lo_acc + k_lo;
                    hi_acc = hi_acc + k_hi;
                },
                crate::model::Sign::Negative => {
                    lo_acc = lo_acc - k_hi;
                    hi_acc = hi_acc - k_lo;
                },
            }
        }
        i = i + 1;
    }
    proof {
        assert(entries@.take(n as int) =~= entries@);
    }
    Ok(WorstCaseBounds { min: lo_acc, max: hi_acc })
}

} // verus!
