use tolstack::model::{
    CpkEstimate, LinearBand, Sign, SimulationError, SimulationResult, SpecLimits, StackDefinition,
    ToleranceEntry, ToleranceKind, SCALE,
};
use tolstack::stats::{evaluate_against, rss_estimate, summarize, worst_case};

fn result_with(samples: Vec<i64>, mean: i64, std_dev: i64) -> SimulationResult {
    SimulationResult { samples, mean, std_dev, min: 0, max: 0, complete: true }
}

fn active_linear(nominal: i64, tol_pos: i64, tol_neg: i64, sigma: i64) -> ToleranceEntry {
    let band = LinearBand { nominal, tol_pos, tol_neg };
    let mut e = ToleranceEntry::new(ToleranceKind::Linear { band, sigma }, Sign::Positive);
    e.set_active(true);
    e
}

#[test]
fn summarize_exact_values() {
    let res = summarize(vec![1, 2, 3, 4]).unwrap();
    assert_eq!(res.mean, 2);  // 10 / 4, truncated toward zero
    assert_eq!(res.std_dev, 1);  // floor sqrt of (1 + 0 + 1 + 4) / 4
    assert_eq!(res.min, 1);
    assert_eq!(res.max, 4);
    assert!(res.complete);
    assert_eq!(res.samples, vec![1, 2, 3, 4]);
}

#[test]
fn summarize_negative_mean_truncates_toward_zero() {
    let res = summarize(vec![-3, -4]).unwrap();
    assert_eq!(res.mean, -3);  // -7 / 2 truncated toward zero
    assert_eq!(res.min, -4);
    assert_eq!(res.max, -3);
}

#[test]
fn summarize_empty_is_config_error() {
    assert_eq!(summarize(vec![]).unwrap_err(), SimulationError::ConfigError);
}

#[test]
fn summarize_out_of_range_is_non_finite() {
    let r = summarize(vec![100_000_000_000_001]);
    assert_eq!(r.unwrap_err(), SimulationError::NonFiniteResultError);
}

#[test]
fn probability_fail_counts_strictly_outside() {
    let res = summarize(vec![0, 10, 20]).unwrap();
    let report = evaluate_against(&res, SpecLimits { usl: 15, lsl: 5 });
    // Two of three samples fall outside [5, 15].
    assert_eq!(report.probability_fail, 2 * SCALE / 3);
    let all_in = evaluate_against(&res, SpecLimits { usl: 20, lsl: 0 });
    assert_eq!(all_in.probability_fail, 0);
}

#[test]
fn probability_fail_monotone_under_shrinking_limits() {
    let res = summarize(vec![0, 10, 20, 30, 40, 50, 60, 70, 80, 90, 100]).unwrap();
    let windows = [(0, 100), (10, 90), (25, 75), (45, 55), (50, 50)];
    let mut last = -1;
    for &(lsl, usl) in windows.iter() {
        let report = evaluate_against(&res, SpecLimits { usl, lsl });
        assert!(report.probability_fail >= last, "window [{lsl}, {usl}]");
        last = report.probability_fail;
    }
}

#[test]
fn cpk_formula_exact() {
    let res = result_with(vec![0, 10, 20], 10, 5);
    let report = evaluate_against(&res, SpecLimits { usl: 15, lsl: 0 });
    // min(15 - 10, 10 - 0) = 5 over 3 * 5, in fixed point.
    assert_eq!(report.estimated_cpk, CpkEstimate::Finite((5 * SCALE as i128) / 15));
}

#[test]
fn cpk_zero_variance_in_spec_is_positive_infinite() {
    let res = result_with(vec![10, 10], 10, 0);
    let report = evaluate_against(&res, SpecLimits { usl: 15, lsl: 5 });
    assert_eq!(report.estimated_cpk, CpkEstimate::PosInfinite);
}

#[test]
fn cpk_zero_variance_out_of_spec_is_negative_infinite() {
    let res = result_with(vec![100, 100], 100, 0);
    let report = evaluate_against(&res, SpecLimits { usl: 15, lsl: 5 });
    assert_eq!(report.estimated_cpk, CpkEstimate::NegInfinite);
}

#[test]
fn cpk_negative_margin_is_negative_finite() {
    let res = result_with(vec![100, 100], 100, 5);
    let report = evaluate_against(&res, SpecLimits { usl: 15, lsl: 5 });
    // margin = 15 - 100 = -85; cpk = -85 * SCALE / 15 truncated toward zero.
    assert_eq!(report.estimated_cpk, CpkEstimate::Finite(-(85 * SCALE as i128) / 15));
}

#[test]
fn rss_estimate_exact() {
    let mut stack = StackDefinition::new();
    stack.push(active_linear(10 * SCALE, 200_000, 100_000, 3 * SCALE));
    let rss = rss_estimate(&stack).unwrap();
    assert_eq!(rss.mean, 10 * SCALE as i128);
    // Larger tolerance 0.2 over sigma 3: 66 666 micro-units per sigma.
    assert_eq!(rss.std_dev, 66_666);
}

#[test]
fn rss_sums_squares_over_entries() {
    let mut stack = StackDefinition::new();
    stack.push(active_linear(10 * SCALE, 300_000, 0, 3 * SCALE));
    stack.push(active_linear(20 * SCALE, 400_000, 0, 3 * SCALE));
    let rss = rss_estimate(&stack).unwrap();
    assert_eq!(rss.mean, 30 * SCALE as i128);
    // Per-sigma deviations 100 000 and 133 333: root of the summed squares.
    let expected = ((100_000i128 * 100_000) + (133_333i128 * 133_333)) as f64;
    let got = rss.std_dev as f64;
    assert!((got * got - expected).abs() <= 2.0 * got, "std_dev {}", rss.std_dev);
}

#[test]
fn rss_skips_inactive_entries() {
    let mut stack = StackDefinition::new();
    stack.push(active_linear(10 * SCALE, 200_000, 100_000, 3 * SCALE));
    stack.push(active_linear(99 * SCALE, 900_000, 0, 3 * SCALE));
    stack.set_active(1, false);
    let rss = rss_estimate(&stack).unwrap();
    assert_eq!(rss.mean, 10 * SCALE as i128);
    assert_eq!(rss.std_dev, 66_666);
}

#[test]
fn rss_overflow_is_non_finite() {
    // A tiny sigma blows the per-sigma deviation past the representable
    // range.
    let mut stack = StackDefinition::new();
    stack.push(active_linear(10 * SCALE, 9_000_000_000_000_000_000, 0, 1));
    assert_eq!(rss_estimate(&stack).unwrap_err(), SimulationError::NonFiniteResultError);
}

#[test]
fn worst_case_exact() {
    let mut stack = StackDefinition::new();
    stack.push(active_linear(10 * SCALE, 200_000, 100_000, 3 * SCALE));
    let wc = worst_case(&stack).unwrap();
    assert_eq!(wc.min, (10 * SCALE - 100_000) as i128);
    assert_eq!(wc.max, (10 * SCALE + 200_000) as i128);
}

#[test]
fn worst_case_float_fit() {
    let hole = LinearBand { nominal: 5 * SCALE, tol_pos: 50_000, tol_neg: 0 };
    let pin = LinearBand { nominal: 4_900_000, tol_pos: 0, tol_neg: 50_000 };
    let mut e = ToleranceEntry::new(
        ToleranceKind::Float { hole, pin, sigma: 3 * SCALE },
        Sign::Positive,
    );
    e.set_active(true);
    let mut stack = StackDefinition::new();
    stack.push(e);
    let wc = worst_case(&stack).unwrap();
    // Smallest clearance: hole at its minimum against pin at its maximum.
    assert_eq!(wc.min, 100_000);
    // Largest clearance: hole at its maximum against pin at its minimum.
    assert_eq!(wc.max, 200_000);
}

#[test]
fn worst_case_negative_direction_flips_interval() {
    let band = LinearBand { nominal: 10 * SCALE, tol_pos: 200_000, tol_neg: 100_000 };
    let mut e = ToleranceEntry::new(
        ToleranceKind::Linear { band, sigma: 3 * SCALE },
        Sign::Negative,
    );
    e.set_active(true);
    let mut stack = StackDefinition::new();
    stack.push(e);
    let wc = worst_case(&stack).unwrap();
    assert_eq!(wc.min, -(10 * SCALE + 200_000) as i128);
    assert_eq!(wc.max, -(10 * SCALE - 100_000) as i128);
}

#[test]
fn error_descriptions_are_distinct() {
    let texts = [
        SimulationError::ConfigError.describe(),
        SimulationError::InvalidStackError.describe(),
        SimulationError::NonFiniteResultError.describe(),
    ];
    assert_ne!(texts[0], texts[1]);
    assert_ne!(texts[1], texts[2]);
    assert_ne!(texts[0], texts[2]);
}
