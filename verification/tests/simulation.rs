use tolstack::model::{
    LinearBand, Sign, SimulationConfig, SimulationError, StackDefinition, ToleranceEntry,
    ToleranceKind, SCALE,
};
use tolstack::driver::{run, run_budgeted};
use tolstack::stats::rss_estimate;

fn linear_entry(nominal: i64, tol_pos: i64, tol_neg: i64, sigma: i64, dir: Sign) -> ToleranceEntry {
    let band = LinearBand { nominal, tol_pos, tol_neg };
    let mut e = ToleranceEntry::new(ToleranceKind::Linear { band, sigma }, dir);
    e.set_active(true);
    e
}

fn float_entry(hole: LinearBand, pin: LinearBand, sigma: i64, dir: Sign) -> ToleranceEntry {
    let mut e = ToleranceEntry::new(ToleranceKind::Float { hole, pin, sigma }, dir);
    e.set_active(true);
    e
}

fn config(iterations: usize, seed: u64) -> SimulationConfig {
    SimulationConfig { iterations, assembly_sigma: 3 * SCALE, random_seed: Some(seed) }
}

#[test]
fn zero_tolerance_samples_equal_nominal() {
    let mut stack = StackDefinition::new();
    stack.push(linear_entry(10 * SCALE, 0, 0, 3 * SCALE, Sign::Positive));
    let res = run(&stack, &config(1000, 987654321)).unwrap();
    for &s in res.samples.iter() {
        assert_eq!(s, 10 * SCALE);
    }
}

#[test]
fn zero_tolerance_fit_samples_equal_clearance() {
    let hole = LinearBand { nominal: 5 * SCALE, tol_pos: 0, tol_neg: 0 };
    let pin = LinearBand { nominal: 4 * SCALE, tol_pos: 0, tol_neg: 0 };
    let mut stack = StackDefinition::new();
    stack.push(float_entry(hole, pin, 3 * SCALE, Sign::Positive));
    let res = run(&stack, &config(200, 5)).unwrap();
    for &s in res.samples.iter() {
        assert_eq!(s, SCALE);
    }
}

#[test]
fn identical_runs_are_byte_identical() {
    let mut stack = StackDefinition::new();
    stack.push(linear_entry(10 * SCALE, 200_000, 200_000, 3 * SCALE, Sign::Positive));
    stack.push(linear_entry(5 * SCALE, 100_000, 50_000, 3 * SCALE, Sign::Negative));
    let r1 = run(&stack, &config(5000, 42)).unwrap();
    let r2 = run(&stack, &config(5000, 42)).unwrap();
    assert_eq!(r1.samples, r2.samples);
    assert_eq!(r1.mean, r2.mean);
    assert_eq!(r1.std_dev, r2.std_dev);
    assert_eq!(r1.min, r2.min);
    assert_eq!(r1.max, r2.max);
}

#[test]
fn different_seeds_differ() {
    let mut stack = StackDefinition::new();
    stack.push(linear_entry(10 * SCALE, 200_000, 200_000, 3 * SCALE, Sign::Positive));
    let r1 = run(&stack, &config(100, 1)).unwrap();
    let r2 = run(&stack, &config(100, 2)).unwrap();
    assert_ne!(r1.samples, r2.samples);
}

#[test]
fn mc_mean_converges_to_rss_mean() {
    // A purely linear, symmetric stack: the sampled mean settles on the
    // closed-form signed sum of nominals as the trial count grows.
    let mut stack = StackDefinition::new();
    stack.push(linear_entry(10 * SCALE, 200_000, 200_000, 3 * SCALE, Sign::Positive));
    stack.push(linear_entry(5 * SCALE, 100_000, 100_000, 3 * SCALE, Sign::Positive));
    let rss = rss_estimate(&stack).unwrap();
    assert_eq!(rss.mean, 15 * SCALE as i128);
    let res = run(&stack, &config(200_000, 7)).unwrap();
    let err = (res.mean as i128 - rss.mean).abs();
    assert!(err <= 10_000, "mc mean {} vs rss mean {}", res.mean, rss.mean);
}

#[test]
fn disabling_matches_omitting() {
    let kept = linear_entry(10 * SCALE, 200_000, 200_000, 3 * SCALE, Sign::Positive);
    let dropped = linear_entry(5 * SCALE, 100_000, 100_000, 3 * SCALE, Sign::Negative);

    let mut disabled = StackDefinition::new();
    disabled.push(kept);
    disabled.push(dropped);
    disabled.set_active(1, false);

    let mut omitted = StackDefinition::new();
    omitted.push(kept);

    let c = config(2000, 99);
    let r_disabled = run(&disabled, &c).unwrap();
    let r_omitted = run(&omitted, &c).unwrap();
    assert_eq!(r_disabled.samples, r_omitted.samples);

    let rss_disabled = rss_estimate(&disabled).unwrap();
    let rss_omitted = rss_estimate(&omitted).unwrap();
    assert_eq!(rss_disabled.mean, rss_omitted.mean);
    assert_eq!(rss_disabled.std_dev, rss_omitted.std_dev);
}

#[test]
fn linear_scenario_mean_and_std_dev() {
    // One linear entry 10.0 +/- 0.2 at three sigma, 100 000 trials.
    let mut stack = StackDefinition::new();
    stack.push(linear_entry(10 * SCALE, 200_000, 200_000, 3 * SCALE, Sign::Positive));
    let res = run(&stack, &config(100_000, 42)).unwrap();
    assert!((res.mean - 10 * SCALE).abs() <= 10_000, "mean {}", res.mean);
    // Expected standard deviation 0.2 / 3 = 0.0667 units, within 0.005.
    assert!((res.std_dev - 66_667).abs() <= 5_000, "std_dev {}", res.std_dev);
}

#[test]
fn float_fit_scenario_clearance() {
    // Hole 5.0 +0.05/-0, pin 4.9 +0/-0.05, both at three sigma: the
    // clearance stays near 0.1 and can never drop under the worst case.
    let hole = LinearBand { nominal: 5 * SCALE, tol_pos: 50_000, tol_neg: 0 };
    let pin = LinearBand { nominal: 4_900_000, tol_pos: 0, tol_neg: 50_000 };
    let mut stack = StackDefinition::new();
    stack.push(float_entry(hole, pin, 3 * SCALE, Sign::Positive));
    let res = run(&stack, &config(100_000, 42)).unwrap();
    assert!((res.mean - 100_000).abs() <= 50_000, "clearance mean {}", res.mean);
    let wc = tolstack::stats::worst_case(&stack).unwrap();
    assert!(wc.min >= 0, "worst-case min {}", wc.min);
    assert!(res.min as i128 >= wc.min, "mc min {} under worst case {}", res.min, wc.min);
}

#[test]
fn zero_iterations_is_config_error() {
    let mut stack = StackDefinition::new();
    stack.push(linear_entry(10 * SCALE, 0, 0, 3 * SCALE, Sign::Positive));
    let r = run(&stack, &config(0, 42));
    assert_eq!(r.unwrap_err(), SimulationError::ConfigError);
}

#[test]
fn non_positive_sigma_is_config_error() {
    let mut stack = StackDefinition::new();
    stack.push(linear_entry(10 * SCALE, 0, 0, 3 * SCALE, Sign::Positive));
    let c = SimulationConfig { iterations: 10, assembly_sigma: 0, random_seed: None };
    assert_eq!(run(&stack, &c).unwrap_err(), SimulationError::ConfigError);
}

#[test]
fn all_inactive_is_invalid_stack_error() {
    let mut stack = StackDefinition::new();
    stack.push(linear_entry(10 * SCALE, 0, 0, 3 * SCALE, Sign::Positive));
    stack.set_active(0, false);
    let r = run(&stack, &config(10, 42));
    assert_eq!(r.unwrap_err(), SimulationError::InvalidStackError);
}

#[test]
fn invalid_entries_are_excluded() {
    // A negative tolerance never validates, so enabling it has no effect
    // and the stack has nothing to sample.
    let band = LinearBand { nominal: 10 * SCALE, tol_pos: -1, tol_neg: 0 };
    let mut e = ToleranceEntry::new(ToleranceKind::Linear { band, sigma: 3 * SCALE }, Sign::Positive);
    assert!(!e.valid);
    e.set_active(true);
    assert!(!e.active);
    let mut stack = StackDefinition::new();
    stack.push(e);
    assert_eq!(run(&stack, &config(10, 42)).unwrap_err(), SimulationError::InvalidStackError);
}

#[test]
fn trial_overflow_is_non_finite_error() {
    // Two entries whose nominals alone exceed the representable resultant.
    let mut stack = StackDefinition::new();
    stack.push(linear_entry(100_000_000_000_000, 0, 0, 3 * SCALE, Sign::Positive));
    stack.push(linear_entry(100_000_000_000_000, 0, 0, 3 * SCALE, Sign::Positive));
    let r = run(&stack, &config(10, 42));
    assert_eq!(r.unwrap_err(), SimulationError::NonFiniteResultError);
}

#[test]
fn budgeted_run_is_partial_and_incomplete() {
    let mut stack = StackDefinition::new();
    stack.push(linear_entry(10 * SCALE, 200_000, 200_000, 3 * SCALE, Sign::Positive));
    let res = run_budgeted(&stack, &config(1000, 42), 10).unwrap();
    assert_eq!(res.samples.len(), 10);
    assert!(!res.complete);
    let full = run_budgeted(&stack, &config(1000, 42), 1000).unwrap();
    assert_eq!(full.samples.len(), 1000);
    assert!(full.complete);
}

#[test]
fn budgeted_prefix_matches_full_run() {
    let mut stack = StackDefinition::new();
    stack.push(linear_entry(10 * SCALE, 200_000, 200_000, 3 * SCALE, Sign::Positive));
    let partial = run_budgeted(&stack, &config(1000, 42), 10).unwrap();
    let full = run(&stack, &config(1000, 42)).unwrap();
    assert_eq!(partial.samples[..], full.samples[..10]);
}

#[test]
fn zero_budget_is_config_error() {
    let mut stack = StackDefinition::new();
    stack.push(linear_entry(10 * SCALE, 0, 0, 3 * SCALE, Sign::Positive));
    let r = run_budgeted(&stack, &config(10, 42), 0);
    assert_eq!(r.unwrap_err(), SimulationError::ConfigError);
}

#[test]
fn direction_signs_contributions() {
    let mut stack = StackDefinition::new();
    stack.push(linear_entry(10 * SCALE, 0, 0, 3 * SCALE, Sign::Positive));
    stack.push(linear_entry(3 * SCALE, 0, 0, 3 * SCALE, Sign::Negative));
    let res = run(&stack, &config(50, 11)).unwrap();
    for &s in res.samples.iter() {
        assert_eq!(s, 7 * SCALE);
    }
    // A constant population reports that constant and zero variance, and
    // matches the closed form exactly.
    assert_eq!(res.mean, 7 * SCALE);
    assert_eq!(res.std_dev, 0);
    assert_eq!(res.min, 7 * SCALE);
    assert_eq!(res.max, 7 * SCALE);
    let rss = rss_estimate(&stack).unwrap();
    assert_eq!(rss.mean, res.mean as i128);
}

#[test]
fn default_seed_used_when_none() {
    let mut stack = StackDefinition::new();
    stack.push(linear_entry(10 * SCALE, 200_000, 200_000, 3 * SCALE, Sign::Positive));
    let c1 = SimulationConfig { iterations: 100, assembly_sigma: 3 * SCALE, random_seed: None };
    let c2 = SimulationConfig { iterations: 100, assembly_sigma: 3 * SCALE, random_seed: None };
    let r1 = run(&stack, &c1).unwrap();
    let r2 = run(&stack, &c2).unwrap();
    assert_eq!(r1.samples, r2.samples);
}

#[test]
fn iterations_past_capacity_is_config_error() {
    let mut stack = StackDefinition::new();
    stack.push(linear_entry(10 * SCALE, 0, 0, 3 * SCALE, Sign::Positive));
    let c = config(tolstack::model::ITERATION_LIMIT + 1, 42);
    assert_eq!(run(&stack, &c).unwrap_err(), SimulationError::ConfigError);
}

#[test]
fn revalidate_drops_active_on_edited_entry() {
    let mut e = linear_entry(10 * SCALE, 100_000, 100_000, 3 * SCALE, Sign::Positive);
    assert!(e.valid && e.active);
    e.kind = ToleranceKind::Linear {
        band: LinearBand { nominal: 10 * SCALE, tol_pos: 100_000, tol_neg: 100_000 },
        sigma: 0,
    };
    e.revalidate();
    assert!(!e.valid);
    assert!(!e.active);
}

#[test]
fn stack_editing_keeps_order() {
    let a = linear_entry(1 * SCALE, 0, 0, 3 * SCALE, Sign::Positive);
    let b = linear_entry(2 * SCALE, 0, 0, 3 * SCALE, Sign::Positive);
    let c = linear_entry(3 * SCALE, 0, 0, 3 * SCALE, Sign::Positive);
    let mut stack = StackDefinition::new();
    stack.push(a);
    stack.push(b);
    stack.push(c);
    assert_eq!(stack.len(), 3);
    stack.swap(0, 1);
    assert_eq!(stack.entries[0].kind, b.kind);
    let removed = stack.remove(2);
    assert_eq!(removed.kind, c.kind);
    assert_eq!(stack.len(), 2);
    assert_eq!(stack.count_simulated(), 2);
}
