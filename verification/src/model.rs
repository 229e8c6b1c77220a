//! Data model for tolerance stack-ups.
//!
//! Every dimension is a fixed-point count of micro-units ([`SCALE`] counts
//! per unit).  A [`ToleranceEntry`] pairs one [`ToleranceKind`] with the
//! flags that decide whether it takes part in a simulation; a
//! [`StackDefinition`] is the ordered, caller-mutated collection of entries
//! that describes one resultant dimension.

use vstd::prelude::*;

verus! {

/// Fixed-point counts per unit: a dimension of one unit is stored as
/// `SCALE` micro-units.
pub const SCALE: i64 = 1_000_000;

/// Largest magnitude a resultant sample may take; a trial whose resultant
/// exceeds this range is reported as an overflow rather than stored.
pub const SAMPLE_LIMIT: i64 = 100_000_000_000_000;

/// Largest iteration count a single run accepts; keeps every aggregate the
/// statistics module computes inside `i128`/`u128` range.
pub const ITERATION_LIMIT: usize = 1_000_000_000;

/// Largest number of entries a run accepts; keeps the per-trial signed sum
/// inside `i128` range.
pub const ENTRY_LIMIT: usize = 1_000_000;

/// Direction of an entry's contribution to the resultant dimension.
#[derive(Clone, Copy, Debug, PartialEq, Eq, Structural)]
pub enum Sign {
    /// The entry's realized value is added to the resultant.
    Positive,
    /// The entry's realized value is subtracted from the resultant.
    Negative,
}

/// A nominal dimension with an asymmetric tolerance band
/// `[nominal - tol_neg, nominal + tol_pos]`, all in micro-units.
#[derive(Clone, Copy, Debug, PartialEq, Eq, Structural)]
pub struct LinearBand {
    pub nominal: i64,
    pub tol_pos: i64,
    pub tol_neg: i64,
}

/// One contributing dimension: either a single linear dimension or a
/// hole/pin float fit whose contribution is the instantaneous clearance.
///
/// `sigma` is the number of standard deviations the stated band is assumed
/// to span (process capability), also in fixed point: a capability of three
/// standard deviations is stored as `3 * SCALE`.
#[derive(Clone, Copy, Debug, PartialEq, Eq, Structural)]
pub enum ToleranceKind {
    Linear { band: LinearBand, sigma: i64 },
    Float { hole: LinearBand, pin: LinearBand, sigma: i64 },
}

/// One entry of a stack: a kind, whether the caller enabled it, whether its
/// numeric fields were accepted as valid, and its direction of contribution.
#[derive(Clone, Copy, Debug, PartialEq, Eq, Structural)]
pub struct ToleranceEntry {
    pub kind: ToleranceKind,
    pub active: bool,
    pub valid: bool,
    pub direction: Sign,
}

/// An ordered, caller-owned collection of entries describing one resultant
/// dimension.
#[derive(Clone, Debug)]
pub struct StackDefinition {
    pub entries: Vec<ToleranceEntry>,
}

/// Parameters of one Monte Carlo run.  `assembly_sigma` is fixed point like
/// every other sigma.  When `random_seed` is `None` the run uses
/// [`DEFAULT_SEED`]; the engine itself never reaches for ambient entropy,
/// so a caller that wants run-to-run variation supplies its own seed.
#[derive(Clone, Copy, Debug)]
pub struct SimulationConfig {
    pub iterations: usize,
    pub assembly_sigma: i64,
    pub random_seed: Option<u64>,
}

/// Seed used when a configuration supplies none.
pub const DEFAULT_SEED: u64 = 0x9E37_79B9_7F4A_7C15;

/// The collected samples of a run, in trial order, with their summary
/// statistics.  `complete` is false when a budgeted run stopped before the
/// configured iteration count.
#[derive(Clone, Debug)]
pub struct SimulationResult {
    pub samples: Vec<i64>,
    pub mean: i64,
    pub std_dev: i64,
    pub min: i64,
    pub max: i64,
    pub complete: bool,
}

/// Caller-supplied specification limits: upper and lower bounds the
/// resultant dimension must stay within.
#[derive(Clone, Copy, Debug, PartialEq, Eq, Structural)]
pub struct SpecLimits {
    pub usl: i64,
    pub lsl: i64,
}

/// Process capability index against the limits.  Zero variance makes the
/// index unbounded rather than a number; callers must handle the
/// non-finite cases explicitly.
#[derive(Clone, Copy, Debug, PartialEq, Eq, Structural)]
pub enum CpkEstimate {
    /// `min(usl - mean, mean - lsl) / (3 * std_dev)`, in fixed point.
    Finite(i128),
    /// Zero variance with the mean inside the limits.
    PosInfinite,
    /// Zero variance with the mean outside the limits.
    NegInfinite,
}

/// Conformance report of a sample population against specification limits.
#[derive(Clone, Copy, Debug, PartialEq, Eq, Structural)]
pub struct EvalReport {
    /// Fraction of samples strictly outside `[lsl, usl]`, in fixed point
    /// (`SCALE` means every sample fails).
    pub probability_fail: i64,
    pub estimated_cpk: CpkEstimate,
}

/// Closed-form root-sum-square estimate of the resultant distribution,
/// computable without running any trial.
#[derive(Clone, Copy, Debug, PartialEq, Eq, Structural)]
pub struct RssEstimate {
    /// Signed sum of the simulated entries' nominals.
    pub mean: i128,
    /// Square root of the summed squared per-sigma standard deviations.
    pub std_dev: i64,
}

/// Worst-case closed form: the extreme resultants reachable when every
/// simulated entry sits at an end of its stated band.
#[derive(Clone, Copy, Debug, PartialEq, Eq, Structural)]
pub struct WorstCaseBounds {
    pub min: i128,
    pub max: i128,
}

/// Typed failures of the engine.
#[derive(Clone, Copy, Debug, PartialEq, Eq, Structural)]
pub enum SimulationError {
    /// Non-positive iteration count or sigma, or a request past the
    /// engine's capacity limits.
    ConfigError,
    /// The stack holds no entry that is active and valid.
    InvalidStackError,
    /// An aggregate or a trial left the representable fixed-point range.
    NonFiniteResultError,
}

impl SimulationError {
    /// Short description of the failure.
    pub fn describe(&self) -> (r: &'static str)
        ensures
            *self is ConfigError ==> r@ =~= "invalid simulation configuration"@,
            *self is InvalidStackError ==> r@ =~= "stack has no active valid entries"@,
            *self is NonFiniteResultError ==> r@ =~= "result outside representable range"@,
    {
        match self {
            SimulationError::ConfigError => "invalid simulation configuration",
            SimulationError::InvalidStackError => "stack has no active valid entries",
            SimulationError::NonFiniteResultError => "result outside representable range",
        }
    }
}

/// Whether a band's tolerances are admissible: both sides non-negative.
pub open spec fn band_ok(b: LinearBand) -> bool {
    b.tol_pos >= 0 && b.tol_neg >= 0
}

/// Whether a kind satisfies the model invariants: non-negative tolerances
/// and a strictly positive sigma.
pub open spec fn kind_ok(k: ToleranceKind) -> bool {
    match k {
        ToleranceKind::Linear { band, sigma } => band_ok(band) && sigma > 0,
        ToleranceKind::Float { hole, pin, sigma } => band_ok(hole) && band_ok(pin) && sigma > 0,
    }
}

/// Whether an entry takes part in a simulation: enabled, flagged valid, and
/// actually satisfying the model invariants.
pub open spec fn simulated(e: ToleranceEntry) -> bool {
    e.active && e.valid && kind_ok(e.kind)
}

/// Number of entries of `s` that take part in a simulation.
pub open spec fn simulated_count(s: Seq<ToleranceEntry>) -> int
    decreases s.len(),
{
    if s.len() == 0 {
        0
    } else {
        simulated_count(s.drop_last()) + if simulated(s.last()) { 1int } else { 0int }
    }
}

/// Runtime check of [`band_ok`].
pub fn check_band(b: &LinearBand) -> (r: bool)
    ensures
        r == band_ok(*b),
{
    b.tol_pos >= 0 && b.tol_neg >= 0
}

/// Runtime check of [`kind_ok`].
pub fn check_kind(k: &ToleranceKind) -> (r: bool)
    ensures
        r == kind_ok(*k),
{
    match k {
        ToleranceKind::Linear { band, sigma } => check_band(band) && *sigma > 0,
        ToleranceKind::Float { hole, pin, sigma } => {
            check_band(hole) && check_band(pin) && *sigma > 0
        },
    }
}

impl ToleranceEntry {
    /// A fresh entry: validated against the model invariants, initially
    /// disabled, contributing in the given direction.
    pub fn new(kind: ToleranceKind, direction: Sign) -> (e: ToleranceEntry)
        ensures
            e.kind == kind,
            e.direction == direction,
            e.valid == kind_ok(kind),
            !e.active,
    {
        let valid = check_kind(&kind);
        ToleranceEntry { kind, active: false, valid, direction }
    }

    /// Enable or disable the entry; an invalid entry can never be enabled.
    pub fn set_active(&mut self, enabled: bool)
        ensures
            final(self).active == (enabled && old(self).valid),
            final(self).kind == old(self).kind,
            final(self).valid == old(self).valid,
            final(self).direction == old(self).direction,
    {
        if self.valid {
            self.active = enabled;
        } else {
            self.active = false;
        }
    }

    /// Re-run validation after the caller edited the kind in place, and
    /// drop the active flag if validity was lost.
    pub fn revalidate(&mut self)
        ensures
            final(self).kind == old(self).kind,
            final(self).direction == old(self).direction,
            final(self).valid == kind_ok(old(self).kind),
            final(self).active == (old(self).active && kind_ok(old(self).kind)),
    {
        self.valid = check_kind(&self.kind);
        if !self.valid {
            self.active = false;
        }
    }
}

impl StackDefinition {
    /// An empty stack.
    pub fn new() -> (s: StackDefinition)
        ensures
            s.entries@.len() == 0,
    {
        StackDefinition { entries: Vec::new() }
    }

    /// Number of entries.
    pub fn len(&self) -> (n: usize)
        ensures
            n == self.entries@.len(),
    {
        self.entries.len()
    }

    /// Append an entry at the end of the chain.
    pub fn push(&mut self, e: ToleranceEntry)
        ensures
            final(self).entries@ == old(self).entries@.push(e),
    {
        self.entries.push(e);
    }

    /// Remove and return the entry at `index`, shifting later entries up.
    pub fn remove(&mut self, index: usize) -> (e: ToleranceEntry)
        requires
            index < old(self).entries@.len(),
        ensures
            e == old(self).entries@[index as int],
            final(self).entries@ == old(self).entries@.remove(index as int),
    {
        self.entries.remove(index)
    }

    /// Exchange the entries at `i` and `j` (reordering bookkeeping; the
    /// numeric result is unchanged beyond sign conventions).
    pub fn swap(&mut self, i: usize, j: usize)
        requires
            i < old(self).entries@.len(),
            j < old(self).entries@.len(),
        ensures
            final(self).entries@ == old(self).entries@.update(
                i as int,
                old(self).entries@[j as int],
            ).update(j as int, old(self).entries@[i as int]),
    {
        let a = self.entries[i];
        let b = self.entries[j];
        self.entries.set(i, b);
        self.entries.set(j, a);
    }

    /// Enable or disable the entry at `index`, through
    /// [`ToleranceEntry::set_active`].
    pub fn set_active(&mut self, index: usize, enabled: bool)
        requires
            index < old(self).entries@.len(),
        ensures
            final(self).entries@.len() == old(self).entries@.len(),
            final(self).entries@[index as int].active == (enabled
                && old(self).entries@[index as int].valid),
            final(self).entries@[index as int].kind == old(self).entries@[index as int].kind,
            final(self).entries@[index as int].valid == old(self).entries@[index as int].valid,
            final(self).entries@[index as int].direction == old(
                self,
            ).entries@[index as int].direction,
            forall|k: int|
                0 <= k < old(self).entries@.len() && k != index ==> final(self).entries@[k] == old(
                    self,
                ).entries@[k],
    {
        let mut e = self.entries[index];
        e.set_active(enabled);
        self.entries.set(index, e);
    }

    /// Count the entries that would take part in a simulation.
    pub fn count_simulated(&self) -> (n: usize)
        ensures
            n == simulated_count(self.entries@),
            n <= self.entries@.len(),
    {
        let mut n: usize = 0;
        let mut i: usize = 0;
        while i < self.entries.len()
            invariant
                i <= self.entries@.len(),
                n == simulated_count(self.entries@.take(i as int)),
                n <= i,
            decreases self.entries@.len() - i,
        {
            let e = &self.entries[i];
            proof {
                assert(self.entries@.take(i + 1).drop_last() =~= self.entries@.take(i as int));
                assert(self.entries@.take(i + 1).last() == self.entries@[i as int]);
            }
            if e.active && e.valid && check_kind(&e.kind) {
                n = n + 1;
            }
            i = i + 1;
        }
        proof {
            assert(self.entries@.take(self.entries@.len() as int) =~= self.entries@);
        }
        n
    }
}

} // verus!
