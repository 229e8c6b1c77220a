//! Deterministic random source for the Monte Carlo driver.
//!
//! The generator is a 64-bit multiplicative-congruential step; one uniform
//! draw takes the high bits of the state, and a standard-normal deviate in
//! fixed point is the classic sum of twelve uniforms re-centred at zero
//! (mean zero, standard deviation one unit of [`crate::model::SCALE`]).
//!
//! Everything here is a pure function of the state it is handed, which is
//! what makes whole runs replayable from a seed: randomness is injected,
//! never ambient.

use vstd::prelude::*;

verus! {

/// Multiplier of the congruential step.
pub const STEP_MUL: u64 = 6_364_136_223_846_793_005;

/// Increment of the congruential step.
pub const STEP_INC: u64 = 1_442_695_040_888_963_407;

/// Stride between the starting states of consecutive trials.
pub const STREAM_STEP: u64 = 0x9E37_79B9_7F4A_7C15;

/// One congruential step of the generator state.
pub open spec fn step_of(s: u64) -> u64 {
    (((STEP_MUL * s) + STEP_INC) % 0x1_0000_0000_0000_0000) as u64
}

/// The uniform draw held in a state: its high bits, reduced to
/// `[0, 1_000_000]` — a fixed-point uniform over one unit.
pub open spec fn unit_of(s: u64) -> u64 {
    (s / 0x2_0000_0000) % 1_000_001
}

/// State after `k` congruential steps.
pub open spec fn state_after(s: u64, k: nat) -> u64
    decreases k,
{
    if k == 0 {
        s
    } else {
        step_of(state_after(s, (k - 1) as nat))
    }
}

/// Sum of the first `k` uniform draws taken from `s`: draw `j` advances the
/// state and reads the uniform of the new state.
pub open spec fn unit_sum(s: u64, k: nat) -> int
    decreases k,
{
    if k == 0 {
        0
    } else {
        unit_sum(s, (k - 1) as nat) + unit_of(state_after(s, k))
    }
}

/// Fixed-point standard-normal deviate drawn from `s`: twelve uniforms,
/// re-centred.  Always within six units of zero.
pub open spec fn normal_of(s: u64) -> int {
    unit_sum(s, 12) - 6_000_000
}

/// State left behind by [`normal_of`].
pub open spec fn normal_state(s: u64) -> u64 {
    state_after(s, 12)
}

/// Starting state of trial `i` under `seed`: the seed displaced by `i`
/// strides, then mixed by two congruential steps.
pub open spec fn trial_start(seed: u64, i: int) -> u64 {
    step_of(step_of(((seed + (i * STREAM_STEP)) % 0x1_0000_0000_0000_0000) as u64))
}

/// One congruential step, executably.
pub fn step(s: u64) -> (r: u64)
    ensures
        r == step_of(s),
{
    proof {
        vstd::arithmetic::mul::lemma_mul_upper_bound(
            STEP_MUL as int,
            STEP_MUL as int,
            s as int,
            0xFFFF_FFFF_FFFF_FFFFu64 as int,
        );
    }
    let wide: u128 = ((STEP_MUL as u128) * (s as u128)) + (STEP_INC as u128);
    (wide % 0x1_0000_0000_0000_0000u128) as u64
}

/// The uniform draw held in a state, executably.
pub fn unit(s: u64) -> (u: u64)
    ensures
        u == unit_of(s),
        u <= 1_000_000,
{
    (s / 0x2_0000_0000u64) % 1_000_001u64
}

/// Draw one fixed-point standard-normal deviate, returning it with the
/// advanced state.
pub fn draw_normal(s0: u64) -> (r: (i64, u64))
    ensures
        r.0 as int == normal_of(s0),
        r.1 == normal_state(s0),
        -6_000_000 <= r.0 <= 6_000_000,
{
    let mut s: u64 = s0;
    let mut sum: u64 = 0;
    let mut k: usize = 0;
    while k < 12
        invariant
            k <= 12,
            s == state_after(s0, k as nat),
            sum as int == unit_sum(s0, k as nat),
            sum <= k * 1_000_000,
        decreases 12 - k,
    {
        s = step(s);
        let u = unit(s);
        assert(s == state_after(s0, (k + 1) as nat));
        assert(unit_sum(s0, (k + 1) as nat) == unit_sum(s0, k as nat) + unit_of(s));
        sum = sum + u;
        k = k + 1;
    }
    let z: i64 = (sum as i64) - 6_000_000;
    (z, s)
}

/// Starting state of trial `i` under `seed`, executably.
pub fn trial_rng(seed: u64, i: usize) -> (s: u64)
    ensures
        s == trial_start(seed, i as int),
{
    proof {
        vstd::arithmetic::mul::lemma_mul_upper_bound(
            i as int,
            0xFFFF_FFFF_FFFF_FFFFu64 as int,
            STREAM_STEP as int,
            STREAM_STEP as int,
        );
    }
    let displaced: u128 = (seed as u128) + ((i as u128) * (STREAM_STEP as u128));
    let start: u64 = (displaced % 0x1_0000_0000_0000_0000u128) as u64;
    step(step(start))
}

} // verus!
