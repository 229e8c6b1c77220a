//! Per-entry sampling: one realized value of a tolerance entry per trial.
//!
//! A linear dimension is drawn from a two-sided asymmetric normal: one
//! standard-normal deviate decides the side by its sign and is then scaled
//! by that side's per-sigma standard deviation, `tol / sigma`.  A float fit
//! draws its hole and pin diameters independently by the same rule and
//! contributes their clearance.  A band with both tolerances zero yields
//! exactly the nominal, whatever the deviate.

use vstd::prelude::*;
use crate::model::{LinearBand, ToleranceKind, band_ok, kind_ok};
use crate::rng::{normal_of, normal_state, draw_normal};

verus! {

/// Largest magnitude a scaled band deviation can reach: the largest
/// deviate times the largest tolerance, over the smallest sigma.
pub const DEV_LIMIT: i128 = 6_000_000 * 9_223_372_036_854_775_807;

/// Largest magnitude of one band's realized value.
pub const BAND_VALUE_LIMIT: i128 = DEV_LIMIT + 9_223_372_036_854_775_808;

/// Largest magnitude of one entry's realized value (a float fit spans two
/// bands).
pub const ENTRY_VALUE_LIMIT: i128 = 2 * BAND_VALUE_LIMIT;

/// Deviation-from-nominal of a band under deviate `z`: the deviate scaled
/// by the per-sigma standard deviation of the side its sign selects,
/// truncated toward zero.
pub open spec fn band_dev(z: int, tol_pos: int, tol_neg: int, sigma: int) -> int {
    if sigma <= 0 {
        0
    } else if z >= 0 {
        (z * tol_pos) / sigma
    } else {
        -(((-z) * tol_neg) / sigma)
    }
}

/// Realized value of a band under deviate `z`.
pub open spec fn band_value(b: LinearBand, sigma: int, z: int) -> int {
    b.nominal + band_dev(z, b.tol_pos as int, b.tol_neg as int, sigma)
}

/// Realized value of an entry kind drawn from generator state `s`: a
/// linear entry consumes one deviate; a float fit consumes one for the
/// hole, then one for the pin, and contributes the clearance.
pub open spec fn kind_value(k: ToleranceKind, s: u64) -> int {
    match k {
        ToleranceKind::Linear { band, sigma } => band_value(band, sigma as int, normal_of(s)),
        ToleranceKind::Float { hole, pin, sigma } => band_value(hole, sigma as int, normal_of(s))
            - band_value(pin, sigma as int, normal_of(normal_state(s))),
    }
}

/// Generator state left behind by sampling an entry kind from state `s`.
pub open spec fn kind_state(k: ToleranceKind, s: u64) -> u64 {
    match k {
        ToleranceKind::Linear { .. } => normal_state(s),
        ToleranceKind::Float { .. } => normal_state(normal_state(s)),
    }
}

/// Scaled band deviation, executably.  Exact, and exactly zero when the
/// selected side's tolerance is zero.
pub fn sample_band_dev(b: &LinearBand, sigma: i64, z: i64) -> (d: i128)
    requires
        band_ok(*b),
        sigma > 0,
        -6_000_000 <= z <= 6_000_000,
    ensures
        d as int == band_dev(z as int, b.tol_pos as int, b.tol_neg as int, sigma as int),
        -DEV_LIMIT <= d <= DEV_LIMIT,
{
    if z >= 0 {
        proof {
            vstd::arithmetic::mul::lemma_mul_upper_bound(
                z as int,
                6_000_000,
                b.tol_pos as int,
                i64::MAX as int,
            );
            vstd::arithmetic::div_mod::lemma_div_nonincreasing(
                (z as int) * (b.tol_pos as int),
                sigma as int,
            );
            vstd::arithmetic::div_mod::lemma_div_pos_is_pos(
                (z as int) * (b.tol_pos as int),
                sigma as int,
            );
            vstd::arithmetic::mul::lemma_mul_nonnegative(z as int, b.tol_pos as int);
        }
        let num: u128 = (z as u128) * (b.tol_pos as u128);
        let q: u128 = num / (sigma as u128);
        q as i128
    } else {
        let mag: i64 = -z;
        proof {
            vstd::arithmetic::mul::lemma_mul_upper_bound(
                mag as int,
                6_000_000,
                b.tol_neg as int,
                i64::MAX as int,
            );
            vstd::arithmetic::div_mod::lemma_div_nonincreasing(
                (mag as int) * (b.tol_neg as int),
                sigma as int,
            );
            vstd::arithmetic::div_mod::lemma_div_pos_is_pos(
                (mag as int) * (b.tol_neg as int),
                sigma as int,
            );
            vstd::arithmetic::mul::lemma_mul_nonnegative(mag as int, b.tol_neg as int);
        }
        let num: u128 = (mag as u128) * (b.tol_neg as u128);
        let q: u128 = num / (sigma as u128);
        -(q as i128)
    }
}

/// Realized value of a band drawn with deviate `z`, executably.
pub fn sample_band(b: &LinearBand, sigma: i64, z: i64) -> (v: i128)
    requires
        band_ok(*b),
        sigma > 0,
        -6_000_000 <= z <= 6_000_000,
    ensures
        v as int == band_value(*b, sigma as int, z as int),
        -BAND_VALUE_LIMIT <= v <= BAND_VALUE_LIMIT,
{
    let d = sample_band_dev(b, sigma, z);
    (b.nominal as i128) + d
}

/// Draw one realized value of an entry kind, returning it with the
/// advanced generator state.
pub fn sample_kind(k: &ToleranceKind, s: u64) -> (r: (i128, u64))
    requires
        kind_ok(*k),
    ensures
        r.0 as int == kind_value(*k, s),
        r.1 == kind_state(*k, s),
        -ENTRY_VALUE_LIMIT <= r.0 <= ENTRY_VALUE_LIMIT,
{
    match k {
        ToleranceKind::Linear { band, sigma } => {
            let (z, s1) = draw_normal(s);
            let v = sample_band(band, *sigma, z);
            (v, s1)
        },
        ToleranceKind::Float { hole, pin, sigma } => {
            let (z_hole, s1) = draw_normal(s);
            let hole_v = sample_band(hole, *sigma, z_hole);
            let (z_pin, s2) = draw_normal(s1);
            let pin_v = sample_band(pin, *sigma, z_pin);
            (hole_v - pin_v, s2)
        },
    }
}

/// A band whose two tolerances are both zero realizes its nominal exactly,
/// under every deviate and sigma.
pub proof fn lemma_zero_band_exact(b: LinearBand, sigma: int, z: int)
    requires
        b.tol_pos == 0,
        b.tol_neg == 0,
        sigma > 0,
    ensures
        band_value(b, sigma, z) == b.nominal,
{
    if z >= 0 {
        assert((z * 0) / sigma == 0) by {
            vstd::arithmetic::mul::lemma_mul_by_zero_is_zero(z);
            vstd::arithmetic::div_mod::lemma_div_of0(sigma);
        }
    } else {
        assert(((-z) * 0) / sigma == 0) by {
            vstd::arithmetic::mul::lemma_mul_by_zero_is_zero(-z);
            vstd::arithmetic::div_mod::lemma_div_of0(sigma);
        }
    }
}

} // verus!
