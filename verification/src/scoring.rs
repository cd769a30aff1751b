//! The economics of an evaluation: the admissible range of a confidence,
//! reputation as an exact ratio, and the reward of an unopposed evaluation.
use vstd::prelude::*;
use crate::arith::{lemma_mul_div_cancel, lemma_mul_div_monotone, mul_div, mul_div_floor};

verus! {

/// The bit pattern of the number one.
pub const ONE_BITS: u64 = 0x3FF0_0000_0000_0000;

/// The bit pattern of minus zero.
pub const MINUS_ZERO_BITS: u64 = 0x8000_0000_0000_0000;

/// An execution below this many milliseconds earns a speed bonus.
pub const SPEED_BONUS_WINDOW_MS: u64 = 60_000;

/// The sign of a 64-bit IEEE 754 number: 1 for negative.
pub open spec fn sign_field(bits: u64) -> nat {
    (bits / 0x8000_0000_0000_0000) as nat
}

/// The biased exponent of a 64-bit IEEE 754 number.
pub open spec fn exponent_field(bits: u64) -> nat {
    ((bits / 0x10_0000_0000_0000) % 2048) as nat
}

/// The fraction of a 64-bit IEEE 754 number.
pub open spec fn fraction_field(bits: u64) -> nat {
    (bits % 0x10_0000_0000_0000) as nat
}

/// Whether the 64-bit IEEE 754 number with this bit pattern lies between zero
/// and one, both included. Infinities and NaN (exponent 2047) do not; of the
/// negative numbers only minus zero does; a non-negative number does when it
/// is below one (exponent under 1023) or one itself.
pub open spec fn in_unit_interval(bits: u64) -> bool {
    if exponent_field(bits) == 2047 {
        false
    } else if sign_field(bits) == 1 {
        exponent_field(bits) == 0 && fraction_field(bits) == 0
    } else {
        exponent_field(bits) < 1023 || (exponent_field(bits) == 1023 && fraction_field(bits) == 0)
    }
}

/// Decides whether a confidence, given by its bit pattern, lies in `[0, 1]`.
pub fn confidence_is_valid(bits: u64) -> (ok: bool)
    ensures
        ok == in_unit_interval(bits),
{
    bits <= ONE_BITS || bits == MINUS_ZERO_BITS
}

/// Reputation as a ratio of naturals: successes over resolved outcomes, and
/// one over one for a solver without a resolved outcome.
pub open spec fn reputation(successful: u64, total: u64) -> (nat, nat) {
    if total == 0 {
        (1, 1)
    } else {
        (successful as nat, total as nat)
    }
}

/// Whether the reputation is at least seven tenths.
pub open spec fn reputation_suffices(successful: u64, total: u64) -> bool {
    10 * reputation(successful, total).0 >= 7 * reputation(successful, total).1
}

/// Decides whether a solver's reputation is at least seven tenths.
pub fn has_sufficient_reputation(successful: u64, total: u64) -> (ok: bool)
    ensures
        ok == reputation_suffices(successful, total),
{
    if total == 0 {
        true
    } else {
        let lhs: u128 = 10 * (successful as u128);
        let rhs: u128 = 7 * (total as u128);
        lhs >= rhs
    }
}

/// The speed factor's numerator over 600000: an execution of `ms`
/// milliseconds under a minute earns `(60000 - ms) / 60000` of a tenth on top.
pub open spec fn speed_numerator(execution_ms: u64) -> nat {
    if execution_ms < SPEED_BONUS_WINDOW_MS {
        (660_000 - execution_ms) as nat
    } else {
        600_000
    }
}

/// Numerator of the factor by which the base is multiplied. With reputation
/// `k / n` the reputation multiplier is `1 + (k/n - 1/2) / 2`, which is
/// `(3n + 2k) / 4n`.
pub open spec fn reward_numerator(successful: u64, total: u64, execution_ms: u64) -> nat {
    let (k, n) = reputation(successful, total);
    (3 * n + 2 * k) * speed_numerator(execution_ms)
}

/// Denominator of the factor by which the base is multiplied.
pub open spec fn reward_denominator(total: u64) -> nat {
    let n = if total == 0 {
        1nat
    } else {
        total as nat
    };
    4 * n * 600_000
}

/// The reward of an unopposed evaluation: the base times the reputation
/// multiplier times the speed factor, rounded down once.
pub open spec fn unopposed_reward(
    base: nat,
    successful: u64,
    total: u64,
    execution_ms: u64,
) -> nat {
    mul_div(
        base,
        reward_numerator(successful, total, execution_ms),
        reward_denominator(total),
    )
}

/// The reward of an unopposed evaluation lies between three quarters of the
/// base, for a solver without a success that took a minute or more, and
/// eleven eighths of the base, for a solver without a failure that took no
/// time at all.
pub proof fn lemma_unopposed_reward_bounds(
    base: nat,
    successful: u64,
    total: u64,
    execution_ms: u64,
)
    requires
        successful <= total,
    ensures
        mul_div(base, 3, 4) <= unopposed_reward(base, successful, total, execution_ms),
        unopposed_reward(base, successful, total, execution_ms) <= mul_div(base, 11, 8),
{
    let (k, n) = reputation(successful, total);
    let speed = speed_numerator(execution_ms);
    let numerator = reward_numerator(successful, total, execution_ms);
    let denominator = reward_denominator(total);
    assert(3 * (n * 600_000) <= numerator <= 5 * n * 660_000) by (nonlinear_arith)
        requires
            numerator == (3 * n + 2 * k) * speed,
            0 <= k <= n,
            600_000 <= speed <= 660_000,
    ;
    lemma_mul_div_monotone(base, 3 * (n * 600_000), numerator, denominator);
    lemma_mul_div_cancel(base, 3, 4, n * 600_000);
    lemma_mul_div_monotone(base, numerator, 5 * n * 660_000, denominator);
    lemma_mul_div_cancel(base, 11, 8, n * 300_000);
}

/// Computes the reward of an unopposed evaluation; `None` when it does not
/// fit in 128 bits.
pub fn compute_unopposed_reward(
    base: u128,
    successful: u64,
    total: u64,
    execution_ms: u64,
) -> (reward: Option<u128>)
    ensures
        match reward {
            Some(r) => r == unopposed_reward(base as nat, successful, total, execution_ms),
            None => unopposed_reward(base as nat, successful, total, execution_ms) > u128::MAX,
        },
{
    let k: u128 = if total == 0 {
        1
    } else {
        successful as u128
    };
    let n: u128 = if total == 0 {
        1
    } else {
        total as u128
    };
    let speed: u128 = if execution_ms < SPEED_BONUS_WINDOW_MS {
        660_000 - execution_ms as u128
    } else {
        600_000
    };
    let weight: u128 = 3 * n + 2 * k;
    assert(weight * speed <= 0x5_0000_0000_0000_0000 * 660_000) by (nonlinear_arith)
        requires
            weight <= 0x5_0000_0000_0000_0000,
            speed <= 660_000,
    ;
    let numerator: u128 = weight * speed;
    let denominator: u128 = 4 * n * 600_000;
    mul_div_floor(base, numerator, denominator)
}

} // verus!
