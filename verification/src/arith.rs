//! Exact arithmetic on amounts: the floor of a product over a divisor, without
//! an intermediate value that leaves 128 bits.
use vstd::prelude::*;
use vstd::arithmetic::div_mod::{
    lemma_div_is_ordered, lemma_fundamental_div_mod, lemma_fundamental_div_mod_converse,
};

verus! {

/// The floor of `x * b / c`.
pub open spec fn mul_div(x: nat, b: nat, c: nat) -> nat {
    ((x * b) / c) as nat
}

proof fn lemma_quotient(a: int, c: int, q: int, r: int)
    requires
        c > 0,
        0 <= r < c,
        a == q * c + r,
    ensures
        a / c == q,
        a % c == r,
{
    lemma_fundamental_div_mod_converse(a, c, q, r);
}

proof fn lemma_half_product(x: int, b: int, c: int)
    requires
        0 <= x,
        0 <= b,
        c > 0,
    ensures
        x * (2 * (b / 2)) == 2 * (x * (b / 2)),
        x * b == x * (2 * (b / 2)) + (b % 2) * x,
        (x * (b / 2)) / c <= (x * (2 * (b / 2))) / c <= (x * b) / c,
{
    let h = b / 2;
    assert(x * (2 * h) == 2 * (x * h)) by (nonlinear_arith);
    assert(x * b == x * (2 * h) + (b % 2) * x) by (nonlinear_arith)
        requires
            b == 2 * h + b % 2,
    ;
    lemma_div_is_ordered(x * h, x * (2 * h), c);
    lemma_div_is_ordered(x * (2 * h), x * b, c);
}

/// A share of an amount is no more than the amount.
pub proof fn lemma_mul_div_le(x: nat, b: nat, c: nat)
    requires
        c > 0,
        b <= c,
    ensures
        mul_div(x, b, c) <= x,
{
    assert(x * b <= x * c) by (nonlinear_arith)
        requires
            b <= c,
    ;
    lemma_div_is_ordered((x * b) as int, (x * c) as int, c as int);
    lemma_quotient((x * c) as int, c as int, x as int, 0);
}

/// The whole of an amount is the amount.
pub proof fn lemma_mul_div_whole(x: nat, c: nat)
    requires
        c > 0,
    ensures
        mul_div(x, c, c) == x,
        mul_div(x, 0, c) == 0,
{
    lemma_quotient((x * c) as int, c as int, x as int, 0);
}

/// Two shares of an amount are together no more than the share of the two
/// weights together.
pub proof fn lemma_mul_div_superadditive(x: nat, a: nat, b: nat, c: nat)
    requires
        c > 0,
    ensures
        mul_div(x, a, c) + mul_div(x, b, c) <= mul_div(x, a + b, c),
{
    let qa = (x * a) / c;
    let ra = (x * a) % c;
    let qb = (x * b) / c;
    let rb = (x * b) % c;
    lemma_fundamental_div_mod((x * a) as int, c as int);
    lemma_fundamental_div_mod((x * b) as int, c as int);
    assert(x * (a + b) == x * a + x * b) by (nonlinear_arith);
    assert(c * qa + c * qb == (qa + qb) * c) by (nonlinear_arith);
    if ra + rb < c {
        lemma_quotient((x * (a + b)) as int, c as int, (qa + qb) as int, (ra + rb) as int);
    } else {
        assert((qa + qb + 1) * c == (qa + qb) * c + c) by (nonlinear_arith);
        lemma_quotient(
            (x * (a + b)) as int,
            c as int,
            (qa + qb + 1) as int,
            (ra + rb - c) as int,
        );
    }
}

/// A larger weight makes a larger share.
pub proof fn lemma_mul_div_monotone(x: nat, a: nat, b: nat, c: nat)
    requires
        c > 0,
        a <= b,
    ensures
        mul_div(x, a, c) <= mul_div(x, b, c),
{
    assert(x * a <= x * b) by (nonlinear_arith)
        requires
            a <= b,
    ;
    lemma_div_is_ordered((x * a) as int, (x * b) as int, c as int);
}

/// A factor that weight and divisor have in common cancels.
pub proof fn lemma_mul_div_cancel(x: nat, a: nat, b: nat, c: nat)
    requires
        b > 0,
        c > 0,
    ensures
        mul_div(x, a * c, b * c) == mul_div(x, a, b),
{
    let q = (x * a) / b;
    let r = (x * a) % b;
    lemma_fundamental_div_mod((x * a) as int, b as int);
    assert(x * (a * c) == q * (b * c) + r * c) by (nonlinear_arith)
        requires
            x * a == b * q + r,
    ;
    assert(0 <= r * c < b * c) by (nonlinear_arith)
        requires
            0 <= r < b,
            c > 0,
    ;
    lemma_quotient((x * (a * c)) as int, (b * c) as int, q as int, (r * c) as int);
}

/// Quotient and remainder of `x * b` by `c`, or `None` when the quotient
/// does not fit in 128 bits.
fn mul_div_rem(x: u128, b: u128, c: u128) -> (out: Option<(u128, u128)>)
    requires
        c > 0,
    ensures
        match out {
            Some((q, r)) => x * b == q * c + r && r < c,
            None => (x * b) / (c as int) > u128::MAX,
        },
    decreases b,
{
    if b == 0 {
        return Some((0, 0));
    }
    proof {
        lemma_half_product(x as int, b as int, c as int);
    }
    let half = mul_div_rem(x, b / 2, c);
    let (q, r) = match half {
        Some(pair) => pair,
        None => {
            return None;
        },
    };
    // Double: x * 2(b/2) == dq * c + dr.
    let carry: u128 = if r >= c - r {
        1
    } else {
        0
    };
    let dr: u128 = if r >= c - r {
        r - (c - r)
    } else {
        r + r
    };
    proof {
        assert(x * (2 * (b / 2)) == (2 * q + carry) * c + dr) by (nonlinear_arith)
            requires
                x * (2 * (b / 2)) == 2 * (x * (b / 2)),
                x * (b / 2) == q * c + r,
                dr == 2 * r - carry * c,
        ;
        lemma_quotient(x * (2 * (b / 2)), c as int, 2 * q + carry, dr as int);
    }
    let dq = match q.checked_mul(2) {
        Some(v) => match v.checked_add(carry) {
            Some(w) => w,
            None => {
                return None;
            },
        },
        None => {
            return None;
        },
    };
    if b % 2 == 0 {
        return Some((dq, dr));
    }
    // Add x once: x * b == x * 2(b/2) + x.
    let xq = x / c;
    let xr = x % c;
    let carry2: u128 = if dr >= c - xr {
        1
    } else {
        0
    };
    let fr: u128 = if dr >= c - xr {
        dr - (c - xr)
    } else {
        dr + xr
    };
    proof {
        lemma_fundamental_div_mod(x as int, c as int);
        assert(x * b == (dq + xq + carry2) * c + fr) by (nonlinear_arith)
            requires
                x * b == x * (2 * (b / 2)) + (b % 2) * x,
                b % 2 == 1,
                x * (2 * (b / 2)) == dq * c + dr,
                x == xq * c + xr,
                fr == dr + xr - carry2 * c,
        ;
        lemma_quotient(x * b, c as int, dq + xq + carry2, fr as int);
    }
    let fq = match dq.checked_add(xq) {
        Some(v) => match v.checked_add(carry2) {
            Some(w) => w,
            None => {
                return None;
            },
        },
        None => {
            return None;
        },
    };
    Some((fq, fr))
}

/// The floor of `x * b / c`, computed exactly; `None` when it does not fit in
/// 128 bits.
pub fn mul_div_floor(x: u128, b: u128, c: u128) -> (out: Option<u128>)
    requires
        c > 0,
    ensures
        match out {
            Some(q) => q == mul_div(x as nat, b as nat, c as nat),
            None => mul_div(x as nat, b as nat, c as nat) > u128::MAX,
        },
{
    match mul_div_rem(x, b, c) {
        Some((q, r)) => {
            proof {
                lemma_quotient(x * b, c as int, q as int, r as int);
            }
            Some(q)
        },
        None => None,
    }
}

} // verus!
