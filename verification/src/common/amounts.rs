//! Token amounts. Every amount is a `u128` count of the smallest unit of its
//! token. A launched token has 18 decimals, so one whole token is `ONE` units,
//! and a launchpad's price is the number of payment units that one whole token
//! costs.
use vstd::prelude::*;
use vstd::arithmetic::div_mod::{lemma_fundamental_div_mod, lemma_fundamental_div_mod_converse};

verus! {

/// Units in one whole launched token (18 decimals).
pub const ONE: u128 = 1_000_000_000_000_000_000;

/// Ten to the power `n`.
pub open spec fn pow10(n: nat) -> nat
    decreases n,
{
    if n == 0 {
        1
    } else {
        10 * pow10((n - 1) as nat)
    }
}

/// The number of token units bought with `payment` payment units at `price`
/// payment units per whole token, rounded down.
pub open spec fn tokens_for(payment: u128, price: u128) -> int {
    (payment * ONE) / (price as int)
}

proof fn lemma_one_is_pow10_18()
    ensures
        pow10(18) == ONE,
{
    reveal_with_fuel(pow10, 19);
}

/// Adds `r` ten times into a remainder modulo `p`, counting the carries:
/// returns `(c, s)` with `10 * r == c * p + s` and `s < p`.
fn times_ten_mod(r: u128, p: u128) -> (res: (u128, u128))
    requires
        r < p,
    ensures
        10 * r == res.0 * p + res.1,
        res.1 < p,
        res.0 < 10,
{
    let mut s: u128 = 0;
    let mut c: u128 = 0;
    let mut k: u128 = 0;
    while k < 10
        invariant
            r < p,
            k <= 10,
            c <= k,
            s < p,
            k * r == c * p + s,
        decreases 10 - k,
    {
        assert((k + 1) * r == k * r + r) by (nonlinear_arith);
        assert((c + 1) * p == c * p + p) by (nonlinear_arith);
        if s >= p - r {
            s = s - (p - r);
            c = c + 1;
        } else {
            s = s + r;
        }
        k = k + 1;
    }
    assert(c <= 10);
    if c == 10 {
        assert(10 * p <= 10 * r) by (nonlinear_arith)
            requires 10 * r == c * p + s, c == 10, s >= 0;
        assert(false) by (nonlinear_arith)
            requires 10 * p <= 10 * r, r < p;
    }
    (c, s)
}

/// Long division of `r * ONE` by `p` for `r < p`, one decimal digit at a time,
/// so that no intermediate value exceeds `p`.
fn fraction_times_one(r: u128, p: u128) -> (res: (u128, u128))
    requires
        r < p,
    ensures
        r * ONE == res.0 * p + res.1,
        res.1 < p,
        res.0 < ONE,
{
    let mut q: u128 = 0;
    let mut rem: u128 = r;
    let mut j: u32 = 0;
    assert(pow10(0) == 1);
    proof { lemma_pow10_monotone(0, 18); }
    while j < 18
        invariant
            r < p,
            j <= 18,
            rem < p,
            q < pow10(j as nat),
            r * pow10(j as nat) == q * p + rem,
            pow10(j as nat) <= pow10(18),
        decreases 18 - j,
    {
        proof {
            reveal_with_fuel(pow10, 19);
            lemma_pow10_monotone((j + 1) as nat, 18);
        }
        let (c, s) = times_ten_mod(rem, p);
        let ghost pj = pow10(j as nat);
        assert(pow10((j + 1) as nat) == 10 * pj);
        assert(r * (10 * pj) == 10 * (r * pj)) by (nonlinear_arith);
        assert(10 * (q * p) + c * p == (10 * q + c) * p) by (nonlinear_arith);
        assert(10 * q + c < 10 * pj) by (nonlinear_arith)
            requires q < pj, c < 10;
        proof { lemma_one_is_pow10_18(); }
        q = 10 * q + c;
        rem = s;
        j = j + 1;
    }
    proof { lemma_one_is_pow10_18(); }
    (q, rem)
}

proof fn lemma_pow10_monotone(a: nat, b: nat)
    requires
        a <= b,
    ensures
        pow10(a) <= pow10(b),
    decreases b,
{
    if a < b {
        lemma_pow10_monotone(a, (b - 1) as nat);
    }
}

/// The number of token units bought with `payment` at `price`, that is
/// `payment * ONE / price` rounded down, computed without intermediate
/// overflow; `None` when the result does not fit in a `u128`.
pub fn token_amount(payment: u128, price: u128) -> (r: Option<u128>)
    requires
        price > 0,
    ensures
        match r {
            Some(t) => t == tokens_for(payment, price),
            None => tokens_for(payment, price) > u128::MAX,
        },
{
    let whole = payment / price;
    let part = payment % price;
    let (frac, rest) = fraction_times_one(part, price);
    proof {
        lemma_fundamental_div_mod(payment as int, price as int);
        assert(payment == whole * price + part) by (nonlinear_arith)
            requires payment == price * whole + part;
        assert(payment * ONE == (whole * ONE + frac) * price + rest) by (nonlinear_arith)
            requires
                payment == whole * price + part,
                part * ONE == frac * price + rest;
        lemma_fundamental_div_mod_converse(payment * ONE, price as int, whole * ONE + frac, rest as int);
    }
    match whole.checked_mul(ONE) {
        None => {
            assert(whole * ONE + frac > u128::MAX);
            None
        },
        Some(high) => match high.checked_add(frac) {
            None => None,
            Some(t) => Some(t),
        },
    }
}

} // verus!
