//! Fractions of integers, and division rounded to the nearest integer.

use vstd::prelude::*;

verus! {

/// The quotient `n / d` rounded to the nearest integer, a tie going away from
/// zero. Meant for `n >= 0` and `d > 0`.
pub open spec fn round_div(n: int, d: int) -> int {
    (2 * n + d) / (2 * d)
}

/// `round_div(n, d)` is the one integer `q` with `2*n - d < 2*q*d <= 2*n + d`:
/// no integer is nearer to `n / d`, and a tie is resolved upwards.
pub proof fn lemma_round_div_nearest(n: int, d: int)
    requires
        n >= 0,
        d > 0,
    ensures
        2 * n - d < 2 * round_div(n, d) * d <= 2 * n + d,
        round_div(n, d) >= 0,
{
    let q = round_div(n, d);
    vstd::arithmetic::div_mod::lemma_fundamental_div_mod(2 * n + d, 2 * d);
    vstd::arithmetic::div_mod::lemma_mod_bound(2 * n + d, 2 * d);
    vstd::arithmetic::div_mod::lemma_div_pos_is_pos(2 * n + d, 2 * d);
    assert(2 * q * d == (2 * d) * q) by (nonlinear_arith);
}

/// Computes `round_div` without leaving `u64`.
pub fn rounded_quotient(n: u64, d: u64) -> (q: u64)
    requires
        d > 0,
    ensures
        q == round_div(n as int, d as int),
{
    let whole: u64 = n / d;
    let rest: u64 = n % d;
    proof {
        lemma_round_div_split(n as int, d as int);
        if d >= 2 {
            vstd::arithmetic::div_mod::lemma_div_is_ordered_by_denominator(n as int, 2, d as int);
        }
    }
    if rest >= d - rest {
        whole + 1
    } else {
        whole
    }
}

/// `round_div` in terms of the truncated quotient and the remainder.
pub proof fn lemma_round_div_split(n: int, d: int)
    requires
        n >= 0,
        d > 0,
    ensures
        round_div(n, d) == n / d + (if 2 * (n % d) >= d { 1int } else { 0int }),
{
    let q = n / d;
    let r = n % d;
    vstd::arithmetic::div_mod::lemma_fundamental_div_mod(n, d);
    vstd::arithmetic::div_mod::lemma_mod_bound(n, d);
    let up = if 2 * r >= d { 1int } else { 0int };
    let rem = 2 * r + d - up * (2 * d);
    assert(2 * n + d == (q + up) * (2 * d) + rem) by (nonlinear_arith)
        requires
            n == d * q + r,
            rem == 2 * r + d - up * (2 * d),
    ;
    assert(0 <= rem < 2 * d);
    vstd::arithmetic::div_mod::lemma_fundamental_div_mod_converse(2 * n + d, 2 * d, q + up, rem);
}

/// A fraction `num / den` of two integers, kept unreduced.
#[derive(Clone, Copy, Debug, PartialEq, Eq, Structural)]
pub struct Ratio {
    pub num: i64,
    pub den: i64,
}

impl Ratio {
    /// A fraction has a positive denominator.
    pub open spec fn wf(self) -> bool {
        self.den > 0
    }

    /// The fraction multiplied by the whole number `k`.
    pub fn times(&self, k: u32) -> (r: Ratio)
        requires
            i64::MIN <= self.num * k <= i64::MAX,
        ensures
            r.num == self.num * k,
            r.den == self.den,
    {
        Ratio { num: self.num * (k as i64), den: self.den }
    }

    /// The fraction rounded to the nearest integer, a tie going away from
    /// zero.
    pub fn round(&self) -> (q: u64)
        requires
            self.wf(),
            self.num >= 0,
        ensures
            q == round_div(self.num as int, self.den as int),
    {
        rounded_quotient(self.num as u64, self.den as u64)
    }
}

/// A fraction between 0 and 1 of a whole number rounds to no more than that
/// number.
pub proof fn lemma_round_div_of_part(k: int, num: int, den: int)
    requires
        k >= 0,
        0 <= num <= den,
        den > 0,
    ensures
        0 <= round_div(k * num, den) <= k,
{
    let q = round_div(k * num, den);
    assert(0 <= k * num <= k * den) by (nonlinear_arith)
        requires
            k >= 0,
            0 <= num <= den,
    ;
    lemma_round_div_nearest(k * num, den);
    assert(q <= k) by (nonlinear_arith)
        requires
            2 * q * den <= 2 * (k * num) + den,
            k * num <= k * den,
            den > 0,
    ;
}

} // verus!
