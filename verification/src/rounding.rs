//! Rounding of lengths to the size resolution.
//!
//! A length is first rounded to the nearest whole number of resolution
//! units and then raised to the next even number, so that blocks tiled edge
//! to edge leave no seam narrower than the resolution.

use vstd::prelude::*;

verus! {

/// The least even number that is not below `n`.
pub open spec fn even_up(n: nat) -> nat {
    n + n % 2
}

/// The whole number nearest to `a / b`, a tie going up.
pub open spec fn nearest_quotient(a: nat, b: nat) -> nat
    recommends
        b > 0,
{
    (2 * a + b) / (2 * b)
}

/// Whether `n` is the whole number nearest to the square root of `a / 2`,
/// that is, whether `n - 1/2 <= sqrt(a / 2) < n + 1/2`.
pub open spec fn is_nearest_half_root(a: nat, n: nat) -> bool {
    &&& n == 0 || (2 * n - 1) * (2 * n - 1) <= 2 * a
    &&& 2 * a < (2 * n + 1) * (2 * n + 1)
}

/// The whole number nearest to the square root of `a / 2`.
pub open spec fn nearest_half_root(a: nat) -> nat {
    choose|n: nat| is_nearest_half_root(a, n)
}

/// At most one number is nearest to the square root of `a / 2`.
pub proof fn lemma_nearest_half_root_unique(a: nat, n: nat, m: nat)
    requires
        is_nearest_half_root(a, n),
        is_nearest_half_root(a, m),
    ensures
        n == m,
{
    if n < m {
        assert((2 * n + 1) * (2 * n + 1) <= (2 * m - 1) * (2 * m - 1)) by (nonlinear_arith)
            requires
                n < m,
        ;
    }
    if m < n {
        assert((2 * m + 1) * (2 * m + 1) <= (2 * n - 1) * (2 * n - 1)) by (nonlinear_arith)
            requires
                m < n,
        ;
    }
}

/// Some number is nearest to the square root of `a / 2`.
pub proof fn lemma_nearest_half_root_exists(a: nat)
    ensures
        is_nearest_half_root(a, nearest_half_root(a)),
    decreases a,
{
    if a == 0 {
        assert(is_nearest_half_root(0, 0)) by (nonlinear_arith);
    } else {
        lemma_nearest_half_root_exists((a - 1) as nat);
        let n = nearest_half_root((a - 1) as nat);
        if 2 * a < (2 * n + 1) * (2 * n + 1) {
            assert(is_nearest_half_root(a, n));
        } else {
            assert(2 * a == (2 * n + 1) * (2 * n + 1) || 2 * a == (2 * n + 1) * (2 * n + 1) + 1);
            let m = n * n + n;
            assert((2 * n + 1) * (2 * n + 1) == 4 * m + 1) by (nonlinear_arith)
                requires
                    m == n * n + n,
            ;
            assert((4 * m + 1) % 2 == 1);
            assert(2 * a < (2 * n + 3) * (2 * n + 3)) by (nonlinear_arith)
                requires
                    2 * a == (2 * n + 1) * (2 * n + 1) + 1,
            ;
            assert(is_nearest_half_root(a, n + 1));
        }
    }
}

/// The nearest quotient lies within half a unit of the true one.
pub proof fn lemma_nearest_quotient_is_nearest(a: nat, b: nat)
    requires
        b > 0,
    ensures
        2 * a - b < 2 * nearest_quotient(a, b) * b <= 2 * a + b,
{
    let q = nearest_quotient(a, b);
    vstd::arithmetic::div_mod::lemma_fundamental_div_mod((2 * a + b) as int, (2 * b) as int);
    assert(2 * q * b == (2 * b) * q) by (nonlinear_arith);
}

/// The nearest quotient is the whole part of the true one, and one more
/// where the rest is at least half the divisor.
pub proof fn lemma_nearest_quotient_by_rest(a: nat, b: nat)
    requires
        b > 0,
    ensures
        nearest_quotient(a, b) == a / b + if 2 * (a % b) >= b {
            1nat
        } else {
            0nat
        },
{
    let d = a / b;
    let r = a % b;
    vstd::arithmetic::div_mod::lemma_fundamental_div_mod(a as int, b as int);
    let up: nat = if 2 * r >= b {
        1
    } else {
        0
    };
    let rest = (2 * r + b - up * (2 * b)) as nat;
    assert(2 * a + b == (d + up) * (2 * b) + rest) by (nonlinear_arith)
        requires
            a == b * d + r,
            rest == 2 * r + b - up * (2 * b),
    ;
    vstd::arithmetic::div_mod::lemma_fundamental_div_mod_converse(
        (2 * a + b) as int,
        (2 * b) as int,
        (d + up) as int,
        rest as int,
    );
}

/// Rounding loses no length exactly where the true quotient is whole, or
/// lies in the upper half of its unit, or has an odd whole part: elsewhere
/// the quotient is rounded down to an even number and stays there.
pub proof fn lemma_rounded_quotient_covers(a: nat, b: nat)
    requires
        b > 0,
    ensures
        even_up(nearest_quotient(a, b)) * b >= a <==> (a % b == 0 || 2 * (a % b) >= b || (a / b)
            % 2 == 1),
{
    let d = a / b;
    let r = a % b;
    lemma_nearest_quotient_by_rest(a, b);
    vstd::arithmetic::div_mod::lemma_fundamental_div_mod(a as int, b as int);
    let e = even_up(nearest_quotient(a, b));
    if r == 0 || 2 * r >= b || d % 2 == 1 {
        assert(e >= d && (r > 0 ==> e >= d + 1));
        assert(e * b >= a) by (nonlinear_arith)
            requires
                a == b * d + r,
                r < b,
                e >= d,
                r > 0 ==> e >= d + 1,
        ;
    } else {
        assert(e == d);
        assert(e * b < a) by (nonlinear_arith)
            requires
                a == b * d + r,
                r > 0,
                e == d,
        ;
    }
}

/// Rounding loses no width exactly where the root is rounded up or raised
/// to the next even number: the square of the rounded width is then at
/// least half the area.
pub proof fn lemma_rounded_root_covers(a: nat)
    ensures
        2 * even_up(nearest_half_root(a)) * even_up(nearest_half_root(a)) >= a <==> (
        nearest_half_root(a) % 2 == 1 || 2 * nearest_half_root(a) * nearest_half_root(a) >= a),
{
    let n = nearest_half_root(a);
    lemma_nearest_half_root_exists(a);
    if n % 2 == 1 {
        assert(2 * (n + 1) * (n + 1) >= a) by (nonlinear_arith)
            requires
                2 * a < (2 * n + 1) * (2 * n + 1),
        ;
    }
}

/// The greatest `s` whose square is at most `x`.
fn floor_root(x: u128) -> (s: u128)
    requires
        x < 0x2_0000_0000_0000_0000,
    ensures
        s * s <= x < (s + 1) * (s + 1),
        s < 0x2_0000_0000,
{
    let mut lo: u128 = 0;
    let mut hi: u128 = 0x2_0000_0000;
    assert(hi * hi == 0x4_0000_0000_0000_0000) by (nonlinear_arith)
        requires
            hi == 0x2_0000_0000,
    ;
    while hi - lo > 1
        invariant
            lo < hi <= 0x2_0000_0000,
            lo * lo <= x < hi * hi,
        decreases hi - lo,
    {
        let mid: u128 = lo + (hi - lo) / 2;
        assert(mid * mid < 0x4_0000_0000_0000_0000) by (nonlinear_arith)
            requires
                mid < 0x2_0000_0000,
        ;
        if mid * mid <= x {
            lo = mid;
        } else {
            hi = mid;
        }
    }
    lo
}

/// Round the square root of `a / 2` to the nearest whole number.
pub fn round_half_root(a: u64) -> (n: u64)
    ensures
        n == nearest_half_root(a as nat),
        is_nearest_half_root(a as nat, n as nat),
        n <= 0x1_0000_0000,
{
    let s: u128 = floor_root(2 * (a as u128));
    let n: u128 = (s + 1) / 2;
    proof {
        let ai = a as nat;
        let ni = n as nat;
        if s % 2 == 1 {
            assert(2 * ni - 1 == s);
            assert(2 * ai < (2 * ni + 1) * (2 * ni + 1)) by (nonlinear_arith)
                requires
                    2 * ai < (s + 1) * (s + 1),
                    2 * ni == s + 1,
            ;
        } else {
            assert(2 * ni == s);
            assert(ni == 0 || (2 * ni - 1) * (2 * ni - 1) <= 2 * ai) by (nonlinear_arith)
                requires
                    s * s <= 2 * ai,
                    2 * ni == s,
            ;
        }
        assert(is_nearest_half_root(ai, ni));
        lemma_nearest_half_root_unique(ai, ni, nearest_half_root(ai));
    }
    n as u64
}

/// Round `a / b` to the nearest whole number, a tie going up.
pub fn round_quotient(a: u64, b: u64) -> (q: u64)
    requires
        b > 0,
    ensures
        q == nearest_quotient(a as nat, b as nat),
        q <= a,
{
    let n: u128 = 2 * (a as u128) + (b as u128);
    let d: u128 = 2 * (b as u128);
    let q: u128 = n / d;
    proof {
        let ai = a as int;
        let bi = b as int;
        assert((2 * ai + bi) / (2 * bi) <= ai) by (nonlinear_arith)
            requires
                bi > 0,
                ai >= 0,
        ;
    }
    q as u64
}

/// Raise `n` to the next even number.
pub fn round_even(n: u64) -> (e: u64)
    requires
        n < u64::MAX,
    ensures
        e == even_up(n as nat),
{
    n + n % 2
}

/// `even_up(n)` is even, is not below `n`, and no even number lies between.
pub proof fn lemma_even_up_is_least_even(n: nat, m: nat)
    requires
        m % 2 == 0,
        m >= n,
    ensures
        even_up(n) % 2 == 0,
        n <= even_up(n) <= m,
{
}

} // verus!
