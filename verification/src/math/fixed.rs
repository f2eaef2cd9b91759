use vstd::prelude::*;

use vstd::arithmetic::div_mod::lemma_div_is_ordered;
use vstd::arithmetic::div_mod::lemma_div_multiples_vanish;
use vstd::arithmetic::div_mod::lemma_div_pos_is_pos;
use vstd::arithmetic::div_mod::lemma_fundamental_div_mod;
use vstd::arithmetic::div_mod::lemma_mod_division_less_than_divisor;

verus! {

/// One whole world unit in raw fixed-point steps: values are held in
/// billionths of a unit.
pub const SCALE: i64 = 1_000_000_000;

/// Near-equality tolerance: one millionth of a unit.
pub const TOLERANCE: i64 = 1000;

/// Integer division truncated toward zero — the rounding of Rust's `/`
/// operator — expressed through the Euclidean `/` of specifications.
/// Meaningful for `b > 0`.
pub open spec fn tdiv(a: int, b: int) -> int {
    if a >= 0 {
        a / b
    } else {
        -((-a) / b)
    }
}

/// `tdiv` recovers a factor exactly: there is no rounding when the dividend
/// is a multiple of the divisor.
pub proof fn lemma_tdiv_exact(x: int, b: int)
    requires
        b > 0,
    ensures
        tdiv(x * b, b) == x,
{
    if x >= 0 {
        assert(x * b >= 0) by (nonlinear_arith)
            requires
                x >= 0,
                b > 0,
        ;
        lemma_div_multiples_vanish(x, b);
        assert(b * x == x * b) by (nonlinear_arith);
    } else {
        assert(x * b < 0) by (nonlinear_arith)
            requires
                x < 0,
                b > 0,
        ;
        lemma_div_multiples_vanish(-x, b);
        assert(b * -x == -(x * b)) by (nonlinear_arith);
    }
}

/// The remainder of `tdiv` is less than the divisor in magnitude and has the
/// sign of the dividend.
pub proof fn lemma_tdiv_remainder(a: int, b: int)
    requires
        b > 0,
    ensures
        a >= 0 ==> tdiv(a, b) * b <= a < tdiv(a, b) * b + b,
        a < 0 ==> tdiv(a, b) * b - b < a <= tdiv(a, b) * b,
        -b < a - tdiv(a, b) * b < b,
{
    if a >= 0 {
        lemma_fundamental_div_mod(a, b);
        lemma_mod_division_less_than_divisor(a, b);
        let q = a / b;
        assert(q * b == b * q) by (nonlinear_arith);
    } else {
        lemma_fundamental_div_mod(-a, b);
        lemma_mod_division_less_than_divisor(-a, b);
        let q = (-a) / b;
        assert(-a == b * q + (-a) % b);
        assert((-q) * b == -(b * q)) by (nonlinear_arith);
    }
}

/// `tdiv` maps a bounded dividend to a bounded quotient.
pub proof fn lemma_tdiv_abs_le(a: int, b: int, c: int)
    requires
        b > 0,
        0 <= c,
        -c <= a <= c,
    ensures
        -(c / b) <= tdiv(a, b) <= c / b,
{
    lemma_div_pos_is_pos(c, b);
    if a >= 0 {
        lemma_div_is_ordered(a, c, b);
        lemma_div_pos_is_pos(a, b);
    } else {
        lemma_div_is_ordered(-a, c, b);
        lemma_div_pos_is_pos(-a, b);
    }
}

/// `tdiv` is monotone between dividends of equal sign treatment: bounds on
/// the dividend translate to bounds on the quotient.
pub proof fn lemma_tdiv_between(a: int, b: int, lo: int, hi: int)
    requires
        b > 0,
        lo * b <= a <= hi * b,
    ensures
        lo <= tdiv(a, b) <= hi,
{
    lemma_tdiv_remainder(a, b);
    let q = tdiv(a, b);
    assert(lo <= q) by (nonlinear_arith)
        requires
            b > 0,
            lo * b <= a,
            q * b + b > a,
    ;
    assert(q <= hi) by (nonlinear_arith)
        requires
            b > 0,
            a <= hi * b,
            q * b - b < a,
    ;
}

/// The integer square root, rounded down.
pub open spec fn sqrt_floor(n: nat) -> nat
    decreases n,
{
    if n == 0 {
        0
    } else {
        let p = sqrt_floor((n - 1) as nat);
        if (p + 1) * (p + 1) <= n {
            p + 1
        } else {
            p
        }
    }
}

/// The defining bracket of the integer square root.
pub proof fn lemma_sqrt_floor(n: nat)
    ensures
        sqrt_floor(n) * sqrt_floor(n) <= n < (sqrt_floor(n) + 1) * (sqrt_floor(n) + 1),
    decreases n,
{
    if n == 0 {
        assert(sqrt_floor(0nat) == 0);
        assert((sqrt_floor(n) + 1) * (sqrt_floor(n) + 1) == 1) by (nonlinear_arith)
            requires
                sqrt_floor(n) == 0,
        ;
    }
    if n > 0 {
        lemma_sqrt_floor((n - 1) as nat);
        let p = sqrt_floor((n - 1) as nat);
        if (p + 1) * (p + 1) <= n {
            assert(sqrt_floor(n) == p + 1);
            assert((p + 1 + 1) * (p + 1 + 1) > n) by (nonlinear_arith)
                requires
                    n - 1 < (p + 1) * (p + 1),
                    (p + 1) * (p + 1) <= n,
            ;
        } else {
            assert(sqrt_floor(n) == p);
            assert(p * p <= n - 1);
        }
    }
}

/// Any value bracketed like the integer square root is the integer square
/// root.
pub proof fn lemma_sqrt_floor_unique(n: nat, r: nat)
    requires
        r * r <= n,
        n < (r + 1) * (r + 1),
    ensures
        r == sqrt_floor(n),
{
    lemma_sqrt_floor(n);
    let s = sqrt_floor(n);
    if r < s {
        assert(false) by (nonlinear_arith)
            requires
                r < s,
                s * s <= n,
                n < (r + 1) * (r + 1),
        ;
    }
    if s < r {
        assert(false) by (nonlinear_arith)
            requires
                s < r,
                r * r <= n,
                n < (s + 1) * (s + 1),
        ;
    }
}

/// Binary-search integer square root.
pub fn isqrt(n: u128) -> (r: u64)
    requires
        n < 0x8000_0000_0000_0000 * 0x8000_0000_0000_0000,
    ensures
        r as nat == sqrt_floor(n as nat),
{
    if n == 0 {
        proof {
            assert(sqrt_floor(0nat) == 0);
        }
        return 0;
    }
    let mut lo: u128 = 0;
    let mut hi: u128 = 0x8000_0000_0000_0000;
    while lo + 1 < hi
        invariant
            lo < hi <= 0x8000_0000_0000_0000,
            lo * lo <= n,
            n < hi * hi,
        decreases hi - lo,
    {
        let mid = lo + (hi - lo) / 2;
        assert(lo < mid < hi);
        proof {
            assert(mid * mid < 0x8000_0000_0000_0000 * 0x8000_0000_0000_0000)
                by (nonlinear_arith)
                requires
                    0 <= mid < 0x8000_0000_0000_0000,
            ;
        }
        if mid * mid <= n {
            lo = mid;
        } else {
            hi = mid;
        }
    }
    proof {
        assert(hi == lo + 1);
        lemma_sqrt_floor_unique(n as nat, lo as nat);
    }
    lo as u64
}

} // verus!
