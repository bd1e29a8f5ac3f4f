//! Fixed-point scalars: a real number `x` is held as the integer `x * SCALE`.
use vstd::prelude::*;

verus! {

/// The fixed-point representation of `1.0`.
pub const SCALE: i64 = 65536;

/// Largest magnitude of a coordinate of a point that a hit may report.
pub const WORLD: i64 = 1073741824;

/// Largest magnitude of a component of a ray direction.
pub const DIR_MAX: i64 = 268435456;

/// Largest ray parameter; plays the part of infinity.
pub const T_INF: i64 = 17592186044416;

/// Floor of the real quotient `n / d` for any non-zero `d`.
pub open spec fn floor_div(n: int, d: int) -> int {
    if d > 0 {
        n / d
    } else {
        (-n) / (-d)
    }
}

proof fn lemma_neg_div(n: int, d: int, q: int)
    requires
        d > 0,
        n > 0,
        q == (n + d - 1) / d,
    ensures
        -q == (-n) / d,
{
    vstd::arithmetic::div_mod::lemma_fundamental_div_mod(n + d - 1, d);
    let r = (n + d - 1) % d;
    assert(0 <= r < d) by {
        vstd::arithmetic::div_mod::lemma_mod_pos_bound(n + d - 1, d);
    }
    assert(-n == (-q) * d + (d - 1 - r)) by (nonlinear_arith)
        requires
            n + d - 1 == d * q + r,
    ;
    vstd::arithmetic::div_mod::lemma_fundamental_div_mod_converse(-n, d, -q, d - 1 - r);
}

/// Floor division of `n` by a non-zero `d`.
pub fn div_floor(n: i128, d: i128) -> (r: i128)
    requires
        d != 0,
        -0x4000_0000_0000_0000_0000_0000_0000_0000 < n < 0x4000_0000_0000_0000_0000_0000_0000_0000,
        -0x4000_0000_0000_0000_0000_0000_0000_0000 < d < 0x4000_0000_0000_0000_0000_0000_0000_0000,
    ensures
        r == floor_div(n as int, d as int),
{
    let (num, den): (i128, i128) = if d > 0 {
        (n, d)
    } else {
        (-n, -d)
    };
    if num >= 0 {
        let q: u128 = (num as u128) / (den as u128);
        q as i128
    } else {
        let q: u128 = ((-num) as u128 + den as u128 - 1) / (den as u128);
        proof {
            lemma_neg_div(-num as int, den as int, q as int);
        }
        -(q as i128)
    }
}

/// A product of bounded factors is bounded.
pub proof fn lemma_mul_bound(a: int, b: int, ma: int, mb: int)
    requires
        -ma <= a <= ma,
        -mb <= b <= mb,
    ensures
        -(ma * mb) <= a * b <= ma * mb,
{
    assert(-(ma * mb) <= a * b <= ma * mb) by (nonlinear_arith)
        requires
            -ma <= a <= ma,
            -mb <= b <= mb,
    ;
}

/// Floor division by a positive divisor keeps a bound.
pub proof fn lemma_div_bound(n: int, d: int, m: int)
    requires
        -m <= n <= m,
        d > 0,
    ensures
        (-m) / d <= n / d <= m / d,
{
    vstd::arithmetic::div_mod::lemma_div_is_ordered(n, m, d);
    vstd::arithmetic::div_mod::lemma_div_is_ordered(-m, n, d);
}

/// Dividing by a non-zero integer does not grow a magnitude.
pub proof fn lemma_floor_div_bound(n: int, d: int, m: int)
    requires
        -m <= n <= m,
        d != 0,
        m >= 0,
    ensures
        -m <= floor_div(n, d) <= m,
{
    let dd = if d > 0 { d } else { -d };
    let nn = if d > 0 { n } else { -n };
    vstd::arithmetic::div_mod::lemma_div_is_ordered(nn, m, dd);
    vstd::arithmetic::div_mod::lemma_div_is_ordered(-m, nn, dd);
    vstd::arithmetic::div_mod::lemma_div_is_ordered_by_denominator(m, 1, dd);
    assert((-m) / dd >= -m) by {
        vstd::arithmetic::div_mod::lemma_fundamental_div_mod(-m, dd);
        vstd::arithmetic::div_mod::lemma_mod_bound(-m, dd);
        assert((-m) / dd >= -m) by (nonlinear_arith)
            requires
                -m == dd * ((-m) / dd) + (-m) % dd,
                0 <= (-m) % dd < dd,
                dd >= 1,
                m >= 0,
        ;
    }
}

/// `r` is the integer square root of `n`.
pub open spec fn is_isqrt(n: int, r: int) -> bool {
    0 <= r && r * r <= n < (r + 1) * (r + 1)
}

/// The square root of `n`, rounded down.
pub open spec fn sqrt_floor(n: int) -> int {
    choose|r: int| is_isqrt(n, r)
}

proof fn lemma_isqrt_unique(n: int, r1: int, r2: int)
    requires
        is_isqrt(n, r1),
        is_isqrt(n, r2),
    ensures
        r1 == r2,
{
    if r1 < r2 {
        assert((r1 + 1) * (r1 + 1) <= r2 * r2) by (nonlinear_arith)
            requires
                0 <= r1 < r2,
        ;
    } else if r2 < r1 {
        assert((r2 + 1) * (r2 + 1) <= r1 * r1) by (nonlinear_arith)
            requires
                0 <= r2 < r1,
        ;
    }
}

/// Integer square root (rounded down) of `n`.
pub fn isqrt(n: u128) -> (r: u128)
    requires
        n < 0x4000_0000_0000_0000_0000_0000_0000_0000,
    ensures
        is_isqrt(n as int, r as int),
        r as int == sqrt_floor(n as int),
{
    let mut lo: u128 = 0;
    let mut hi: u128 = 0x8000_0000_0000_0000;
    assert(hi * hi > n) by (nonlinear_arith)
        requires
            hi == 0x8000_0000_0000_0000u128,
            n < 0x4000_0000_0000_0000_0000_0000_0000_0000,
    ;
    while hi - lo > 1
        invariant
            lo < hi <= 0x8000_0000_0000_0000,
            lo * lo <= n,
            n < hi * hi,
        decreases hi - lo,
    {
        let mid: u128 = lo + (hi - lo) / 2;
        assert(mid * mid <= 0x4000_0000_0000_0000_0000_0000_0000_0000) by (nonlinear_arith)
            requires
                mid <= 0x8000_0000_0000_0000u128,
        ;
        if mid * mid <= n {
            lo = mid;
        } else {
            hi = mid;
        }
    }
    assert(hi == lo + 1);
    proof {
        assert(is_isqrt(n as int, lo as int));
        lemma_isqrt_unique(n as int, lo as int, sqrt_floor(n as int));
    }
    lo
}

} // verus!
