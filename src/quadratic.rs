//! Choosing the root of a ray's quadratic that a hit reports.
use vstd::prelude::*;
use crate::fixed::{floor_div, sqrt_floor, SCALE, T_INF};

verus! {

/// Bound on the leading coefficient `a` that `nearest_root` takes.
pub const QA_MAX: i128 = 216172782113783808;

/// Bound on the coefficient `b` that `nearest_root` takes.
pub const QB_MAX: i128 = 3458764513820540928;

/// Bound on the coefficient `c` that `nearest_root` takes.
pub const QC_MAX: i128 = 14987979559889059840;

/// The smaller root (`sign == -1`) or the larger one (`sign == 1`) of
/// `a t^2 + b t + c = 0`, as a fixed-point parameter.
pub open spec fn root(a: int, b: int, c: int, sign: int) -> int {
    floor_div((-b + sign * sqrt_floor(b * b - 4 * (a * c))) * SCALE, 2 * a)
}

/// The root that a hit reports: the near root when it lies in
/// `[t_min, t_max]`, else the far root when that does; none when the
/// discriminant is negative or neither root lies in the interval.
pub open spec fn nearest_root_spec(a: int, b: int, c: int, t_min: int, t_max: int) -> Option<int> {
    let t1 = root(a, b, c, -1);
    let t = if t_min <= t1 <= t_max { t1 } else { root(a, b, c, 1) };
    if b * b - 4 * (a * c) < 0 {
        None
    } else if t_min <= t <= t_max {
        Some(t)
    } else {
        None
    }
}

pub fn nearest_root(a: i128, b: i128, c: i128, t_min: i64, t_max: i64) -> (r: Option<i64>)
    requires
        1 <= a <= QA_MAX,
        -QB_MAX <= b <= QB_MAX,
        -QC_MAX <= c <= QC_MAX,
        -T_INF <= t_min,
        t_max <= T_INF,
    ensures
        r matches Some(t) ==> Some(t as int) == nearest_root_spec(a as int, b as int, c as int, t_min as int, t_max as int),
        r is None ==> nearest_root_spec(a as int, b as int, c as int, t_min as int, t_max as int) is None,
        r matches Some(t) ==> t_min <= t <= t_max,
{
    proof {
        crate::fixed::lemma_mul_bound(b as int, b as int, QB_MAX as int, QB_MAX as int);
        crate::fixed::lemma_mul_bound(a as int, c as int, QA_MAX as int, QC_MAX as int);
    }
    let disc: i128 = b * b - 4 * (a * c);
    if disc < 0 {
        return None;
    }
    let sq: u128 = crate::fixed::isqrt(disc as u128);
    assert(sq < 0x1_0000_0000_0000_0000) by (nonlinear_arith)
        requires
            sq * sq <= disc,
            disc <= QB_MAX * QB_MAX + 4 * (QA_MAX * QC_MAX),
    ;
    let sqi: i128 = sq as i128;
    proof {
        let mr = QB_MAX + 0x1_0000_0000_0000_0000;
        crate::fixed::lemma_mul_bound(-b - sqi, SCALE as int, mr, SCALE as int);
        crate::fixed::lemma_mul_bound(-b + sqi, SCALE as int, mr, SCALE as int);
    }
    let t1: i128 = crate::fixed::div_floor((-b - sqi) * SCALE as i128, 2 * a);
    let t: i128 = if t1 >= t_min as i128 && t1 <= t_max as i128 {
        t1
    } else {
        crate::fixed::div_floor((-b + sqi) * SCALE as i128, 2 * a)
    };
    if t < t_min as i128 || t > t_max as i128 {
        return None;
    }
    Some(t as i64)
}

} // verus!
