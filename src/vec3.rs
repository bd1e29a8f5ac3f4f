//! Three-component vectors of fixed-point numbers.
use vstd::prelude::*;
use crate::fixed::{floor_div, sqrt_floor, SCALE};

verus! {

/// A point, vector or color; each component is fixed-point (`SCALE` is one).
#[derive(Clone, Copy, Debug, PartialEq, Eq, Structural)]
pub struct Vec3 {
    pub x: i64,
    pub y: i64,
    pub z: i64,
}

/// A point in space.
pub type Point3 = Vec3;

/// A color; `SCALE` is full intensity on a channel.
pub type Color = Vec3;

impl Vec3 {
    pub fn new(x: i64, y: i64, z: i64) -> (r: Vec3)
        ensures
            r == (Vec3 { x, y, z }),
    {
        Vec3 { x, y, z }
    }

    pub fn x(&self) -> (r: i64)
        ensures
            r == self.x,
    {
        self.x
    }

    pub fn y(&self) -> (r: i64)
        ensures
            r == self.y,
    {
        self.y
    }

    pub fn z(&self) -> (r: i64)
        ensures
            r == self.z,
    {
        self.z
    }
}

/// Every component of `v` has magnitude at most `m`.
pub open spec fn bounded(v: Vec3, m: int) -> bool {
    -m <= v.x <= m && -m <= v.y <= m && -m <= v.z <= m
}

/// Every channel of the color lies in `[0, 1]`.
pub open spec fn unit_color(c: Color) -> bool {
    0 <= c.x <= SCALE && 0 <= c.y <= SCALE && 0 <= c.z <= SCALE
}

/// Tests `bounded(p, WORLD)`.
pub fn valid_point(p: Vec3) -> (r: bool)
    ensures
        r == bounded(p, crate::fixed::WORLD as int),
{
    let m = crate::fixed::WORLD;
    -m <= p.x && p.x <= m && -m <= p.y && p.y <= m && -m <= p.z && p.z <= m
}

/// Tests `unit_color(c)`.
pub fn valid_color(c: Color) -> (r: bool)
    ensures
        r == unit_color(c),
{
    0 <= c.x && c.x <= SCALE && 0 <= c.y && c.y <= SCALE && 0 <= c.z && c.z <= SCALE
}

/// Exact dot product of the raw components.
pub open spec fn dot(a: Vec3, b: Vec3) -> int {
    a.x * b.x + a.y * b.y + a.z * b.z
}

/// The vector with every component negated.
pub open spec fn neg(v: Vec3) -> Vec3 {
    Vec3 { x: -v.x as i64, y: -v.y as i64, z: -v.z as i64 }
}

/// Componentwise difference.
pub open spec fn minus(a: Vec3, b: Vec3) -> Vec3 {
    Vec3 { x: (a.x - b.x) as i64, y: (a.y - b.y) as i64, z: (a.z - b.z) as i64 }
}

/// Squared length of a vector in raw units.
pub open spec fn len_sq(v: Vec3) -> int {
    dot(v, v)
}

/// The unit vector along `v` (the zero vector for `v == 0`).
pub open spec fn unit(v: Vec3) -> Vec3 {
    let l = sqrt_floor(len_sq(v));
    if l == 0 {
        Vec3 { x: 0, y: 0, z: 0 }
    } else {
        Vec3 {
            x: floor_div(v.x * SCALE, l) as i64,
            y: floor_div(v.y * SCALE, l) as i64,
            z: floor_div(v.z * SCALE, l) as i64,
        }
    }
}

/// Bound on the vectors that `unit_vector` takes: `2^33`.
pub const NORM_MAX: i64 = 8589934592;

proof fn lemma_scaled_component(c: int, l: int)
    requires
        c * c < (l + 1) * (l + 1),
        l >= 1,
    ensures
        -SCALE <= floor_div(c * SCALE, l) <= SCALE,
{
    assert(-l <= c <= l) by (nonlinear_arith)
        requires
            c * c < (l + 1) * (l + 1),
            l >= 1,
    ;
    assert(-(l * SCALE) <= c * SCALE <= l * SCALE) by (nonlinear_arith)
        requires
            -l <= c <= l,
    ;
    crate::fixed::lemma_div_bound(c * SCALE, l, l * SCALE);
    vstd::arithmetic::div_mod::lemma_fundamental_div_mod_converse(l * SCALE, l, SCALE as int, 0);
    vstd::arithmetic::div_mod::lemma_fundamental_div_mod_converse(-(l * SCALE), l, -SCALE, 0);
}

fn scaled_component(c: i64, l: i128) -> (r: i64)
    requires
        -NORM_MAX <= c <= NORM_MAX,
        1 <= l < 0x1_0000_0000_0000_0000,
        c * c < (l + 1) * (l + 1),
    ensures
        r == floor_div(c * SCALE, l as int),
        -SCALE <= r <= SCALE,
{
    proof {
        lemma_scaled_component(c as int, l as int);
        crate::fixed::lemma_mul_bound(c as int, SCALE as int, NORM_MAX as int, SCALE as int);
    }
    crate::fixed::div_floor(c as i128 * SCALE as i128, l) as i64
}

/// Scales `v` to unit length (length `SCALE`); the zero vector stays zero.
pub fn unit_vector(v: Vec3) -> (r: Vec3)
    requires
        bounded(v, NORM_MAX as int),
    ensures
        r == unit(v),
        bounded(r, SCALE as int),
{
    proof {
        crate::fixed::lemma_mul_bound(v.x as int, v.x as int, NORM_MAX as int, NORM_MAX as int);
        crate::fixed::lemma_mul_bound(v.y as int, v.y as int, NORM_MAX as int, NORM_MAX as int);
        crate::fixed::lemma_mul_bound(v.z as int, v.z as int, NORM_MAX as int, NORM_MAX as int);
    }
    let sq: i128 = v.x as i128 * v.x as i128 + v.y as i128 * v.y as i128 + v.z as i128 * v.z as i128;
    assert(sq >= 0) by (nonlinear_arith)
        requires
            sq == v.x * v.x + v.y * v.y + v.z * v.z,
    ;
    let l: u128 = crate::fixed::isqrt(sq as u128);
    if l == 0 {
        return Vec3 { x: 0, y: 0, z: 0 };
    }
    assert(l < 0x1_0000_0000_0000_0000) by (nonlinear_arith)
        requires
            l * l <= sq,
            sq <= 3 * (NORM_MAX * NORM_MAX),
    ;
    let li: i128 = l as i128;
    assert(v.x * v.x < (li + 1) * (li + 1) && v.y * v.y < (li + 1) * (li + 1) && v.z * v.z < (li
        + 1) * (li + 1)) by (nonlinear_arith)
        requires
            sq == v.x * v.x + v.y * v.y + v.z * v.z,
            sq < (li + 1) * (li + 1),
    ;
    Vec3 { x: scaled_component(v.x, li), y: scaled_component(v.y, li), z: scaled_component(v.z, li) }
}

} // verus!
