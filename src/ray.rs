//! Rays: an origin and a direction.
use vstd::prelude::*;
use crate::fixed::{floor_div, DIR_MAX, SCALE, T_INF, WORLD};
use crate::vec3::{bounded, dot, Point3, Vec3};

verus! {

#[derive(Clone, Copy, Debug, PartialEq, Eq, Structural)]
pub struct Ray {
    pub orig: Point3,
    pub dir: Vec3,
}

/// One coordinate of `o + t * d`, rounded down to the fixed-point grid.
pub open spec fn at_coord(o: int, d: int, t: int) -> int {
    o + floor_div(t * d, SCALE as int)
}

impl Ray {
    /// The ray starts inside the world and has a non-zero, bounded direction.
    pub open spec fn wf(&self) -> bool {
        bounded(self.orig, WORLD as int) && bounded(self.dir, DIR_MAX as int) && dot(self.dir, self.dir) > 0
    }

    /// The point at parameter `t`.
    pub open spec fn at_spec(&self, t: int) -> (int, int, int) {
        (at_coord(self.orig.x as int, self.dir.x as int, t),
         at_coord(self.orig.y as int, self.dir.y as int, t),
         at_coord(self.orig.z as int, self.dir.z as int, t))
    }

    pub fn new(orig: Point3, dir: Vec3) -> (r: Ray)
        ensures
            r == (Ray { orig, dir }),
    {
        Ray { orig, dir }
    }

    pub fn origin(&self) -> (r: Point3)
        ensures
            r == self.orig,
    {
        self.orig
    }

    pub fn direction(&self) -> (r: Vec3)
        ensures
            r == self.dir,
    {
        self.dir
    }

    /// `origin + t * direction`.
    pub fn at(&self, t: i64) -> (r: Point3)
        requires
            self.wf(),
            -T_INF <= t <= T_INF,
        ensures
            (r.x as int, r.y as int, r.z as int) == self.at_spec(t as int),
    {
        (Vec3 {
            x: at_one(self.orig.x, self.dir.x, t),
            y: at_one(self.orig.y, self.dir.y, t),
            z: at_one(self.orig.z, self.dir.z, t),
        })
    }
}

/// Rounding bound for crossing a coordinate plane: a ray that reaches the
/// offset `n` along one axis at the parameter `floor_div(n * SCALE, d)`
/// lands within `DIR_MAX / SCALE` raw units of `n` on that axis.
pub proof fn lemma_crossing(d: int, n: int)
    requires
        d != 0,
        -DIR_MAX <= d <= DIR_MAX,
    ensures
        n - 4096 <= floor_div(floor_div(n * SCALE, d) * d, SCALE as int) <= n + 4096,
{
    let s = SCALE as int;
    let t = floor_div(n * s, d);
    vstd::arithmetic::div_mod::lemma_fundamental_div_mod_converse((n - 4096) * s, s, n - 4096, 0);
    vstd::arithmetic::div_mod::lemma_fundamental_div_mod_converse((n + 4096) * s, s, n + 4096, 0);
    if d > 0 {
        vstd::arithmetic::div_mod::lemma_fundamental_div_mod(n * s, d);
        vstd::arithmetic::div_mod::lemma_mod_bound(n * s, d);
        let r = (n * s) % d;
        assert(t * d == n * s - r) by (nonlinear_arith)
            requires
                n * s == d * t + r,
        ;
        vstd::arithmetic::div_mod::lemma_div_is_ordered((n - 4096) * s, t * d, s);
        vstd::arithmetic::div_mod::lemma_div_is_ordered(t * d, (n + 4096) * s, s);
    } else {
        vstd::arithmetic::div_mod::lemma_fundamental_div_mod(-(n * s), -d);
        vstd::arithmetic::div_mod::lemma_mod_bound(-(n * s), -d);
        let r = (-(n * s)) % (-d);
        assert(-(n * s) == (-n) * s);
        assert(t * d == n * s + r) by (nonlinear_arith)
            requires
                -(n * s) == (-d) * t + r,
        ;
        vstd::arithmetic::div_mod::lemma_div_is_ordered((n - 4096) * s, t * d, s);
        vstd::arithmetic::div_mod::lemma_div_is_ordered(t * d, (n + 4096) * s, s);
    }
}

fn at_one(o: i64, d: i64, t: i64) -> (r: i64)
    requires
        -WORLD <= o <= WORLD,
        -DIR_MAX <= d <= DIR_MAX,
        -T_INF <= t <= T_INF,
    ensures
        r == at_coord(o as int, d as int, t as int),
{
    proof {
        crate::fixed::lemma_mul_bound(t as int, d as int, T_INF as int, DIR_MAX as int);
    }
    let prod: i128 = t as i128 * d as i128;
    let q: i128 = crate::fixed::div_floor(prod, SCALE as i128);
    proof {
        crate::fixed::lemma_div_bound(prod as int, SCALE as int, T_INF * DIR_MAX);
    }
    (o as i128 + q) as i64
}

} // verus!
