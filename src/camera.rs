//! The camera: a viewport in front of the eye, and the primary rays through it.
use vstd::prelude::*;
use crate::fixed::{floor_div, DIR_MAX, SCALE, WORLD};
use crate::ray::Ray;
use crate::vec3::{bounded, minus, unit, unit_vector, Point3, Vec3};

verus! {

/// Largest viewport width or height (fixed-point): `256.0`.
pub const VIEW_MAX: i64 = 16777216;

/// Cross product in raw units (its scale is `SCALE * SCALE`).
pub open spec fn cross_raw(a: Vec3, b: Vec3) -> Vec3 {
    Vec3 {
        x: (a.y * b.z - a.z * b.y) as i64,
        y: (a.z * b.x - a.x * b.z) as i64,
        z: (a.x * b.y - a.y * b.x) as i64,
    }
}

/// `v` times the fixed-point number `k`, rounded down componentwise.
pub open spec fn scaled(v: Vec3, k: int) -> Vec3 {
    Vec3 {
        x: floor_div(v.x * k, SCALE as int) as i64,
        y: floor_div(v.y * k, SCALE as int) as i64,
        z: floor_div(v.z * k, SCALE as int) as i64,
    }
}

/// The lower-left corner: `eye - horizontal / 2 - vertical / 2 - w`.
pub open spec fn corner(eye: Point3, h: Vec3, v: Vec3, w: Vec3) -> Point3 {
    Vec3 {
        x: (eye.x - floor_div(h.x as int, 2) - floor_div(v.x as int, 2) - w.x) as i64,
        y: (eye.y - floor_div(h.y as int, 2) - floor_div(v.y as int, 2) - w.y) as i64,
        z: (eye.z - floor_div(h.z as int, 2) - floor_div(v.z as int, 2) - w.z) as i64,
    }
}

/// A camera with its orthonormal basis and viewport, fixed at construction.
#[derive(Clone, Copy, Debug, PartialEq, Eq, Structural)]
pub struct Camera {
    pub origin: Point3,
    pub lower_left_corner: Point3,
    pub horizontal: Vec3,
    pub vertical: Vec3,
    pub u: Vec3,
    pub v: Vec3,
    pub w: Vec3,
}

impl Camera {
    pub open spec fn wf(&self) -> bool {
        &&& bounded(self.origin, WORLD as int)
        &&& bounded(self.horizontal, 2 * VIEW_MAX)
        &&& bounded(self.vertical, 3 * VIEW_MAX)
        &&& -3 * VIEW_MAX <= self.lower_left_corner.x - self.origin.x <= 3 * VIEW_MAX
        &&& -3 * VIEW_MAX <= self.lower_left_corner.y - self.origin.y <= 3 * VIEW_MAX
        &&& -3 * VIEW_MAX <= self.lower_left_corner.z - self.origin.z <= 3 * VIEW_MAX
    }

    /// Direction of the ray through the viewport point `(s, t)`:
    /// `lower_left_corner + s * horizontal + t * vertical - origin`.
    pub open spec fn ray_dir(&self, s: int, t: int) -> Vec3 {
        let h = scaled(self.horizontal, s);
        let v = scaled(self.vertical, t);
        Vec3 {
            x: (self.lower_left_corner.x + h.x + v.x - self.origin.x) as i64,
            y: (self.lower_left_corner.y + h.y + v.y - self.origin.y) as i64,
            z: (self.lower_left_corner.z + h.z + v.z - self.origin.z) as i64,
        }
    }

    /// Builds the camera at `lookfrom` looking at `lookat`. The viewport is
    /// `viewport_height` high (`2 tan(vfov / 2)` for a vertical field of view
    /// `vfov`) and `aspect_ratio` times as wide; both are fixed-point.
    pub fn new(lookfrom: Point3, lookat: Point3, vup: Vec3, viewport_height: i64, aspect_ratio: i64) -> (r: Camera)
        requires
            bounded(lookfrom, WORLD as int),
            bounded(lookat, WORLD as int),
            bounded(vup, SCALE as int),
            0 <= viewport_height <= VIEW_MAX,
            0 <= aspect_ratio,
            aspect_ratio * viewport_height <= VIEW_MAX * SCALE,
        ensures
            r.wf(),
            r.origin == lookfrom,
            r.w == unit(minus(lookfrom, lookat)),
            r.u == unit(cross_raw(vup, r.w)),
            r.v == scaled(cross_raw(r.w, r.u), 1),
            r.horizontal == scaled(r.u, floor_div(aspect_ratio * viewport_height, SCALE as int)),
            r.vertical == scaled(r.v, viewport_height as int),
            r.lower_left_corner == corner(lookfrom, r.horizontal, r.vertical, r.w),
    {
        let w = unit_vector(Vec3 { x: lookfrom.x - lookat.x, y: lookfrom.y - lookat.y, z: lookfrom.z - lookat.z });
        assert(minus(lookfrom, lookat) == (Vec3 { x: (lookfrom.x - lookat.x) as i64, y: (lookfrom.y - lookat.y) as i64, z: (lookfrom.z - lookat.z) as i64 }));
        let u = unit_vector(cross_exec(vup, w));
        let v = scale_exec(cross_exec(w, u), 1, 2 * SCALE * SCALE);
        assert((2 * SCALE * SCALE) / (SCALE as int) == 2 * SCALE);
        let width: i64 = (aspect_ratio as i128 * viewport_height as i128 / SCALE as i128) as i64;
        assert(width <= VIEW_MAX) by {
            vstd::arithmetic::div_mod::lemma_div_is_ordered(aspect_ratio * viewport_height, VIEW_MAX * SCALE, SCALE as int);
        }
        let horizontal = scale_exec(u, width, SCALE);
        let vertical = scale_exec(v, viewport_height, 2 * SCALE + 1);
        proof {
            vstd::arithmetic::div_mod::lemma_div_is_ordered(SCALE * width, SCALE * VIEW_MAX, SCALE as int);
            vstd::arithmetic::div_mod::lemma_div_is_ordered((2 * SCALE + 1) * viewport_height, (2 * SCALE + 1) * VIEW_MAX, SCALE as int);
            assert(SCALE * width <= SCALE * VIEW_MAX) by (nonlinear_arith)
                requires
                    0 <= width <= VIEW_MAX,
            ;
            assert((2 * SCALE + 1) * viewport_height <= (2 * SCALE + 1) * VIEW_MAX) by (nonlinear_arith)
                requires
                    0 <= viewport_height <= VIEW_MAX,
            ;
        }
        let llc = Vec3 {
            x: lookfrom.x - half(horizontal.x) - half(vertical.x) - w.x,
            y: lookfrom.y - half(horizontal.y) - half(vertical.y) - w.y,
            z: lookfrom.z - half(horizontal.z) - half(vertical.z) - w.z,
        };
        Camera { origin: lookfrom, lower_left_corner: llc, horizontal, vertical, u, v, w }
    }

    /// The primary ray through the viewport point `(s, t)`, for `s` and `t`
    /// fixed-point in `[0, 1]`.
    pub fn get_ray(&self, s: i64, t: i64) -> (r: Ray)
        requires
            self.wf(),
            0 <= s <= SCALE,
            0 <= t <= SCALE,
        ensures
            r.orig == self.origin,
            r.dir == self.ray_dir(s as int, t as int),
            bounded(r.dir, DIR_MAX as int),
    {
        let h = scale_exec(self.horizontal, s, 2 * VIEW_MAX);
        let v = scale_exec(self.vertical, t, 3 * VIEW_MAX);
        proof {
            vstd::arithmetic::div_mod::lemma_div_is_ordered(2 * VIEW_MAX * s, 2 * VIEW_MAX * SCALE, SCALE as int);
            vstd::arithmetic::div_mod::lemma_div_is_ordered(3 * VIEW_MAX * t, 3 * VIEW_MAX * SCALE, SCALE as int);
            assert(2 * VIEW_MAX * s <= 2 * VIEW_MAX * SCALE) by (nonlinear_arith)
                requires
                    0 <= s <= SCALE,
            ;
            assert(3 * VIEW_MAX * t <= 3 * VIEW_MAX * SCALE) by (nonlinear_arith)
                requires
                    0 <= t <= SCALE,
            ;
        }
        let llc = self.lower_left_corner;
        let o = self.origin;
        Ray {
            orig: o,
            dir: Vec3 {
                x: llc.x - o.x + h.x + v.x,
                y: llc.y - o.y + h.y + v.y,
                z: llc.z - o.z + h.z + v.z,
            },
        }
    }
}

fn half(a: i64) -> (r: i64)
    ensures
        r == floor_div(a as int, 2),
{
    crate::fixed::div_floor(a as i128, 2) as i64
}

fn cross_exec(a: Vec3, b: Vec3) -> (r: Vec3)
    requires
        bounded(a, SCALE as int),
        bounded(b, SCALE as int),
    ensures
        r == cross_raw(a, b),
        bounded(r, 2 * SCALE * SCALE),
{
    proof {
        let s = SCALE as int;
        crate::fixed::lemma_mul_bound(a.y as int, b.z as int, s, s);
        crate::fixed::lemma_mul_bound(a.z as int, b.y as int, s, s);
        crate::fixed::lemma_mul_bound(a.z as int, b.x as int, s, s);
        crate::fixed::lemma_mul_bound(a.x as int, b.z as int, s, s);
        crate::fixed::lemma_mul_bound(a.x as int, b.y as int, s, s);
        crate::fixed::lemma_mul_bound(a.y as int, b.x as int, s, s);
    }
    Vec3 {
        x: a.y * b.z - a.z * b.y,
        y: a.z * b.x - a.x * b.z,
        z: a.x * b.y - a.y * b.x,
    }
}

/// `scaled(v, k)` for `|v| <= m` and `0 <= k`, where `m * k` stays small.
fn scale_exec(v: Vec3, k: i64, m: i64) -> (r: Vec3)
    requires
        bounded(v, m as int),
        0 <= k,
        0 <= m,
        m * k <= 2 * VIEW_MAX * SCALE + 2 * SCALE * SCALE * SCALE,
    ensures
        r == scaled(v, k as int),
        bounded(r, (m * k) / (SCALE as int) + 1),
{
    Vec3 { x: scale_one(v.x, k, m), y: scale_one(v.y, k, m), z: scale_one(v.z, k, m) }
}

fn scale_one(c: i64, k: i64, m: i64) -> (r: i64)
    requires
        -m <= c <= m,
        0 <= k,
        0 <= m,
        m * k <= 2 * VIEW_MAX * SCALE + 2 * SCALE * SCALE * SCALE,
    ensures
        r == floor_div(c * k, SCALE as int),
        -((m * k) / (SCALE as int)) - 1 <= r <= (m * k) / (SCALE as int),
{
    assert(-(m * k) <= c * k <= m * k) by (nonlinear_arith)
        requires
            -m <= c <= m,
            0 <= k,
    ;
    let r = crate::fixed::div_floor(c as i128 * k as i128, SCALE as i128);
    proof {
        crate::fixed::lemma_div_bound(c * k, SCALE as int, m * k);
        let q = (m * k) / (SCALE as int);
        vstd::arithmetic::div_mod::lemma_fundamental_div_mod(m * k, SCALE as int);
        vstd::arithmetic::div_mod::lemma_mod_bound(m * k, SCALE as int);
        vstd::arithmetic::div_mod::lemma_div_is_ordered(-(q + 1) * SCALE, -(m * k), SCALE as int);
        vstd::arithmetic::div_mod::lemma_fundamental_div_mod_converse(-(q + 1) * SCALE, SCALE as int, -(q + 1), 0);
    }
    r as i64
}

} // verus!
