//! Axis-aligned boxes, intersected by the slab method.
use vstd::prelude::*;
use crate::fixed::{floor_div, DIR_MAX, SCALE, T_INF, WORLD};
use crate::hittable::{in_world, in_world_exec, make_record, record_at, valid_hit, HitRecord};
use crate::ray::Ray;
use crate::vec3::{valid_color, valid_point, bounded, unit_color, Color, Point3, Vec3};

verus! {

/// How close (in raw fixed-point units, about `1e-4`) a hit point must be to a
/// face's plane for that face to be reported.
pub const FACE_TOL: i64 = 7;

/// The box `[min.x, max.x] x [min.y, max.y] x [min.z, max.z]`.
#[derive(Clone, Copy, Debug, PartialEq, Eq, Structural)]
pub struct Cube {
    pub min: Point3,
    pub max: Point3,
    pub color: Color,
}

/// The interval `(lo, hi)` narrowed by one axis's slab `[mn, mx]`, and whether
/// it is still non-empty.
pub open spec fn slab(lo: int, hi: int, o: int, d: int, mn: int, mx: int) -> (int, int, bool) {
    if d == 0 {
        (lo, hi, mn <= o <= mx && lo < hi)
    } else {
        let t0 = floor_div((mn - o) * SCALE, d);
        let t1 = floor_div((mx - o) * SCALE, d);
        let near = if d < 0 { t1 } else { t0 };
        let far = if d < 0 { t0 } else { t1 };
        let nlo = if near > lo { near } else { lo };
        let nhi = if far < hi { far } else { hi };
        (nlo, nhi, nlo < nhi)
    }
}

/// `|a - b|` is within the face tolerance.
pub open spec fn near(a: int, b: int) -> bool {
    -FACE_TOL < a - b < FACE_TOL
}

impl Cube {
    /// The corners lie in the world, `min < max` on every axis, and the
    /// color is in range.
    pub open spec fn wf(&self) -> bool {
        &&& bounded(self.min, WORLD as int)
        &&& bounded(self.max, WORLD as int)
        &&& self.min.x < self.max.x
        &&& self.min.y < self.max.y
        &&& self.min.z < self.max.z
        &&& unit_color(self.color)
    }

    /// The interval of parameters inside all three slabs, and whether it is
    /// non-empty at every step.
    pub open spec fn interval(&self, ray: Ray, t_min: int, t_max: int) -> (int, int, bool) {
        let (l1, h1, a1) = slab(t_min, t_max, ray.orig.x as int, ray.dir.x as int, self.min.x as int, self.max.x as int);
        let (l2, h2, a2) = slab(l1, h1, ray.orig.y as int, ray.dir.y as int, self.min.y as int, self.max.y as int);
        let (l3, h3, a3) = slab(l2, h2, ray.orig.z as int, ray.dir.z as int, self.min.z as int, self.max.z as int);
        (l3, h3, a1 && a2 && a3)
    }

    /// Outward normal of the face that `p` lies on; faces are tried in the
    /// order -x, +x, -y, +y, -z, and +z is what remains.
    pub open spec fn face_normal(&self, p: (int, int, int)) -> Vec3 {
        if near(p.0, self.min.x as int) {
            Vec3 { x: -65536i64, y: 0, z: 0 }
        } else if near(p.0, self.max.x as int) {
            Vec3 { x: SCALE, y: 0, z: 0 }
        } else if near(p.1, self.min.y as int) {
            Vec3 { x: 0, y: -65536i64, z: 0 }
        } else if near(p.1, self.max.y as int) {
            Vec3 { x: 0, y: SCALE, z: 0 }
        } else if near(p.2, self.min.z as int) {
            Vec3 { x: 0, y: 0, z: -65536i64 }
        } else {
            Vec3 { x: 0, y: 0, z: SCALE }
        }
    }

    /// The ray enters the box within `[t_min, t_max]`, at a point of the world.
    pub open spec fn hits(&self, ray: Ray, t_min: int, t_max: int) -> bool {
        let (t, _, ok) = self.interval(ray, t_min, t_max);
        ok && in_world(ray.at_spec(t))
    }

    pub open spec fn hit_spec(&self, ray: Ray, t_min: int, t_max: int) -> Option<HitRecord> {
        let t = self.interval(ray, t_min, t_max).0;
        if self.hits(ray, t_min, t_max) {
            Some(record_at(ray, t, self.face_normal(ray.at_spec(t)), self.color))
        } else {
            None
        }
    }

    /// Tests `wf`.
    pub fn is_valid(&self) -> (r: bool)
        ensures
            r == self.wf(),
    {
        valid_point(self.min) && valid_point(self.max) && self.min.x < self.max.x && self.min.y < self.max.y
            && self.min.z < self.max.z && valid_color(self.color)
    }

    pub fn new(min: Point3, max: Point3, color: Color) -> (r: Cube)
        ensures
            r == (Cube { min, max, color }),
    {
        Cube { min, max, color }
    }

    /// A malformed box is never hit.
    pub fn hit(&self, ray: &Ray, t_min: i64, t_max: i64) -> (r: Option<HitRecord>)
        requires
            ray.wf(),
            -T_INF <= t_min,
            t_max <= T_INF,
        ensures
            self.wf() ==> r == self.hit_spec(*ray, t_min as int, t_max as int),
            !self.wf() ==> r is None,
            r matches Some(rec) ==> valid_hit(rec, *ray, t_min as int, t_max as int),
    {
        if !self.is_valid() {
            return None;
        }
        let (l1, h1, a1) = narrow_slab(t_min, t_max, ray.orig.x, ray.dir.x, self.min.x, self.max.x);
        if !a1 {
            return None;
        }
        let (l2, h2, a2) = narrow_slab(l1, h1, ray.orig.y, ray.dir.y, self.min.y, self.max.y);
        if !a2 {
            return None;
        }
        let (t, h3, a3) = narrow_slab(l2, h2, ray.orig.z, ray.dir.z, self.min.z, self.max.z);
        if !a3 {
            return None;
        }
        let p = ray.at(t);
        if !in_world_exec(p) {
            return None;
        }
        let outward = if is_near(p.x, self.min.x) {
            Vec3 { x: -SCALE, y: 0, z: 0 }
        } else if is_near(p.x, self.max.x) {
            Vec3 { x: SCALE, y: 0, z: 0 }
        } else if is_near(p.y, self.min.y) {
            Vec3 { x: 0, y: -SCALE, z: 0 }
        } else if is_near(p.y, self.max.y) {
            Vec3 { x: 0, y: SCALE, z: 0 }
        } else if is_near(p.z, self.min.z) {
            Vec3 { x: 0, y: 0, z: -SCALE }
        } else {
            Vec3 { x: 0, y: 0, z: SCALE }
        };
        Some(make_record(ray, t, p, outward, self.color))
    }
}

fn is_near(a: i64, b: i64) -> (r: bool)
    requires
        -WORLD <= a <= WORLD,
        -WORLD <= b <= WORLD,
    ensures
        r == near(a as int, b as int),
{
    -FACE_TOL < a - b && a - b < FACE_TOL
}

/// One step of the slab method on a single axis.
fn narrow_slab(lo: i64, hi: i64, o: i64, d: i64, mn: i64, mx: i64) -> (r: (i64, i64, bool))
    requires
        -T_INF <= lo,
        hi <= T_INF,
        -WORLD <= o <= WORLD,
        -DIR_MAX <= d <= DIR_MAX,
        -WORLD <= mn <= WORLD,
        -WORLD <= mx <= WORLD,
    ensures
        (r.0 as int, r.1 as int, r.2) == slab(lo as int, hi as int, o as int, d as int, mn as int, mx as int),
        r.2 ==> -T_INF <= r.0 < r.1 <= T_INF,
        -T_INF <= r.0,
        r.1 <= T_INF,
{
    if d == 0 {
        return (lo, hi, mn <= o && o <= mx && lo < hi);
    }
    proof {
        crate::fixed::lemma_mul_bound(mn - o, SCALE as int, 2 * WORLD, SCALE as int);
        crate::fixed::lemma_mul_bound(mx - o, SCALE as int, 2 * WORLD, SCALE as int);
    }
    let n0: i128 = (mn as i128 - o as i128) * SCALE as i128;
    let n1: i128 = (mx as i128 - o as i128) * SCALE as i128;
    let t0: i128 = crate::fixed::div_floor(n0, d as i128);
    let t1: i128 = crate::fixed::div_floor(n1, d as i128);
    proof {
        crate::fixed::lemma_floor_div_bound(n0 as int, d as int, 2 * WORLD * SCALE);
        crate::fixed::lemma_floor_div_bound(n1 as int, d as int, 2 * WORLD * SCALE);
    }
    let near: i128 = if d < 0 { t1 } else { t0 };
    let far: i128 = if d < 0 { t0 } else { t1 };
    let nlo: i64 = if near > lo as i128 { near as i64 } else { lo };
    let nhi: i64 = if far < hi as i128 { far as i64 } else { hi };
    (nlo, nhi, nlo < nhi)
}

} // verus!
