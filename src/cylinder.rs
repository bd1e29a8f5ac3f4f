//! Vertical cylinders, capped at both ends.
use vstd::prelude::*;
use crate::fixed::{floor_div, DIR_MAX, SCALE, T_INF, WORLD};
use crate::hittable::{in_world, in_world_exec, make_record, record_at, valid_hit, HitRecord};
use crate::quadratic::{nearest_root, nearest_root_spec};
use crate::ray::Ray;
use crate::vec3::{valid_color, valid_point, bounded, unit_color, unit, unit_vector, Color, Point3, Vec3};

verus! {

/// The cylinder of the given radius around the vertical axis through `base`,
/// from `base.y` up to `base.y + height`, closed by two disks.
#[derive(Clone, Copy, Debug, PartialEq, Eq, Structural)]
pub struct Cylinder {
    pub base: Point3,
    pub height: i64,
    pub radius: i64,
    pub color: Color,
}

/// A candidate hit: its parameter and the surface's outward normal there.
pub type Candidate = (int, Vec3);

impl Cylinder {
    /// The radius and the height are positive, and the whole solid lies in
    /// the world.
    pub open spec fn wf(&self) -> bool {
        &&& bounded(self.base, WORLD as int)
        &&& 0 < self.radius <= WORLD
        &&& -(WORLD - self.radius) <= self.base.x <= WORLD - self.radius
        &&& -(WORLD - self.radius) <= self.base.z <= WORLD - self.radius
        &&& 0 < self.height
        &&& self.base.y + self.height <= WORLD
        &&& unit_color(self.color)
    }

    /// Coefficients of the quadratic for the lateral surface: the components
    /// of the ray across the axis.
    pub open spec fn coeffs(&self, ray: Ray) -> (int, int, int) {
        let ox = ray.orig.x - self.base.x;
        let oz = ray.orig.z - self.base.z;
        let dx = ray.dir.x as int;
        let dz = ray.dir.z as int;
        (dx * dx + dz * dz, 2 * (ox * dx + oz * dz), ox * ox + oz * oz - self.radius * self.radius)
    }

    /// The lateral surface's hit: a root in `[t_min, t_max]` whose point lies
    /// between the two caps.
    pub open spec fn lateral(&self, ray: Ray, t_min: int, t_max: int) -> Option<Candidate> {
        let (a, b, c) = self.coeffs(ray);
        if a == 0 {
            None
        } else {
            match nearest_root_spec(a, b, c, t_min, t_max) {
                Some(t) => {
                    let p = ray.at_spec(t);
                    if 0 <= p.1 - self.base.y <= self.height && in_world(p) {
                        Some((t, Vec3 { x: (p.0 - self.base.x) as i64, y: 0, z: (p.2 - self.base.z) as i64 }))
                    } else {
                        None
                    }
                },
                None => None,
            }
        }
    }

    /// The hit on the disk at height `cy`, within `[t_min, t_max]`.
    pub open spec fn cap(&self, ray: Ray, t_min: int, t_max: int, cy: int, outward: Vec3) -> Option<Candidate> {
        let t = floor_div((cy - ray.orig.y) * SCALE, ray.dir.y as int);
        let p = ray.at_spec(t);
        let ex = p.0 - self.base.x;
        let ey = p.1 - cy;
        let ez = p.2 - self.base.z;
        if ray.dir.y != 0 && t_min <= t <= t_max && in_world(p) && ex * ex + ey * ey + ez * ez
            <= self.radius * self.radius {
            Some((t, outward))
        } else {
            None
        }
    }

    /// Lateral surface first, then the bottom cap, then the top cap; each one
    /// found at a parameter no greater than the one before replaces it.
    pub open spec fn hit_spec(&self, ray: Ray, t_min: int, t_max: int) -> Option<HitRecord> {
        let side = self.lateral(ray, t_min, t_max);
        let c1 = match side { Some(h) => h.0, None => t_max };
        let bottom = self.cap(ray, t_min, c1, self.base.y as int, Vec3 { x: 0, y: -65536i64, z: 0 });
        let c2 = match bottom { Some(h) => h.0, None => c1 };
        let top = self.cap(ray, t_min, c2, self.base.y + self.height, Vec3 { x: 0, y: 65536i64, z: 0 });
        let best = if top is Some { top } else if bottom is Some { bottom } else { side };
        match best {
            Some(h) => Some(record_at(ray, h.0, unit(h.1), self.color)),
            None => None,
        }
    }

    /// Tests `wf`.
    pub fn is_valid(&self) -> (r: bool)
        ensures
            r == self.wf(),
    {
        valid_point(self.base) && 0 < self.radius && self.radius <= WORLD && -(WORLD - self.radius)
            <= self.base.x && self.base.x <= WORLD - self.radius && -(WORLD - self.radius) <= self.base.z
            && self.base.z <= WORLD - self.radius && 0 < self.height
            && self.height <= 2 * WORLD && self.base.y + self.height <= WORLD && valid_color(self.color)
    }

    pub fn new(base: Point3, height: i64, radius: i64, color: Color) -> (r: Cylinder)
        ensures
            r == (Cylinder { base, height, radius, color }),
    {
        Cylinder { base, height, radius, color }
    }

    fn lateral_exec(&self, ray: &Ray, t_min: i64, t_max: i64) -> (r: Option<(i64, Vec3)>)
        requires
            self.wf(),
            ray.wf(),
            -T_INF <= t_min,
            t_max <= T_INF,
        ensures
            match r {
                Some(h) => self.lateral(*ray, t_min as int, t_max as int) == Some((h.0 as int, h.1))
                    && t_min <= h.0 <= t_max && bounded(h.1, 2 * WORLD),
                None => self.lateral(*ray, t_min as int, t_max as int) is None,
            },
    {
        let d = ray.dir;
        let ox: i128 = ray.orig.x as i128 - self.base.x as i128;
        let oz: i128 = ray.orig.z as i128 - self.base.z as i128;
        let ghost m: int = 2147483648;
        proof {
            crate::fixed::lemma_mul_bound(d.x as int, d.x as int, DIR_MAX as int, DIR_MAX as int);
            crate::fixed::lemma_mul_bound(d.z as int, d.z as int, DIR_MAX as int, DIR_MAX as int);
            crate::fixed::lemma_mul_bound(ox as int, d.x as int, m, DIR_MAX as int);
            crate::fixed::lemma_mul_bound(oz as int, d.z as int, m, DIR_MAX as int);
            crate::fixed::lemma_mul_bound(ox as int, ox as int, m, m);
            crate::fixed::lemma_mul_bound(oz as int, oz as int, m, m);
            crate::fixed::lemma_mul_bound(self.radius as int, self.radius as int, WORLD as int, WORLD as int);
        }
        let a: i128 = d.x as i128 * d.x as i128 + d.z as i128 * d.z as i128;
        let b: i128 = 2 * (ox * d.x as i128 + oz * d.z as i128);
        let c: i128 = ox * ox + oz * oz - self.radius as i128 * self.radius as i128;
        assert(a >= 0) by (nonlinear_arith)
            requires
                a == d.x * d.x + d.z * d.z,
        ;
        if a == 0 {
            return None;
        }
        let t = match nearest_root(a, b, c, t_min, t_max) {
            Some(t) => t,
            None => return None,
        };
        let p = ray.at(t);
        if !in_world_exec(p) {
            return None;
        }
        let y: i64 = p.y - self.base.y;
        if y < 0 || y > self.height {
            return None;
        }
        Some((t, Vec3 { x: p.x - self.base.x, y: 0, z: p.z - self.base.z }))
    }

    fn cap_exec(&self, ray: &Ray, t_min: i64, t_max: i64, cy: i64, outward: Vec3) -> (r: Option<(i64, Vec3)>)
        requires
            self.wf(),
            ray.wf(),
            -T_INF <= t_min,
            t_max <= T_INF,
            -WORLD <= cy <= WORLD,
        ensures
            match r {
                Some(h) => self.cap(*ray, t_min as int, t_max as int, cy as int, outward) == Some((h.0 as int, h.1))
                    && t_min <= h.0 <= t_max && h.1 == outward,
                None => self.cap(*ray, t_min as int, t_max as int, cy as int, outward) is None,
            },
    {
        if ray.dir.y == 0 {
            return None;
        }
        proof {
            crate::fixed::lemma_mul_bound(cy - ray.orig.y, SCALE as int, 2 * WORLD, SCALE as int);
        }
        let num: i128 = (cy as i128 - ray.orig.y as i128) * SCALE as i128;
        let t128: i128 = crate::fixed::div_floor(num, ray.dir.y as i128);
        if t128 < t_min as i128 || t128 > t_max as i128 {
            return None;
        }
        let t = t128 as i64;
        let p = ray.at(t);
        if !in_world_exec(p) {
            return None;
        }
        let ex: i128 = p.x as i128 - self.base.x as i128;
        let ey: i128 = p.y as i128 - cy as i128;
        let ez: i128 = p.z as i128 - self.base.z as i128;
        let ghost m: int = 2147483648;
        proof {
            crate::fixed::lemma_mul_bound(ex as int, ex as int, m, m);
            crate::fixed::lemma_mul_bound(ey as int, ey as int, m, m);
            crate::fixed::lemma_mul_bound(ez as int, ez as int, m, m);
            crate::fixed::lemma_mul_bound(self.radius as int, self.radius as int, WORLD as int, WORLD as int);
        }
        if ex * ex + ey * ey + ez * ez <= self.radius as i128 * self.radius as i128 {
            Some((t, outward))
        } else {
            None
        }
    }

    /// A malformed cylinder (radius or height not positive, or not inside the
    /// world) is never hit.
    pub fn hit(&self, ray: &Ray, t_min: i64, t_max: i64) -> (r: Option<HitRecord>)
        requires
            ray.wf(),
            -T_INF <= t_min,
            t_max <= T_INF,
        ensures
            self.wf() ==> r == self.hit_spec(*ray, t_min as int, t_max as int),
            !self.wf() ==> r is None,
            r matches Some(rec) ==> valid_hit(rec, *ray, t_min as int, t_max as int),
    {
        if !self.is_valid() {
            return None;
        }
        let down = Vec3 { x: 0, y: -SCALE, z: 0 };
        let up = Vec3 { x: 0, y: SCALE, z: 0 };
        let side = self.lateral_exec(ray, t_min, t_max);
        let c1: i64 = match side {
            Some(h) => h.0,
            None => t_max,
        };
        let bottom = self.cap_exec(ray, t_min, c1, self.base.y, down);
        let c2: i64 = match bottom {
            Some(h) => h.0,
            None => c1,
        };
        let top = self.cap_exec(ray, t_min, c2, self.base.y + self.height, up);
        let best = match top {
            Some(h) => Some(h),
            None => match bottom {
                Some(h) => Some(h),
                None => side,
            },
        };
        match best {
            Some(h) => {
                let p = ray.at(h.0);
                let outward = unit_vector(h.1);
                Some(make_record(ray, h.0, p, outward, self.color))
            },
            None => None,
        }
    }
}

} // verus!
