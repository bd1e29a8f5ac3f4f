//! Spheres, intersected by solving the ray's quadratic.
use vstd::prelude::*;
use crate::fixed::{DIR_MAX, T_INF, WORLD};
use crate::quadratic::{nearest_root, nearest_root_spec};
use crate::hittable::{in_world, in_world_exec, make_record, record_at, to_vec, valid_hit, HitRecord};
use crate::ray::Ray;
use crate::vec3::{valid_color, valid_point, bounded, unit_color, dot, minus, unit, unit_vector, Color, Point3, Vec3};

verus! {

#[derive(Clone, Copy, Debug, PartialEq, Eq, Structural)]
pub struct Sphere {
    pub center: Point3,
    pub radius: i64,
    pub color: Color,
}

impl Sphere {
    /// The radius is positive and the whole ball lies in the world.
    pub open spec fn wf(&self) -> bool {
        &&& 0 < self.radius <= WORLD
        &&& bounded(self.center, WORLD - self.radius)
        &&& unit_color(self.color)
    }

    /// Coefficients `(a, b, c)` of `a t^2 + b t + c = 0` in raw units.
    pub open spec fn coeffs(&self, ray: Ray) -> (int, int, int) {
        let oc = minus(ray.orig, self.center);
        (dot(ray.dir, ray.dir), 2 * dot(oc, ray.dir), dot(oc, oc) - self.radius * self.radius)
    }

    /// The parameter of the reported hit, if a root lies in `[t_min, t_max]`.
    pub open spec fn t_spec(&self, ray: Ray, t_min: int, t_max: int) -> Option<int> {
        let (a, b, c) = self.coeffs(ray);
        nearest_root_spec(a, b, c, t_min, t_max)
    }

    pub open spec fn hit_spec(&self, ray: Ray, t_min: int, t_max: int) -> Option<HitRecord> {
        match self.t_spec(ray, t_min, t_max) {
            Some(t) => if in_world(ray.at_spec(t)) {
                Some(record_at(ray, t, unit(minus(to_vec(ray.at_spec(t)), self.center)), self.color))
            } else {
                None
            },
            None => None,
        }
    }

    /// Tests `wf`.
    pub fn is_valid(&self) -> (r: bool)
        ensures
            r == self.wf(),
    {
        if !(0 < self.radius && self.radius <= WORLD) {
            return false;
        }
        let m = WORLD - self.radius;
        let c = self.center;
        -m <= c.x && c.x <= m && -m <= c.y && c.y <= m && -m <= c.z && c.z <= m && valid_color(self.color)
    }

    pub fn new(center: Point3, radius: i64, color: Color) -> (r: Sphere)
        ensures
            r == (Sphere { center, radius, color }),
    {
        Sphere { center, radius, color }
    }

    /// A malformed sphere is never hit.
    pub fn hit(&self, ray: &Ray, t_min: i64, t_max: i64) -> (r: Option<HitRecord>)
        requires
            ray.wf(),
            -T_INF <= t_min,
            t_max <= T_INF,
        ensures
            self.wf() ==> r == self.hit_spec(*ray, t_min as int, t_max as int),
            !self.wf() ==> r is None,
            r matches Some(rec) ==> valid_hit(rec, *ray, t_min as int, t_max as int),
    {
        if !self.is_valid() {
            return None;
        }
        let d = ray.dir;
        let ox: i128 = ray.orig.x as i128 - self.center.x as i128;
        let oy: i128 = ray.orig.y as i128 - self.center.y as i128;
        let oz: i128 = ray.orig.z as i128 - self.center.z as i128;
        let ghost m: int = 2147483648;
        proof {
            crate::fixed::lemma_mul_bound(d.x as int, d.x as int, DIR_MAX as int, DIR_MAX as int);
            crate::fixed::lemma_mul_bound(d.y as int, d.y as int, DIR_MAX as int, DIR_MAX as int);
            crate::fixed::lemma_mul_bound(d.z as int, d.z as int, DIR_MAX as int, DIR_MAX as int);
            crate::fixed::lemma_mul_bound(ox as int, d.x as int, m, DIR_MAX as int);
            crate::fixed::lemma_mul_bound(oy as int, d.y as int, m, DIR_MAX as int);
            crate::fixed::lemma_mul_bound(oz as int, d.z as int, m, DIR_MAX as int);
            crate::fixed::lemma_mul_bound(ox as int, ox as int, m, m);
            crate::fixed::lemma_mul_bound(oy as int, oy as int, m, m);
            crate::fixed::lemma_mul_bound(oz as int, oz as int, m, m);
            crate::fixed::lemma_mul_bound(self.radius as int, self.radius as int, WORLD as int, WORLD as int);
        }
        let a: i128 = d.x as i128 * d.x as i128 + d.y as i128 * d.y as i128 + d.z as i128 * d.z as i128;
        let b: i128 = 2 * (ox * d.x as i128 + oy * d.y as i128 + oz * d.z as i128);
        let c: i128 = ox * ox + oy * oy + oz * oz - self.radius as i128 * self.radius as i128;
        proof {
            assert(minus(ray.orig, self.center) == (Vec3 { x: ox as i64, y: oy as i64, z: oz as i64 }));
            assert(a >= 1) by (nonlinear_arith)
                requires
                    a == d.x * d.x + d.y * d.y + d.z * d.z,
                    dot(d, d) > 0,
            ;
        }
        let t = match nearest_root(a, b, c, t_min, t_max) {
            Some(t) => t,
            None => return None,
        };
        let p = ray.at(t);
        if !in_world_exec(p) {
            return None;
        }
        let outward = unit_vector(Vec3 { x: p.x - self.center.x, y: p.y - self.center.y, z: p.z - self.center.z });
        Some(make_record(ray, t, p, outward, self.color))
    }
}

} // verus!
