use raytracer::cube::Cube;
use raytracer::cylinder::Cylinder;
use raytracer::fixed::{div_floor, isqrt, SCALE, T_INF};
use raytracer::hittable_list::{HittableList, Shape};
use raytracer::param::{CameraSetup, Scene};
use raytracer::plane::Plane;
use raytracer::ray::Ray;
use raytracer::sphere::Sphere;
use raytracer::light::Light;
use raytracer::vec3::{unit_vector, Vec3};

const S: i64 = SCALE;

fn v(x: i64, y: i64, z: i64) -> Vec3 {
    Vec3::new(x * S, y * S, z * S)
}

fn red() -> Vec3 {
    Vec3::new(S, 0, 0)
}

#[test]
fn floor_division_rounds_down() {
    assert_eq!(div_floor(-7, 2), -4);
    assert_eq!(div_floor(7, 2), 3);
    assert_eq!(div_floor(7, -2), -4);
    assert_eq!(div_floor(-8, 2), -4);
}

#[test]
fn integer_square_root() {
    assert_eq!(isqrt(0), 0);
    assert_eq!(isqrt(17), 4);
    assert_eq!(isqrt(16), 4);
    assert_eq!(isqrt(1 << 100), 1 << 50);
}

#[test]
fn unit_vector_scales_to_one() {
    assert_eq!(unit_vector(v(3, 4, 0)), Vec3::new(39321, 52428, 0));
    assert_eq!(unit_vector(v(0, 0, -7)), Vec3::new(0, 0, -S));
    assert_eq!(unit_vector(Vec3::new(0, 0, 0)), Vec3::new(0, 0, 0));
}

#[test]
fn ray_at_parameter() {
    let r = Ray::new(v(1, 2, 3), v(1, 0, -1));
    assert_eq!(r.at(2 * S), v(3, 2, 1));
    assert_eq!(r.at(0), v(1, 2, 3));
}

#[test]
fn sphere_reports_near_root() {
    let s = Sphere::new(v(0, 0, -5), S, red());
    let r = Ray::new(v(0, 0, 0), v(0, 0, -1));
    let rec = s.hit(&r, 0, T_INF).unwrap();
    assert_eq!(rec.t, 4 * S);
    assert_eq!(rec.p, v(0, 0, -4));
    assert_eq!(rec.normal, v(0, 0, 1));
    assert!(rec.front_face);
    assert_eq!(rec.color, red());
}

#[test]
fn sphere_far_root_when_near_is_out_of_range() {
    let s = Sphere::new(v(0, 0, -5), S, red());
    let r = Ray::new(v(0, 0, 0), v(0, 0, -1));
    let rec = s.hit(&r, 5 * S, T_INF).unwrap();
    assert_eq!(rec.t, 6 * S);
    // The outward normal points along the ray there, so it is flipped.
    assert_eq!(rec.normal, v(0, 0, 1));
    assert!(!rec.front_face);
}

#[test]
fn sphere_hit_respects_interval() {
    let s = Sphere::new(v(0, 0, -5), S, red());
    let r = Ray::new(v(0, 0, 0), v(0, 0, -1));
    assert!(s.hit(&r, 0, 3 * S).is_none());
    assert!(s.hit(&r, 7 * S, T_INF).is_none());
    let miss = Ray::new(v(0, 3, 0), v(0, 0, -1));
    assert!(s.hit(&miss, 0, T_INF).is_none());
}

#[test]
fn plane_hit_inside_rectangle() {
    let p = Plane::new(v(0, 0, 0), 10, 10, red());
    let r = Ray::new(v(1, 5, 1), v(0, -1, 0));
    let rec = p.hit(&r, 0, T_INF).unwrap();
    assert_eq!(rec.t, 5 * S);
    assert_eq!(rec.p, v(1, 0, 1));
    assert_eq!(rec.normal, v(0, 1, 0));
    let from_below = Ray::new(v(1, -5, 1), v(0, 1, 0));
    assert_eq!(p.hit(&from_below, 0, T_INF).unwrap().normal, v(0, -1, 0));
}

#[test]
fn plane_misses_outside_or_parallel() {
    let p = Plane::new(v(0, 0, 0), 10, 10, red());
    assert!(p.hit(&Ray::new(v(-1, 5, 1), v(0, -1, 0)), 0, T_INF).is_none());
    assert!(p.hit(&Ray::new(v(1, 5, 11), v(0, -1, 0)), 0, T_INF).is_none());
    assert!(p.hit(&Ray::new(v(1, 5, 1), v(1, 0, 0)), 0, T_INF).is_none());
    assert!(p.hit(&Ray::new(v(1, 5, 1), v(0, -1, 0)), 0, 4 * S).is_none());
}

fn unit_box() -> Cube {
    Cube::new(v(-1, -1, -1), v(1, 1, 1), red())
}

#[test]
fn box_entry_faces() {
    let b = unit_box();
    let cases = [
        (v(-5, 0, 0), v(1, 0, 0), v(-1, 0, 0)),
        (v(5, 0, 0), v(-1, 0, 0), v(1, 0, 0)),
        (v(0, -5, 0), v(0, 1, 0), v(0, -1, 0)),
        (v(0, 5, 0), v(0, -1, 0), v(0, 1, 0)),
        (v(0, 0, -5), v(0, 0, 1), v(0, 0, -1)),
        (v(0, 0, 5), v(0, 0, -1), v(0, 0, 1)),
    ];
    for (o, d, n) in cases {
        let rec = b.hit(&Ray::new(o, d), 0, T_INF).unwrap();
        assert_eq!(rec.t, 4 * S);
        assert_eq!(rec.normal, n);
        assert!(rec.front_face);
    }
}

#[test]
fn box_missed_by_passing_ray() {
    let b = unit_box();
    assert!(b.hit(&Ray::new(v(-5, 2, 0), v(1, 0, 0)), 0, T_INF).is_none());
    assert!(b.hit(&Ray::new(v(-5, 0, 0), v(1, 0, 0)), 0, 3 * S).is_none());
}

#[test]
fn box_edge_prefers_x_faces() {
    let b = unit_box();
    // Enters exactly on the edge shared by the -x and -y faces.
    let rec = b.hit(&Ray::new(v(-5, -5, 0), v(1, 1, 0)), 0, T_INF).unwrap();
    assert_eq!(rec.normal, v(-1, 0, 0));
}

fn cylinder() -> Cylinder {
    Cylinder::new(v(0, 0, 0), 2 * S, S, red())
}

#[test]
fn cylinder_lateral_surface() {
    let rec = cylinder().hit(&Ray::new(v(5, 1, 0), v(-1, 0, 0)), 0, T_INF).unwrap();
    assert_eq!(rec.t, 4 * S);
    assert_eq!(rec.normal, v(1, 0, 0));
}

#[test]
fn cylinder_caps() {
    let top = cylinder().hit(&Ray::new(v(0, 5, 0), v(0, -1, 0)), 0, T_INF).unwrap();
    assert_eq!(top.t, 3 * S);
    assert_eq!(top.normal, v(0, 1, 0));
    let bottom = cylinder().hit(&Ray::new(v(0, -5, 0), v(0, 1, 0)), 0, T_INF).unwrap();
    assert_eq!(bottom.t, 5 * S);
    assert_eq!(bottom.normal, v(0, -1, 0));
}

#[test]
fn cylinder_missed_above_or_beside() {
    assert!(cylinder().hit(&Ray::new(v(5, 3, 0), v(-1, 0, 0)), 0, T_INF).is_none());
    assert!(cylinder().hit(&Ray::new(v(5, 5, 0), v(0, -1, 0)), 0, T_INF).is_none());
}

#[test]
fn scene_returns_nearest_sphere() {
    let near = Sphere::new(v(0, 0, -5), S, red());
    let far = Sphere::new(v(0, 0, -10), S, Vec3::new(0, S, 0));
    let r = Ray::new(v(0, 0, 0), v(0, 0, -1));
    for order in [[near, far], [far, near]] {
        let mut world = HittableList::new();
        world.add(Shape::Sphere(order[0]));
        world.add(Shape::Sphere(order[1]));
        let rec = world.hit(&r, 0, T_INF).unwrap();
        assert_eq!(rec.t, 4 * S);
        assert_eq!(rec.color, red());
    }
}

#[test]
fn empty_scene_has_no_hit() {
    let world = HittableList::new();
    assert!(world.hit(&Ray::new(v(0, 0, 0), v(0, 0, -1)), 0, T_INF).is_none());
}

#[test]
fn set_scene_keeps_order_and_skips_malformed() {
    let scene = Scene {
        camera: CameraSetup { origin: v(0, 0, 5), look_at: v(0, 0, 0) },
        light: Light::new(v(5, 5, 5), v(1, 1, 1), S),
        spheres: vec![Sphere::new(v(0, 0, 0), S, red()), Sphere::new(v(0, 0, 0), 0, red())],
        planes: vec![Plane::new(v(0, -1, 0), 4, 4, red())],
        cubes: vec![unit_box()],
        cylinders: vec![cylinder(), Cylinder::new(v(0, 0, 0), -S, S, red())],
    };
    let mut world = HittableList::new();
    world.set_scene(scene);
    assert_eq!(world.objects.len(), 4);
    assert!(matches!(world.objects[0], Shape::Sphere(_)));
    assert!(matches!(world.objects[1], Shape::Plane(_)));
    assert!(matches!(world.objects[2], Shape::Cube(_)));
    assert!(matches!(world.objects[3], Shape::Cylinder(_)));
}

#[test]
fn normals_oppose_ray_from_inside() {
    let r = Ray::new(v(0, 0, 0), v(1, 0, 0));
    let s = Sphere::new(v(0, 0, 0), S, red()).hit(&r, 0, T_INF).unwrap();
    assert_eq!(s.t, S);
    assert_eq!(s.normal, v(-1, 0, 0));
    assert!(!s.front_face);
    let c = Cylinder::new(v(0, -1, 0), 2 * S, S, red()).hit(&r, 0, T_INF).unwrap();
    assert_eq!(c.t, S);
    assert_eq!(c.normal, v(-1, 0, 0));
    assert!(!c.front_face);
}

#[test]
fn flat_box_is_malformed_and_left_out() {
    let flat = Cube::new(v(0, 0, 0), v(0, 1, 1), red());
    assert!(!flat.is_valid());
    assert!(!Cube::new(v(1, 0, 0), v(0, 1, 1), red()).is_valid());
    assert!(unit_box().is_valid());
    let scene = Scene {
        camera: CameraSetup { origin: v(0, 0, 5), look_at: v(0, 0, 0) },
        light: Light::new(v(5, 5, 5), v(1, 1, 1), S),
        spheres: vec![],
        planes: vec![],
        cubes: vec![flat],
        cylinders: vec![],
    };
    let mut world = HittableList::new();
    world.set_scene(scene);
    assert!(world.objects.is_empty());
    let r = Ray::new(Vec3::new(0, S / 2, -5 * S), v(0, 0, 1));
    assert!(world.hit(&r, 0, T_INF).is_none());
}

#[test]
fn degenerate_cylinder_is_never_hit() {
    let r = Ray::new(v(5, 1, 0), v(-1, 0, 0));
    assert!(Cylinder::new(v(0, 0, 0), 2 * S, 0, red()).hit(&r, 0, T_INF).is_none());
    assert!(Cylinder::new(v(0, 0, 0), 0, S, red()).hit(&r, 0, T_INF).is_none());
    assert!(Cylinder::new(v(0, 0, 0), -S, S, red()).hit(&r, 0, T_INF).is_none());
}

#[test]
fn shapes_outside_the_world_are_malformed() {
    assert!(!Plane::new(v(0, 0, 0), 40000, 10, red()).is_valid());
    assert!(Plane::new(v(0, 0, 0), 16384, 10, red()).is_valid());
    assert!(!Sphere::new(v(16384, 0, 0), S, red()).is_valid());
    assert!(Sphere::new(v(16383, 0, 0), S, red()).is_valid());
    assert!(!Cylinder::new(v(0, 0, 16384), S, S, red()).is_valid());
}

#[test]
fn wide_plane_hit_far_from_origin() {
    let p = Plane::new(v(-16000, 0, 0), 32000, 10, red());
    let r = Ray::new(Vec3::new(0, S, S), Vec3::new(2000 * S, -S / 8, 0));
    let rec = p.hit(&r, 0, T_INF).unwrap();
    assert_eq!(rec.t, 8 * S);
    assert_eq!(rec.p, Vec3::new(16000 * S, 0, S));
}
