use raytracer::camera::Camera;
use raytracer::color::write_color;
use raytracer::fixed::{SCALE, T_INF};
use raytracer::hittable_list::{HittableList, Shape};
use raytracer::light::Light;
use raytracer::output::Output;
use raytracer::ray::Ray;
use raytracer::sampling::render_pixel;
use raytracer::shading::{compute_lighting, ray_color, AMBIENT, SHADOW_EPS};
use raytracer::sphere::Sphere;
use raytracer::vec3::Vec3;

const S: i64 = SCALE;

fn v(x: i64, y: i64, z: i64) -> Vec3 {
    Vec3::new(x * S, y * S, z * S)
}

fn to_fixed(x: f64) -> i64 {
    (x * S as f64).round() as i64
}

fn white_light(at: Vec3) -> Light {
    Light::new(at, v(1, 1, 1), S)
}

fn close(a: i64, b: f64) -> bool {
    (a as f64 / S as f64 - b).abs() < 1e-4
}

#[test]
fn occluded_point_gets_shadow_color() {
    let light = white_light(v(3, 0, 4));
    let primary = Ray::new(v(0, 0, 5), v(0, 0, -1));
    for color in [Vec3::new(S, 0, 0), Vec3::new(0, S / 2, S)] {
        let mut world = HittableList::new();
        world.add(Shape::Sphere(Sphere::new(v(0, 0, 0), S, color)));
        world.add(Shape::Sphere(Sphere::new(Vec3::new(3 * S / 2, 0, 5 * S / 2), 3 * S / 10, color)));
        assert_eq!(ray_color(&primary, &world, &light), Vec3::new(AMBIENT, AMBIENT, AMBIENT));
    }
}

#[test]
fn lit_point_gets_diffuse_color() {
    let light = white_light(v(3, 0, 4));
    let primary = Ray::new(v(0, 0, 5), v(0, 0, -1));
    let mut world = HittableList::new();
    world.add(Shape::Sphere(Sphere::new(v(0, 0, 0), S, Vec3::new(S, 0, 0))));
    let c = ray_color(&primary, &world, &light);
    assert!(close(c.x, std::f64::consts::FRAC_1_SQRT_2));
    assert_eq!((c.y, c.z), (0, 0));
}

#[test]
fn light_behind_surface_gives_ambient_floor() {
    let light = white_light(v(0, 0, -5));
    let mut world = HittableList::new();
    world.add(Shape::Sphere(Sphere::new(v(0, 0, 0), S, Vec3::new(S, S, 0))));
    let rec = world.hit(&Ray::new(v(0, 0, 5), v(0, 0, -1)), SHADOW_EPS, T_INF).unwrap();
    // The shadow ray towards the light goes back through the sphere.
    assert_eq!(compute_lighting(&rec, &world, &light), Vec3::new(AMBIENT, AMBIENT, AMBIENT));
    let other = white_light(v(5, 0, 1));
    let lit = compute_lighting(&rec, &HittableList::new(), &other);
    assert_eq!(lit, Vec3::new(AMBIENT, AMBIENT, 0));
}

#[test]
fn background_is_sky_tinted_by_light() {
    let light = Light::new(v(0, 5, 0), Vec3::new(S, S, S / 2), 2 * S);
    let c = ray_color(&Ray::new(v(0, 0, 0), v(0, 0, -1)), &HittableList::new(), &light);
    assert_eq!(c, Vec3::new(S, 91750, S));
}

fn test_camera() -> Camera {
    // Vertical field of view of 90 degrees: the viewport is 2 tan(45) = 2 high.
    Camera::new(v(0, 0, 5), v(0, 0, 0), v(0, 1, 0), 2 * S, to_fixed(4.0 / 3.0))
}

#[test]
fn camera_corner_rays() {
    let cam = test_camera();
    let aspect = 4.0 / 3.0;
    let half_w = aspect * 1.0;
    let half_h = 1.0;
    // eye - w -/+ half width * u -/+ half height * v, with w = (0, 0, 1).
    let lo = cam.get_ray(0, 0);
    assert_eq!(lo.origin(), v(0, 0, 5));
    assert!(close(lo.direction().x, -half_w));
    assert!(close(lo.direction().y, -half_h));
    assert!(close(lo.direction().z, -1.0));
    let hi = cam.get_ray(S, S);
    assert!(close(hi.direction().x, half_w));
    assert!(close(hi.direction().y, half_h));
    assert!(close(hi.direction().z, -1.0));
    assert_eq!(cam.get_ray(S / 2, S / 2).direction(), Vec3::new(0, 0, -S));
}

#[test]
fn camera_basis_is_orthonormal() {
    let cam = test_camera();
    assert_eq!(cam.w, v(0, 0, 1));
    assert_eq!(cam.u, v(1, 0, 0));
    assert_eq!(cam.v, v(0, 1, 0));
}

#[test]
fn write_color_quantizes() {
    let mut out = Output::new();
    write_color(&mut out, Vec3::new(S / 2, 2 * S, -5), 1);
    write_color(&mut out, Vec3::new(S, S / 2, 0), 2);
    write_color(&mut out, Vec3::new(to_fixed(0.997), to_fixed(0.995), 1), 1);
    assert_eq!(out.pixel_color, vec![(128, 255, 0), (128, 64, 0), (255, 254, 0)]);
}

#[test]
fn output_new_and_fill() {
    let mut out = Output::new();
    assert_eq!(out.format, "P3");
    assert_eq!(out.resolution, (800, 600));
    assert_eq!(out.max_color_value, 255);
    assert!(out.pixel_color.is_empty());
    out.init_pixel_color();
    assert_eq!(out.pixel_color.len(), 480000);
    assert!(out.pixel_color.iter().all(|p| *p == (150, 5, 15)));
}

#[test]
fn center_pixel_of_red_sphere() {
    let mut world = HittableList::new();
    world.add(Shape::Sphere(Sphere::new(v(0, 0, 0), S, Vec3::new(S, 0, 0))));
    let light = white_light(v(5, 5, 5));
    let cam = test_camera();
    let c = ray_color(&cam.get_ray(S / 2, S / 2), &world, &light);
    let mut out = Output::new();
    write_color(&mut out, c, 1);
    let (r, g, b) = out.pixel_color[0];
    let sky = ray_color(&Ray::new(v(0, 0, 5), v(0, 0, 1)), &world, &light);
    assert_ne!(c, sky);
    assert!(r > g && r > b);
    assert!(r <= 255 && g <= 255 && b <= 255);
    assert_eq!(r, 126);
}

#[test]
fn pixel_sums_its_samples() {
    let mut world = HittableList::new();
    world.add(Shape::Sphere(Sphere::new(v(0, 0, 0), S, Vec3::new(S, 0, 0))));
    let light = white_light(v(5, 5, 5));
    let cam = test_camera();
    // Pixel (1, 1) of a 3 x 3 image with no jitter looks through the center.
    let one = render_pixel(&cam, &world, &light, 1, 1, 3, 3, &vec![(0, 0)]).unwrap();
    let center = ray_color(&cam.get_ray(S / 2, S / 2), &world, &light);
    assert_eq!(one, center);
    let two = render_pixel(&cam, &world, &light, 1, 1, 3, 3, &vec![(0, 0), (0, 0)]).unwrap();
    assert_eq!(two, Vec3::new(2 * center.x, 2 * center.y, 2 * center.z));
    assert_eq!(render_pixel(&cam, &world, &light, 1, 1, 3, 3, &vec![]).unwrap(), Vec3::new(0, 0, 0));
}

#[test]
fn degenerate_camera_gives_no_pixel() {
    let cam = Camera::new(v(0, 0, 5), v(0, 0, 5), v(0, 1, 0), 0, 0);
    let light = white_light(v(5, 5, 5));
    assert!(render_pixel(&cam, &HittableList::new(), &light, 0, 0, 2, 2, &vec![(0, 0)]).is_none());
}

#[test]
fn render_image_scan_order() {
    use_render_image();
}

fn use_render_image() {
    let mut world = HittableList::new();
    world.add(Shape::Sphere(Sphere::new(v(0, 0, 0), S, Vec3::new(S, 0, 0))));
    let light = white_light(v(5, 5, 5));
    let cam = test_camera();
    let jitter: Vec<Vec<(i64, i64)>> = vec![vec![(0, 0)]; 9];
    let mut whole = Output::new();
    assert!(raytracer::sampling::render_image(&mut whole, &cam, &world, &light, 3, 3, 0, 3, 1, &jitter));
    assert_eq!(whole.pixel_color.len(), 9);
    let mut banded = Output::new();
    for row in 0..3 {
        let band: Vec<Vec<(i64, i64)>> = vec![vec![(0, 0)]; 3];
        assert!(raytracer::sampling::render_image(&mut banded, &cam, &world, &light, 3, 3, row, 1, 1, &band));
    }
    assert_eq!(whole.pixel_color, banded.pixel_color);
    // The center entry is the sphere; the top-left entry (row j = 2) is sky.
    let mut center = Output::new();
    write_color(&mut center, render_pixel(&cam, &world, &light, 1, 1, 3, 3, &vec![(0, 0)]).unwrap(), 1);
    assert_eq!(whole.pixel_color[4], center.pixel_color[0]);
    let mut top_left = Output::new();
    write_color(&mut top_left, render_pixel(&cam, &world, &light, 0, 2, 3, 3, &vec![(0, 0)]).unwrap(), 1);
    assert_eq!(whole.pixel_color[0], top_left.pixel_color[0]);
    assert_ne!(whole.pixel_color[0], whole.pixel_color[4]);
}
