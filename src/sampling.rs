//! One pixel of the image: the sum of its jittered samples.
use vstd::prelude::*;
use crate::camera::Camera;
use crate::color::{quantize, write_color};
use crate::output::Output;
use crate::fixed::SCALE;
use crate::hittable_list::{HittableList, Shape};
use crate::light::Light;
use crate::ray::Ray;
use crate::shading::{ray_color, ray_color_spec, CHANNEL_MAX};
use crate::vec3::{Color, Vec3};

verus! {

/// Largest image side.
pub const SIDE_MAX: i64 = 1048576;

/// Largest number of samples per pixel.
pub const SAMPLES_MAX: usize = 65536;

/// The viewport coordinate of pixel `i` of `n`, shifted by the jitter `r`
/// (fixed-point, in `[0, 1)`): `(i + r) / (n - 1)`, at most one.
pub open spec fn sample_coord(i: int, r: int, n: int) -> int {
    let c = (i * SCALE + r) / (n - 1);
    if c > SCALE { SCALE as int } else { c }
}

/// The primary ray of one sample.
pub open spec fn sample_ray(cam: Camera, i: int, j: int, width: int, height: int, jit: (i64, i64)) -> Ray {
    Ray {
        orig: cam.origin,
        dir: cam.ray_dir(sample_coord(i, jit.0 as int, width), sample_coord(j, jit.1 as int, height)),
    }
}

/// The sum of the colors of the samples with these jitters; none when one of
/// their rays has no direction.
pub open spec fn pixel_sum(
    objs: Seq<Shape>,
    cam: Camera,
    light: Light,
    i: int,
    j: int,
    width: int,
    height: int,
    jit: Seq<(i64, i64)>,
) -> Option<(int, int, int)>
    decreases jit.len(),
{
    if jit.len() == 0 {
        Some((0, 0, 0))
    } else {
        match pixel_sum(objs, cam, light, i, j, width, height, jit.drop_last()) {
            None => None,
            Some(acc) => {
                let ray = sample_ray(cam, i, j, width, height, jit.last());
                if ray.dir == (Vec3 { x: 0, y: 0, z: 0 }) {
                    None
                } else {
                    let c = ray_color_spec(objs, ray, light);
                    Some((acc.0 + c.x, acc.1 + c.y, acc.2 + c.z))
                }
            },
        }
    }
}

fn coord(i: i64, r: i64, n: i64) -> (c: i64)
    requires
        0 <= i < n <= SIDE_MAX,
        2 <= n,
        0 <= r < SCALE,
    ensures
        c == sample_coord(i as int, r as int, n as int),
        0 <= c <= SCALE,
{
    proof {
        crate::fixed::lemma_mul_bound(i as int, SCALE as int, SIDE_MAX as int, SCALE as int);
    }
    let q: i128 = crate::fixed::div_floor(i as i128 * SCALE as i128 + r as i128, n as i128 - 1);
    proof {
        vstd::arithmetic::div_mod::lemma_div_pos_is_pos(i * SCALE + r, n - 1);
    }
    if q > SCALE as i128 {
        SCALE
    } else {
        q as i64
    }
}

/// Sums the colors of the samples of pixel `(i, j)` of a `width` x `height`
/// image, one sample per jitter pair; none when a sample's ray is degenerate
/// (the camera looks at its own position).
pub fn render_pixel(
    cam: &Camera,
    world: &HittableList,
    light: &Light,
    i: i64,
    j: i64,
    width: i64,
    height: i64,
    jitter: &Vec<(i64, i64)>,
) -> (r: Option<Color>)
    requires
        cam.wf(),
        world.wf(),
        light.wf(),
        0 <= i < width <= SIDE_MAX,
        0 <= j < height <= SIDE_MAX,
        2 <= width,
        2 <= height,
        jitter@.len() <= SAMPLES_MAX,
        forall|k: int| 0 <= k < jitter@.len() ==> 0 <= (#[trigger] jitter@[k]).0 < SCALE && 0
            <= jitter@[k].1 < SCALE,
    ensures
        match pixel_sum(world.objects@, *cam, *light, i as int, j as int, width as int, height as int, jitter@) {
            Some(s) => r == Some(Vec3 { x: s.0 as i64, y: s.1 as i64, z: s.2 as i64 }),
            None => r is None,
        },
{
    let mut acc = Vec3 { x: 0, y: 0, z: 0 };
    let mut k: usize = 0;
    while k < jitter.len()
        invariant
            cam.wf(),
            world.wf(),
            light.wf(),
            0 <= i < width <= SIDE_MAX,
            0 <= j < height <= SIDE_MAX,
            2 <= width,
            2 <= height,
            jitter@.len() <= SAMPLES_MAX,
            forall|m: int| 0 <= m < jitter@.len() ==> 0 <= (#[trigger] jitter@[m]).0 < SCALE && 0
                <= jitter@[m].1 < SCALE,
            0 <= k <= jitter@.len(),
            pixel_sum(world.objects@, *cam, *light, i as int, j as int, width as int, height as int, jitter@.take(k as int))
                == Some((acc.x as int, acc.y as int, acc.z as int)),
            0 <= acc.x <= k * CHANNEL_MAX,
            0 <= acc.y <= k * CHANNEL_MAX,
            0 <= acc.z <= k * CHANNEL_MAX,
        decreases jitter@.len() - k,
    {
        assert(jitter@.take(k + 1).drop_last() =~= jitter@.take(k as int));
        assert(jitter@.take(k + 1).last() == jitter@[k as int]);
        let (ru, rv) = jitter[k];
        let ray = cam.get_ray(coord(i, ru, width), coord(j, rv, height));
        if ray.dir.x == 0 && ray.dir.y == 0 && ray.dir.z == 0 {
            proof {
                lemma_none_stays(world.objects@, *cam, *light, i as int, j as int, width as int, height as int, jitter@, k as int + 1);
            }
            return None;
        }
        assert(crate::vec3::dot(ray.dir, ray.dir) > 0) by (nonlinear_arith)
            requires
                !(ray.dir.x == 0 && ray.dir.y == 0 && ray.dir.z == 0),
        ;
        let c = ray_color(&ray, world, light);
        assert((k + 1) * CHANNEL_MAX == k * CHANNEL_MAX + CHANNEL_MAX) by (nonlinear_arith);
        assert(k * CHANNEL_MAX <= SAMPLES_MAX * CHANNEL_MAX) by (nonlinear_arith)
            requires
                k <= SAMPLES_MAX,
        ;
        acc = Vec3 { x: acc.x + c.x, y: acc.y + c.y, z: acc.z + c.z };
        k += 1;
    }
    assert(jitter@.take(k as int) =~= jitter@);
    Some(acc)
}

/// The jitter runs as sequences.
pub open spec fn jitter_view(jitter: Seq<Vec<(i64, i64)>>) -> Seq<Seq<(i64, i64)>> {
    jitter.map_values(|v: Vec<(i64, i64)>| v@)
}

/// Pixel `(i, j)` that entry `k` of a band starting at scan row `first_row`
/// holds: scan rows go from the top (`j == height - 1`) down, each row from
/// left to right.
pub open spec fn pixel_at(k: int, width: int, height: int, first_row: int) -> (int, int) {
    (k % width, height - 1 - first_row - k / width)
}

/// The sum of the samples of entry `k`, with that entry's jitters.
pub open spec fn entry_sum(
    objs: Seq<Shape>,
    cam: Camera,
    light: Light,
    width: int,
    height: int,
    first_row: int,
    jitter: Seq<Seq<(i64, i64)>>,
    k: int,
) -> Option<(int, int, int)> {
    let (i, j) = pixel_at(k, width, height, first_row);
    pixel_sum(objs, cam, light, i, j, width, height, jitter[k])
}

/// The 8-bit pixel of entry `k`, once its sum is known.
pub open spec fn entry_pixel(s: (int, int, int), spp: int) -> (u32, u32, u32) {
    (quantize(s.0 as i64 as int, spp), quantize(s.1 as i64 as int, spp), quantize(s.2 as i64 as int, spp))
}

/// Renders `rows` scan rows of a `width` x `height` image, from scan row
/// `first_row` on, one run of jitters per pixel (entry `k` of `jitter` belongs
/// to the `k`-th pixel of the band in scan order), appending the pixels to
/// `out`. With `first_row == 0` and `rows == height` this is the whole image;
/// bands rendered one after another make it too. Fails, leaving a partial
/// band, when some pixel's sample ray is degenerate.
pub fn render_image(
    out: &mut Output,
    cam: &Camera,
    world: &HittableList,
    light: &Light,
    width: i64,
    height: i64,
    first_row: i64,
    rows: i64,
    spp: i32,
    jitter: &Vec<Vec<(i64, i64)>>,
) -> (r: bool)
    requires
        cam.wf(),
        world.wf(),
        light.wf(),
        2 <= width <= SIDE_MAX,
        2 <= height <= SIDE_MAX,
        0 <= first_row,
        0 <= rows,
        first_row + rows <= height,
        spp > 0,
        jitter@.len() == width * rows,
        forall|k: int| 0 <= k < jitter@.len() ==> (#[trigger] jitter@[k])@.len() <= SAMPLES_MAX,
        forall|k: int, m: int|
            0 <= k < jitter@.len() && 0 <= m < jitter@[k]@.len() ==> 0 <= (#[trigger] jitter@[k]@[m]).0
                < SCALE && 0 <= jitter@[k]@[m].1 < SCALE,
        old(out).pixel_color@.len() + width * rows <= usize::MAX,
    ensures
        r ==> (forall|k: int| 0 <= k < width * rows ==> (#[trigger] entry_sum(world.objects@, *cam, *light, width as int, height as int, first_row as int, jitter_view(jitter@), k)) is Some),
        r ==> final(out).pixel_color@ == old(out).pixel_color@ + Seq::new(
            (width * rows) as nat,
            |k: int| entry_pixel(entry_sum(world.objects@, *cam, *light, width as int, height as int, first_row as int, jitter_view(jitter@), k)->Some_0, spp as int),
        ),
        !r ==> exists|k: int| 0 <= k < width * rows && (#[trigger] entry_sum(world.objects@, *cam, *light, width as int, height as int, first_row as int, jitter_view(jitter@), k)) is None,
        final(out).format == old(out).format,
        final(out).resolution == old(out).resolution,
        final(out).max_color_value == old(out).max_color_value,
{
    let ghost jit = jitter_view(jitter@);
    let ghost start = out.pixel_color@;
    proof {
        crate::fixed::lemma_mul_bound(width as int, rows as int, SIDE_MAX as int, SIDE_MAX as int);
        assert(width * rows >= 0) by (nonlinear_arith)
            requires
                width >= 0,
                rows >= 0,
        ;
    }
    let n: u64 = (width * rows) as u64;
    let w: u64 = width as u64;
    let mut k: u64 = 0;
    while k < n
        invariant
            cam.wf(),
            world.wf(),
            light.wf(),
            2 <= width <= SIDE_MAX,
            2 <= height <= SIDE_MAX,
            0 <= first_row,
            0 <= rows,
            first_row + rows <= height,
            spp > 0,
            n == width * rows,
            w == width,
            jitter@.len() == n,
            jit == jitter_view(jitter@),
            forall|q: int| 0 <= q < jitter@.len() ==> (#[trigger] jitter@[q])@.len() <= SAMPLES_MAX,
            forall|q: int, m: int|
                0 <= q < jitter@.len() && 0 <= m < jitter@[q]@.len() ==> 0 <= (#[trigger] jitter@[q]@[m]).0
                    < SCALE && 0 <= jitter@[q]@[m].1 < SCALE,
            start == old(out).pixel_color@,
            start.len() + n <= usize::MAX,
            0 <= k <= n,
            forall|q: int| 0 <= q < k ==> (#[trigger] entry_sum(world.objects@, *cam, *light, width as int, height as int, first_row as int, jit, q)) is Some,
            out.pixel_color@ == start + Seq::new(
                k as nat,
                |q: int| entry_pixel(entry_sum(world.objects@, *cam, *light, width as int, height as int, first_row as int, jit, q)->Some_0, spp as int),
            ),
            out.format == old(out).format,
            out.resolution == old(out).resolution,
            out.max_color_value == old(out).max_color_value,
        decreases n - k,
    {
        let col: u64 = k % w;
        let row: u64 = k / w;
        proof {
            vstd::arithmetic::div_mod::lemma_fundamental_div_mod(k as int, w as int);
            assert(row < rows) by (nonlinear_arith)
                requires
                    k as int == w * row + col,
                    0 <= col,
                    k < n,
                    n == w * rows,
                    w > 0,
            ;
        }
        let i: i64 = col as i64;
        let j: i64 = height - 1 - first_row - row as i64;
        let samples = &jitter[k as usize];
        assert(jit[k as int] == samples@);
        let sum = render_pixel(cam, world, light, i, j, width, height, samples);
        match sum {
            None => {
                assert(entry_sum(world.objects@, *cam, *light, width as int, height as int, first_row as int, jit, k as int) is None);
                return false;
            },
            Some(c) => {
                write_color(out, c, spp);
                k += 1;
                assert(out.pixel_color@ =~= start + Seq::new(
                    k as nat,
                    |q: int| entry_pixel(entry_sum(world.objects@, *cam, *light, width as int, height as int, first_row as int, jit, q)->Some_0, spp as int),
                ));
            },
        }
    }
    true
}

/// Once a sample is degenerate, so is every longer run of samples.
proof fn lemma_none_stays(
    objs: Seq<Shape>,
    cam: Camera,
    light: Light,
    i: int,
    j: int,
    width: int,
    height: int,
    jit: Seq<(i64, i64)>,
    k: int,
)
    requires
        0 <= k <= jit.len(),
        pixel_sum(objs, cam, light, i, j, width, height, jit.take(k)) is None,
    ensures
        pixel_sum(objs, cam, light, i, j, width, height, jit) is None,
    decreases jit.len() - k,
{
    if k < jit.len() {
        assert(jit.take(k + 1).drop_last() =~= jit.take(k));
        lemma_none_stays(objs, cam, light, i, j, width, height, jit, k + 1);
    } else {
        assert(jit.take(k) =~= jit);
    }
}

} // verus!
