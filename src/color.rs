//! Turning an accumulated color into one 8-bit pixel.
use vstd::prelude::*;
use crate::fixed::SCALE;
use crate::output::Output;
use crate::vec3::Color;

verus! {

/// One channel: the average of `n` samples clamped to `[0, 0.999]`, times
/// 256, rounded down; so a value in `[0, 255]`.
pub open spec fn quantize(c: int, n: int) -> u32 {
    if c <= 0 {
        0
    } else {
        let q = (256 * c) / (n * SCALE);
        if q > 255 { 255 } else { q as u32 }
    }
}

fn quantize_exec(c: i64, n: i32) -> (r: u32)
    requires
        n > 0,
    ensures
        r == quantize(c as int, n as int),
        r <= 255,
{
    if c <= 0 {
        return 0;
    }
    proof {
        crate::fixed::lemma_mul_bound(n as int, SCALE as int, i32::MAX as int, SCALE as int);
    }
    let den: i128 = n as i128 * SCALE as i128;
    assert(den > 0) by (nonlinear_arith)
        requires
            den == n * SCALE,
            n > 0,
    ;
    let q: i128 = (256 * c as i128) / den;
    if q > 255 {
        255
    } else {
        q as u32
    }
}

/// Appends the pixel for the sum `pixel_color` of `samples_per_pixel` samples.
pub fn write_color(out: &mut Output, pixel_color: Color, samples_per_pixel: i32)
    requires
        samples_per_pixel > 0,
        old(out).pixel_color@.len() < usize::MAX,
    ensures
        final(out).pixel_color@ == old(out).pixel_color@.push(
            (
                quantize(pixel_color.x as int, samples_per_pixel as int),
                quantize(pixel_color.y as int, samples_per_pixel as int),
                quantize(pixel_color.z as int, samples_per_pixel as int),
            ),
        ),
        final(out).format == old(out).format,
        final(out).resolution == old(out).resolution,
        final(out).max_color_value == old(out).max_color_value,
{
    let r = quantize_exec(pixel_color.x, samples_per_pixel);
    let g = quantize_exec(pixel_color.y, samples_per_pixel);
    let b = quantize_exec(pixel_color.z, samples_per_pixel);
    out.pixel_color.push((r, g, b));
}

} // verus!
