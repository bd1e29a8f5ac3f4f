//! The image buffer: a header and one color triple per pixel.
use vstd::prelude::*;

verus! {

/// A raster image of 8-bit color triples, in scan order.
pub struct Output {
    pub format: String,
    pub resolution: (u32, u32),
    pub max_color_value: u32,
    pub pixel_color: Vec<(u32, u32, u32)>,
}

/// The color that `init_pixel_color` fills the image with.
pub open spec fn fill_color() -> (u32, u32, u32) {
    (150, 5, 15)
}

impl Output {
    /// An empty 800 x 600 image in the plain-text PPM format (magic token `P3`).
    pub fn new() -> (r: Output)
        ensures
            r.format@ == "P3"@,
            r.resolution == (800u32, 600u32),
            r.max_color_value == 255,
            r.pixel_color@ == Seq::<(u32, u32, u32)>::empty(),
    {
        Output {
            format: "P3".to_owned(),
            resolution: (800, 600),
            max_color_value: 255,
            pixel_color: Vec::new(),
        }
    }

    /// Appends one pixel of the fill color per pixel of the resolution.
    pub fn init_pixel_color(&mut self)
        requires
            old(self).resolution.0 * old(self).resolution.1 <= u32::MAX,
            old(self).pixel_color@.len() + old(self).resolution.0 * old(self).resolution.1 <= usize::MAX,
        ensures
            final(self).pixel_color@ == old(self).pixel_color@ + Seq::new(
                (old(self).resolution.0 * old(self).resolution.1) as nat,
                |i: int| fill_color(),
            ),
            final(self).format == old(self).format,
            final(self).resolution == old(self).resolution,
            final(self).max_color_value == old(self).max_color_value,
    {
        let n: u32 = self.resolution.0 * self.resolution.1;
        let ghost start = self.pixel_color@;
        let mut k: u32 = 0;
        while k < n
            invariant
                0 <= k <= n,
                n == old(self).resolution.0 * old(self).resolution.1,
                start == old(self).pixel_color@,
                start.len() + n <= usize::MAX,
                self.pixel_color@ == start + Seq::new(k as nat, |i: int| fill_color()),
                self.format == old(self).format,
                self.resolution == old(self).resolution,
                self.max_color_value == old(self).max_color_value,
            decreases n - k,
        {
            self.pixel_color.push((150, 5, 15));
            k += 1;
            assert(self.pixel_color@ =~= start + Seq::new(k as nat, |i: int| fill_color()));
        }
    }
}

} // verus!
