use vstd::prelude::*;

verus! {

/// An 8-bit single-channel grayscale image with row-major pixel access.
pub struct Raster {
    pub width: usize,
    pub height: usize,
    pub pixels: Vec<u8>,
}

impl Raster {
    /// The buffer holds exactly one byte per pixel, and both dimensions
    /// fit comfortably in 31 bits, as they do for any decodable raster;
    /// the margin keeps every 32-bit index computation of the image
    /// crates' filters in range.
    pub open spec fn wf(&self) -> bool {
        self.pixels@.len() == self.width * self.height
            && self.width <= 0x7fff_ff00
            && self.height <= 0x7fff_ff00
    }

    /// The pixel value at column x, row y.
    pub open spec fn spec_pixel(&self, x: int, y: int) -> u8 {
        self.pixels@[y * self.width + x]
    }

    pub fn new(width: usize, height: usize, pixels: Vec<u8>) -> (r: Raster)
        requires
            pixels@.len() == width * height,
            width <= 0x7fff_ff00,
            height <= 0x7fff_ff00,
        ensures
            r.wf(),
            r.width == width,
            r.height == height,
            r.pixels@ == pixels@,
    {
        Raster { width, height, pixels }
    }

    pub fn get(&self, x: usize, y: usize) -> (r: u8)
        requires
            self.wf(),
            x < self.width,
            y < self.height,
        ensures
            r == self.spec_pixel(x as int, y as int),
    {
        // the buffer length, a usize, bounds the index computation below
        let _n: usize = self.pixels.len();
        proof {
            lemma_row_major_in_bounds(x as int, y as int, self.width as int, self.height as int);
        }
        self.pixels[y * self.width + x]
    }
}

/// Adds a small signed offset to a pixel coordinate.
pub(crate) fn offset_coord(c: usize, d: i32) -> (r: usize)
    requires
        -100 <= d as int <= 100,
        0 <= c as int + d as int <= 0xffff_ffff,
    ensures
        r as int == c as int + d as int,
{
    if d >= 0 {
        c + (d as usize)
    } else {
        c - ((-d) as usize)
    }
}

/// Row-major indexing stays inside a width * height buffer.
pub proof fn lemma_row_major_in_bounds(x: int, y: int, w: int, h: int)
    by (nonlinear_arith)
    requires
        0 <= x < w,
        0 <= y < h,
    ensures
        0 <= y * w + x < w * h,
{
}

} // verus!
