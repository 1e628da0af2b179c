use vstd::prelude::*;

verus! {

/// A decoded grayscale frame: `width * height` 8-bit luminance samples
/// in row-major order, 0 for black up to 255 for white.
pub struct GrayImage {
    pub width: u32,
    pub height: u32,
    pub pixels: Vec<u8>,
}

impl GrayImage {
    /// A well-formed image has at least one pixel in each direction and
    /// one sample for every row-major coordinate.
    pub open spec fn wf(self) -> bool {
        &&& self.width >= 1
        &&& self.height >= 1
        &&& self.pixels@.len() == self.width * self.height
    }

    /// The luminance sample at column `x`, row `y`.
    pub open spec fn sample(self, x: int, y: int) -> u8 {
        self.pixels@[y * self.width + x]
    }

    /// Builds an image from raw row-major samples.  Rejects dimensions
    /// with no pixels and buffers whose length does not match them.
    pub fn new(width: u32, height: u32, pixels: Vec<u8>) -> (r: Option<GrayImage>)
        ensures
            r matches Some(img) ==> img == (GrayImage { width, height, pixels }) && img.wf(),
            r is None <==> !(width >= 1 && height >= 1 && pixels@.len() == width * height),
    {
        proof {
            assert((width as int) * (height as int) < 0x1_0000_0000_0000_0000)
                by (nonlinear_arith)
                requires
                    width < 0x1_0000_0000,
                    height < 0x1_0000_0000,
            ;
        }
        if width >= 1 && height >= 1 && pixels.len() as u64 == (width as u64) * (height as u64) {
            Some(GrayImage { width, height, pixels })
        } else {
            None
        }
    }

    /// Reads the sample at column `x`, row `y`.
    pub fn sample_at(&self, x: u32, y: u32) -> (s: u8)
        requires
            self.wf(),
            x < self.width,
            y < self.height,
        ensures
            s == self.sample(x as int, y as int),
    {
        let n = self.pixels.len();
        proof {
            assert((y as int) * (self.width as int) + (x as int) < (self.width as int) * (self.height as int))
                by (nonlinear_arith)
                requires
                    x < self.width,
                    y < self.height,
            ;
            assert((y as int) * (self.width as int) + (x as int) < n as int);
        }
        let idx: usize = (y as usize) * (self.width as usize) + (x as usize);
        self.pixels[idx]
    }
}

} // verus!
