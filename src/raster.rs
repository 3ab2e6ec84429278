//! An RGBA raster: width, height and four bytes per pixel, row by row.

use vstd::prelude::*;

verus! {

/// A decoded image. `data` holds `width * height` pixels of four bytes
/// (red, green, blue, alpha), row-major.
#[derive(Debug)]
pub struct RasterImage {
    pub width: u32,
    pub height: u32,
    pub data: Vec<u8>,
}

impl RasterImage {
    /// The buffer holds exactly four bytes for each pixel.
    pub open spec fn wf(&self) -> bool {
        self.data@.len() == self.width as int * self.height as int * 4
    }

    /// Byte `c` (0 red, 1 green, 2 blue, 3 alpha) of the pixel at `(x, y)`.
    pub open spec fn byte_at(&self, x: int, y: int, c: int) -> u8 {
        self.data@[(y * self.width + x) * 4 + c]
    }

    /// A copy of the image.
    pub fn copy(&self) -> (r: RasterImage)
        ensures
            r.width == self.width,
            r.height == self.height,
            r.data@ == self.data@,
    {
        RasterImage { width: self.width, height: self.height, data: self.data.clone() }
    }
}

} // verus!
