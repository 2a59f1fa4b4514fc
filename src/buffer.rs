use vstd::prelude::*;

verus! {

/// Width, height and the RGBA bytes of an image.
pub type Raster = (u32, u32, Seq<u8>);

/// Channel `c` of the pixel in column `x`, row `y` of a raster.
pub open spec fn raster_at(r: Raster, x: int, y: int, c: int) -> u8 {
    r.2[(y * r.0 + x) * 4 + c]
}

/// Whether a raster holds exactly four channels for every pixel.
pub open spec fn raster_wf(r: Raster) -> bool {
    r.2.len() == r.0 as int * r.1 as int * 4
}

/// A fixed-size RGBA raster, four bytes per pixel, rows top to bottom.
#[derive(Debug, Clone, PartialEq, Eq)]
pub struct PixelBuffer {
    pub width: u32,
    pub height: u32,
    pub pixels: Vec<u8>,
}

impl View for PixelBuffer {
    type V = Raster;

    open spec fn view(&self) -> Raster {
        (self.width, self.height, self.pixels@)
    }
}

impl PixelBuffer {
    /// The pixel array holds exactly four channels for every pixel.
    pub open spec fn wf(&self) -> bool {
        self.pixels@.len() == self.width as int * self.height as int * 4
    }

    /// Wraps a raw RGBA array; `None` when its length does not match the size.
    pub fn from_raw(width: u32, height: u32, pixels: Vec<u8>) -> (r: Option<PixelBuffer>)
        ensures
            r is Some <==> pixels@.len() == width as int * height as int * 4,
            r matches Some(b) ==> b.width == width && b.height == height && b.pixels@
                == pixels@,
    {
        let w = width as u64;
        let h = height as u64;
        proof {
            assert(w * h <= 0xffff_ffff * 0xffff_ffff) by (nonlinear_arith)
                requires
                    w <= 0xffff_ffff,
                    h <= 0xffff_ffff,
            ;
        }
        let n = w * h;
        let len = pixels.len();
        if n > (usize::MAX / 4) as u64 {
            None
        } else if len as u64 == n * 4 {
            Some(PixelBuffer { width, height, pixels })
        } else {
            None
        }
    }
}

/// Where pixel `(x, y)` lies inside a well-formed buffer.
pub proof fn lemma_index_in_bounds(w: int, h: int, x: int, y: int)
    requires
        0 <= x < w,
        0 <= y < h,
    ensures
        0 <= (y * w + x) * 4,
        (y * w + x) * 4 + 4 <= w * h * 4,
        y * w + x < w * h,
{
    assert(y * w + x < w * h) by (nonlinear_arith)
        requires
            0 <= x < w,
            0 <= y < h,
    ;
    assert(0 <= y * w) by (nonlinear_arith)
        requires
            0 <= x < w,
            0 <= y < h,
    ;
}

/// The offset of the first channel of pixel `(x, y)`.
pub(crate) fn pixel_index(img: &PixelBuffer, x: usize, y: usize) -> (r: usize)
    requires
        img.wf(),
        x < img.width,
        y < img.height,
    ensures
        r == (y * img.width + x) * 4,
        r + 4 <= img.pixels@.len(),
{
    let _len = img.pixels.len();
    proof {
        lemma_index_in_bounds(img.width as int, img.height as int, x as int, y as int);
    }
    (y * (img.width as usize) + x) * 4
}

} // verus!
