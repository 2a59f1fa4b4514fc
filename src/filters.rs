use vstd::prelude::*;
use crate::buffer::{PixelBuffer, Raster};
use crate::conv::{conv_values, convolve, Kernel, SignedBuffer};
use crate::functions::{pitagora, saturated_norm};
use crate::modifier::{BoxBlurOptions, SobelOptions, UnsharpMaskingOptions};
use crate::window::{box_blur, box_blur_pixels};

verus! {

/// `v` clamped into `0 ..= 255`.
pub open spec fn clamp_byte(v: int) -> u8 {
    if v < 0 {
        0
    } else if v > 255 {
        255
    } else {
        v as u8
    }
}

/// `v` clamped into the range of `i16`.
pub open spec fn clamp_i16(v: int) -> int {
    if v < -32768 {
        -32768
    } else if v > 32767 {
        32767
    } else {
        v
    }
}

/// Every value clamped into `0 ..= 255`.
pub open spec fn clamp_values(s: Seq<i64>) -> Seq<u8> {
    Seq::new(s.len(), |q: int| clamp_byte(s[q] as int))
}

/// The 3 by 3 Laplace kernel `[[1,1,1],[1,-8,1],[1,1,1]]`.
pub open spec fn laplace_taps() -> (int, Seq<i64>, int) {
    (3, seq![1i64, 1, 1, 1, -8i64, 1, 1, 1, 1], 1)
}

/// The horizontal Sobel kernel `[[1,0,-1],[2,0,-2],[1,0,-1]]`.
pub open spec fn sobel_horizontal_taps() -> (int, Seq<i64>, int) {
    (3, seq![1i64, 0, -1i64, 2, 0, -2i64, 1, 0, -1i64], 1)
}

/// The vertical Sobel kernel `[[1,2,1],[0,0,0],[-1,-2,-1]]`.
pub open spec fn sobel_vertical_taps() -> (int, Seq<i64>, int) {
    (3, seq![1i64, 2, 1, 0, 0, 0, -1i64, -2i64, -1i64], 1)
}

/// Laplace: the Laplace convolution clamped into `0 ..= 255`.
pub open spec fn laplace_pixels(img: Raster) -> Seq<u8> {
    clamp_values(conv_values(img, laplace_taps()))
}

/// Sharpening: each color channel minus its Laplace response, clamped.
pub open spec fn sharpening_pixels(img: Raster) -> Seq<u8> {
    let l = conv_values(img, laplace_taps());
    Seq::new(
        img.2.len(),
        |q: int|
            if q % 4 == 3 {
                img.2[q]
            } else {
                clamp_byte(img.2[q] - l[q])
            },
    )
}

/// Gaussian blur: the convolution with the given kernel, clamped.
pub open spec fn gaussian_pixels(img: Raster, k: (int, Seq<i64>, int)) -> Seq<u8> {
    clamp_values(conv_values(img, k))
}

/// Unsharp masking: each color channel `2 * c - blur(c)`, clamped.
pub open spec fn unsharp_pixels(img: Raster, size: u8) -> Seq<u8> {
    let b = box_blur_pixels(img, size);
    Seq::new(
        img.2.len(),
        |q: int|
            if q % 4 == 3 {
                img.2[q]
            } else {
                clamp_byte(2 * img.2[q] - b[q])
            },
    )
}

/// Sobel: each enabled gradient alone is clamped; both together combine as the
/// rounded length of the gradient vector; neither leaves the image as it is.
pub open spec fn sobel_pixels(img: Raster, o: SobelOptions) -> Seq<u8> {
    let h = conv_values(img, sobel_horizontal_taps());
    let v = conv_values(img, sobel_vertical_taps());
    if o.horizontal && o.vertical {
        Seq::new(
            img.2.len(),
            |q: int|
                if q % 4 == 3 {
                    clamp_byte(h[q] as int)
                } else {
                    clamp_byte(saturated_norm(clamp_i16(h[q] as int), clamp_i16(v[q] as int)))
                },
        )
    } else if o.horizontal {
        clamp_values(h)
    } else if o.vertical {
        clamp_values(v)
    } else {
        img.2
    }
}

fn clamp_to_byte(v: i64) -> (r: u8)
    ensures
        r == clamp_byte(v as int),
{
    if v < 0 {
        0
    } else if v > 255 {
        255
    } else {
        v as u8
    }
}

fn clamp_to_i16(v: i64) -> (r: i16)
    ensures
        r == clamp_i16(v as int),
{
    if v < -32768 {
        -32768
    } else if v > 32767 {
        32767
    } else {
        v as i16
    }
}

fn clamp_all(s: &SignedBuffer) -> (r: PixelBuffer)
    requires
        s.wf(),
    ensures
        r.wf(),
        r.width == s.width,
        r.height == s.height,
        r.pixels@ == clamp_values(s.values@),
{
    let n = s.values.len();
    let mut out: Vec<u8> = Vec::with_capacity(n);
    let mut i: usize = 0;
    while i < n
        invariant
            n == s.values@.len(),
            i <= n,
            out@.len() == i,
            forall|q: int| 0 <= q < i ==> out@[q] == #[trigger] clamp_values(s.values@)[q],
        decreases n - i,
    {
        out.push(clamp_to_byte(s.values[i]));
        i = i + 1;
    }
    assert(out@ =~= clamp_values(s.values@));
    PixelBuffer { width: s.width, height: s.height, pixels: out }
}

fn laplace_kernel() -> (k: Kernel)
    ensures
        k.wf(),
        k@ == laplace_taps(),
{
    let k = Kernel { side: 3, weights: vec![1, 1, 1, 1, -8, 1, 1, 1, 1], divisor: 1 };
    assert(k.weights@ =~= laplace_taps().1);
    k
}

fn sobel_horizontal_kernel() -> (k: Kernel)
    ensures
        k.wf(),
        k@ == sobel_horizontal_taps(),
{
    let k = Kernel { side: 3, weights: vec![1, 0, -1, 2, 0, -2, 1, 0, -1], divisor: 1 };
    assert(k.weights@ =~= sobel_horizontal_taps().1);
    k
}

fn sobel_vertical_kernel() -> (k: Kernel)
    ensures
        k.wf(),
        k@ == sobel_vertical_taps(),
{
    let k = Kernel { side: 3, weights: vec![1, 2, 1, 0, 0, 0, -1, -2, -1], divisor: 1 };
    assert(k.weights@ =~= sobel_vertical_taps().1);
    k
}

/// Laplace kernel: the 3 by 3 Laplace convolution, edge-clamped, then clamped
/// into `0 ..= 255`.
pub fn laplace(img: &PixelBuffer) -> (r: PixelBuffer)
    requires
        img.wf(),
    ensures
        r.wf(),
        r.width == img.width,
        r.height == img.height,
        r.pixels@ == laplace_pixels(img@),
{
    let k = laplace_kernel();
    let l = convolve(&k, img);
    clamp_all(&l)
}

/// Sharpening kernel: `clamp(c - laplace(c))` on every color channel.
pub fn sharpening(img: &PixelBuffer) -> (r: PixelBuffer)
    requires
        img.wf(),
    ensures
        r.wf(),
        r.width == img.width,
        r.height == img.height,
        r.pixels@ == sharpening_pixels(img@),
{
    let k = laplace_kernel();
    let l = convolve(&k, img);
    let n = img.pixels.len();
    let mut out: Vec<u8> = Vec::with_capacity(n);
    let mut i: usize = 0;
    while i < n
        invariant
            img.wf(),
            l.values@ == conv_values(img@, laplace_taps()),
            n == img.pixels@.len(),
            i <= n,
            out@.len() == i,
            forall|q: int| 0 <= q < i ==> out@[q] == #[trigger] sharpening_pixels(img@)[q],
        decreases n - i,
    {
        if i % 4 == 3 {
            out.push(img.pixels[i]);
        } else {
            let lv = l.values[i];
            // beyond 1000 either way the difference clamps to the same end
            let v = if lv < -1000 {
                255
            } else if lv > 1000 {
                0
            } else {
                clamp_to_byte(img.pixels[i] as i64 - lv)
            };
            out.push(v);
        }
        i = i + 1;
    }
    assert(out@ =~= sharpening_pixels(img@));
    PixelBuffer { width: img.width, height: img.height, pixels: out }
}

/// Gaussian blur kernel: the convolution with a caller-built Gaussian kernel,
/// edge-clamped, then clamped into `0 ..= 255`.
pub fn gaussian_blur(kernel: &Kernel, img: &PixelBuffer) -> (r: PixelBuffer)
    requires
        img.wf(),
        kernel.wf(),
    ensures
        r.wf(),
        r.width == img.width,
        r.height == img.height,
        r.pixels@ == gaussian_pixels(img@, kernel@),
{
    let g = convolve(kernel, img);
    clamp_all(&g)
}

/// Unsharp masking kernel: `clamp(2 * c - box_blur(c))` on every color channel.
pub fn unsharp_masking(opts: UnsharpMaskingOptions, img: &PixelBuffer) -> (r: PixelBuffer)
    requires
        img.wf(),
    ensures
        r.wf(),
        r.width == img.width,
        r.height == img.height,
        r.pixels@ == unsharp_pixels(img@, opts.blur_size),
{
    let b = box_blur(BoxBlurOptions { size: opts.blur_size }, img);
    let n = img.pixels.len();
    let mut out: Vec<u8> = Vec::with_capacity(n);
    let mut i: usize = 0;
    while i < n
        invariant
            img.wf(),
            b.pixels@ == box_blur_pixels(img@, opts.blur_size),
            n == img.pixels@.len(),
            i <= n,
            out@.len() == i,
            forall|q: int|
                0 <= q < i ==> out@[q] == #[trigger] unsharp_pixels(img@, opts.blur_size)[q],
        decreases n - i,
    {
        if i % 4 == 3 {
            out.push(img.pixels[i]);
        } else {
            out.push(clamp_to_byte(2 * (img.pixels[i] as i64) - b.pixels[i] as i64));
        }
        i = i + 1;
    }
    assert(out@ =~= unsharp_pixels(img@, opts.blur_size));
    PixelBuffer { width: img.width, height: img.height, pixels: out }
}

/// Sobel kernel: horizontal and vertical gradients, each enabled on its own.
pub fn sobel(opts: SobelOptions, img: &PixelBuffer) -> (r: PixelBuffer)
    requires
        img.wf(),
    ensures
        r.wf(),
        r.width == img.width,
        r.height == img.height,
        r.pixels@ == sobel_pixels(img@, opts),
{
    if opts.horizontal && opts.vertical {
        let kh = sobel_horizontal_kernel();
        let kv = sobel_vertical_kernel();
        let h = convolve(&kh, img);
        let v = convolve(&kv, img);
        let n = img.pixels.len();
        let mut out: Vec<u8> = Vec::with_capacity(n);
        let mut i: usize = 0;
        while i < n
            invariant
                img.wf(),
                opts.horizontal && opts.vertical,
                h.values@ == conv_values(img@, sobel_horizontal_taps()),
                v.values@ == conv_values(img@, sobel_vertical_taps()),
                n == img.pixels@.len(),
                i <= n,
                out@.len() == i,
                forall|q: int| 0 <= q < i ==> out@[q] == #[trigger] sobel_pixels(img@, opts)[q],
            decreases n - i,
        {
            if i % 4 == 3 {
                out.push(clamp_to_byte(h.values[i]));
            } else {
                let m = pitagora(clamp_to_i16(h.values[i]), clamp_to_i16(v.values[i]));
                out.push(clamp_to_byte(m as i64));
            }
            i = i + 1;
        }
        assert(out@ =~= sobel_pixels(img@, opts));
        PixelBuffer { width: img.width, height: img.height, pixels: out }
    } else if opts.horizontal {
        let kh = sobel_horizontal_kernel();
        let h = convolve(&kh, img);
        clamp_all(&h)
    } else if opts.vertical {
        let kv = sobel_vertical_kernel();
        let v = convolve(&kv, img);
        clamp_all(&v)
    } else {
        PixelBuffer { width: img.width, height: img.height, pixels: img.pixels.clone() }
    }
}

} // verus!
