use vstd::prelude::*;
use crate::buffer::{PixelBuffer, Raster};
use crate::conv::Kernel;
use crate::filters::{
    gaussian_blur, gaussian_pixels, laplace, laplace_pixels, sharpening, sharpening_pixels, sobel,
    sobel_pixels, unsharp_masking, unsharp_pixels,
};
use crate::modifier::Modifier;
use crate::point::{
    channel_pixels, channels, curve_pixels, grayscale, grayscale_pixels, lightness_correction,
    negative, negative_pixels, thresholding, thresholding_pixels,
};
use crate::window::{box_blur, box_blur_pixels, median_blur, median_blur_pixels};

verus! {

/// What a modifier needs that is computed in floating point before the chain
/// runs: the tone curve of a lightness correction (256 entries), or the
/// fixed-point kernel of a Gaussian blur.
#[derive(Debug, Clone)]
pub enum Precomputed {
    Nothing,
    Curve(Vec<u8>),
    Kernel(Kernel),
}

/// Whether `p` supplies what `m` needs.
pub open spec fn fits(m: Modifier, p: Precomputed) -> bool {
    match m {
        Modifier::LightnessCorrection(_) => p matches Precomputed::Curve(c) && c@.len() == 256,
        Modifier::GaussianBlur(_) => p matches Precomputed::Kernel(k) && k.wf(),
        _ => true,
    }
}

/// The image that one modifier makes of `img`.
pub open spec fn step(img: Raster, m: Modifier, p: Precomputed) -> Raster {
    let px = match m {
        Modifier::Negative(o) => negative_pixels(img.2, o),
        Modifier::Thresholding(o) => thresholding_pixels(img.2, o),
        Modifier::Grayscale(o) => grayscale_pixels(img.2, o),
        Modifier::Channels(o) => channel_pixels(img.2, o),
        Modifier::LightnessCorrection(_) => match p {
            Precomputed::Curve(c) => curve_pixels(img.2, c@),
            _ => img.2,
        },
        Modifier::BoxBlur(o) => box_blur_pixels(img, o.size),
        Modifier::GaussianBlur(_) => match p {
            Precomputed::Kernel(k) => gaussian_pixels(img, k@),
            _ => img.2,
        },
        Modifier::MedianBlur(o) => median_blur_pixels(img, o.size),
        Modifier::Sobel(o) => sobel_pixels(img, o),
        Modifier::Laplace => laplace_pixels(img),
        Modifier::Sharpening => sharpening_pixels(img),
        Modifier::UnsharpMasking(o) => unsharp_pixels(img, o.blur_size),
    };
    (img.0, img.1, px)
}

/// The image after the first `n` modifiers of the chain, in order, starting
/// from `base`.
pub open spec fn run(base: Raster, mods: Seq<Modifier>, aux: Seq<Precomputed>, n: nat) -> Raster
    decreases n,
{
    if n == 0 {
        base
    } else {
        step(run(base, mods, aux, (n - 1) as nat), mods[n - 1], aux[n - 1])
    }
}

/// Whether every modifier of the chain has what it needs.
pub open spec fn chain_fits(mods: Seq<Modifier>, aux: Seq<Precomputed>) -> bool {
    &&& aux.len() == mods.len()
    &&& forall|i: int| 0 <= i < mods.len() ==> fits(#[trigger] mods[i], aux[i])
}

/// Applies one modifier to an image.
pub fn apply_modifier(m: Modifier, p: &Precomputed, img: &PixelBuffer) -> (r: PixelBuffer)
    requires
        img.wf(),
        fits(m, *p),
    ensures
        r.wf(),
        r@ == step(img@, m, *p),
{
    match m {
        Modifier::Negative(o) => negative(o, img),
        Modifier::Thresholding(o) => thresholding(o, img),
        Modifier::Grayscale(o) => grayscale(o, img),
        Modifier::Channels(o) => channels(o, img),
        Modifier::LightnessCorrection(_) => match p {
            Precomputed::Curve(c) => lightness_correction(c, img),
            _ => copy_buffer(img),
        },
        Modifier::BoxBlur(o) => box_blur(o, img),
        Modifier::GaussianBlur(_) => match p {
            Precomputed::Kernel(k) => gaussian_blur(k, img),
            _ => copy_buffer(img),
        },
        Modifier::MedianBlur(o) => median_blur(o, img),
        Modifier::Sobel(o) => sobel(o, img),
        Modifier::Laplace => laplace(img),
        Modifier::Sharpening => sharpening(img),
        Modifier::UnsharpMasking(o) => unsharp_masking(o, img),
    }
}

/// A fresh buffer holding the same image.
pub fn copy_buffer(img: &PixelBuffer) -> (r: PixelBuffer)
    ensures
        r@ == img@,
{
    let pixels = img.pixels.clone();
    assert(pixels@ =~= img.pixels@);
    PixelBuffer { width: img.width, height: img.height, pixels }
}

/// The pipeline engine: runs the whole chain on `base`, in list order, every
/// time from the base image.
pub fn apply(base: &PixelBuffer, modifiers: &Vec<Modifier>, aux: &Vec<Precomputed>) -> (r: PixelBuffer)
    requires
        base.wf(),
        chain_fits(modifiers@, aux@),
    ensures
        r.wf(),
        r@ == run(base@, modifiers@, aux@, modifiers@.len()),
{
    let mut img = copy_buffer(base);
    let mut i: usize = 0;
    while i < modifiers.len()
        invariant
            chain_fits(modifiers@, aux@),
            i <= modifiers@.len(),
            img.wf(),
            img@ == run(base@, modifiers@, aux@, i as nat),
        decreases modifiers@.len() - i,
    {
        img = apply_modifier(modifiers[i], &aux[i], &img);
        i = i + 1;
    }
    img
}

} // verus!
