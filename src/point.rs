use vstd::prelude::*;
use crate::buffer::PixelBuffer;
use crate::modifier::{
    default_grayscale, ChannelOptions, GrayscaleOptions, NegativeOptions, ThresholdingOptions,
};

verus! {

/// `num / den` rounded half away from zero, for `num >= 0` and `den > 0`.
pub open spec fn div_round(num: int, den: int) -> int {
    (2 * num + den) / (2 * den)
}

/// The weighted luma of one pixel, or `None` when all weights are zero.
pub open spec fn luma(o: GrayscaleOptions, r: u8, g: u8, b: u8) -> Option<u8> {
    let sum = o.red_weight + o.green_weight + o.blue_weight;
    if sum == 0 {
        None
    } else {
        Some(
            div_round(o.red_weight * r + o.green_weight * g + o.blue_weight * b, sum) as u8,
        )
    }
}

/// Grayscale: the luma replicated into red, green and blue; alpha kept. With
/// all weights zero the pixels are left as they are.
pub open spec fn grayscale_pixels(s: Seq<u8>, o: GrayscaleOptions) -> Seq<u8> {
    Seq::new(
        s.len(),
        |k: int|
            {
                let base = k - k % 4;
                match luma(o, s[base], s[base + 1], s[base + 2]) {
                    Some(v) if k % 4 != 3 => v,
                    _ => s[k],
                }
            },
    )
}

/// Negative: every color channel `c` becomes `255 - c`; alpha kept.
pub open spec fn invert_pixels(s: Seq<u8>) -> Seq<u8> {
    Seq::new(s.len(), |k: int| if k % 4 == 3 { s[k] } else { (255 - s[k]) as u8 })
}

/// Thresholding: a color channel below `t` becomes 0, any other 255; alpha kept.
pub open spec fn threshold_pixels(s: Seq<u8>, t: u8) -> Seq<u8> {
    Seq::new(
        s.len(),
        |k: int|
            if k % 4 == 3 {
                s[k]
            } else if t > s[k] {
                0u8
            } else {
                255u8
            },
    )
}

/// One channel scaled by `weight` percent, rounded and capped at 255, or 0
/// when the channel is disabled.
pub open spec fn scale_channel(enabled: bool, weight: u8, v: u8) -> u8 {
    if !enabled {
        0
    } else if div_round(v * weight, 100) > 255 {
        255
    } else {
        div_round(v * weight, 100) as u8
    }
}

/// Channels: each color channel scaled by its own weight; alpha kept.
pub open spec fn channel_pixels(s: Seq<u8>, o: ChannelOptions) -> Seq<u8> {
    Seq::new(
        s.len(),
        |k: int|
            if k % 4 == 0 {
                scale_channel(o.red_enabled, o.red_weight, s[k])
            } else if k % 4 == 1 {
                scale_channel(o.green_enabled, o.green_weight, s[k])
            } else if k % 4 == 2 {
                scale_channel(o.blue_enabled, o.blue_weight, s[k])
            } else {
                s[k]
            },
    )
}

/// Tone curve: every color channel `c` becomes `curve[c]`; alpha kept.
pub open spec fn curve_pixels(s: Seq<u8>, curve: Seq<u8>) -> Seq<u8> {
    Seq::new(s.len(), |k: int| if k % 4 == 3 { s[k] } else { curve[s[k] as int] })
}

/// The image-level result of the negative kernel.
pub open spec fn negative_pixels(s: Seq<u8>, o: NegativeOptions) -> Seq<u8> {
    if o.grayscale {
        invert_pixels(grayscale_pixels(s, default_grayscale()))
    } else {
        invert_pixels(s)
    }
}

/// The image-level result of the thresholding kernel.
pub open spec fn thresholding_pixels(s: Seq<u8>, o: ThresholdingOptions) -> Seq<u8> {
    if o.grayscale {
        threshold_pixels(grayscale_pixels(s, default_grayscale()), o.threshold)
    } else {
        threshold_pixels(s, o.threshold)
    }
}

proof fn lemma_byte_product(a: u8, b: u8)
    ensures
        0 <= a * b <= 255 * 255,
{
    assert(0 <= a * b <= 255 * 255) by (nonlinear_arith)
        requires
            a <= 255,
            b <= 255,
    ;
}

fn luma_of(o: GrayscaleOptions, r: u8, g: u8, b: u8) -> (v: Option<u8>)
    ensures
        v == luma(o, r, g, b),
{
    let sum: u32 = o.red_weight as u32 + o.green_weight as u32 + o.blue_weight as u32;
    if sum == 0 {
        return None;
    }
    proof {
        lemma_byte_product(o.red_weight, r);
        lemma_byte_product(o.green_weight, g);
        lemma_byte_product(o.blue_weight, b);
    }
    let num: u32 = o.red_weight as u32 * r as u32 + o.green_weight as u32 * g as u32
        + o.blue_weight as u32 * b as u32;
    proof {
        assert(num <= 255 * sum) by (nonlinear_arith)
            requires
                num == o.red_weight * r + o.green_weight * g + o.blue_weight * b,
                sum == o.red_weight + o.green_weight + o.blue_weight,
                r <= 255,
                g <= 255,
                b <= 255,
        ;
        assert((2 * num + sum) / (2 * sum) <= 255) by (nonlinear_arith)
            requires
                num <= 255 * sum,
                sum > 0,
        ;
    }
    Some(((2 * num + sum) / (2 * sum)) as u8)
}

/// Grayscale kernel: weighted luma `round((Rw*R + Gw*G + Bw*B) / (Rw + Gw + Bw))`.
pub fn grayscale(opts: GrayscaleOptions, img: &PixelBuffer) -> (r: PixelBuffer)
    requires
        img.wf(),
    ensures
        r.wf(),
        r.width == img.width,
        r.height == img.height,
        r.pixels@ == grayscale_pixels(img.pixels@, opts),
{
    let s = &img.pixels;
    let n = s.len();
    let mut out: Vec<u8> = Vec::with_capacity(n);
    let mut i: usize = 0;
    while i < n
        invariant
            n == s@.len(),
            n % 4 == 0,
            i % 4 == 0,
            i <= n,
            out@.len() == i,
            forall|k: int| 0 <= k < i ==> out@[k] == #[trigger] grayscale_pixels(s@, opts)[k],
        decreases n - i,
    {
        let v = luma_of(opts, s[i], s[i + 1], s[i + 2]);
        match v {
            Some(v) => {
                out.push(v);
                out.push(v);
                out.push(v);
            },
            None => {
                out.push(s[i]);
                out.push(s[i + 1]);
                out.push(s[i + 2]);
            },
        }
        out.push(s[i + 3]);
        i = i + 4;
    }
    assert(out@ =~= grayscale_pixels(s@, opts));
    PixelBuffer { width: img.width, height: img.height, pixels: out }
}

fn invert(img: &PixelBuffer) -> (r: PixelBuffer)
    requires
        img.wf(),
    ensures
        r.wf(),
        r.width == img.width,
        r.height == img.height,
        r.pixels@ == invert_pixels(img.pixels@),
{
    let s = &img.pixels;
    let n = s.len();
    let mut out: Vec<u8> = Vec::with_capacity(n);
    let mut i: usize = 0;
    while i < n
        invariant
            n == s@.len(),
            n % 4 == 0,
            i % 4 == 0,
            i <= n,
            out@.len() == i,
            forall|k: int| 0 <= k < i ==> out@[k] == #[trigger] invert_pixels(s@)[k],
        decreases n - i,
    {
        out.push(255 - s[i]);
        out.push(255 - s[i + 1]);
        out.push(255 - s[i + 2]);
        out.push(s[i + 3]);
        i = i + 4;
    }
    assert(out@ =~= invert_pixels(s@));
    PixelBuffer { width: img.width, height: img.height, pixels: out }
}

/// Negative kernel: optionally grayscale with the default weights, then
/// `255 - c` on every color channel.
pub fn negative(opts: NegativeOptions, img: &PixelBuffer) -> (r: PixelBuffer)
    requires
        img.wf(),
    ensures
        r.wf(),
        r.width == img.width,
        r.height == img.height,
        r.pixels@ == negative_pixels(img.pixels@, opts),
{
    if opts.grayscale {
        let g = grayscale(GrayscaleOptions::default(), img);
        invert(&g)
    } else {
        invert(img)
    }
}

fn threshold(t: u8, img: &PixelBuffer) -> (r: PixelBuffer)
    requires
        img.wf(),
    ensures
        r.wf(),
        r.width == img.width,
        r.height == img.height,
        r.pixels@ == threshold_pixels(img.pixels@, t),
{
    let s = &img.pixels;
    let n = s.len();
    let mut out: Vec<u8> = Vec::with_capacity(n);
    let mut i: usize = 0;
    while i < n
        invariant
            n == s@.len(),
            n % 4 == 0,
            i % 4 == 0,
            i <= n,
            out@.len() == i,
            forall|k: int| 0 <= k < i ==> out@[k] == #[trigger] threshold_pixels(s@, t)[k],
        decreases n - i,
    {
        out.push(if t > s[i] { 0 } else { 255 });
        out.push(if t > s[i + 1] { 0 } else { 255 });
        out.push(if t > s[i + 2] { 0 } else { 255 });
        out.push(s[i + 3]);
        i = i + 4;
    }
    assert(out@ =~= threshold_pixels(s@, t));
    PixelBuffer { width: img.width, height: img.height, pixels: out }
}

/// Thresholding kernel: optionally grayscale with the default weights, then
/// each color channel becomes 0 below the threshold and 255 otherwise.
pub fn thresholding(opts: ThresholdingOptions, img: &PixelBuffer) -> (r: PixelBuffer)
    requires
        img.wf(),
    ensures
        r.wf(),
        r.width == img.width,
        r.height == img.height,
        r.pixels@ == thresholding_pixels(img.pixels@, opts),
{
    if opts.grayscale {
        let g = grayscale(GrayscaleOptions::default(), img);
        threshold(opts.threshold, &g)
    } else {
        threshold(opts.threshold, img)
    }
}

fn scale(enabled: bool, weight: u8, v: u8) -> (r: u8)
    ensures
        r == scale_channel(enabled, weight, v),
{
    if !enabled {
        return 0;
    }
    proof {
        lemma_byte_product(v, weight);
    }
    let x: u32 = (2 * ((v as u32) * (weight as u32)) + 100) / 200;
    if x > 255 {
        255
    } else {
        x as u8
    }
}

/// Channels kernel: each enabled color channel becomes
/// `min(round(c * weight / 100), 255)`, each disabled one 0.
pub fn channels(opts: ChannelOptions, img: &PixelBuffer) -> (r: PixelBuffer)
    requires
        img.wf(),
    ensures
        r.wf(),
        r.width == img.width,
        r.height == img.height,
        r.pixels@ == channel_pixels(img.pixels@, opts),
{
    let s = &img.pixels;
    let n = s.len();
    let mut out: Vec<u8> = Vec::with_capacity(n);
    let mut i: usize = 0;
    while i < n
        invariant
            n == s@.len(),
            n % 4 == 0,
            i % 4 == 0,
            i <= n,
            out@.len() == i,
            forall|k: int| 0 <= k < i ==> out@[k] == #[trigger] channel_pixels(s@, opts)[k],
        decreases n - i,
    {
        out.push(scale(opts.red_enabled, opts.red_weight, s[i]));
        out.push(scale(opts.green_enabled, opts.green_weight, s[i + 1]));
        out.push(scale(opts.blue_enabled, opts.blue_weight, s[i + 2]));
        out.push(s[i + 3]);
        i = i + 4;
    }
    assert(out@ =~= channel_pixels(s@, opts));
    PixelBuffer { width: img.width, height: img.height, pixels: out }
}

/// Lightness correction through a tone curve of 256 entries: every color
/// channel `c` becomes `curve[c]`.
pub fn lightness_correction(curve: &Vec<u8>, img: &PixelBuffer) -> (r: PixelBuffer)
    requires
        img.wf(),
        curve@.len() == 256,
    ensures
        r.wf(),
        r.width == img.width,
        r.height == img.height,
        r.pixels@ == curve_pixels(img.pixels@, curve@),
{
    let s = &img.pixels;
    let n = s.len();
    let mut out: Vec<u8> = Vec::with_capacity(n);
    let mut i: usize = 0;
    while i < n
        invariant
            n == s@.len(),
            n % 4 == 0,
            i % 4 == 0,
            i <= n,
            curve@.len() == 256,
            out@.len() == i,
            forall|k: int| 0 <= k < i ==> out@[k] == #[trigger] curve_pixels(s@, curve@)[k],
        decreases n - i,
    {
        out.push(curve[s[i] as usize]);
        out.push(curve[s[i + 1] as usize]);
        out.push(curve[s[i + 2] as usize]);
        out.push(s[i + 3]);
        i = i + 4;
    }
    assert(out@ =~= curve_pixels(s@, curve@));
    PixelBuffer { width: img.width, height: img.height, pixels: out }
}

/// Negative without grayscale undoes itself: applying it twice gives back
/// every byte of the image.
pub proof fn lemma_negative_involution(s: Seq<u8>, o: NegativeOptions)
    requires
        !o.grayscale,
    ensures
        negative_pixels(negative_pixels(s, o), o) == s,
{
    assert(invert_pixels(invert_pixels(s)) =~= s);
}

/// Every color channel that thresholding produces is 0 or 255.
pub proof fn lemma_threshold_binary(s: Seq<u8>, o: ThresholdingOptions)
    ensures
        thresholding_pixels(s, o).len() == s.len(),
        forall|k: int|
            0 <= k < s.len() && k % 4 != 3 ==> #[trigger] thresholding_pixels(s, o)[k] == 0
                || thresholding_pixels(s, o)[k] == 255,
{
}

} // verus!
