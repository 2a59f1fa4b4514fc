use vstd::prelude::*;
use crate::buffer::{pixel_index, raster_at, PixelBuffer, Raster};
use crate::window::lemma_coords;

verus! {

/// Largest magnitude of a kernel weight.
pub const MAX_WEIGHT: i64 = 1048576;

/// A square convolution kernel of odd side, row-major weights, and a
/// positive divisor applied to each weighted sum (fixed-point weights).
#[derive(Debug, Clone, PartialEq, Eq)]
pub struct Kernel {
    pub side: usize,
    pub weights: Vec<i64>,
    pub divisor: i64,
}

impl Kernel {
    pub open spec fn wf(&self) -> bool {
        &&& self.side % 2 == 1
        &&& self.side <= 255
        &&& self.weights@.len() == self.side * self.side
        &&& 1 <= self.divisor <= MAX_WEIGHT
        &&& forall|i: int|
            0 <= i < self.weights@.len() ==> -MAX_WEIGHT <= #[trigger] self.weights@[i]
                <= MAX_WEIGHT
    }

}

impl View for Kernel {
    /// Side, row-major weights and divisor.
    type V = (int, Seq<i64>, int);

    open spec fn view(&self) -> (int, Seq<i64>, int) {
        (self.side as int, self.weights@, self.divisor as int)
    }
}

/// A raster of signed channel values, the raw result of a convolution.
#[derive(Debug, Clone, PartialEq, Eq)]
pub struct SignedBuffer {
    pub width: u32,
    pub height: u32,
    pub values: Vec<i64>,
}

impl SignedBuffer {
    pub open spec fn wf(&self) -> bool {
        self.values@.len() == self.width as int * self.height as int * 4
    }
}

/// `v` moved onto the nearest of `0 .. n - 1`.
pub open spec fn clamp_coord(v: int, n: int) -> int {
    if v < 0 {
        0
    } else if v >= n {
        n - 1
    } else {
        v
    }
}

/// `v / d` rounded half away from zero, for `d > 0`.
pub open spec fn div_round_signed(v: int, d: int) -> int {
    if v >= 0 {
        (2 * v + d) / (2 * d)
    } else {
        -((-2 * v + d) / (2 * d))
    }
}

/// One convolution term: a weight times the edge-clamped sample it covers.
pub open spec fn conv_term(img: Raster, k: (int, Seq<i64>, int), x: int, y: int, c: int, j: int, i: int) -> int {
    let half = k.0 / 2;
    k.1[j * k.0 + i] * raster_at(img, 
        clamp_coord(x + i - half, img.0 as int),
        clamp_coord(y + j - half, img.1 as int),
        c,
    ) as int
}

/// The terms of kernel row `j`, columns `0 .. n - 1`.
pub open spec fn conv_row(img: Raster, k: (int, Seq<i64>, int), x: int, y: int, c: int, j: int, n: nat) -> int
    decreases n,
{
    if n == 0 {
        0
    } else {
        conv_row(img, k, x, y, c, j, (n - 1) as nat) + conv_term(img, k, x, y, c, j, n - 1)
    }
}

/// The terms of kernel rows `0 .. m - 1`.
pub open spec fn conv_sum(img: Raster, k: (int, Seq<i64>, int), x: int, y: int, c: int, m: nat) -> int
    decreases m,
{
    if m == 0 {
        0
    } else {
        conv_sum(img, k, x, y, c, (m - 1) as nat) + conv_row(img, k, x, y, c, m - 1, k.0 as nat)
    }
}

/// The convolution at `(x, y)`: the rounded weighted sum for a color channel,
/// the pixel's own alpha for channel 3.
pub open spec fn conv_at(img: Raster, k: (int, Seq<i64>, int), x: int, y: int, c: int) -> i64 {
    if c == 3 {
        raster_at(img, x, y, 3) as i64
    } else {
        div_round_signed(conv_sum(img, k, x, y, c, k.0 as nat), k.2) as i64
    }
}

/// The whole convolved raster.
pub open spec fn conv_values(img: Raster, k: (int, Seq<i64>, int)) -> Seq<i64> {
    Seq::new(
        img.2.len(),
        |q: int| conv_at(img, k, (q / 4) % (img.0 as int), (q / 4) / (img.0 as int), q % 4),
    )
}

proof fn lemma_term_bound(w: int, p: int)
    requires
        -MAX_WEIGHT <= w <= MAX_WEIGHT,
        0 <= p <= 255,
    ensures
        -MAX_WEIGHT * 255 <= w * p <= MAX_WEIGHT * 255,
{
    assert(-MAX_WEIGHT * 255 <= w * p <= MAX_WEIGHT * 255) by (nonlinear_arith)
        requires
            -MAX_WEIGHT <= w <= MAX_WEIGHT,
            0 <= p <= 255,
    ;
}

fn clamp_index(v: i64, n: i64) -> (r: usize)
    requires
        1 <= n <= u32::MAX,
    ensures
        r == clamp_coord(v as int, n as int),
        r < n,
{
    if v < 0 {
        0
    } else if v >= n {
        (n - 1) as usize
    } else {
        v as usize
    }
}

fn round_signed(v: i64, d: i64) -> (r: i64)
    requires
        1 <= d <= MAX_WEIGHT,
        -0x1000_0000_0000_0000 <= v <= 0x1000_0000_0000_0000,
    ensures
        r == div_round_signed(v as int, d as int),
{
    if v >= 0 {
        (2 * v + d) / (2 * d)
    } else {
        let q = (-2 * v + d) / (2 * d);
        assert(0 <= q <= -2 * v + d) by (nonlinear_arith)
            requires
                q == (-2 * v + d) / (2 * d),
                d >= 1,
                v < 0,
        ;
        -q
    }
}

/// The three weighted color sums at `(x, y)`, rounded, and the center's alpha.
fn conv_pixel(img: &PixelBuffer, k: &Kernel, x: u32, y: u32) -> (r: (i64, i64, i64, i64))
    requires
        img.wf(),
        k.wf(),
        x < img.width,
        y < img.height,
    ensures
        r.0 == conv_at(img@, k@, x as int, y as int, 0),
        r.1 == conv_at(img@, k@, x as int, y as int, 1),
        r.2 == conv_at(img@, k@, x as int, y as int, 2),
        r.3 == conv_at(img@, k@, x as int, y as int, 3),
{
    let ghost g = img@;
    let ghost kk = k@;
    let side = k.side;
    let half: i64 = (side / 2) as i64;
    let w: i64 = img.width as i64;
    let h: i64 = img.height as i64;
    let bound: i64 = MAX_WEIGHT * 255;
    let mut s0: i64 = 0;
    let mut s1: i64 = 0;
    let mut s2: i64 = 0;
    let mut j: usize = 0;
    let mut row: usize = 0;
    while j < side
        invariant
            img.wf(),
            k.wf(),
            g == img@,
            kk == k@,
            side == k.side,
            half == side / 2,
            w == img.width,
            h == img.height,
            x < w,
            y < h,
            bound == MAX_WEIGHT * 255,
            j <= side,
            row == j * side,
            s0 == conv_sum(g, kk, x as int, y as int, 0, j as nat),
            s1 == conv_sum(g, kk, x as int, y as int, 1, j as nat),
            s2 == conv_sum(g, kk, x as int, y as int, 2, j as nat),
            -bound * row <= s0 <= bound * row,
            -bound * row <= s1 <= bound * row,
            -bound * row <= s2 <= bound * row,
        decreases side - j,
    {
        let yy = clamp_index(y as i64 + j as i64 - half, h);
        let mut i: usize = 0;
        while i < side
            invariant
                img.wf(),
                k.wf(),
                g == img@,
                kk == k@,
                side == k.side,
                half == side / 2,
                w == img.width,
                h == img.height,
                x < w,
                yy < h,
                yy == clamp_coord(y + j - half, h as int),
                bound == MAX_WEIGHT * 255,
                j < side,
                i <= side,
                row == j * side,
                s0 == conv_sum(g, kk, x as int, y as int, 0, j as nat) + conv_row(
                    g,
                    kk,
                    x as int,
                    y as int,
                    0,
                    j as int,
                    i as nat,
                ),
                s1 == conv_sum(g, kk, x as int, y as int, 1, j as nat) + conv_row(
                    g,
                    kk,
                    x as int,
                    y as int,
                    1,
                    j as int,
                    i as nat,
                ),
                s2 == conv_sum(g, kk, x as int, y as int, 2, j as nat) + conv_row(
                    g,
                    kk,
                    x as int,
                    y as int,
                    2,
                    j as int,
                    i as nat,
                ),
                -bound * (row + i) <= s0 <= bound * (row + i),
                -bound * (row + i) <= s1 <= bound * (row + i),
                -bound * (row + i) <= s2 <= bound * (row + i),
            decreases side - i,
        {
            assert(row + i < side * side <= 65025) by (nonlinear_arith)
                requires
                    row == j * side,
                    j < side,
                    i < side,
                    side <= 255,
            ;
            let xx = clamp_index(x as i64 + i as i64 - half, w);
            let p = pixel_index(img, xx, yy);
            let wt = k.weights[row + i];
            proof {
                lemma_term_bound(wt as int, img.pixels@[p as int] as int);
                lemma_term_bound(wt as int, img.pixels@[p + 1] as int);
                lemma_term_bound(wt as int, img.pixels@[p + 2] as int);
                assert(bound * (row + i + 1) == bound * (row + i) + bound) by (nonlinear_arith);
                assert(-bound * (row + i + 1) == -bound * (row + i) - bound) by (nonlinear_arith);
                assert(bound * (row + i + 1) <= bound * 65025) by (nonlinear_arith)
                    requires
                        row + i < 65025,
                        bound > 0,
                ;
                assert(-bound * (row + i) >= -bound * 65025) by (nonlinear_arith)
                    requires
                        row + i < 65025,
                        bound > 0,
                ;
                assert(bound * (row + i) <= bound * 65025) by (nonlinear_arith)
                    requires
                        row + i < 65025,
                        bound > 0,
                ;
            }
            s0 = s0 + wt * img.pixels[p] as i64;
            s1 = s1 + wt * img.pixels[p + 1] as i64;
            s2 = s2 + wt * img.pixels[p + 2] as i64;
            i = i + 1;
        }
        assert((j + 1) * side == j * side + side) by (nonlinear_arith);
        assert((j + 1) * side <= 65025) by (nonlinear_arith)
            requires
                j < side,
                side <= 255,
        ;
        j = j + 1;
        row = row + side;
    }
    assert(bound * row <= bound * 65025) by (nonlinear_arith)
        requires
            row == side * side,
            side <= 255,
            bound > 0,
    ;
    let c = pixel_index(img, x as usize, y as usize);
    (
        round_signed(s0, k.divisor),
        round_signed(s1, k.divisor),
        round_signed(s2, k.divisor),
        img.pixels[c + 3] as i64,
    )
}

/// Generic convolution: every color channel becomes the rounded weighted sum
/// of the window under the kernel, samples outside the image taken from the
/// nearest edge along each axis; alpha is the pixel's own.
pub fn convolve(k: &Kernel, img: &PixelBuffer) -> (r: SignedBuffer)
    requires
        img.wf(),
        k.wf(),
    ensures
        r.wf(),
        r.width == img.width,
        r.height == img.height,
        r.values@ == conv_values(img@, k@),
{
    let w = img.width;
    let h = img.height;
    let n = img.pixels.len();
    let mut out: Vec<i64> = Vec::with_capacity(n);
    let mut y: u32 = 0;
    while y < h
        invariant
            img.wf(),
            k.wf(),
            w == img.width,
            h == img.height,
            y <= h,
            out@.len() == (y * w) * 4,
            forall|q: int| 0 <= q < out@.len() ==> out@[q] == #[trigger] conv_values(img@, k@)[q],
        decreases h - y,
    {
        let mut x: u32 = 0;
        while x < w
            invariant
                img.wf(),
                k.wf(),
                w == img.width,
                h == img.height,
                y < h,
                x <= w,
                out@.len() == (y * w + x) * 4,
                forall|q: int|
                    0 <= q < out@.len() ==> out@[q] == #[trigger] conv_values(img@, k@)[q],
            decreases w - x,
        {
            let v = conv_pixel(img, k, x, y);
            proof {
                crate::buffer::lemma_index_in_bounds(w as int, h as int, x as int, y as int);
                lemma_coords(w as int, x as int, y as int, 0);
                lemma_coords(w as int, x as int, y as int, 1);
                lemma_coords(w as int, x as int, y as int, 2);
                lemma_coords(w as int, x as int, y as int, 3);
            }
            out.push(v.0);
            out.push(v.1);
            out.push(v.2);
            out.push(v.3);
            x = x + 1;
        }
        assert((y + 1) * w == y * w + w) by (nonlinear_arith);
        y = y + 1;
    }
    assert(h * w == w * h) by (nonlinear_arith);
    assert(out@ =~= conv_values(img@, k@));
    SignedBuffer { width: w, height: h, values: out }
}

} // verus!
