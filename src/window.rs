use vstd::prelude::*;
use crate::buffer::{pixel_index, raster_at, PixelBuffer, Raster};
use crate::functions::{is_sorted, median, median_of_sorted};
use crate::modifier::{BoxBlurOptions, MedianBlurOptions};

verus! {

broadcast use vstd::seq_lib::group_to_multiset_ensures;

/// Whether `(x, y)` lies inside the image.
pub open spec fn inside(img: Raster, x: int, y: int) -> bool {
    0 <= x < img.0 && 0 <= y < img.1
}

/// Sum of channel `c` over the cells of column `x + dx`, rows `y - half` to
/// `y - half + n - 1`, that lie inside the image.
pub open spec fn column_sum(img: Raster, x: int, y: int, c: int, half: int, dx: int, n: nat) -> int
    decreases n,
{
    if n == 0 {
        0
    } else {
        let yy = y - half + (n - 1);
        column_sum(img, x, y, c, half, dx, (n - 1) as nat) + if inside(img, x + dx, yy) {
            raster_at(img, x + dx, yy, c) as int
        } else {
            0
        }
    }
}

/// Sum of channel `c` over the first `m` columns of the window of half-width
/// `half` centered on `(x, y)`, cells outside the image left out.
pub open spec fn window_sum(img: Raster, x: int, y: int, c: int, half: int, m: nat) -> int
    decreases m,
{
    if m == 0 {
        0
    } else {
        window_sum(img, x, y, c, half, (m - 1) as nat) + column_sum(
            img,
            x,
            y,
            c,
            half,
            m - 1 - half,
            (2 * half + 1) as nat,
        )
    }
}

/// How many cells of a window column lie inside the image.
pub open spec fn column_count(img: Raster, x: int, y: int, half: int, dx: int, n: nat) -> int
    decreases n,
{
    if n == 0 {
        0
    } else {
        column_count(img, x, y, half, dx, (n - 1) as nat) + if inside(
            img,
            x + dx,
            y - half + (n - 1),
        ) {
            1int
        } else {
            0
        }
    }
}

/// How many cells of the first `m` window columns lie inside the image.
pub open spec fn window_count(img: Raster, x: int, y: int, half: int, m: nat) -> int
    decreases m,
{
    if m == 0 {
        0
    } else {
        window_count(img, x, y, half, (m - 1) as nat) + column_count(
            img,
            x,
            y,
            half,
            m - 1 - half,
            (2 * half + 1) as nat,
        )
    }
}

/// The values of channel `c` in a window column, top to bottom, inside cells only.
pub open spec fn column_values(img: Raster, x: int, y: int, c: int, half: int, dx: int, n: nat) -> Seq<u8>
    decreases n,
{
    if n == 0 {
        Seq::empty()
    } else {
        let yy = y - half + (n - 1);
        let rest = column_values(img, x, y, c, half, dx, (n - 1) as nat);
        if inside(img, x + dx, yy) {
            rest.push(raster_at(img, x + dx, yy, c))
        } else {
            rest
        }
    }
}

/// The values of channel `c` in the first `m` window columns, inside cells only.
pub open spec fn window_values(img: Raster, x: int, y: int, c: int, half: int, m: nat) -> Seq<u8>
    decreases m,
{
    if m == 0 {
        Seq::empty()
    } else {
        window_values(img, x, y, c, half, (m - 1) as nat) + column_values(
            img,
            x,
            y,
            c,
            half,
            m - 1 - half,
            (2 * half + 1) as nat,
        )
    }
}

/// The mean of color channel `c` over the full window centered on `(x, y)`,
/// rounded half away from zero; alpha is the center's own.
pub open spec fn box_value(img: Raster, x: int, y: int, c: int, half: int) -> u8 {
    let side = (2 * half + 1) as nat;
    let n = window_count(img, x, y, half, side);
    if c == 3 {
        raster_at(img, x, y, 3)
    } else {
        ((2 * window_sum(img, x, y, c, half, side) + n) / (2 * n)) as u8
    }
}

/// The median of a sequence of bytes: that of its ascending arrangement.
pub open spec fn median_value(s: Seq<u8>) -> int {
    median_of_sorted(choose|t: Seq<u8>| is_sorted(t) && t.to_multiset() == s.to_multiset())
}

/// The median of channel `c` over the full window centered on `(x, y)`; alpha
/// is the center's own.
pub open spec fn median_at(img: Raster, x: int, y: int, c: int, half: int) -> u8 {
    if c == 3 {
        raster_at(img, x, y, 3)
    } else {
        median_value(window_values(img, x, y, c, half, (2 * half + 1) as nat)) as u8
    }
}

/// Box blur: each color channel becomes the rounded mean of the window of side
/// `size`, cells outside the image excluded from sum and count; alpha kept.
pub open spec fn box_blur_pixels(img: Raster, size: u8) -> Seq<u8> {
    Seq::new(
        img.2.len(),
        |k: int|
            box_value(img, (k / 4) % (img.0 as int), (k / 4) / (img.0 as int), k % 4, size as int / 2),
    )
}

/// Median blur: each color channel becomes the median of the window of side
/// `size`, cells outside the image excluded; alpha kept.
pub open spec fn median_blur_pixels(img: Raster, size: u8) -> Seq<u8> {
    Seq::new(
        img.2.len(),
        |k: int|
            median_at(img, (k / 4) % (img.0 as int), (k / 4) / (img.0 as int), k % 4, size as int / 2),
    )
}

/// The column, row and channel of the byte at `(y * w + x) * 4 + c`.
pub proof fn lemma_coords(w: int, x: int, y: int, c: int)
    requires
        0 <= x < w,
        0 <= y,
        0 <= c < 4,
    ensures
        ((y * w + x) * 4 + c) / 4 == y * w + x,
        ((y * w + x) * 4 + c) % 4 == c,
        (y * w + x) % w == x,
        (y * w + x) / w == y,
{
    vstd::arithmetic::div_mod::lemma_fundamental_div_mod_converse((y * w + x) * 4 + c, 4, y * w + x, c);
    vstd::arithmetic::div_mod::lemma_fundamental_div_mod_converse(y * w + x, w, y, x);
}

proof fn lemma_column_count_bounds(img: Raster, x: int, y: int, half: int, dx: int, n: nat)
    requires
        half >= 0,
    ensures
        0 <= column_count(img, x, y, half, dx, n) <= n,
        dx == 0 && inside(img, x, y) && n > half ==> column_count(img, x, y, half, dx, n) >= 1,
        column_values(img, x, y, 0, half, dx, n).len() == column_count(img, x, y, half, dx, n),
        column_values(img, x, y, 1, half, dx, n).len() == column_count(img, x, y, half, dx, n),
        column_values(img, x, y, 2, half, dx, n).len() == column_count(img, x, y, half, dx, n),
    decreases n,
{
    if n > 0 {
        lemma_column_count_bounds(img, x, y, half, dx, (n - 1) as nat);
    }
}

/// A window always holds its center, so a pixel inside the image has a
/// non-empty window.
proof fn lemma_window_count_bounds(img: Raster, x: int, y: int, half: int, m: nat)
    requires
        half >= 0,
    ensures
        0 <= window_count(img, x, y, half, m),
        inside(img, x, y) && m > half ==> window_count(img, x, y, half, m) >= 1,
        window_values(img, x, y, 0, half, m).len() == window_count(img, x, y, half, m),
        window_values(img, x, y, 1, half, m).len() == window_count(img, x, y, half, m),
        window_values(img, x, y, 2, half, m).len() == window_count(img, x, y, half, m),
    decreases m,
{
    if m > 0 {
        lemma_window_count_bounds(img, x, y, half, (m - 1) as nat);
        lemma_column_count_bounds(img, x, y, half, m - 1 - half, (2 * half + 1) as nat);
    }
}

/// The median of any arrangement of `s` that is ascending.
pub proof fn lemma_median_value(s: Seq<u8>, t: Seq<u8>)
    requires
        is_sorted(t),
        t.to_multiset() == s.to_multiset(),
    ensures
        median_value(s) == median_of_sorted(t),
{
    let u = choose|u: Seq<u8>| is_sorted(u) && u.to_multiset() == s.to_multiset();
    let leq = |a: u8, b: u8| a <= b;
    assert(vstd::relations::sorted_by(t, leq));
    assert(vstd::relations::sorted_by(u, leq));
    assert(vstd::relations::total_ordering(leq));
    vstd::seq_lib::lemma_sorted_unique(t, u, leq);
}

proof fn lemma_mean_fits(s: int, n: int)
    requires
        n >= 1,
        0 <= s <= 255 * n,
    ensures
        0 <= (2 * s + n) / (2 * n) <= 255,
{
    assert(0 <= (2 * s + n) / (2 * n) <= 255) by (nonlinear_arith)
        requires
            n >= 1,
            0 <= s <= 255 * n,
    ;
}

/// The rounded color means of the window of half-width `half` centered on `(x, y)`, with the center's alpha.
fn box_window(img: &PixelBuffer, x: u32, y: u32, half: usize) -> (r: (u8, u8, u8, u8))
    requires
        img.wf(),
        x < img.width,
        y < img.height,
        half <= 127,
    ensures
        r.0 == box_value(img@, x as int, y as int, 0, half as int),
        r.1 == box_value(img@, x as int, y as int, 1, half as int),
        r.2 == box_value(img@, x as int, y as int, 2, half as int),
        r.3 == box_value(img@, x as int, y as int, 3, half as int),
{
    let ghost g = img@;
    let ghost hf = half as int;
    let side: usize = 2 * half + 1;
    let w: i64 = img.width as i64;
    let h: i64 = img.height as i64;
    let mut count: u64 = 0;
    let mut s0: u64 = 0;
    let mut s1: u64 = 0;
    let mut s2: u64 = 0;
    let mut i: usize = 0;
    while i < side
        invariant
            img.wf(),
            g == img@,
            hf == half as int,
            side == 2 * half + 1,
            half <= 127,
            w == img.width,
            h == img.height,
            i <= side,
            count == window_count(g, x as int, y as int, hf, i as nat),
            s0 == window_sum(g, x as int, y as int, 0, hf, i as nat),
            s1 == window_sum(g, x as int, y as int, 1, hf, i as nat),
            s2 == window_sum(g, x as int, y as int, 2, hf, i as nat),
            count <= i * side,
            s0 <= 255 * count,
            s1 <= 255 * count,
            s2 <= 255 * count,
        decreases side - i,
    {
        let mut j: usize = 0;
        let ghost dx = i - hf;
        while j < side
            invariant
                img.wf(),
                g == img@,
                hf == half as int,
                side == 2 * half + 1,
                half <= 127,
                w == img.width,
                h == img.height,
                i < side,
                j <= side,
                dx == i - hf,
                count == window_count(g, x as int, y as int, hf, i as nat) + column_count(
                    g,
                    x as int,
                    y as int,
                    hf,
                    dx,
                    j as nat,
                ),
                s0 == window_sum(g, x as int, y as int, 0, hf, i as nat) + column_sum(
                    g,
                    x as int,
                    y as int,
                    0,
                    hf,
                    dx,
                    j as nat,
                ),
                s1 == window_sum(g, x as int, y as int, 1, hf, i as nat) + column_sum(
                    g,
                    x as int,
                    y as int,
                    1,
                    hf,
                    dx,
                    j as nat,
                ),
                s2 == window_sum(g, x as int, y as int, 2, hf, i as nat) + column_sum(
                    g,
                    x as int,
                    y as int,
                    2,
                    hf,
                    dx,
                    j as nat,
                ),
                count <= i * side + j,
                s0 <= 255 * count,
                s1 <= 255 * count,
                s2 <= 255 * count,
            decreases side - j,
        {
            assert(i * side + j < 65536) by (nonlinear_arith)
                requires
                    i < side,
                    j < side,
                    side <= 255,
            ;
            let xx: i64 = x as i64 + i as i64 - half as i64;
            let yy: i64 = y as i64 + j as i64 - half as i64;
            proof {
                let ghost n1 = (j + 1) as nat;
                assert(n1 - 1 == j);
                assert(y - hf + (n1 - 1) == yy);
                assert(x + dx == xx);
            }
            if 0 <= xx && xx < w && 0 <= yy && yy < h {
                let k = pixel_index(img, xx as usize, yy as usize);
                count = count + 1;
                s0 = s0 + img.pixels[k] as u64;
                s1 = s1 + img.pixels[k + 1] as u64;
                s2 = s2 + img.pixels[k + 2] as u64;
            }
            j = j + 1;
        }
        assert((i + 1) * side == i * side + side) by (nonlinear_arith);
        assert(window_count(g, x as int, y as int, hf, (i + 1) as nat) == window_count(
            g,
            x as int,
            y as int,
            hf,
            i as nat,
        ) + column_count(g, x as int, y as int, hf, dx, side as nat));
        i = i + 1;
    }
    proof {
        lemma_window_count_bounds(g, x as int, y as int, hf, side as nat);
    }
    proof {
        assert(count <= 65025) by (nonlinear_arith)
            requires
                count <= i * side,
                i == side,
                side <= 255,
        ;
        lemma_mean_fits(s0 as int, count as int);
        lemma_mean_fits(s1 as int, count as int);
        lemma_mean_fits(s2 as int, count as int);
    }
    let c = pixel_index(img, x as usize, y as usize);
    (
        ((2 * s0 + count) / (2 * count)) as u8,
        ((2 * s1 + count) / (2 * count)) as u8,
        ((2 * s2 + count) / (2 * count)) as u8,
        img.pixels[c + 3],
    )
}

/// Box blur kernel: the rounded mean of the in-bounds cells of a `size` by
/// `size` window centered on each pixel, per color channel; alpha is kept.
pub fn box_blur(opts: BoxBlurOptions, img: &PixelBuffer) -> (r: PixelBuffer)
    requires
        img.wf(),
    ensures
        r.wf(),
        r.width == img.width,
        r.height == img.height,
        r.pixels@ == box_blur_pixels(img@, opts.size),
{
    let half: usize = (opts.size / 2) as usize;
    let w = img.width;
    let h = img.height;
    let n = img.pixels.len();
    let mut out: Vec<u8> = Vec::with_capacity(n);
    let mut y: u32 = 0;
    while y < h
        invariant
            img.wf(),
            w == img.width,
            h == img.height,
            half == opts.size / 2,
            y <= h,
            out@.len() == (y * w) * 4,
            forall|k: int|
                0 <= k < out@.len() ==> out@[k] == #[trigger] box_blur_pixels(img@, opts.size)[k],
        decreases h - y,
    {
        let mut x: u32 = 0;
        while x < w
            invariant
                img.wf(),
                w == img.width,
                h == img.height,
                half == opts.size / 2,
                y < h,
                x <= w,
                out@.len() == (y * w + x) * 4,
                forall|k: int|
                    0 <= k < out@.len() ==> out@[k] == #[trigger] box_blur_pixels(img@, opts.size)[k],
            decreases w - x,
        {
            let v = box_window(img, x, y, half);
            proof {
                crate::buffer::lemma_index_in_bounds(w as int, h as int, x as int, y as int);
                lemma_coords(w as int, x as int, y as int, 0);
                lemma_coords(w as int, x as int, y as int, 1);
                lemma_coords(w as int, x as int, y as int, 2);
                lemma_coords(w as int, x as int, y as int, 3);
            }
            out.push(v.0);
            out.push(v.1);
            out.push(v.2);
            out.push(v.3);
            x = x + 1;
        }
        assert((y + 1) * w == y * w + w) by (nonlinear_arith);
        y = y + 1;
    }
    assert(h * w == w * h) by (nonlinear_arith);
    assert(out@ =~= box_blur_pixels(img@, opts.size));
    PixelBuffer { width: w, height: h, pixels: out }
}

/// The channel medians of the window of half-width `half` centered on
/// `(x, y)`, with the center's alpha.
fn median_window(img: &PixelBuffer, x: u32, y: u32, half: usize) -> (r: (u8, u8, u8, u8))
    requires
        img.wf(),
        x < img.width,
        y < img.height,
        half <= 127,
    ensures
        r.0 == median_at(img@, x as int, y as int, 0, half as int),
        r.1 == median_at(img@, x as int, y as int, 1, half as int),
        r.2 == median_at(img@, x as int, y as int, 2, half as int),
        r.3 == median_at(img@, x as int, y as int, 3, half as int),
{
    let ghost g = img@;
    let ghost hf = half as int;
    let side: usize = 2 * half + 1;
    let w: i64 = img.width as i64;
    let h: i64 = img.height as i64;
    let mut rv: Vec<u8> = Vec::new();
    let mut gv: Vec<u8> = Vec::new();
    let mut bv: Vec<u8> = Vec::new();
    let mut i: usize = 0;
    while i < side
        invariant
            img.wf(),
            g == img@,
            hf == half as int,
            side == 2 * half + 1,
            half <= 127,
            w == img.width,
            h == img.height,
            i <= side,
            rv@ == window_values(g, x as int, y as int, 0, hf, i as nat),
            gv@ == window_values(g, x as int, y as int, 1, hf, i as nat),
            bv@ == window_values(g, x as int, y as int, 2, hf, i as nat),
            rv@.len() <= i * side,
        decreases side - i,
    {
        let mut j: usize = 0;
        let ghost dx = i - hf;
        while j < side
            invariant
                img.wf(),
                g == img@,
                hf == half as int,
                side == 2 * half + 1,
                half <= 127,
                w == img.width,
                h == img.height,
                i < side,
                j <= side,
                dx == i - hf,
                rv@ == window_values(g, x as int, y as int, 0, hf, i as nat) + column_values(
                    g,
                    x as int,
                    y as int,
                    0,
                    hf,
                    dx,
                    j as nat,
                ),
                gv@ == window_values(g, x as int, y as int, 1, hf, i as nat) + column_values(
                    g,
                    x as int,
                    y as int,
                    1,
                    hf,
                    dx,
                    j as nat,
                ),
                bv@ == window_values(g, x as int, y as int, 2, hf, i as nat) + column_values(
                    g,
                    x as int,
                    y as int,
                    2,
                    hf,
                    dx,
                    j as nat,
                ),
                rv@.len() <= i * side + j,
            decreases side - j,
        {
            assert(i * side + j < 65536) by (nonlinear_arith)
                requires
                    i < side,
                    j < side,
                    side <= 255,
            ;
            let xx: i64 = x as i64 + i as i64 - half as i64;
            let yy: i64 = y as i64 + j as i64 - half as i64;
            proof {
                let n1 = (j + 1) as nat;
                assert(y - hf + (n1 - 1) == yy);
                assert(x + dx == xx);
            }
            if 0 <= xx && xx < w && 0 <= yy && yy < h {
                let k = pixel_index(img, xx as usize, yy as usize);
                rv.push(img.pixels[k]);
                gv.push(img.pixels[k + 1]);
                bv.push(img.pixels[k + 2]);
                proof {
                    let n1 = (j + 1) as nat;
                    let ws = window_values(g, x as int, y as int, 0, hf, i as nat);
                    let cs = column_values(g, x as int, y as int, 0, hf, dx, j as nat);
                    assert(ws + cs.push(raster_at(g, xx as int, yy as int, 0)) =~= (ws + cs).push(
                        raster_at(g, xx as int, yy as int, 0),
                    ));
                    let ws = window_values(g, x as int, y as int, 1, hf, i as nat);
                    let cs = column_values(g, x as int, y as int, 1, hf, dx, j as nat);
                    assert(ws + cs.push(raster_at(g, xx as int, yy as int, 1)) =~= (ws + cs).push(
                        raster_at(g, xx as int, yy as int, 1),
                    ));
                    let ws = window_values(g, x as int, y as int, 2, hf, i as nat);
                    let cs = column_values(g, x as int, y as int, 2, hf, dx, j as nat);
                    assert(ws + cs.push(raster_at(g, xx as int, yy as int, 2)) =~= (ws + cs).push(
                        raster_at(g, xx as int, yy as int, 2),
                    ));
                }
            }
            j = j + 1;
        }
        assert((i + 1) * side == i * side + side) by (nonlinear_arith);
        i = i + 1;
    }
    let c = pixel_index(img, x as usize, y as usize);
    let a = img.pixels[c + 3];
    let ghost r0 = rv@;
    let ghost g0 = gv@;
    let ghost b0 = bv@;
    proof {
        lemma_window_count_bounds(g, x as int, y as int, hf, side as nat);
    }
    let r = median(&mut rv);
    let gr = median(&mut gv);
    let b = median(&mut bv);
    proof {
        lemma_median_value(r0, rv@);
        lemma_median_value(g0, gv@);
        lemma_median_value(b0, bv@);
    }
    (r, gr, b, a)
}

/// Median blur kernel: each color channel becomes the median of the in-bounds
/// cells of a `size` by `size` window centered on the pixel; alpha is kept.
pub fn median_blur(opts: MedianBlurOptions, img: &PixelBuffer) -> (r: PixelBuffer)
    requires
        img.wf(),
    ensures
        r.wf(),
        r.width == img.width,
        r.height == img.height,
        r.pixels@ == median_blur_pixels(img@, opts.size),
{
    let half: usize = (opts.size / 2) as usize;
    let w = img.width;
    let h = img.height;
    let n = img.pixels.len();
    let mut out: Vec<u8> = Vec::with_capacity(n);
    let mut y: u32 = 0;
    while y < h
        invariant
            img.wf(),
            w == img.width,
            h == img.height,
            half == opts.size / 2,
            y <= h,
            out@.len() == (y * w) * 4,
            forall|k: int|
                0 <= k < out@.len() ==> out@[k] == #[trigger] median_blur_pixels(img@, opts.size)[k],
        decreases h - y,
    {
        let mut x: u32 = 0;
        while x < w
            invariant
                img.wf(),
                w == img.width,
                h == img.height,
                half == opts.size / 2,
                y < h,
                x <= w,
                out@.len() == (y * w + x) * 4,
                forall|k: int|
                    0 <= k < out@.len() ==> out@[k] == #[trigger] median_blur_pixels(img@, opts.size)[k],
            decreases w - x,
        {
            let v = median_window(img, x, y, half);
            proof {
                crate::buffer::lemma_index_in_bounds(w as int, h as int, x as int, y as int);
                lemma_coords(w as int, x as int, y as int, 0);
                lemma_coords(w as int, x as int, y as int, 1);
                lemma_coords(w as int, x as int, y as int, 2);
                lemma_coords(w as int, x as int, y as int, 3);
            }
            out.push(v.0);
            out.push(v.1);
            out.push(v.2);
            out.push(v.3);
            x = x + 1;
        }
        assert((y + 1) * w == y * w + w) by (nonlinear_arith);
        y = y + 1;
    }
    assert(h * w == w * h) by (nonlinear_arith);
    assert(out@ =~= median_blur_pixels(img@, opts.size));
    PixelBuffer { width: w, height: h, pixels: out }
}

/// Every pixel of the raster has the channels `v`.
pub open spec fn uniform(img: Raster, v: Seq<u8>) -> bool {
    &&& v.len() == 4
    &&& forall|k: int| 0 <= k < img.2.len() ==> #[trigger] img.2[k] == v[k % 4]
}

proof fn lemma_uniform_at(img: Raster, v: Seq<u8>, x: int, y: int, c: int)
    requires
        crate::buffer::raster_wf(img),
        uniform(img, v),
        inside(img, x, y),
        0 <= c < 4,
    ensures
        raster_at(img, x, y, c) == v[c],
{
    crate::buffer::lemma_index_in_bounds(img.0 as int, img.1 as int, x, y);
    lemma_coords(img.0 as int, x, y, c);
    assert(img.2[(y * img.0 + x) * 4 + c] == v[((y * img.0 + x) * 4 + c) % 4]);
}

proof fn lemma_column_uniform(img: Raster, v: Seq<u8>, x: int, y: int, c: int, half: int, dx: int, n: nat)
    requires
        crate::buffer::raster_wf(img),
        uniform(img, v),
        0 <= c < 4,
    ensures
        column_sum(img, x, y, c, half, dx, n) == v[c] * column_count(img, x, y, half, dx, n),
    decreases n,
{
    if n > 0 {
        lemma_column_uniform(img, v, x, y, c, half, dx, (n - 1) as nat);
        let yy = y - half + (n - 1);
        if inside(img, x + dx, yy) {
            lemma_uniform_at(img, v, x + dx, yy, c);
        }
        let cnt = column_count(img, x, y, half, dx, (n - 1) as nat);
        assert(v[c] * (cnt + 1) == v[c] * cnt + v[c]) by (nonlinear_arith);
    }
}

proof fn lemma_window_uniform(img: Raster, v: Seq<u8>, x: int, y: int, c: int, half: int, m: nat)
    requires
        crate::buffer::raster_wf(img),
        uniform(img, v),
        0 <= c < 4,
    ensures
        window_sum(img, x, y, c, half, m) == v[c] * window_count(img, x, y, half, m),
    decreases m,
{
    if m > 0 {
        lemma_window_uniform(img, v, x, y, c, half, (m - 1) as nat);
        lemma_column_uniform(img, v, x, y, c, half, m - 1 - half, (2 * half + 1) as nat);
        let a = window_count(img, x, y, half, (m - 1) as nat);
        let b = column_count(img, x, y, half, m - 1 - half, (2 * half + 1) as nat);
        assert(v[c] * (a + b) == v[c] * a + v[c] * b) by (nonlinear_arith);
    }
}

/// The column and row of byte `k` lie inside the raster.
proof fn lemma_byte_coords(img: Raster, k: int)
    requires
        crate::buffer::raster_wf(img),
        0 <= k < img.2.len(),
    ensures
        img.0 > 0,
        inside(img, (k / 4) % (img.0 as int), (k / 4) / (img.0 as int)),
{
    let w = img.0 as int;
    let h = img.1 as int;
    let p = k / 4;
    assert(w > 0) by (nonlinear_arith)
        requires
            0 <= k < w * h * 4,
            w >= 0,
            h >= 0,
    ;
    assert(p < w * h);
    vstd::arithmetic::div_mod::lemma_fundamental_div_mod(p, w);
    vstd::arithmetic::div_mod::lemma_mod_pos_bound(p, w);
    let y = p / w;
    assert(0 <= y < h) by (nonlinear_arith)
        requires
            p == w * y + p % w,
            0 <= p % w < w,
            0 <= p < w * h,
            w > 0,
    ;
}

/// Box blur leaves an image of one color unchanged: every neighbor equals
/// the center.
pub proof fn lemma_box_blur_uniform(img: Raster, v: Seq<u8>, size: u8)
    requires
        crate::buffer::raster_wf(img),
        uniform(img, v),
    ensures
        box_blur_pixels(img, size) == img.2,
{
    let half = size as int / 2;
    let side = (2 * half + 1) as nat;
    assert forall|k: int| 0 <= k < img.2.len() implies #[trigger] box_blur_pixels(img, size)[k]
        == img.2[k] by {
        lemma_byte_coords(img, k);
        let x = (k / 4) % (img.0 as int);
        let y = (k / 4) / (img.0 as int);
        let c = k % 4;
        lemma_window_count_bounds(img, x, y, half, side);
        let n = window_count(img, x, y, half, side);
        if c == 3 {
            let w = img.0 as int;
            vstd::arithmetic::div_mod::lemma_fundamental_div_mod(k / 4, w);
            assert((y * w + x) * 4 + 3 == k) by (nonlinear_arith)
                requires
                    k / 4 == w * y + x,
                    k % 4 == 3,
                    k == 4 * (k / 4) + k % 4,
            ;
        } else {
            lemma_window_uniform(img, v, x, y, c, half, side);
            assert(2 * (v[c] * n) + n == v[c] * (2 * n) + n) by (nonlinear_arith);
            vstd::arithmetic::div_mod::lemma_fundamental_div_mod_converse(
                2 * (v[c] * n) + n,
                2 * n,
                v[c] as int,
                n,
            );
        }
    }
    assert(box_blur_pixels(img, size) =~= img.2);
}

/// How many entries of `s` differ from `f`.
pub open spec fn off_count(s: Seq<u8>, f: u8) -> nat
    decreases s.len(),
{
    if s.len() == 0 {
        0
    } else {
        off_count(s.drop_last(), f) + if s.last() != f {
            1nat
        } else {
            0
        }
    }
}

proof fn lemma_off_count_push(s: Seq<u8>, a: u8, f: u8)
    ensures
        off_count(s.push(a), f) == off_count(s, f) + if a != f {
            1nat
        } else {
            0
        },
{
    assert(s.push(a).drop_last() =~= s);
}

proof fn lemma_off_count_concat(a: Seq<u8>, b: Seq<u8>, f: u8)
    ensures
        off_count(a + b, f) == off_count(a, f) + off_count(b, f),
    decreases b.len(),
{
    if b.len() > 0 {
        lemma_off_count_concat(a, b.drop_last(), f);
        assert((a + b).drop_last() =~= a + b.drop_last());
    } else {
        assert(a + b =~= a);
    }
}

proof fn lemma_off_count_multiset(s: Seq<u8>, f: u8)
    ensures
        off_count(s, f) + s.to_multiset().count(f) == s.len(),
    decreases s.len(),
{
    broadcast use vstd::seq_lib::to_multiset_build;
    broadcast use vstd::multiset::group_multiset_axioms;

    if s.len() == 0 {
        assert(s.to_multiset() =~= vstd::multiset::Multiset::empty());
    } else {
        lemma_off_count_multiset(s.drop_last(), f);
        assert(s =~= s.drop_last().push(s.last()));
    }
}

proof fn lemma_off_count_two(s: Seq<u8>, f: u8, a: int, b: int)
    requires
        0 <= a < s.len(),
        0 <= b < s.len(),
        s[a] != f,
        a != b ==> s[b] != f,
    ensures
        off_count(s, f) >= if a != b {
            2nat
        } else {
            1nat
        },
    decreases s.len(),
{
    let n = s.len() - 1;
    if a == n || b == n {
        let other = if a == n {
            b
        } else {
            a
        };
        if other != n {
            lemma_off_count_two(s.drop_last(), f, other, other);
        }
    } else {
        lemma_off_count_two(s.drop_last(), f, a, b);
    }
}

/// An ascending sequence of at least three entries, all but at most one equal
/// to `f`, has median `f`.
proof fn lemma_median_almost_flat(t: Seq<u8>, f: u8)
    requires
        is_sorted(t),
        t.len() >= 3,
        off_count(t, f) <= 1,
    ensures
        median_of_sorted(t) == f,
{
    let n = t.len() as int;
    assert forall|i: int| 0 < i < n - 1 implies t[i] == f by {
        if t[i] < f {
            lemma_off_count_two(t, f, 0, i);
        } else if t[i] > f {
            lemma_off_count_two(t, f, i, n - 1);
        }
    }
}

/// Every pixel but `(ox, oy)` has the channels `v`.
pub open spec fn flat_but_one(img: Raster, v: Seq<u8>, ox: int, oy: int) -> bool {
    &&& v.len() == 4
    &&& forall|x: int, y: int, c: int|
        inside(img, x, y) && (x != ox || y != oy) && 0 <= c < 4 ==> #[trigger] raster_at(
            img,
            x,
            y,
            c,
        ) == v[c]
}

proof fn lemma_column_off(img: Raster, v: Seq<u8>, ox: int, oy: int, x: int, y: int, c: int, half: int, dx: int, n: nat)
    requires
        flat_but_one(img, v, ox, oy),
        0 <= c < 4,
    ensures
        off_count(column_values(img, x, y, c, half, dx, n), v[c]) <= if x + dx == ox && y - half
            <= oy < y - half + n {
            1nat
        } else {
            0nat
        },
    decreases n,
{
    if n > 0 {
        lemma_column_off(img, v, ox, oy, x, y, c, half, dx, (n - 1) as nat);
        let yy = y - half + (n - 1);
        if inside(img, x + dx, yy) {
            lemma_off_count_push(
                column_values(img, x, y, c, half, dx, (n - 1) as nat),
                raster_at(img, x + dx, yy, c),
                v[c],
            );
        }
    }
}

proof fn lemma_window_off(img: Raster, v: Seq<u8>, ox: int, oy: int, x: int, y: int, c: int, half: int, m: nat)
    requires
        flat_but_one(img, v, ox, oy),
        0 <= c < 4,
    ensures
        off_count(window_values(img, x, y, c, half, m), v[c]) <= if 0 <= ox - x + half < m {
            1nat
        } else {
            0nat
        },
    decreases m,
{
    if m > 0 {
        lemma_window_off(img, v, ox, oy, x, y, c, half, (m - 1) as nat);
        lemma_column_off(img, v, ox, oy, x, y, c, half, m - 1 - half, (2 * half + 1) as nat);
        lemma_off_count_concat(
            window_values(img, x, y, c, half, (m - 1) as nat),
            column_values(img, x, y, c, half, m - 1 - half, (2 * half + 1) as nat),
            v[c],
        );
    }
}

proof fn lemma_column_has_two(img: Raster, x: int, y: int, dx: int)
    requires
        img.1 >= 2,
        inside(img, x + dx, y),
    ensures
        column_count(img, x, y, 1, dx, 3) >= 2,
{
    assert(column_count(img, x, y, 1, dx, 0) == 0);
    assert(column_count(img, x, y, 1, dx, 1) == if inside(img, x + dx, y - 1) {
        1int
    } else {
        0
    });
    assert(column_count(img, x, y, 1, dx, 2) == column_count(img, x, y, 1, dx, 1) + 1);
}

/// In an image at least two pixels wide and high, a 3 by 3 window holds at
/// least four cells.
proof fn lemma_window_has_four(img: Raster, x: int, y: int)
    requires
        img.0 >= 2,
        img.1 >= 2,
        inside(img, x, y),
    ensures
        window_count(img, x, y, 1, 3) >= 4,
{
    lemma_column_count_bounds(img, x, y, 1, -1, 3);
    lemma_column_count_bounds(img, x, y, 1, 0, 3);
    lemma_column_count_bounds(img, x, y, 1, 1, 3);
    lemma_column_has_two(img, x, y, 0);
    if x >= 1 {
        lemma_column_has_two(img, x, y, -1);
    } else {
        lemma_column_has_two(img, x, y, 1);
    }
    assert(window_count(img, x, y, 1, 0) == 0);
    assert(window_count(img, x, y, 1, 1) == column_count(img, x, y, 1, -1, 3));
    assert(window_count(img, x, y, 1, 2) == window_count(img, x, y, 1, 1) + column_count(
        img,
        x,
        y,
        1,
        0,
        3,
    ));
}

/// A 3 by 3 median blur of an image that is flat but for one pixel gives the
/// flat color everywhere, the window centered on that pixel included, when
/// the image is at least two pixels wide and high.
pub proof fn lemma_median_blur_outlier(img: Raster, v: Seq<u8>, ox: int, oy: int)
    requires
        crate::buffer::raster_wf(img),
        img.0 >= 2,
        img.1 >= 2,
        flat_but_one(img, v, ox, oy),
    ensures
        forall|k: int|
            0 <= k < img.2.len() && k % 4 != 3 ==> #[trigger] median_blur_pixels(img, 3)[k] == v[k
                % 4],
{
    assert forall|k: int| 0 <= k < img.2.len() && k % 4 != 3 implies #[trigger] median_blur_pixels(
        img,
        3,
    )[k] == v[k % 4] by {
        lemma_byte_coords(img, k);
        let x = (k / 4) % (img.0 as int);
        let y = (k / 4) / (img.0 as int);
        let c = k % 4;
        let ws = window_values(img, x, y, c, 1, 3);
        lemma_window_has_four(img, x, y);
        lemma_window_count_bounds(img, x, y, 1, 3);
        lemma_window_off(img, v, ox, oy, x, y, c, 1, 3);
        let leq = |a: u8, b: u8| a <= b;
        assert(vstd::relations::total_ordering(leq));
        ws.lemma_sort_by_ensures(leq);
        let t = ws.sort_by(leq);
        assert(is_sorted(t)) by {
            assert forall|i: int, j: int| 0 <= i < j < t.len() implies t[i] <= t[j] by {
                assert(leq(t[i], t[j]));
            }
        }
        lemma_off_count_multiset(ws, v[c]);
        lemma_off_count_multiset(t, v[c]);
        vstd::seq_lib::to_multiset_len(ws);
        vstd::seq_lib::to_multiset_len(t);
        lemma_median_almost_flat(t, v[c]);
        lemma_median_value(ws, t);
    }
}

} // verus!
