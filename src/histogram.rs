use vstd::prelude::*;
use crate::buffer::PixelBuffer;

verus! {

/// Per-channel and lightness bucket counts of an image, 32 buckets each.
#[derive(Debug, Clone, Default)]
pub struct Histogram {
    pub lightness: Vec<u32>,
    pub red: Vec<u32>,
    pub green: Vec<u32>,
    pub blue: Vec<u32>,
}

/// How many of the first `n` pixels have channel `c` in bucket `b`
/// (`value / 8 == b`).
pub open spec fn bucket_count(s: Seq<u8>, n: nat, c: int, b: int) -> nat
    decreases n,
{
    if n == 0 {
        0
    } else {
        bucket_count(s, (n - 1) as nat, c, b) + if s[4 * (n - 1) + c] / 8 == b {
            1nat
        } else {
            0
        }
    }
}

/// The lightness bucket of a pixel: `(r + g + b) / 24`.
pub open spec fn lightness_bucket(s: Seq<u8>, p: int) -> int {
    (s[4 * p] + s[4 * p + 1] + s[4 * p + 2]) / 24
}

/// How many of the first `n` pixels have their lightness in bucket `b`.
pub open spec fn lightness_count(s: Seq<u8>, n: nat, b: int) -> nat
    decreases n,
{
    if n == 0 {
        0
    } else {
        lightness_count(s, (n - 1) as nat, b) + if lightness_bucket(s, n - 1) == b {
            1nat
        } else {
            0
        }
    }
}

/// The sum of the first `m` entries of `counts`.
pub open spec fn total(counts: Seq<u32>, m: nat) -> int
    decreases m,
{
    if m == 0 {
        0
    } else {
        total(counts, (m - 1) as nat) + counts[m - 1]
    }
}

/// The sum of channel-`c` bucket counts over buckets `0 .. m - 1`.
pub open spec fn bucket_total(s: Seq<u8>, n: nat, c: int, m: nat) -> int
    decreases m,
{
    if m == 0 {
        0
    } else {
        bucket_total(s, n, c, (m - 1) as nat) + bucket_count(s, n, c, m - 1)
    }
}

/// The sum of lightness bucket counts over buckets `0 .. m - 1`.
pub open spec fn lightness_total(s: Seq<u8>, n: nat, m: nat) -> int
    decreases m,
{
    if m == 0 {
        0
    } else {
        lightness_total(s, n, (m - 1) as nat) + lightness_count(s, n, m - 1)
    }
}

proof fn lemma_bucket_total_step(s: Seq<u8>, n: nat, c: int, m: nat)
    requires
        n >= 1,
    ensures
        bucket_total(s, n, c, m) == bucket_total(s, (n - 1) as nat, c, m) + if s[4 * (n - 1)
            + c] / 8 < m {
            1int
        } else {
            0
        },
    decreases m,
{
    if m > 0 {
        lemma_bucket_total_step(s, n, c, (m - 1) as nat);
    }
}

proof fn lemma_lightness_total_step(s: Seq<u8>, n: nat, m: nat)
    requires
        n >= 1,
    ensures
        lightness_total(s, n, m) == lightness_total(s, (n - 1) as nat, m) + if lightness_bucket(
            s,
            n - 1,
        ) < m {
            1int
        } else {
            0
        },
    decreases m,
{
    if m > 0 {
        lemma_lightness_total_step(s, n, (m - 1) as nat);
    }
}

/// Every pixel falls in exactly one of the 32 buckets of each channel, so the
/// counts of a channel add up to the number of pixels.
pub proof fn lemma_buckets_partition(s: Seq<u8>, n: nat)
    requires
        s.len() >= 4 * n,
    ensures
        bucket_total(s, n, 0, 32) == n,
        bucket_total(s, n, 1, 32) == n,
        bucket_total(s, n, 2, 32) == n,
        lightness_total(s, n, 32) == n,
    decreases n,
{
    if n > 0 {
        lemma_buckets_partition(s, (n - 1) as nat);
        lemma_bucket_total_step(s, n, 0, 32);
        lemma_bucket_total_step(s, n, 1, 32);
        lemma_bucket_total_step(s, n, 2, 32);
        lemma_lightness_total_step(s, n, 32);
    } else {
        lemma_zero_totals(s, 32);
    }
}

proof fn lemma_zero_totals(s: Seq<u8>, m: nat)
    ensures
        bucket_total(s, 0, 0, m) == 0,
        bucket_total(s, 0, 1, m) == 0,
        bucket_total(s, 0, 2, m) == 0,
        lightness_total(s, 0, m) == 0,
    decreases m,
{
    if m > 0 {
        lemma_zero_totals(s, (m - 1) as nat);
    }
}

proof fn lemma_total_matches(counts: Seq<u32>, s: Seq<u8>, n: nat, c: int, m: nat)
    requires
        m <= counts.len(),
        c < 3 ==> forall|b: int| 0 <= b < counts.len() ==> counts[b] == bucket_count(s, n, c, b),
        c == 3 ==> forall|b: int| 0 <= b < counts.len() ==> counts[b] == lightness_count(s, n, b),
    ensures
        c < 3 ==> total(counts, m) == bucket_total(s, n, c, m),
        c == 3 ==> total(counts, m) == lightness_total(s, n, m),
    decreases m,
{
    if m > 0 {
        lemma_total_matches(counts, s, n, c, (m - 1) as nat);
    }
}

fn bump(v: &mut Vec<u32>, i: usize)
    requires
        i < old(v)@.len(),
        old(v)@[i as int] < u32::MAX,
    ensures
        final(v)@ == old(v)@.update(i as int, (old(v)@[i as int] + 1) as u32),
{
    let x = v[i];
    v.set(i, x + 1);
}

/// Counts every pixel into 32 buckets per color channel (`value / 8`) and 32
/// lightness buckets (`(r + g + b) / 24`).
pub fn histogram(img: &PixelBuffer) -> (r: Histogram)
    requires
        img.wf(),
        img.width as int * img.height as int <= u32::MAX,
    ensures
        r.red@.len() == 32 && r.green@.len() == 32 && r.blue@.len() == 32 && r.lightness@.len()
            == 32,
        forall|b: int|
            0 <= b < 32 ==> {
                &&& r.red@[b] == bucket_count(img.pixels@, (img.width * img.height) as nat, 0, b)
                &&& r.green@[b] == bucket_count(img.pixels@, (img.width * img.height) as nat, 1, b)
                &&& r.blue@[b] == bucket_count(img.pixels@, (img.width * img.height) as nat, 2, b)
                &&& r.lightness@[b] == lightness_count(
                    img.pixels@,
                    (img.width * img.height) as nat,
                    b,
                )
            },
        total(r.red@, 32) == img.width * img.height,
        total(r.green@, 32) == img.width * img.height,
        total(r.blue@, 32) == img.width * img.height,
        total(r.lightness@, 32) == img.width * img.height,
{
    let ghost s = img.pixels@;
    let ghost npx = (img.width * img.height) as nat;
    let mut red: Vec<u32> = vec![0u32; 32];
    let mut green: Vec<u32> = vec![0u32; 32];
    let mut blue: Vec<u32> = vec![0u32; 32];
    let mut lightness: Vec<u32> = vec![0u32; 32];
    let n = img.pixels.len();
    let mut i: usize = 0;
    while i < n
        invariant
            s == img.pixels@,
            n == s.len(),
            n == npx * 4,
            npx <= u32::MAX,
            i % 4 == 0,
            i <= n,
            red@.len() == 32 && green@.len() == 32 && blue@.len() == 32 && lightness@.len() == 32,
            forall|b: int| 0 <= b < 32 ==> #[trigger] red@[b] == bucket_count(s, (i / 4) as nat, 0, b),
            forall|b: int| 0 <= b < 32 ==> #[trigger] green@[b] == bucket_count(s, (i / 4) as nat, 1, b),
            forall|b: int| 0 <= b < 32 ==> #[trigger] blue@[b] == bucket_count(s, (i / 4) as nat, 2, b),
            forall|b: int| 0 <= b < 32 ==> #[trigger] lightness@[b] == lightness_count(s, (i / 4) as nat, b),
        decreases n - i,
    {
        let ghost p = (i / 4) as nat;
        let r = img.pixels[i];
        let g = img.pixels[i + 1];
        let b = img.pixels[i + 2];
        proof {
            lemma_count_bounded(s, p, 0, (r / 8) as int);
            lemma_count_bounded(s, p, 1, (g / 8) as int);
            lemma_count_bounded(s, p, 2, (b / 8) as int);
            lemma_count_bounded(s, p, 0, (r + g + b) / 24);
        }
        bump(&mut red, (r / 8) as usize);
        bump(&mut green, (g / 8) as usize);
        bump(&mut blue, (b / 8) as usize);
        bump(&mut lightness, ((r as u16 + g as u16 + b as u16) / 24) as usize);
        proof {
            assert((i + 4) / 4 == p + 1);
            assert(4 * p == i);
        }
        i = i + 4;
    }
    proof {
        lemma_buckets_partition(s, npx);
        lemma_total_matches(red@, s, npx, 0, 32);
        lemma_total_matches(green@, s, npx, 1, 32);
        lemma_total_matches(blue@, s, npx, 2, 32);
        lemma_total_matches(lightness@, s, npx, 3, 32);
    }
    Histogram { lightness, red, green, blue }
}

proof fn lemma_count_bounded(s: Seq<u8>, n: nat, c: int, b: int)
    ensures
        bucket_count(s, n, c, b) <= n,
        lightness_count(s, n, b) <= n,
    decreases n,
{
    if n > 0 {
        lemma_count_bounded(s, (n - 1) as nat, c, b);
    }
}

} // verus!
