use vstd::prelude::*;

verus! {

broadcast use vstd::seq_lib::group_to_multiset_ensures;

/// Every element is at most each element after it.
pub open spec fn is_sorted(s: Seq<u8>) -> bool {
    forall|i: int, j: int| 0 <= i < j < s.len() ==> s[i] <= s[j]
}

/// The median of an ascending sequence: its middle element, or the mean of
/// its two middle elements rounded half away from zero when the length is even.
pub open spec fn median_of_sorted(s: Seq<u8>) -> int
    recommends
        s.len() > 0,
{
    let mid = s.len() as int / 2;
    if s.len() % 2 == 0 {
        (s[mid - 1] + s[mid] + 1) / 2
    } else {
        s[mid] as int
    }
}

/// `r` is `sqrt(n)` rounded half away from zero, for `n >= 0`.
pub open spec fn is_rounded_sqrt(n: int, r: int) -> bool {
    &&& r >= 0
    &&& n <= r * r + r
    &&& (r == 0 || r * r - r < n)
}

/// `sqrt(x*x + y*y)` rounded half away from zero.
pub open spec fn rounded_norm(x: int, y: int) -> int {
    choose|r: int| #[trigger] is_rounded_sqrt(x * x + y * y, r)
}

/// `rounded_norm` saturated at `i16::MAX`.
pub open spec fn saturated_norm(x: int, y: int) -> int {
    if rounded_norm(x, y) > 32767 {
        32767
    } else {
        rounded_norm(x, y)
    }
}

/// At most one integer is the rounded square root of `n`.
pub proof fn lemma_rounded_sqrt_unique(n: int, r1: int, r2: int)
    requires
        is_rounded_sqrt(n, r1),
        is_rounded_sqrt(n, r2),
    ensures
        r1 == r2,
{
    if r1 < r2 {
        assert(r2 * r2 - r2 >= r1 * r1 + r1) by (nonlinear_arith)
            requires
                0 <= r1 < r2,
        ;
    } else if r2 < r1 {
        assert(r1 * r1 - r1 >= r2 * r2 + r2) by (nonlinear_arith)
            requires
                0 <= r2 < r1,
        ;
    }
}

proof fn lemma_swap_multiset(s: Seq<u8>, i: int, j: int)
    requires
        0 <= i < s.len(),
        0 <= j < s.len(),
    ensures
        s.update(i, s[j]).update(j, s[i]).to_multiset() == s.to_multiset(),
{
    broadcast use vstd::seq_lib::to_multiset_update;
    broadcast use vstd::multiset::group_multiset_axioms;

    let t = s.update(i, s[j]);
    assert(t[j] == s[j]);
    assert(t.update(j, s[i]).to_multiset() =~= s.to_multiset());
}

/// Sorts `nums` ascending in place and returns its median.
pub fn median(nums: &mut Vec<u8>) -> (r: u8)
    requires
        old(nums).len() > 0,
    ensures
        final(nums)@.to_multiset() == old(nums)@.to_multiset(),
        is_sorted(final(nums)@),
        r as int == median_of_sorted(final(nums)@),
{
    let n = nums.len();
    let mut i: usize = 1;
    while i < n
        invariant
            1 <= i <= n,
            n == nums.len(),
            nums@.to_multiset() == old(nums)@.to_multiset(),
            forall|a: int, b: int| 0 <= a < b < i ==> nums@[a] <= nums@[b],
        decreases n - i,
    {
        let mut j: usize = i;
        while j > 0 && nums[j - 1] > nums[j]
            invariant
                1 <= i < n,
                0 <= j <= i,
                n == nums.len(),
                nums@.to_multiset() == old(nums)@.to_multiset(),
                forall|a: int, b: int|
                    0 <= a < b <= i && a != j && b != j ==> nums@[a] <= nums@[b],
                forall|b: int| j < b <= i ==> nums@[j as int] <= nums@[b],
            decreases j,
        {
            let lo = nums[j - 1];
            let hi = nums[j];
            proof {
                lemma_swap_multiset(nums@, j - 1, j as int);
            }
            nums.set(j - 1, hi);
            nums.set(j, lo);
            j = j - 1;
        }
        i = i + 1;
    }
    let mid = n / 2;
    if n % 2 == 0 {
        ((nums[mid - 1] as u16 + nums[mid] as u16 + 1) / 2u16) as u8
    } else {
        nums[mid]
    }
}

/// The length of the vector `(x, y)`, rounded half away from zero and
/// saturated at `i16::MAX`.
pub fn pitagora(x: i16, y: i16) -> (r: i16)
    ensures
        r == saturated_norm(x as int, y as int),
{
    proof {
        assert(x * x <= 32768 * 32768) by (nonlinear_arith)
            requires
                -32768 <= x <= 32767,
        ;
        assert(y * y <= 32768 * 32768) by (nonlinear_arith)
            requires
                -32768 <= y <= 32767,
        ;
        assert(x * x >= 0 && y * y >= 0) by (nonlinear_arith);
    }
    let xx: i64 = (x as i64) * (x as i64);
    let yy: i64 = (y as i64) * (y as i64);
    let n: u64 = (xx + yy) as u64;
    // floor of the square root, by bisection: lo * lo <= n < hi * hi
    let mut lo: u64 = 0;
    let mut hi: u64 = 46342;
    while hi - lo > 1
        invariant
            lo < hi <= 46342,
            lo * lo <= n,
            n < hi * hi,
            n <= 2 * 32768 * 32768,
        decreases hi - lo,
    {
        let mid = lo + (hi - lo) / 2;
        assert(mid * mid <= 46342 * 46342) by (nonlinear_arith)
            requires
                mid <= 46342,
        ;
        if mid * mid <= n {
            lo = mid;
        } else {
            hi = mid;
        }
    }
    assert(lo * lo <= 46342 * 46342) by (nonlinear_arith)
        requires
            lo <= 46342,
    ;
    let root = if n <= lo * lo + lo {
        lo
    } else {
        lo + 1
    };
    proof {
        assert(hi == lo + 1);
        if n <= lo * lo + lo {
            assert(lo == 0 || lo * lo - lo < n) by (nonlinear_arith)
                requires
                    lo * lo <= n,
            ;
        } else {
            assert((lo + 1) * (lo + 1) == lo * lo + 2 * lo + 1) by (nonlinear_arith);
        }
        assert(is_rounded_sqrt(n as int, root as int));
        lemma_rounded_sqrt_unique(n as int, root as int, rounded_norm(x as int, y as int));
    }
    if root > 32767 {
        i16::MAX
    } else {
        root as i16
    }
}

} // verus!
