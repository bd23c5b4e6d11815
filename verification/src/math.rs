//! Small arithmetic helpers shared by the analysis pipeline.

use vstd::prelude::*;

verus! {

/// `r` is the integer square root of `q`, rounded towards zero.
pub open spec fn is_sqrt_floor(r: int, q: int) -> bool {
    &&& 0 <= r
    &&& r * r <= q
    &&& q < (r + 1) * (r + 1)
}

/// The integer square root is unique: any two values that both satisfy
/// [`is_sqrt_floor`] for the same radicand are equal.
pub proof fn lemma_sqrt_floor_unique(a: int, b: int, q: int)
    requires
        is_sqrt_floor(a, q),
        is_sqrt_floor(b, q),
    ensures
        a == b,
{
    if a < b {
        assert((a + 1) * (a + 1) <= b * b) by (nonlinear_arith)
            requires
                0 <= a,
                0 <= b,
                a < b,
        ;
    }
    if b < a {
        assert((b + 1) * (b + 1) <= a * a) by (nonlinear_arith)
            requires
                0 <= a,
                0 <= b,
                b < a,
        ;
    }
}

/// Sum of the squared samples of a block.
pub open spec fn sum_squares(s: Seq<i32>) -> int
    decreases s.len(),
{
    if s.len() == 0 {
        0
    } else {
        sum_squares(s.drop_last()) + s.last() * s.last()
    }
}

/// An all-zero block has a zero sum of squares.
pub proof fn lemma_sum_squares_zero(s: Seq<i32>)
    requires
        forall|i: int| 0 <= i < s.len() ==> s[i] == 0,
    ensures
        sum_squares(s) == 0,
    decreases s.len(),
{
    if s.len() > 0 {
        lemma_sum_squares_zero(s.drop_last());
    }
}

/// Integer square root of a 64-bit value, rounded towards zero.
pub fn isqrt64(q: u64) -> (r: u64)
    ensures
        is_sqrt_floor(r as int, q as int),
        r <= 0x1_0000_0000,
{
    let mut lo: u64 = 0;
    let mut hi: u64 = 0x1_0000_0000;
    assert((hi as int) * (hi as int) == 0x1_0000_0000_0000_0000);
    while lo + 1 < hi
        invariant
            lo < hi,
            hi <= 0x1_0000_0000,
            (lo as int) * (lo as int) <= q as int,
            (q as int) < (hi as int) * (hi as int),
        decreases hi - lo,
    {
        let mid: u64 = lo + (hi - lo) / 2;
        assert((mid as int) * (mid as int) <= 0x1_0000_0000_0000_0000) by (nonlinear_arith)
            requires
                mid <= 0x1_0000_0000,
        ;
        if (mid as u128) * (mid as u128) <= q as u128 {
            lo = mid;
        } else {
            hi = mid;
        }
    }
    lo
}

/// Root-mean-square amplitude of a raw block, in micro-units: the integer
/// square root of the mean of the squared samples.
#[verifier::loop_isolation(false)]
pub(crate) fn compute_rms(samples: &Vec<i32>) -> (r: u64)
    requires
        samples@.len() >= 1,
    ensures
        is_sqrt_floor(r as int, sum_squares(samples@) / (samples@.len() as int)),
        r <= 0x1_0000_0000,
{
    let len = samples.len();
    let mut i: usize = 0;
    let mut sum: u128 = 0;
    while i < len
        invariant
            i <= len,
            sum as int == sum_squares(samples@.take(i as int)),
            sum as int <= (i as int) * 0x4000_0000_0000_0000,
        decreases len - i,
    {
        let s = samples[i];
        proof {
            assert(samples@.take(i as int + 1).drop_last() =~= samples@.take(i as int));
            assert(0 <= (s as int) * (s as int) <= 0x4000_0000_0000_0000) by (nonlinear_arith)
                requires
                    -0x8000_0000 <= s as int <= 0x7fff_ffff,
            ;
        }
        let wide: i64 = (s as i64) * (s as i64);
        sum = sum + wide as u128;
        i = i + 1;
    }
    proof {
        assert(samples@.take(len as int) =~= samples@);
        vstd::arithmetic::div_mod::lemma_div_is_ordered(
            sum as int,
            0x4000_0000_0000_0000 * (len as int),
            len as int,
        );
        vstd::arithmetic::div_mod::lemma_div_by_multiple(0x4000_0000_0000_0000, len as int);
        assert((len as int) * 0x4000_0000_0000_0000 == 0x4000_0000_0000_0000 * (len as int));
    }
    let mean: u128 = sum / (len as u128);
    isqrt64(mean as u64)
}

} // verus!
