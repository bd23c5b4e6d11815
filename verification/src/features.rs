//! Frequency-domain feature extraction.
//!
//! The spectral transform itself runs on floating-point buffers outside this
//! crate; callers hand the resulting magnitude spectrum in as fixed-point
//! micro-units (one million equals a magnitude of `1.0`). Everything that is
//! computed *from* the spectrum — centroid, band energies and flux — lives
//! here and is verified against the spec functions below.

use vstd::arithmetic::div_mod::{lemma_div_multiples_vanish, lemma_div_of0};
use vstd::prelude::*;

verus! {

/// Fixed-point scale for feature values: this many micro-units equal `1.0`.
pub const FEATURE_SCALE: u32 = 1_000_000;

/// Upper edge of the low frequency band, in Hz.
pub const LOW_BAND_MAX_HZ: u64 = 200;

/// Lower edge of the high frequency band, in Hz.
pub const HIGH_BAND_MIN_HZ: u64 = 2_000;

/// Largest block length the engine accepts, in samples.
pub const MAX_BLOCK_LEN: usize = 0x4000_0000;

/// Largest magnitude a single spectrum bin may carry, in micro-units.
pub const MAX_MAGNITUDE: u64 = 0x1000_0000_0000;

/// Clamps a non-negative fixed-point value into `[0, FEATURE_SCALE]`.
pub open spec fn clamp_unit(x: int) -> int {
    if x > FEATURE_SCALE { FEATURE_SCALE as int } else if x < 0 { 0 } else { x }
}

/// Total magnitude of a spectrum.
pub open spec fn mag_total(m: Seq<u64>) -> int
    decreases m.len(),
{
    if m.len() == 0 {
        0
    } else {
        mag_total(m.drop_last()) + m.last()
    }
}

/// Magnitude sum weighted by bin index.
pub open spec fn mag_weighted(m: Seq<u64>) -> int
    decreases m.len(),
{
    if m.len() == 0 {
        0
    } else {
        mag_weighted(m.drop_last()) + (m.len() - 1) * m.last()
    }
}

/// Whether bin `i` of an `n`-sample block lies in the low band: its frequency
/// `i * rate / n` is at most `LOW_BAND_MAX_HZ`.
pub open spec fn is_low_bin(i: int, n: int, rate: int) -> bool {
    i * rate <= LOW_BAND_MAX_HZ * n
}

/// Whether bin `i` of an `n`-sample block lies in the high band: its frequency
/// `i * rate / n` is at least `HIGH_BAND_MIN_HZ`.
pub open spec fn is_high_bin(i: int, n: int, rate: int) -> bool {
    i * rate >= HIGH_BAND_MIN_HZ * n
}

/// Magnitude that falls into the low band.
pub open spec fn low_band_total(m: Seq<u64>, n: int, rate: int) -> int
    decreases m.len(),
{
    if m.len() == 0 {
        0
    } else {
        low_band_total(m.drop_last(), n, rate) + if is_low_bin(m.len() - 1, n, rate) {
            m.last() as int
        } else {
            0
        }
    }
}

/// Magnitude that falls into the high band.
pub open spec fn high_band_total(m: Seq<u64>, n: int, rate: int) -> int
    decreases m.len(),
{
    if m.len() == 0 {
        0
    } else {
        high_band_total(m.drop_last(), n, rate) + if is_high_bin(m.len() - 1, n, rate) {
            m.last() as int
        } else {
            0
        }
    }
}

/// Half-wave rectified magnitude difference against the previous spectrum:
/// the sum over all bins of `max(cur[i] - prev[i], 0)`, where a missing
/// previous bin counts as zero.
pub open spec fn flux_total(cur: Seq<u64>, prev: Seq<u64>) -> int
    decreases cur.len(),
{
    if cur.len() == 0 {
        0
    } else {
        let i = cur.len() - 1;
        let p: int = if i < prev.len() { prev[i as int] as int } else { 0 };
        flux_total(cur.drop_last(), prev) + if cur.last() > p {
            cur.last() - p
        } else {
            0
        }
    }
}

/// Spectral centroid normalised by the Nyquist frequency, in micro-units.
///
/// With `bin_hz = rate / n` and `nyquist = rate / 2`, the magnitude-weighted
/// mean frequency divided by Nyquist reduces to
/// `2 * mag_weighted / (n * mag_total)`; the sample rate cancels. It is zero
/// when the spectrum carries no magnitude or the sample rate is zero.
pub open spec fn spec_centroid(m: Seq<u64>, n: int, rate: int) -> int {
    if mag_total(m) == 0 || rate == 0 {
        0
    } else {
        clamp_unit(2 * FEATURE_SCALE * mag_weighted(m) / (n * mag_total(m)))
    }
}

/// A band sum normalised by the total magnitude, in micro-units; zero when
/// the spectrum carries no magnitude.
pub open spec fn spec_band(part: int, total: int) -> int {
    if total == 0 {
        0
    } else {
        clamp_unit(FEATURE_SCALE * part / total)
    }
}

/// Normalised spectral flux, in micro-units. It is forced to zero on the
/// first block after construction or reset, and whenever the spectrum length
/// changed from the previous block (the previous-magnitude buffer is refilled
/// at the new size, so one block of zero flux separates the two regimes).
pub open spec fn spec_flux(cur: Seq<u64>, prev: Seq<u64>, first: bool) -> int {
    if first || cur.len() != prev.len() || mag_total(cur) == 0 {
        0
    } else {
        clamp_unit(FEATURE_SCALE * flux_total(cur, prev) / mag_total(cur))
    }
}

/// A spectrum of zero magnitudes has zero total.
pub proof fn lemma_mag_total_zero(m: Seq<u64>)
    requires
        forall|i: int| 0 <= i < m.len() ==> m[i] == 0,
    ensures
        mag_total(m) == 0,
    decreases m.len(),
{
    if m.len() > 0 {
        lemma_mag_total_zero(m.drop_last());
    }
}

/// Flux against a dominating previous spectrum is zero: when every current
/// bin is at most its previous counterpart, nothing is rectified.
pub proof fn lemma_flux_total_dominated(cur: Seq<u64>, prev: Seq<u64>)
    requires
        cur.len() <= prev.len(),
        forall|i: int| #![trigger cur[i]] 0 <= i < cur.len() ==> cur[i] <= prev[i],
    ensures
        flux_total(cur, prev) == 0,
    decreases cur.len(),
{
    if cur.len() > 0 {
        assert forall|i: int| #![trigger cur.drop_last()[i]]
            0 <= i < cur.drop_last().len() implies cur.drop_last()[i] <= prev[i] by {
            assert(cur.drop_last()[i] == cur[i]);
        }
        lemma_flux_total_dominated(cur.drop_last(), prev);
        assert(cur[cur.len() - 1] <= prev[cur.len() - 1]);
    }
}

/// Repetition produces no flux: a spectrum compared against itself has
/// spectral flux zero, whatever it holds.
pub proof fn lemma_flux_of_identical_spectrum(m: Seq<u64>)
    ensures
        spec_flux(m, m, false) == 0,
{
    lemma_flux_total_dominated(m, m);
    if mag_total(m) != 0 {
        lemma_mag_total_nonneg(m);
        lemma_div_of0(mag_total(m));
    }
}

/// The total magnitude is never negative.
pub proof fn lemma_mag_total_nonneg(m: Seq<u64>)
    ensures
        mag_total(m) >= 0,
    decreases m.len(),
{
    if m.len() > 0 {
        lemma_mag_total_nonneg(m.drop_last());
    }
}

/// When every bin that carries magnitude is a low bin, the low band holds the
/// whole total.
proof fn lemma_low_total_all(m: Seq<u64>, n: int, rate: int)
    requires
        forall|i: int| #![trigger m[i]] 0 <= i < m.len() && m[i] > 0 ==> is_low_bin(i, n, rate),
    ensures
        low_band_total(m, n, rate) == mag_total(m),
    decreases m.len(),
{
    if m.len() > 0 {
        assert forall|i: int| #![trigger m.drop_last()[i]]
            0 <= i < m.drop_last().len() && m.drop_last()[i] > 0 implies is_low_bin(
            i,
            n,
            rate,
        ) by {
            assert(m.drop_last()[i] == m[i]);
        }
        lemma_low_total_all(m.drop_last(), n, rate);
        assert(m[m.len() - 1] == m.last());
    }
}

/// When every bin that carries magnitude is a low bin and the block has at
/// least one sample, no magnitude reaches the high band.
proof fn lemma_high_total_none(m: Seq<u64>, n: int, rate: int)
    requires
        n >= 1,
        forall|i: int| #![trigger m[i]] 0 <= i < m.len() && m[i] > 0 ==> is_low_bin(i, n, rate),
    ensures
        high_band_total(m, n, rate) == 0,
    decreases m.len(),
{
    if m.len() > 0 {
        assert forall|i: int| #![trigger m.drop_last()[i]]
            0 <= i < m.drop_last().len() && m.drop_last()[i] > 0 implies is_low_bin(
            i,
            n,
            rate,
        ) by {
            assert(m.drop_last()[i] == m[i]);
        }
        lemma_high_total_none(m.drop_last(), n, rate);
        assert(m[m.len() - 1] == m.last());
    }
}

/// When every bin that carries magnitude is a high bin, the high band holds
/// the whole total.
proof fn lemma_high_total_all(m: Seq<u64>, n: int, rate: int)
    requires
        forall|i: int| #![trigger m[i]] 0 <= i < m.len() && m[i] > 0 ==> is_high_bin(i, n, rate),
    ensures
        high_band_total(m, n, rate) == mag_total(m),
    decreases m.len(),
{
    if m.len() > 0 {
        assert forall|i: int| #![trigger m.drop_last()[i]]
            0 <= i < m.drop_last().len() && m.drop_last()[i] > 0 implies is_high_bin(
            i,
            n,
            rate,
        ) by {
            assert(m.drop_last()[i] == m[i]);
        }
        lemma_high_total_all(m.drop_last(), n, rate);
        assert(m[m.len() - 1] == m.last());
    }
}

/// When every bin that carries magnitude is a high bin and the block has at
/// least one sample, no magnitude reaches the low band.
proof fn lemma_low_total_none(m: Seq<u64>, n: int, rate: int)
    requires
        n >= 1,
        forall|i: int| #![trigger m[i]] 0 <= i < m.len() && m[i] > 0 ==> is_high_bin(i, n, rate),
    ensures
        low_band_total(m, n, rate) == 0,
    decreases m.len(),
{
    if m.len() > 0 {
        assert forall|i: int| #![trigger m.drop_last()[i]]
            0 <= i < m.drop_last().len() && m.drop_last()[i] > 0 implies is_high_bin(
            i,
            n,
            rate,
        ) by {
            assert(m.drop_last()[i] == m[i]);
        }
        lemma_low_total_none(m.drop_last(), n, rate);
        assert(m[m.len() - 1] == m.last());
    }
}

/// Band separation, low side: a spectrum whose magnitude lies entirely in
/// low bins reports a full low band and an empty high band.
pub proof fn lemma_band_separation_low(m: Seq<u64>, n: int, rate: int)
    requires
        n >= 1,
        mag_total(m) > 0,
        forall|i: int| #![trigger m[i]] 0 <= i < m.len() && m[i] > 0 ==> is_low_bin(i, n, rate),
    ensures
        spec_band(low_band_total(m, n, rate), mag_total(m)) == FEATURE_SCALE,
        spec_band(high_band_total(m, n, rate), mag_total(m)) == 0,
{
    lemma_low_total_all(m, n, rate);
    lemma_high_total_none(m, n, rate);
    lemma_div_multiples_vanish(FEATURE_SCALE as int, mag_total(m));
    lemma_div_of0(mag_total(m));
}

/// Band separation, high side: a spectrum whose magnitude lies entirely in
/// high bins reports a full high band and an empty low band.
pub proof fn lemma_band_separation_high(m: Seq<u64>, n: int, rate: int)
    requires
        n >= 1,
        mag_total(m) > 0,
        forall|i: int| #![trigger m[i]] 0 <= i < m.len() && m[i] > 0 ==> is_high_bin(i, n, rate),
    ensures
        spec_band(high_band_total(m, n, rate), mag_total(m)) == FEATURE_SCALE,
        spec_band(low_band_total(m, n, rate), mag_total(m)) == 0,
{
    lemma_high_total_all(m, n, rate);
    lemma_low_total_none(m, n, rate);
    lemma_div_multiples_vanish(FEATURE_SCALE as int, mag_total(m));
    lemma_div_of0(mag_total(m));
}

/// Computes the normalised spectral centroid and the two band energies of a
/// magnitude spectrum belonging to an `n`-sample block.
#[verifier::loop_isolation(false)]
pub(crate) fn spectral_shape(spectrum: &Vec<u64>, n: usize, rate: u32) -> (r: (u32, u32, u32))
    requires
        2 <= n <= MAX_BLOCK_LEN,
        spectrum@.len() <= MAX_BLOCK_LEN,
        forall|i: int| 0 <= i < spectrum@.len() ==> spectrum@[i] <= MAX_MAGNITUDE,
    ensures
        r.0 == spec_centroid(spectrum@, n as int, rate as int),
        r.1 == spec_band(low_band_total(spectrum@, n as int, rate as int), mag_total(spectrum@)),
        r.2 == spec_band(high_band_total(spectrum@, n as int, rate as int), mag_total(spectrum@)),
        r.0 <= FEATURE_SCALE,
        r.1 <= FEATURE_SCALE,
        r.2 <= FEATURE_SCALE,
{
    let len = spectrum.len();
    let mut i: usize = 0;
    let mut total: u128 = 0;
    let mut weighted: u128 = 0;
    let mut low: u128 = 0;
    let mut high: u128 = 0;
    while i < len
        invariant
            i <= len,
            total as int == mag_total(spectrum@.take(i as int)),
            weighted as int == mag_weighted(spectrum@.take(i as int)),
            low as int == low_band_total(spectrum@.take(i as int), n as int, rate as int),
            high as int == high_band_total(spectrum@.take(i as int), n as int, rate as int),
            total as int <= (i as int) * (MAX_MAGNITUDE as int),
            weighted as int <= (i as int) * 0x400_0000_0000_0000_0000,
            low <= total,
            high <= total,
        decreases len - i,
    {
        let m = spectrum[i];
        proof {
            assert(spectrum@.take(i as int + 1).drop_last() =~= spectrum@.take(i as int));
            assert((i as int) * (m as int) <= 0x400_0000_0000_0000_0000) by (nonlinear_arith)
                requires
                    0 <= i < 0x4000_0000,
                    m <= 0x1000_0000_0000,
            ;
            assert((i as int) * (rate as int) < 0x4000_0000_0000_0000) by (nonlinear_arith)
                requires
                    0 <= i < 0x4000_0000,
                    rate < 0x1_0000_0000,
            ;
        }
        total = total + m as u128;
        weighted = weighted + (i as u128) * (m as u128);
        let freq_num: u64 = (i as u64) * (rate as u64);
        if freq_num <= LOW_BAND_MAX_HZ * (n as u64) {
            low = low + m as u128;
        }
        if freq_num >= HIGH_BAND_MIN_HZ * (n as u64) {
            high = high + m as u128;
        }
        i = i + 1;
    }
    proof {
        assert(spectrum@.take(len as int) =~= spectrum@);
    }
    if total == 0 {
        return (0, 0, 0);
    }
    let centroid: u32 = if rate == 0 {
        0
    } else {
        proof {
            assert((2 * FEATURE_SCALE as int) * (weighted as int)
                <= (2 * FEATURE_SCALE as int) * ((MAX_BLOCK_LEN as int)
                * 0x400_0000_0000_0000_0000)) by (nonlinear_arith)
                requires
                    0 <= weighted as int <= (MAX_BLOCK_LEN as int) * 0x400_0000_0000_0000_0000,
            ;
            assert((n as int) * (total as int) <= (MAX_BLOCK_LEN as int) * ((MAX_BLOCK_LEN as int)
                * (MAX_MAGNITUDE as int))) by (nonlinear_arith)
                requires
                    0 <= n as int <= MAX_BLOCK_LEN as int,
                    0 <= total as int <= (MAX_BLOCK_LEN as int) * (MAX_MAGNITUDE as int),
            ;
            assert((n as int) * (total as int) > 0) by (nonlinear_arith)
                requires
                    n as int > 0,
                    total as int > 0,
            ;
        }
        let num: u128 = 2 * (FEATURE_SCALE as u128) * weighted;
        let den: u128 = (n as u128) * total;
        let q: u128 = num / den;
        if q > FEATURE_SCALE as u128 {
            FEATURE_SCALE
        } else {
            q as u32
        }
    };
    let low_energy: u32 = {
        let q: u128 = (FEATURE_SCALE as u128) * low / total;
        if q > FEATURE_SCALE as u128 {
            FEATURE_SCALE
        } else {
            q as u32
        }
    };
    let high_energy: u32 = {
        let q: u128 = (FEATURE_SCALE as u128) * high / total;
        if q > FEATURE_SCALE as u128 {
            FEATURE_SCALE
        } else {
            q as u32
        }
    };
    (centroid, low_energy, high_energy)
}

/// Computes the normalised spectral flux of a magnitude spectrum against the
/// previous block's spectrum of the same length.
#[verifier::loop_isolation(false)]
pub(crate) fn spectral_flux_value(cur: &Vec<u64>, prev: &Vec<u64>) -> (r: u32)
    requires
        cur@.len() == prev@.len(),
        cur@.len() <= MAX_BLOCK_LEN,
        forall|i: int| 0 <= i < cur@.len() ==> cur@[i] <= MAX_MAGNITUDE,
    ensures
        r == spec_flux(cur@, prev@, false),
        r <= FEATURE_SCALE,
{
    let len = cur.len();
    let mut i: usize = 0;
    let mut total: u128 = 0;
    let mut rectified: u128 = 0;
    while i < len
        invariant
            i <= len,
            total as int == mag_total(cur@.take(i as int)),
            rectified as int == flux_total(cur@.take(i as int), prev@),
            total as int <= (i as int) * (MAX_MAGNITUDE as int),
            rectified <= total,
        decreases len - i,
    {
        let m = cur[i];
        proof {
            assert(cur@.take(i as int + 1).drop_last() =~= cur@.take(i as int));
        }
        total = total + m as u128;
        if m > prev[i] {
            rectified = rectified + (m - prev[i]) as u128;
        }
        i = i + 1;
    }
    proof {
        assert(cur@.take(len as int) =~= cur@);
    }
    if total == 0 {
        return 0;
    }
    proof {
        assert(rectified as int <= (MAX_BLOCK_LEN as int) * (MAX_MAGNITUDE as int));
        assert((FEATURE_SCALE as int) * (rectified as int) <= (FEATURE_SCALE as int) * (
        0x400_0000_0000_0000_0000)) by (nonlinear_arith)
            requires
                0 <= rectified as int <= 0x400_0000_0000_0000_0000,
        ;
    }
    let q: u128 = (FEATURE_SCALE as u128) * rectified / total;
    if q > FEATURE_SCALE as u128 {
        FEATURE_SCALE
    } else {
        q as u32
    }
}

} // verus!
