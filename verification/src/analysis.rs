//! Streaming audio analysis engine.
//!
//! The engine consumes fixed-size (but not necessarily constant-size) blocks
//! of mono samples in strict temporal order and maintains enough history to
//! compute time-domain energy, frequency-domain shape, onset detection and a
//! running tempo estimate, all in bounded per-block work.
//!
//! Units: sample amplitudes arrive as fixed-point micro-units (one million is
//! an amplitude of `1.0`), spectra as micro-unit magnitudes, and every
//! timestamp is counted in *ticks* of half a sample period, so the midpoint
//! of a block is always an exact integer. The caller performs the spectral
//! transform itself (it runs on floating-point buffers) and hands in the
//! magnitude spectrum of each block alongside the raw samples.

use vstd::prelude::*;

use crate::audio::AudioMode;
use crate::error::MusicVizError;
use crate::features::{
    clamp_unit, high_band_total, lemma_mag_total_zero, low_band_total, mag_total, spec_band,
    spec_centroid, spec_flux, spectral_flux_value, spectral_shape, FEATURE_SCALE, MAX_BLOCK_LEN,
    MAX_MAGNITUDE,
};
use crate::math::{
    compute_rms, is_sqrt_floor, lemma_sqrt_floor_unique, lemma_sum_squares_zero, sum_squares,
};
use vstd::arithmetic::div_mod::{
    lemma_div_denominator, lemma_div_multiples_vanish, lemma_div_of0,
};
use vstd::string::StringExecFns;

verus! {

/// Gain applied to the positive RMS delta before clamping, for the onset
/// confidence.
pub const BEAT_GAIN: u64 = 12;

/// Confidence at or above which an onset may be registered, in micro-units.
pub const BEAT_THRESHOLD: u32 = 600_000;

/// Capacity of the onset history; the oldest entries are evicted first.
pub const MAX_BEAT_HISTORY: usize = 64;

/// Processed-sample counts stay below this bound so that every time in ticks
/// fits in a `u64`.
pub const PROCESSED_SAMPLE_LIMIT: u64 = 0x8000_0000_0000_0000;

/// The refractory interval between registered onsets, in ticks: 0.2 seconds,
/// which is `0.4 * rate` ticks, rounded down.
pub open spec fn spec_min_beat_interval(rate: int) -> int {
    2 * rate / 5
}

/// Exec mirror of [`spec_min_beat_interval`].
fn min_beat_interval(rate: u32) -> (t: u64)
    ensures
        t == spec_min_beat_interval(rate as int),
{
    2 * (rate as u64) / 5
}

/// Summary of the analysis metadata accumulated so far.
#[derive(Debug, Clone, Copy, PartialEq)]
pub struct AnalysisSummary {
    /// Sample rate the engine was configured with, in Hz.
    pub sample_rate: u32,
    /// Running tempo estimate, in milli-BPM (one thousandth of a beat per
    /// minute); present once two onsets with a positive interval were seen.
    pub tempo_mbpm: Option<u64>,
    /// High-water mark of processed stream time, in ticks.
    pub duration_ticks: Option<u64>,
}

/// The feature set for a single analysed block.
#[derive(Debug, Clone, Copy, PartialEq)]
pub struct AnalysisFrame {
    /// Midpoint timestamp of the analysed block, in ticks.
    pub time: u64,
    /// Root-mean-square amplitude of the raw block, in micro-units.
    pub rms: u64,
    /// Spectral centroid normalised by the Nyquist frequency, in micro-units.
    pub spectral_centroid: u32,
    /// Onset strength for this block, in micro-units.
    pub beat_confidence: u32,
    /// Fraction of the spectral magnitude at or below the low band edge, in
    /// micro-units.
    pub low_band_energy: u32,
    /// Fraction of the spectral magnitude at or above the high band edge, in
    /// micro-units.
    pub high_band_energy: u32,
    /// Normalised half-wave rectified magnitude change against the previous
    /// block, in micro-units; zero for the first block.
    pub spectral_flux: u32,
}

/// A frame with zeroed features, stamped with the given time.
pub open spec fn default_frame_at(t: u64) -> AnalysisFrame {
    AnalysisFrame {
        time: t,
        rms: 0,
        spectral_centroid: 0,
        beat_confidence: 0,
        low_band_energy: 0,
        high_band_energy: 0,
        spectral_flux: 0,
    }
}

impl Default for AnalysisFrame {
    /// A frame with zeroed features at time zero.
    fn default() -> (r: Self)
        ensures
            r == default_frame_at(0),
    {
        AnalysisFrame {
            time: 0,
            rms: 0,
            spectral_centroid: 0,
            beat_confidence: 0,
            low_band_energy: 0,
            high_band_energy: 0,
            spectral_flux: 0,
        }
    }
}

/// Abstract state of an [`AnalysisEngine`].
pub struct EngineView {
    /// Configured audio mode.
    pub mode: AudioMode,
    /// Configured sample rate, in Hz.
    pub sample_rate: u32,
    /// Running summary.
    pub summary: AnalysisSummary,
    /// Every frame produced so far, in temporal order.
    pub frames: Seq<AnalysisFrame>,
    /// Total number of samples consumed.
    pub processed_samples: u64,
    /// RMS of the previous block, in micro-units.
    pub last_rms: u64,
    /// Timestamps of the registered onsets, in ticks, oldest first.
    pub beats: Seq<u64>,
    /// Magnitude spectrum of the previous block, in micro-units.
    pub previous_magnitudes: Seq<u64>,
}

/// The state of a freshly constructed (or reset) engine.
pub open spec fn fresh_view(mode: AudioMode, sample_rate: u32) -> EngineView {
    EngineView {
        mode,
        sample_rate,
        summary: AnalysisSummary { sample_rate, tempo_mbpm: None, duration_ticks: None },
        frames: Seq::empty(),
        processed_samples: 0,
        last_rms: 0,
        beats: Seq::empty(),
        previous_magnitudes: Seq::empty(),
    }
}

/// Well-formedness of an engine state: configuration is consistent, onset
/// history is bounded and strictly ordered, frames are strictly ordered in
/// time and stamped inside the processed range, and the duration is exactly
/// the end of the processed range.
pub open spec fn wf_view(v: EngineView) -> bool {
    &&& v.summary.sample_rate == v.sample_rate
    &&& v.processed_samples < PROCESSED_SAMPLE_LIMIT
    &&& v.last_rms <= 0x1_0000_0000
    &&& v.beats.len() <= MAX_BEAT_HISTORY
    &&& forall|i: int, j: int| 0 <= i < j < v.beats.len() ==> v.beats[i] < v.beats[j]
    &&& forall|i: int| #![trigger v.beats[i]] 0 <= i < v.beats.len() ==> 0 < v.beats[i] < 2 * v.processed_samples
    &&& forall|i: int, j: int|
        0 <= i < j < v.frames.len() ==> v.frames[i].time < v.frames[j].time
    &&& forall|i: int|
        #![trigger v.frames[i]]
        0 <= i < v.frames.len() ==> 0 < v.frames[i].time < 2 * v.processed_samples
    &&& v.summary.duration_ticks == (if v.processed_samples == 0 {
        Option::<u64>::None
    } else {
        Option::Some((2 * v.processed_samples) as u64)
    })
}

/// Streaming analysis engine: the single mutating entry point is
/// [`AnalysisEngine::process_block`].
#[derive(Debug)]
pub struct AnalysisEngine {
    mode: AudioMode,
    sample_rate: u32,
    summary: AnalysisSummary,
    frames: Vec<AnalysisFrame>,
    processed_samples: u64,
    last_rms: u64,
    beat_timestamps: Vec<u64>,
    previous_magnitudes: Vec<u64>,
}

impl View for AnalysisEngine {
    type V = EngineView;

    closed spec fn view(&self) -> EngineView {
        EngineView {
            mode: self.mode,
            sample_rate: self.sample_rate,
            summary: self.summary,
            frames: self.frames@,
            processed_samples: self.processed_samples,
            last_rms: self.last_rms,
            beats: self.beat_timestamps@,
            previous_magnitudes: self.previous_magnitudes@,
        }
    }
}

impl AnalysisEngine {
    /// Well-formedness of this engine; established by the constructors and
    /// preserved by every method.
    pub open spec fn wf(&self) -> bool {
        wf_view(self@)
    }

    /// Creates a new engine using the default 48 kHz sample rate.
    pub fn new(mode: AudioMode) -> (r: Self)
        ensures
            r@ == fresh_view(mode, 48_000),
            r.wf(),
    {
        Self::with_sample_rate(mode, 48_000)
    }

    /// Creates a new engine that operates at the provided sample rate.
    pub fn with_sample_rate(mode: AudioMode, sample_rate: u32) -> (r: Self)
        ensures
            r@ == fresh_view(mode, sample_rate),
            r.wf(),
    {
        let r = AnalysisEngine {
            mode,
            sample_rate,
            summary: AnalysisSummary { sample_rate, tempo_mbpm: None, duration_ticks: None },
            frames: Vec::new(),
            processed_samples: 0,
            last_rms: 0,
            beat_timestamps: Vec::new(),
            previous_magnitudes: Vec::new(),
        };
        proof {
            assert(r@.frames =~= fresh_view(mode, sample_rate).frames);
            assert(r@.beats =~= fresh_view(mode, sample_rate).beats);
            assert(r@.previous_magnitudes =~= fresh_view(mode, sample_rate).previous_magnitudes);
        }
        r
    }

    /// Returns metadata collected so far about the analysed stream.
    pub fn summary(&self) -> (r: &AnalysisSummary)
        ensures
            *r == self@.summary,
    {
        &self.summary
    }

    /// Returns the audio mode the engine operates in.
    pub fn mode(&self) -> (r: AudioMode)
        ensures
            r == self@.mode,
    {
        self.mode
    }

    /// Returns the sample rate associated with the engine.
    pub fn sample_rate(&self) -> (r: u32)
        ensures
            r == self@.sample_rate,
    {
        self.sample_rate
    }

    /// Returns the total number of samples consumed so far.
    pub fn processed_samples(&self) -> (r: u64)
        ensures
            r == self@.processed_samples,
    {
        self.processed_samples
    }

    /// Clears the accumulated state while preserving configuration.
    pub fn reset(&mut self)
        ensures
            final(self)@ == fresh_view(old(self)@.mode, old(self)@.sample_rate),
            final(self).wf(),
    {
        self.summary = AnalysisSummary {
            sample_rate: self.sample_rate,
            tempo_mbpm: None,
            duration_ticks: None,
        };
        self.frames.clear();
        self.processed_samples = 0;
        self.last_rms = 0;
        self.beat_timestamps.clear();
        self.previous_magnitudes.clear();
    }

    /// Returns the latest frame emitted by the engine, if any.
    pub fn latest_frame(&self) -> (r: Option<&AnalysisFrame>)
        ensures
            self@.frames.len() == 0 ==> r is None,
            self@.frames.len() > 0 ==> (r matches Some(f) && *f == self@.frames.last()),
    {
        self.frames.as_slice().last()
    }

    /// Returns all recorded frames, in temporal order.
    pub fn frames(&self) -> (r: &[AnalysisFrame])
        ensures
            r@ == self@.frames,
    {
        self.frames.as_slice()
    }
}

/// Onset confidence, in micro-units: the positive RMS delta amplified by
/// [`BEAT_GAIN`] and clamped to `[0, FEATURE_SCALE]`.
pub open spec fn spec_confidence(rms: int, previous_rms: int) -> int {
    clamp_unit(BEAT_GAIN * (if rms > previous_rms { rms - previous_rms } else { 0 }))
}

/// Whether a block registers an onset: confident enough, and either no onset
/// was seen before or the refractory interval since the last one has passed.
pub open spec fn beat_registered(beats: Seq<u64>, t: int, confidence: int, rate: int) -> bool {
    &&& confidence >= BEAT_THRESHOLD
    &&& (beats.len() == 0 || t - beats.last() >= spec_min_beat_interval(rate))
}

/// The onset history after a block: when the onset registers, its timestamp
/// is appended and the oldest entries beyond [`MAX_BEAT_HISTORY`] are
/// evicted.
pub open spec fn spec_new_beats(beats: Seq<u64>, t: u64, confidence: int, rate: int) -> Seq<u64> {
    if beat_registered(beats, t as int, confidence, rate) {
        let pushed = beats.push(t);
        if pushed.len() > MAX_BEAT_HISTORY {
            pushed.skip(pushed.len() - MAX_BEAT_HISTORY)
        } else {
            pushed
        }
    } else {
        beats
    }
}

/// Sum of the positive intervals between successive onsets, in ticks;
/// non-positive intervals are excluded.
pub open spec fn interval_sum(beats: Seq<u64>) -> int
    decreases beats.len(),
{
    if beats.len() < 2 {
        0
    } else {
        let gap = beats.last() - beats[beats.len() - 2];
        interval_sum(beats.drop_last()) + if gap > 0 {
            gap
        } else {
            0
        }
    }
}

/// Number of positive intervals between successive onsets.
pub open spec fn interval_count(beats: Seq<u64>) -> int
    decreases beats.len(),
{
    if beats.len() < 2 {
        0
    } else {
        interval_count(beats.drop_last()) + if beats.last() - beats[beats.len() - 2] > 0 {
            1int
        } else {
            0int
        }
    }
}

/// Tempo in milli-BPM from the onset history: 60 seconds per minute over the
/// mean positive interval. One tick is `1/(2*rate)` seconds, so the estimate
/// is `120_000 * rate * count / sum`. With fewer than two onsets, or no
/// positive interval, the previous estimate stands.
pub open spec fn spec_tempo(beats: Seq<u64>, rate: int, previous: Option<u64>) -> Option<u64> {
    if beats.len() < 2 || interval_count(beats) == 0 {
        previous
    } else {
        Some((120_000 * rate * interval_count(beats) / interval_sum(beats)) as u64)
    }
}

/// Recomputes the tempo estimate from an onset history.
#[verifier::loop_isolation(false)]
fn tempo_from_beats(beats: &Vec<u64>, rate: u32, previous: Option<u64>) -> (r: Option<u64>)
    requires
        beats@.len() <= MAX_BEAT_HISTORY,
        forall|i: int, j: int| 0 <= i < j < beats@.len() ==> beats@[i] < beats@[j],
    ensures
        r == spec_tempo(beats@, rate as int, previous),
{
    let len = beats.len();
    if len < 2 {
        return previous;
    }
    let mut i: usize = 1;
    let mut sum: u64 = 0;
    let mut count: u64 = 0;
    while i < len
        invariant
            1 <= i <= len,
            sum as int == interval_sum(beats@.take(i as int)),
            count as int == interval_count(beats@.take(i as int)),
            count <= i - 1,
            count <= sum,
            sum <= beats@[i - 1],
        decreases len - i,
    {
        let prev_t = beats[i - 1];
        let cur_t = beats[i];
        proof {
            assert(beats@[i as int - 1] < beats@[i as int]);
            assert(beats@.take(i as int + 1).drop_last() =~= beats@.take(i as int));
        }
        let gap = cur_t - prev_t;
        if gap > 0 {
            sum = sum + gap;
            count = count + 1;
        }
        i = i + 1;
    }
    proof {
        assert(beats@.take(len as int) =~= beats@);
    }
    if count == 0 {
        return previous;
    }
    let per_rate: u64 = 120_000u64 * (rate as u64);
    proof {
        assert((per_rate as int) * (count as int) <= 0x2_0000_0000_0000 * 64) by (nonlinear_arith)
            requires
                0 <= per_rate as int <= 0x2_0000_0000_0000,
                0 <= count as int <= 64,
        ;
    }
    let num: u64 = per_rate * count;
    Some(num / sum)
}

impl AnalysisEngine {
    /// Updates the onset detector with a block's timestamp and RMS, returning
    /// the onset confidence. When the confidence passes the threshold and the
    /// refractory gate opens, the onset is registered and the tempo estimate
    /// refreshed.
    fn update_beats(&mut self, timestamp: u64, rms: u64) -> (confidence: u32)
        requires
            old(self)@.beats.len() <= MAX_BEAT_HISTORY,
            forall|i: int, j: int|
                0 <= i < j < old(self)@.beats.len() ==> old(self)@.beats[i] < old(self)@.beats[j],
            forall|i: int|
                #![trigger old(self)@.beats[i]]
                0 <= i < old(self)@.beats.len() ==> 0 < old(self)@.beats[i] < timestamp,
            rms <= 0x1_0000_0000,
            0 < timestamp,
        ensures
            confidence == spec_confidence(rms as int, old(self)@.last_rms as int),
            final(self)@.beats == spec_new_beats(
                old(self)@.beats,
                timestamp,
                confidence as int,
                old(self)@.sample_rate as int,
            ),
            final(self)@.summary.tempo_mbpm == (if beat_registered(
                old(self)@.beats,
                timestamp as int,
                confidence as int,
                old(self)@.sample_rate as int,
            ) {
                spec_tempo(
                    final(self)@.beats,
                    old(self)@.sample_rate as int,
                    old(self)@.summary.tempo_mbpm,
                )
            } else {
                old(self)@.summary.tempo_mbpm
            }),
            final(self)@.last_rms == rms,
            final(self)@.mode == old(self)@.mode,
            final(self)@.sample_rate == old(self)@.sample_rate,
            final(self)@.summary.sample_rate == old(self)@.summary.sample_rate,
            final(self)@.summary.duration_ticks == old(self)@.summary.duration_ticks,
            final(self)@.frames == old(self)@.frames,
            final(self)@.processed_samples == old(self)@.processed_samples,
            final(self)@.previous_magnitudes == old(self)@.previous_magnitudes,
            final(self)@.beats.len() <= MAX_BEAT_HISTORY,
            forall|i: int, j: int|
                0 <= i < j < final(self)@.beats.len() ==> final(self)@.beats[i]
                    < final(self)@.beats[j],
            forall|i: int|
                #![trigger final(self)@.beats[i]]
                0 <= i < final(self)@.beats.len() ==> 0 < final(self)@.beats[i] <= timestamp,
    {
        let delta: u64 = if rms > self.last_rms {
            rms - self.last_rms
        } else {
            0
        };
        self.last_rms = rms;
        let raw: u64 = BEAT_GAIN * delta;
        let confidence: u32 = if raw > FEATURE_SCALE as u64 {
            FEATURE_SCALE
        } else {
            raw as u32
        };
        if confidence >= BEAT_THRESHOLD {
            let gate_open = if self.beat_timestamps.len() == 0 {
                true
            } else {
                let last = self.beat_timestamps[self.beat_timestamps.len() - 1];
                timestamp - last >= min_beat_interval(self.sample_rate)
            };
            if gate_open {
                self.beat_timestamps.push(timestamp);
                let ghost pushed = self.beat_timestamps@;
                if self.beat_timestamps.len() > MAX_BEAT_HISTORY {
                    self.beat_timestamps.remove(0);
                    proof {
                        assert(self.beat_timestamps@ =~= pushed.skip(
                            pushed.len() - MAX_BEAT_HISTORY,
                        ));
                    }
                }
                self.update_tempo_estimate();
            }
        }
        confidence
    }

    /// Recomputes the tempo estimate from the current onset history.
    fn update_tempo_estimate(&mut self)
        requires
            old(self)@.beats.len() <= MAX_BEAT_HISTORY,
            forall|i: int, j: int|
                0 <= i < j < old(self)@.beats.len() ==> old(self)@.beats[i] < old(self)@.beats[j],
        ensures
            final(self)@ == (EngineView {
                summary: AnalysisSummary {
                    tempo_mbpm: spec_tempo(
                        old(self)@.beats,
                        old(self)@.sample_rate as int,
                        old(self)@.summary.tempo_mbpm,
                    ),
                    ..old(self)@.summary
                },
                ..old(self)@
            }),
    {
        self.summary.tempo_mbpm = tempo_from_beats(
            &self.beat_timestamps,
            self.sample_rate,
            self.summary.tempo_mbpm,
        );
    }
}

/// The feature frame a block must produce, given the engine state `v` before
/// the call: its time is the block midpoint in ticks, its RMS the integer
/// square root of the mean squared sample, and its spectral features follow
/// the spec functions over the supplied magnitude spectrum.
pub open spec fn frame_matches(
    v: EngineView,
    samples: Seq<i32>,
    spectrum: Seq<u64>,
    frame: AnalysisFrame,
) -> bool {
    let n = samples.len() as int;
    &&& frame.time == 2 * v.processed_samples + n
    &&& is_sqrt_floor(frame.rms as int, sum_squares(samples) / n)
    &&& frame.rms <= 0x1_0000_0000
    &&& frame.beat_confidence == spec_confidence(frame.rms as int, v.last_rms as int)
    &&& frame.spectral_centroid == spec_centroid(spectrum, n, v.sample_rate as int)
    &&& frame.low_band_energy == spec_band(
        low_band_total(spectrum, n, v.sample_rate as int),
        mag_total(spectrum),
    )
    &&& frame.high_band_energy == spec_band(
        high_band_total(spectrum, n, v.sample_rate as int),
        mag_total(spectrum),
    )
    &&& frame.spectral_flux == spec_flux(
        spectrum,
        v.previous_magnitudes,
        v.processed_samples == 0,
    )
}

/// The engine state after successfully processing a block that produced
/// `frame`: the frame is appended, the onset history and tempo estimate are
/// refreshed, the spectrum becomes the new previous spectrum, and the
/// duration rises to the end of the block.
pub open spec fn stepped_view(
    v: EngineView,
    samples: Seq<i32>,
    spectrum: Seq<u64>,
    frame: AnalysisFrame,
) -> EngineView {
    let n = samples.len() as int;
    let registered = beat_registered(
        v.beats,
        frame.time as int,
        frame.beat_confidence as int,
        v.sample_rate as int,
    );
    let new_beats = spec_new_beats(
        v.beats,
        frame.time,
        frame.beat_confidence as int,
        v.sample_rate as int,
    );
    EngineView {
        mode: v.mode,
        sample_rate: v.sample_rate,
        summary: AnalysisSummary {
            sample_rate: v.sample_rate,
            tempo_mbpm: if registered {
                spec_tempo(new_beats, v.sample_rate as int, v.summary.tempo_mbpm)
            } else {
                v.summary.tempo_mbpm
            },
            duration_ticks: Some((2 * (v.processed_samples + n)) as u64),
        },
        frames: v.frames.push(frame),
        processed_samples: (v.processed_samples + n) as u64,
        last_rms: frame.rms,
        beats: new_beats,
        previous_magnitudes: spectrum,
    }
}

impl AnalysisEngine {
    /// Consumes one block of audio and updates the tracked features.
    ///
    /// `samples` holds the raw block in micro-units; `spectrum` holds the
    /// magnitude spectrum of the Hann-windowed block, also in micro-units,
    /// with `samples.len() / 2 + 1` bins. Blocks shorter than two samples are
    /// rejected with `InvalidInput` and a mis-sized spectrum with a transform
    /// failure message; neither changes any state.
    pub fn process_block(&mut self, samples: &Vec<i32>, spectrum: &Vec<u64>) -> (r: Result<
        AnalysisFrame,
        MusicVizError,
    >)
        requires
            old(self).wf(),
            samples@.len() <= MAX_BLOCK_LEN,
            old(self)@.processed_samples + samples@.len() < PROCESSED_SAMPLE_LIMIT,
            forall|i: int| 0 <= i < spectrum@.len() ==> spectrum@[i] <= MAX_MAGNITUDE,
        ensures
            final(self).wf(),
            samples@.len() == 0 ==> (r matches Err(MusicVizError::InvalidInput(m))
                && m@ == "analysis requires at least one sample"@
                && final(self)@ == old(self)@),
            samples@.len() == 1 ==> (r matches Err(MusicVizError::InvalidInput(m))
                && m@ == "analysis requires blocks with at least two samples"@
                && final(self)@ == old(self)@),
            samples@.len() >= 2 && spectrum@.len() != samples@.len() / 2 + 1 ==> (r matches Err(
                MusicVizError::Message(m),
            ) && m@ == "spectral transform output has the wrong length"@
                && final(self)@ == old(self)@),
            samples@.len() >= 2 && spectrum@.len() == samples@.len() / 2 + 1 ==> (r matches Ok(
                frame,
            ) && frame_matches(old(self)@, samples@, spectrum@, frame)
                && final(self)@ == stepped_view(old(self)@, samples@, spectrum@, frame)),
            r is Ok ==> final(self)@.summary.duration_ticks == Some(
                (2 * (old(self)@.processed_samples + samples@.len())) as u64,
            ),
            r is Ok ==> (old(self)@.summary.duration_ticks matches Some(d)
                ==> (final(self)@.summary.duration_ticks matches Some(d2) && d < d2)),
            r is Err ==> final(self)@ == old(self)@,
    {
        if samples.len() == 0 {
            return Err(MusicVizError::InvalidInput("analysis requires at least one sample"));
        }
        if samples.len() < 2 {
            return Err(
                MusicVizError::InvalidInput("analysis requires blocks with at least two samples"),
            );
        }
        let block_size = samples.len();
        if spectrum.len() != block_size / 2 + 1 {
            return Err(
                MusicVizError::Message(
                    String::from_str("spectral transform output has the wrong length"),
                ),
            );
        }
        let timestamp: u64 = 2 * self.processed_samples + block_size as u64;
        let first_block = self.processed_samples == 0;
        let rms = compute_rms(samples);
        let spectral_flux: u32 = if first_block || self.previous_magnitudes.len()
            != spectrum.len() {
            0
        } else {
            spectral_flux_value(spectrum, &self.previous_magnitudes)
        };
        let shape = spectral_shape(spectrum, block_size, self.sample_rate);
        let ghost pre = self@;
        let beat_confidence = self.update_beats(timestamp, rms);
        copy_spectrum(&mut self.previous_magnitudes, spectrum);
        self.processed_samples = self.processed_samples + block_size as u64;
        let end_ticks: u64 = 2 * self.processed_samples;
        self.summary.duration_ticks = match self.summary.duration_ticks {
            Some(d) => Some(if d > end_ticks {
                d
            } else {
                end_ticks
            }),
            None => Some(end_ticks),
        };
        let frame = AnalysisFrame {
            time: timestamp,
            rms,
            spectral_centroid: shape.0,
            beat_confidence,
            low_band_energy: shape.1,
            high_band_energy: shape.2,
            spectral_flux,
        };
        self.frames.push(frame);
        proof {
            let post = stepped_view(pre, samples@, spectrum@, frame);
            assert(self@.frames == post.frames);
            assert(self@.beats == post.beats);
            assert(self@.previous_magnitudes == post.previous_magnitudes);
            assert(self@.summary == post.summary);
            assert(self@ == post);
            assert forall|i: int, j: int|
                0 <= i < j < self@.frames.len() implies self@.frames[i].time
                < self@.frames[j].time by {
                if j < pre.frames.len() {
                    assert(self@.frames[i] == pre.frames[i]);
                    assert(self@.frames[j] == pre.frames[j]);
                } else {
                    assert(self@.frames[i] == pre.frames[i]);
                    assert(self@.frames[j] == frame);
                }
            }
            assert forall|i: int|
                0 <= i < self@.frames.len() implies 0 < #[trigger] self@.frames[i].time
                < 2 * self@.processed_samples by {
                if i < pre.frames.len() {
                    assert(self@.frames[i] == pre.frames[i]);
                } else {
                    assert(self@.frames[i] == frame);
                }
            }
            assert forall|i: int|
                0 <= i < self@.beats.len() implies 0 < #[trigger] self@.beats[i]
                < 2 * self@.processed_samples by {
                assert(self@.beats[i] <= timestamp);
            }
            assert(wf_view(self@));
        }
        Ok(frame)
    }
}

/// Index of the latest frame whose time is at or before `t`, or `-1` when
/// every frame is later (or no frame exists).
pub open spec fn floor_frame_index(frames: Seq<AnalysisFrame>, t: u64) -> int
    decreases frames.len(),
{
    if frames.len() == 0 {
        -1
    } else if frames.last().time <= t {
        frames.len() - 1
    } else {
        floor_frame_index(frames.drop_last(), t)
    }
}

/// Floor-sampling semantics: over a time-ordered history,
/// [`floor_frame_index`] picks exactly the latest frame at or before `t`;
/// it is `-1` precisely when every frame lies strictly after `t`.
pub proof fn lemma_floor_frame_index(frames: Seq<AnalysisFrame>, t: u64)
    requires
        forall|i: int, j: int| 0 <= i < j < frames.len() ==> frames[i].time < frames[j].time,
    ensures
        -1 <= floor_frame_index(frames, t) < frames.len(),
        floor_frame_index(frames, t) >= 0 ==> frames[floor_frame_index(frames, t)].time <= t,
        forall|j: int|
            floor_frame_index(frames, t) < j < frames.len() ==> #[trigger] frames[j].time > t,
    decreases frames.len(),
{
    if frames.len() > 0 && frames.last().time > t {
        assert forall|i: int, j: int|
            0 <= i < j < frames.drop_last().len() implies frames.drop_last()[i].time
            < frames.drop_last()[j].time by {
            assert(frames.drop_last()[i] == frames[i]);
            assert(frames.drop_last()[j] == frames[j]);
        }
        lemma_floor_frame_index(frames.drop_last(), t);
        assert forall|j: int|
            floor_frame_index(frames, t) < j < frames.len() implies #[trigger] frames[j].time
            > t by {
            if j < frames.len() - 1 {
                assert(frames.drop_last()[j] == frames[j]);
            }
        }
    }
}

impl AnalysisEngine {
    /// Samples the feature set at (or immediately before) the requested time,
    /// in ticks. An exact match returns that frame; otherwise the latest
    /// frame before `time` is returned; when `time` precedes every frame (or
    /// no block was processed yet) a frame with zeroed features stamped at
    /// `time` is returned.
    pub fn sample_at(&self, time: u64) -> (r: AnalysisFrame)
        requires
            self.wf(),
        ensures
            floor_frame_index(self@.frames, time) == -1 ==> r == default_frame_at(time),
            floor_frame_index(self@.frames, time) >= 0 ==> r == self@.frames[floor_frame_index(
                self@.frames,
                time,
            )],
    {
        proof {
            lemma_floor_frame_index(self@.frames, time);
        }
        let len = self.frames.len();
        if len == 0 {
            return AnalysisFrame {
                time,
                rms: 0,
                spectral_centroid: 0,
                beat_confidence: 0,
                low_band_energy: 0,
                high_band_energy: 0,
                spectral_flux: 0,
            };
        }
        if self.frames[0].time > time {
            proof {
                if floor_frame_index(self@.frames, time) >= 0 {
                    assert(self@.frames[floor_frame_index(self@.frames, time)].time <= time);
                    assert(self@.frames[0].time <= self@.frames[floor_frame_index(
                        self@.frames,
                        time,
                    )].time);
                }
            }
            return AnalysisFrame {
                time,
                rms: 0,
                spectral_centroid: 0,
                beat_confidence: 0,
                low_band_energy: 0,
                high_band_energy: 0,
                spectral_flux: 0,
            };
        }
        let mut lo: usize = 0;
        let mut hi: usize = len;
        while lo + 1 < hi
            invariant
                lo < hi <= len,
                len == self@.frames.len(),
                self.wf(),
                self@.frames[lo as int].time <= time,
                hi < len ==> self@.frames[hi as int].time > time,
            decreases hi - lo,
        {
            let mid = lo + (hi - lo) / 2;
            if self.frames[mid].time <= time {
                lo = mid;
            } else {
                hi = mid;
            }
        }
        proof {
            let fi = floor_frame_index(self@.frames, time);
            if fi == -1 {
                assert(self@.frames[0].time > time);
            }
            if fi > lo {
                assert(hi == lo + 1);
                assert(hi < len);
                if hi < fi {
                    assert(self@.frames[hi as int].time < self@.frames[fi].time);
                }
                assert(false);
            }
            if fi < lo {
                assert(self@.frames[lo as int].time > time);
                assert(false);
            }
            assert(fi == lo);
        }
        self.frames[lo]
    }
}

/// Silence in, zero features out: a frame produced for an all-zero block
/// with an all-zero spectrum reports zero RMS, onset confidence, centroid,
/// band energies and flux, whatever state the engine was in.
pub proof fn lemma_silence_zero_features(
    v: EngineView,
    samples: Seq<i32>,
    spectrum: Seq<u64>,
    frame: AnalysisFrame,
)
    requires
        samples.len() >= 2,
        forall|i: int| 0 <= i < samples.len() ==> samples[i] == 0,
        forall|i: int| 0 <= i < spectrum.len() ==> spectrum[i] == 0,
        frame_matches(v, samples, spectrum, frame),
    ensures
        frame.rms == 0,
        frame.beat_confidence == 0,
        frame.spectral_centroid == 0,
        frame.low_band_energy == 0,
        frame.high_band_energy == 0,
        frame.spectral_flux == 0,
{
    lemma_sum_squares_zero(samples);
    lemma_div_of0(samples.len() as int);
    assert(is_sqrt_floor(0, 0));
    lemma_sqrt_floor_unique(frame.rms as int, 0, 0);
    lemma_mag_total_zero(spectrum);
}

/// Bounded onset history: the onset store never grows beyond
/// [`MAX_BEAT_HISTORY`], however many onsets register.
pub proof fn lemma_beat_history_bounded(beats: Seq<u64>, t: u64, confidence: int, rate: int)
    requires
        beats.len() <= MAX_BEAT_HISTORY,
    ensures
        spec_new_beats(beats, t, confidence, rate).len() <= MAX_BEAT_HISTORY,
{
}

/// Evenly spaced onsets have `len - 1` positive intervals summing to
/// `(len - 1) * gap`.
proof fn lemma_even_intervals(beats: Seq<u64>, gap: int)
    requires
        beats.len() >= 1,
        1 <= gap,
        forall|i: int| #![trigger beats[i]] 0 <= i < beats.len() - 1 ==> beats[i + 1] == beats[i]
            + gap,
    ensures
        interval_count(beats) == beats.len() - 1,
        interval_sum(beats) == (beats.len() - 1) * gap,
    decreases beats.len(),
{
    if beats.len() >= 2 {
        assert forall|i: int| #![trigger beats.drop_last()[i]]
            0 <= i < beats.drop_last().len() - 1 implies beats.drop_last()[i + 1]
            == beats.drop_last()[i] + gap by {
            assert(beats.drop_last()[i] == beats[i]);
            assert(beats.drop_last()[i + 1] == beats[i + 1]);
        }
        lemma_even_intervals(beats.drop_last(), gap);
        assert(beats.last() == beats[beats.len() - 2] + gap);
        assert((beats.len() - 1) * gap == (beats.len() - 2) * gap + gap) by (nonlinear_arith);
    } else {
        assert((beats.len() - 1) * gap == 0) by (nonlinear_arith)
            requires
                beats.len() == 1,
        ;
    }
}

/// Tempo of an evenly spaced onset history: when successive onsets lie
/// exactly `gap` ticks apart, the tempo estimate is `120_000 * rate / gap`
/// milli-BPM — sixty seconds over the period of `gap` ticks.
pub proof fn lemma_tempo_of_even_beats(beats: Seq<u64>, rate: int, gap: int, previous: Option<
    u64,
>)
    requires
        beats.len() >= 2,
        1 <= gap,
        0 <= rate,
        forall|i: int| #![trigger beats[i]] 0 <= i < beats.len() - 1 ==> beats[i + 1] == beats[i]
            + gap,
    ensures
        spec_tempo(beats, rate, previous) == Some((120_000 * rate / gap) as u64),
{
    lemma_even_intervals(beats, gap);
    let k = beats.len() - 1;
    let a = 120_000 * rate;
    assert(a * k >= 0) by (nonlinear_arith)
        requires
            a >= 0,
            k >= 1,
    ;
    lemma_div_denominator(a * k, k as int, gap);
    lemma_div_multiples_vanish(a, k as int);
    assert(a * k == k * a) by (nonlinear_arith);
    assert(120_000 * rate * interval_count(beats) == a * k);
}

/// Flux reacts to spectral change, not to repetition: a block processed
/// immediately after another block with the same magnitude spectrum reports
/// zero spectral flux.
pub proof fn lemma_flux_zero_on_repeat(
    v: EngineView,
    samples1: Seq<i32>,
    spectrum: Seq<u64>,
    frame1: AnalysisFrame,
    samples2: Seq<i32>,
    frame2: AnalysisFrame,
)
    requires
        samples1.len() >= 1,
        v.processed_samples + samples1.len() < PROCESSED_SAMPLE_LIMIT,
        frame_matches(stepped_view(v, samples1, spectrum, frame1), samples2, spectrum, frame2),
    ensures
        frame2.spectral_flux == 0,
{
    crate::features::lemma_flux_of_identical_spectrum(spectrum);
}

/// Overwrites `dst` with the contents of `src`.
fn copy_spectrum(dst: &mut Vec<u64>, src: &Vec<u64>)
    ensures
        final(dst)@ == src@,
{
    dst.clear();
    let mut i: usize = 0;
    while i < src.len()
        invariant
            i <= src@.len(),
            dst@ == src@.take(i as int),
        decreases src@.len() - i,
    {
        dst.push(src[i]);
        proof {
            assert(src@.take(i as int + 1) =~= src@.take(i as int).push(src@[i as int]));
        }
        i = i + 1;
    }
    proof {
        assert(src@.take(src@.len() as int) =~= src@);
    }
}

} // verus!
