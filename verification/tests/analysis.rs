use music_visualiser_core::analysis::AnalysisFrame;
use music_visualiser_core::{AnalysisEngine, AudioMode, MusicVizError};

fn build_engine(sample_rate: u32) -> AnalysisEngine {
    AnalysisEngine::with_sample_rate(AudioMode::Live, sample_rate)
}

/// Samples in micro-units: `1.0` is one million.
fn quantize_samples(samples: &[f32]) -> Vec<i32> {
    samples.iter().map(|v| (*v as f64 * 1_000_000.0).round() as i32).collect()
}

/// Magnitude spectrum of the Hann-windowed block, in micro-units.
fn hann_windowed_spectrum(samples: &[f32]) -> Vec<u64> {
    let len = samples.len();
    let mut planner = realfft::RealFftPlanner::<f32>::new();
    let plan = planner.plan_fft_forward(len);
    let mut input = plan.make_input_vec();
    let mut spectrum = plan.make_output_vec();
    let mut scratch = plan.make_scratch_vec();
    for (i, v) in samples.iter().enumerate() {
        let w = if len <= 1 {
            1.0
        } else {
            0.5 - 0.5 * ((2.0 * std::f32::consts::PI * i as f32) / (len as f32 - 1.0)).cos()
        };
        input[i] = *v * w;
    }
    plan.process_with_scratch(&mut input, &mut spectrum, &mut scratch).unwrap();
    spectrum.iter().map(|c| (c.norm() as f64 * 1_000_000.0).round() as u64).collect()
}

fn sine_wave(frequency: f32, sample_rate: u32, len: usize) -> Vec<f32> {
    let mut output = Vec::with_capacity(len);
    for i in 0..len {
        let t = i as f32 / sample_rate as f32;
        output.push((t * frequency * 2.0 * std::f32::consts::PI).sin());
    }
    output
}

fn analyse(engine: &mut AnalysisEngine, samples: &[f32]) -> AnalysisFrame {
    let quantized = quantize_samples(samples);
    let spectrum = hann_windowed_spectrum(samples);
    engine.process_block(&quantized, &spectrum).unwrap()
}

fn zero_spectrum(block_len: usize) -> Vec<u64> {
    vec![0u64; block_len / 2 + 1]
}

#[test]
fn computes_basic_features() {
    let mut engine = build_engine(48_000);
    let samples: Vec<f32> = vec![0.0; 1024];
    let frame = analyse(&mut engine, &samples);

    assert_eq!(frame.rms, 0);
    assert_eq!(frame.beat_confidence, 0);
    assert_eq!(frame.spectral_centroid, 0);
    assert_eq!(frame.low_band_energy, 0);
    assert_eq!(frame.high_band_energy, 0);
    assert_eq!(frame.spectral_flux, 0);
}

#[test]
fn updates_duration_and_tempo() {
    let mut engine = build_engine(100);
    let quiet = vec![0i32; 25];
    let loud = vec![1_000_000i32; 25];
    let spectrum = zero_spectrum(25);

    for _ in 0..4 {
        engine.process_block(&quiet, &spectrum).unwrap();
        engine.process_block(&loud, &spectrum).unwrap();
    }

    let summary = engine.summary();
    // 200 samples at 100 Hz are two seconds: 400 ticks of half a sample
    // period.
    assert_eq!(summary.duration_ticks, Some(400));
    let tempo = summary.tempo_mbpm.expect("tempo should be detected");
    // Loud blocks start every 50 samples, a period of half a second: 120 BPM.
    assert_eq!(tempo, 120_000);
}

#[test]
fn sampling_interpolates_to_previous_frame() {
    let mut engine = build_engine(10);
    let block = vec![1_000_000i32; 10];
    let spectrum = zero_spectrum(10);
    engine.process_block(&block, &spectrum).unwrap();
    engine.process_block(&block, &spectrum).unwrap();

    // 1.5 seconds at 10 Hz is 30 ticks.
    let frame = engine.sample_at(30);
    assert!(frame.time <= 30);
}

#[test]
fn low_and_high_band_energy_are_distinct() {
    let mut engine = build_engine(48_000);
    let low = sine_wave(120.0, 48_000, 1024);
    let frame_low = analyse(&mut engine, &low);
    assert!(frame_low.low_band_energy > frame_low.high_band_energy);

    engine.reset();
    let high = sine_wave(5_000.0, 48_000, 1024);
    let frame_high = analyse(&mut engine, &high);
    assert!(frame_high.high_band_energy > frame_high.low_band_energy);
}

#[test]
fn spectral_flux_highlights_spectral_changes() {
    let mut engine = build_engine(48_000);
    let low = sine_wave(220.0, 48_000, 1024);
    analyse(&mut engine, &low);
    let high = sine_wave(3_000.0, 48_000, 1024);
    let frame = analyse(&mut engine, &high);
    assert!(frame.spectral_flux > 0);
}

#[test]
fn flux_is_zero_for_repeated_blocks() {
    let mut engine = build_engine(48_000);
    let tone = sine_wave(440.0, 48_000, 1024);
    let first = analyse(&mut engine, &tone);
    assert_eq!(first.spectral_flux, 0);
    let second = analyse(&mut engine, &tone);
    assert_eq!(second.spectral_flux, 0);
}

#[test]
fn block_size_change_forces_one_zero_flux_block() {
    let mut engine = build_engine(48_000);
    let long_tone = sine_wave(440.0, 48_000, 1024);
    analyse(&mut engine, &long_tone);
    let short_tone = sine_wave(440.0, 48_000, 512);
    let resized = analyse(&mut engine, &short_tone);
    assert_eq!(resized.spectral_flux, 0);
    let changed = analyse(&mut engine, &sine_wave(3_000.0, 48_000, 512));
    assert!(changed.spectral_flux > 0);
}

#[test]
fn tempo_follows_alternating_block_period() {
    let mut engine = build_engine(100);
    let quiet = vec![0i32; 50];
    let loud = vec![1_000_000i32; 50];
    let spectrum = zero_spectrum(50);

    for _ in 0..6 {
        engine.process_block(&quiet, &spectrum).unwrap();
        engine.process_block(&loud, &spectrum).unwrap();
    }

    // Loud blocks come once per second: 60 BPM.
    assert_eq!(engine.summary().tempo_mbpm, Some(60_000));
}

#[test]
fn bounded_onset_history_keeps_tempo_stable() {
    let mut engine = build_engine(10);
    let quiet = vec![0i32; 10];
    let loud = vec![1_000_000i32; 10];
    let spectrum = zero_spectrum(10);

    // Far more onsets than the history holds; old ones age out silently.
    for _ in 0..80 {
        engine.process_block(&quiet, &spectrum).unwrap();
        engine.process_block(&loud, &spectrum).unwrap();
    }

    // One onset every two seconds: 30 BPM, from the retained history alone.
    assert_eq!(engine.summary().tempo_mbpm, Some(30_000));
}

#[test]
fn floor_sampling_semantics() {
    let mut engine = build_engine(10);
    let block = vec![500_000i32; 10];
    let spectrum = zero_spectrum(10);
    let first = engine.process_block(&block, &spectrum).unwrap();
    let second = engine.process_block(&block, &spectrum).unwrap();
    assert_eq!(first.time, 10);
    assert_eq!(second.time, 30);

    let before = engine.sample_at(5);
    assert_eq!(before.time, 5);
    assert_eq!(before.rms, 0);

    assert_eq!(engine.sample_at(10), first);
    assert_eq!(engine.sample_at(29), first);
    assert_eq!(engine.sample_at(30), second);
    assert_eq!(engine.sample_at(1000), second);
}

#[test]
fn rejects_empty_and_short_blocks() {
    let mut engine = build_engine(48_000);

    let empty: Vec<i32> = Vec::new();
    let err = engine.process_block(&empty, &Vec::new()).unwrap_err();
    assert!(matches!(err, MusicVizError::InvalidInput(_)));
    assert_eq!(err.message(), "invalid input: analysis requires at least one sample");

    let single = vec![1_000_000i32];
    let err = engine.process_block(&single, &vec![0u64]).unwrap_err();
    assert!(matches!(err, MusicVizError::InvalidInput(_)));
    assert_eq!(
        err.message(),
        "invalid input: analysis requires blocks with at least two samples"
    );

    assert_eq!(engine.processed_samples(), 0);
    assert!(engine.frames().is_empty());
    assert_eq!(engine.summary().duration_ticks, None);
    assert_eq!(engine.summary().tempo_mbpm, None);
}

#[test]
fn rejects_mismatched_spectrum() {
    let mut engine = build_engine(48_000);
    let block = vec![1_000_000i32; 4];
    let bad_spectrum = vec![0u64; 2];
    let err = engine.process_block(&block, &bad_spectrum).unwrap_err();
    assert!(matches!(err, MusicVizError::Message(_)));
    assert_eq!(engine.processed_samples(), 0);
    assert!(engine.frames().is_empty());
}

#[test]
fn reset_clears_state_but_keeps_configuration() {
    let mut engine = build_engine(100);
    let block = vec![1_000_000i32; 25];
    engine.process_block(&block, &zero_spectrum(25)).unwrap();
    assert_eq!(engine.frames().len(), 1);

    engine.reset();
    assert_eq!(engine.sample_rate(), 100);
    assert_eq!(engine.mode(), AudioMode::Live);
    assert_eq!(engine.processed_samples(), 0);
    assert!(engine.frames().is_empty());
    assert!(engine.latest_frame().is_none());
    assert_eq!(engine.summary().duration_ticks, None);
    assert_eq!(engine.summary().tempo_mbpm, None);
}

#[test]
fn latest_frame_tracks_last_block() {
    let mut engine = build_engine(100);
    let block = vec![250_000i32; 10];
    let spectrum = zero_spectrum(10);
    assert!(engine.latest_frame().is_none());
    let frame = engine.process_block(&block, &spectrum).unwrap();
    // A constant block's RMS is the constant itself.
    assert_eq!(frame.rms, 250_000);
    assert_eq!(engine.latest_frame().copied(), Some(frame));
}

#[test]
fn spectral_features_from_handcrafted_spectrum() {
    let mut engine = build_engine(48_000);
    // Four samples at 25000 micro-units: RMS is exactly 25000, and the onset
    // confidence is the twelvefold delta, 300000.
    let block = vec![25_000i32; 4];
    // All magnitude sits in bin 1 of 3, at 12 kHz: the centroid lands at half
    // of Nyquist and the energy entirely in the high band.
    let spectrum = vec![0u64, 5_000_000, 0];
    let frame = engine.process_block(&block, &spectrum).unwrap();

    assert_eq!(frame.rms, 25_000);
    assert_eq!(frame.beat_confidence, 300_000);
    assert_eq!(frame.spectral_centroid, 500_000);
    assert_eq!(frame.low_band_energy, 0);
    assert_eq!(frame.high_band_energy, 1_000_000);
    assert_eq!(frame.spectral_flux, 0);
}
