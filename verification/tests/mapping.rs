use music_visualiser_core::analysis::AnalysisFrame;
use music_visualiser_core::{MappingDescriptor, MappingMatrix};

fn descriptor(source: &str, smoothing: u32) -> MappingDescriptor {
    MappingDescriptor {
        source: source.to_string(),
        target: "param".to_string(),
        min: 0,
        max: 1_000_000,
        smoothing,
    }
}

fn frame_with_values(rms: u64, centroid: u32, beat: u32) -> AnalysisFrame {
    AnalysisFrame {
        time: 0,
        rms,
        spectral_centroid: centroid,
        beat_confidence: beat,
        low_band_energy: 0,
        high_band_energy: 0,
        spectral_flux: 0,
    }
}

#[test]
fn applies_known_sources() {
    let mut matrix = MappingMatrix::new();
    matrix.add_mapping(descriptor("rms", 0));
    matrix.add_mapping(descriptor("spectral_centroid", 0));
    matrix.add_mapping(descriptor("beat_confidence", 0));

    let frame = frame_with_values(500_000, 250_000, 1_000_000);
    let updates = matrix.evaluate(&frame);
    assert_eq!(updates.len(), 3);
    assert!(updates.iter().any(|u| u.value == 500_000));
    assert!(updates.iter().any(|u| u.value == 250_000));
    assert!(updates.iter().any(|u| u.value == 1_000_000));
}

#[test]
fn smoothing_applies_progressively() {
    let mut matrix = MappingMatrix::new();
    matrix.add_mapping(descriptor("rms", 500_000));

    let first = frame_with_values(0, 0, 0);
    let mut updates = matrix.evaluate(&first);
    assert_eq!(updates[0].value, 0);

    let second = frame_with_values(1_000_000, 0, 0);
    updates = matrix.evaluate(&second);
    assert!(updates[0].value < 1_000_000);
    assert!(updates[0].value > 0);
}

#[test]
fn ignores_unknown_sources() {
    let mut matrix = MappingMatrix::new();
    matrix.add_mapping(descriptor("unknown", 0));

    let frame = frame_with_values(1_000_000, 1_000_000, 1_000_000);
    let updates = matrix.evaluate(&frame);
    assert!(updates.is_empty());
}

#[test]
fn maps_into_descriptor_range() {
    let mut matrix = MappingMatrix::new();
    matrix.add_mapping(MappingDescriptor {
        source: "rms".to_string(),
        target: "depth".to_string(),
        min: -2_000_000,
        max: 2_000_000,
        smoothing: 0,
    });

    // A feature of 0.25 interpolates a quarter of the way from min to max.
    let updates = matrix.evaluate(&frame_with_values(250_000, 0, 0));
    assert_eq!(updates[0].value, -1_000_000);

    // Features above 1.0 are clamped to the top of the range.
    let updates = matrix.evaluate(&frame_with_values(5_000_000, 0, 0));
    assert_eq!(updates[0].value, 2_000_000);
}

#[test]
fn clear_removes_all_mappings() {
    let mut matrix = MappingMatrix::new();
    assert!(matrix.is_empty());
    matrix.add_mapping(descriptor("rms", 0));
    assert!(!matrix.is_empty());
    matrix.clear();
    assert!(matrix.is_empty());
    assert!(matrix.evaluate(&frame_with_values(500_000, 0, 0)).is_empty());
}
