use music_visualiser_core::analysis::AnalysisFrame;
use music_visualiser_core::{ParameterUpdate, SceneDescriptor, SceneInstance};

fn frame(rms: u64, centroid: u32, beat: u32) -> AnalysisFrame {
    AnalysisFrame {
        time: 0,
        rms,
        spectral_centroid: centroid,
        beat_confidence: beat,
        low_band_energy: 0,
        high_band_energy: 0,
        spectral_flux: 0,
    }
}

#[test]
fn updates_store_parameter_values() {
    let mut scene = SceneInstance::new(SceneDescriptor::Kaleidoscope { order: 4 });
    scene.update(&frame(500_000, 250_000, 800_000));

    let rotation = scene.parameter_value("kaleidoscope.rotation").unwrap();
    assert!(rotation > 0);
    assert_eq!(rotation, 3_200_000);
    assert!(scene.last_analysis().is_some());
}

#[test]
fn mapping_updates_override_defaults() {
    let mut scene = SceneInstance::new(SceneDescriptor::Tunnel { speed: 1_000_000 });
    scene.update(&frame(100_000, 500_000, 0));
    scene.apply_updates(&[ParameterUpdate {
        target: "tunnel.energy".to_string(),
        value: 750_000,
    }]);

    assert_eq!(scene.parameter_value("tunnel.energy"), Some(750_000));
}

#[test]
fn existing_parameters_survive_updates() {
    let mut scene = SceneInstance::new(SceneDescriptor::Particles { emit_rate: 2_000_000 });
    scene.update(&frame(300_000, 400_000, 0));
    assert_eq!(scene.parameter_value("particles.emission"), Some(300_000));
    assert_eq!(scene.parameter_value("particles.tone"), Some(400_000));

    // A later frame does not overwrite values that already exist.
    scene.update(&frame(900_000, 900_000, 0));
    assert_eq!(scene.parameter_value("particles.emission"), Some(300_000));
    assert_eq!(scene.parameter_value("particles.tone"), Some(400_000));
    assert_eq!(scene.parameter_value("missing"), None);
}

#[test]
fn set_parameter_overwrites_in_place() {
    let mut scene = SceneInstance::new(SceneDescriptor::Stl {
        asset: "model.stl".to_string(),
        mode: music_visualiser_core::StlMode::Mesh,
    });
    scene.set_parameter("stl.rms".to_string(), 1);
    scene.set_parameter("stl.rms".to_string(), 2);
    assert_eq!(scene.parameter_value("stl.rms"), Some(2));
}
