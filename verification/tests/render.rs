use music_visualiser_core::analysis::AnalysisFrame;
use music_visualiser_core::{ParameterUpdate, RenderGraph, SceneDescriptor, SceneInstance};

fn analysis_frame(time: u64) -> AnalysisFrame {
    AnalysisFrame {
        time,
        rms: 500_000,
        spectral_centroid: 400_000,
        beat_confidence: 600_000,
        low_band_energy: 0,
        high_band_energy: 0,
        spectral_flux: 0,
    }
}

#[test]
fn draw_requires_analysis_for_registered_scenes() {
    let mut graph = RenderGraph::new();
    graph.register_scene(SceneInstance::new(SceneDescriptor::Tunnel { speed: 1_000_000 }));

    assert!(graph.draw().is_err());

    graph.ingest_analysis_frame(analysis_frame(1));
    graph.apply_updates(vec![ParameterUpdate {
        target: "tunnel.energy".to_string(),
        value: 750_000,
    }]);

    assert!(graph.draw().is_ok());
    assert_eq!(graph.last_updates().len(), 1);
    assert!(graph.last_analysis().is_some());
}

#[test]
fn draw_succeeds_without_scenes() {
    let graph = RenderGraph::new();
    assert!(graph.draw().is_ok());
}

#[test]
fn updates_reach_every_scene() {
    let mut graph = RenderGraph::new();
    graph.register_scene(SceneInstance::new(SceneDescriptor::Tunnel { speed: 1 }));
    graph.register_scene(SceneInstance::new(SceneDescriptor::Kaleidoscope { order: 2 }));

    graph.ingest_analysis_frame(analysis_frame(1));
    graph.apply_updates(vec![ParameterUpdate {
        target: "shared.brightness".to_string(),
        value: 123,
    }]);

    for scene in graph.scenes() {
        assert_eq!(scene.parameter_value("shared.brightness"), Some(123));
    }
}
