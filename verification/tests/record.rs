use music_visualiser_core::analysis::AnalysisFrame;
use music_visualiser_core::record::recording_settings;
use music_visualiser_core::{Recorder, RecordingSettings};

#[test]
fn records_frames_when_enabled() {
    let mut recorder = Recorder::new(RecordingSettings::enabled());
    let frame = AnalysisFrame::default();
    recorder.record_frame(&frame);
    recorder.record_frame(&frame);

    assert_eq!(recorder.recorded_frames(), 2);
    assert_eq!(recorder.frames().len(), 2);
}

#[test]
fn disabled_recorder_ignores_frames() {
    let mut recorder = Recorder::new(RecordingSettings::default());
    recorder.record_frame(&AnalysisFrame::default());

    assert_eq!(recorder.recorded_frames(), 0);
    assert!(recorder.frames().is_empty());
    assert!(!recorder.settings().enabled);
}

#[test]
fn configure_replaces_settings_and_clears_frames() {
    let mut recorder = Recorder::new(RecordingSettings::enabled());
    recorder.record_frame(&AnalysisFrame::default());
    assert_eq!(recorder.recorded_frames(), 1);

    recorder.configure(RecordingSettings::enabled().with_output_path("out.json".to_string()));
    assert_eq!(recorder.recorded_frames(), 0);
    assert!(recorder.frames().is_empty());
    assert_eq!(recorder.settings().output_path.as_deref(), Some("out.json"));

    recorder.set_output_path("elsewhere.json".to_string());
    assert_eq!(recorder.settings().output_path.as_deref(), Some("elsewhere.json"));
}

#[test]
fn recording_settings_follow_the_flags() {
    let off = recording_settings(false, None);
    assert!(!off.enabled);
    assert!(off.output_path.is_none());

    let on = recording_settings(true, None);
    assert!(on.enabled);
    assert!(on.output_path.is_none());

    let with_path = recording_settings(false, Some("out.json".to_string()));
    assert!(with_path.enabled);
    assert_eq!(with_path.output_path.as_deref(), Some("out.json"));
}
