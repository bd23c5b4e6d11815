use music_visualiser_core::{AppConfig, AudioConfig, StlAsset};

#[test]
fn default_config_is_live_and_empty() {
    let config = AppConfig::default();
    assert!(matches!(config.audio_mode, AudioConfig::Live));
    assert!(config.scenes.is_empty());
    assert!(config.mappings.is_empty());
    assert!(!config.recording.enabled);
    assert!(config.recording.output_path.is_none());
    assert!(config.assets.is_empty());
}

#[test]
fn default_stl_asset_is_unscaled() {
    let asset = StlAsset::default();
    assert_eq!(asset.path, "");
    assert_eq!(asset.scale, 1_000_000);
}
