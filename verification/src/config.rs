//! Root configuration objects assembled from project preset files.
//!
//! Reading preset files and deserialising them is the application's concern;
//! the configuration itself is plain data.

use vstd::prelude::*;

use crate::assets::StlAsset;
use crate::mapping::MappingDescriptor;
use crate::record::RecordingSettings;
use crate::scene::SceneDescriptor;

verus! {

/// Root configuration object for a session.
#[derive(Debug)]
pub struct AppConfig {
    pub audio_mode: AudioConfig,
    pub scenes: Vec<SceneDescriptor>,
    pub mappings: Vec<MappingDescriptor>,
    pub recording: RecordingSettings,
    pub assets: Vec<StlAsset>,
}

impl Default for AppConfig {
    /// Live audio, nothing registered, recording disabled.
    fn default() -> (r: Self)
        ensures
            r.audio_mode == AudioConfig::Live,
            r.scenes@ == Seq::<SceneDescriptor>::empty(),
            r.mappings@ == Seq::<MappingDescriptor>::empty(),
            r.recording.enabled == false,
            r.recording.output_path is None,
            r.assets@ == Seq::<StlAsset>::empty(),
    {
        let r = AppConfig {
            audio_mode: AudioConfig::Live,
            scenes: Vec::new(),
            mappings: Vec::new(),
            recording: RecordingSettings::default(),
            assets: Vec::new(),
        };
        proof {
            assert(r.scenes@ =~= Seq::<SceneDescriptor>::empty());
            assert(r.mappings@ =~= Seq::<MappingDescriptor>::empty());
            assert(r.assets@ =~= Seq::<StlAsset>::empty());
        }
        r
    }
}

/// How the audio stream is produced.
#[derive(Debug, Clone, PartialEq)]
pub enum AudioConfig {
    /// Capture live audio.
    Live,
    /// Replay a precomputed analysis read from the given path.
    Precomputed { analysis_path: String },
}

impl Default for AudioConfig {
    /// Live capture.
    fn default() -> (r: Self)
        ensures
            r == AudioConfig::Live,
    {
        AudioConfig::Live
    }
}

} // verus!
