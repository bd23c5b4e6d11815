//! Core library for a streaming music visualiser.
//!
//! The heart of the crate is the analysis engine: a stateful pipeline that
//! consumes blocks of mono audio samples in temporal order and produces, per
//! block, a compact feature frame: loudness, spectral shape, onset confidence
//! and a running tempo estimate. All quantities are carried as fixed-point
//! integers so that every feature computation is verified: feature values use
//! micro-units (one million equals `1.0`) and times use ticks of half a
//! sample period, which makes every block midpoint an exact integer. The
//! caller supplies the magnitude spectrum of each block, since the spectral
//! transform itself works on floating-point buffers that stay outside this
//! crate.

pub mod analysis;
pub mod assets;
pub mod audio;
pub mod config;
pub mod error;
pub mod features;
pub mod mapping;
pub mod math;
pub mod record;
pub mod render;
pub mod scene;
pub mod strmap;
pub mod timeline;

pub use analysis::{AnalysisEngine, AnalysisFrame, AnalysisSummary};
pub use assets::{AssetStore, StlAsset};
pub use audio::AudioMode;
pub use config::{AppConfig, AudioConfig};
pub use error::MusicVizError;
pub use mapping::{MappingDescriptor, MappingMatrix, ParameterUpdate};
pub use record::{Recorder, RecordingSettings};
pub use render::RenderGraph;
pub use scene::{SceneDescriptor, SceneInstance, StlMode};
pub use timeline::{PlaybackClock, ScheduledEvent, Scheduler};
