//! Recording of analysis frames for later export.

use vstd::prelude::*;

use crate::analysis::AnalysisFrame;

verus! {

/// Settings controlling the behaviour of the [`Recorder`].
#[derive(Debug, Clone, PartialEq)]
pub struct RecordingSettings {
    /// Whether frames are collected at all.
    pub enabled: bool,
    /// Where a finished recording is written, if anywhere.
    pub output_path: Option<String>,
}

impl Default for RecordingSettings {
    /// Recording disabled, with no output path.
    fn default() -> (r: Self)
        ensures
            r.enabled == false,
            r.output_path is None,
    {
        RecordingSettings { enabled: false, output_path: None }
    }
}

impl RecordingSettings {
    /// Creates a settings object that enables recording.
    pub fn enabled() -> (r: Self)
        ensures
            r.enabled == true,
            r.output_path is None,
    {
        RecordingSettings { enabled: true, output_path: None }
    }

    /// Sets the output path a finished recording will be written to.
    pub fn with_output_path(self, path: String) -> (r: Self)
        ensures
            r.enabled == self.enabled,
            r.output_path == Some(path),
    {
        RecordingSettings { enabled: self.enabled, output_path: Some(path) }
    }
}

/// Chooses the recording settings for a session from plain flags: recording
/// happens when it is asked for explicitly or when an output path is given,
/// and the path, when present, is carried over.
pub fn recording_settings(record: bool, record_output: Option<String>) -> (r: RecordingSettings)
    ensures
        r.enabled == (record || record_output is Some),
        r.output_path == record_output,
{
    let should_record = record || record_output.is_some();
    if !should_record {
        return RecordingSettings::default();
    }
    let settings = RecordingSettings::enabled();
    match record_output {
        Some(path) => settings.with_output_path(path),
        None => settings,
    }
}

/// Collects analysis frames so they can be exported after a run.
#[derive(Debug)]
pub struct Recorder {
    settings: RecordingSettings,
    recorded_frames: usize,
    frames: Vec<AnalysisFrame>,
}

impl Recorder {
    /// The active settings.
    pub closed spec fn spec_settings(&self) -> RecordingSettings {
        self.settings
    }

    /// The collected frames, in arrival order.
    pub closed spec fn spec_frames(&self) -> Seq<AnalysisFrame> {
        self.frames@
    }

    /// The running frame counter.
    pub closed spec fn spec_recorded(&self) -> int {
        self.recorded_frames as int
    }

    /// The counter always equals the number of collected frames.
    pub open spec fn wf(&self) -> bool {
        self.spec_recorded() == self.spec_frames().len()
    }

    /// Creates a recorder with the given settings.
    pub fn new(settings: RecordingSettings) -> (r: Self)
        ensures
            r.spec_settings() == settings,
            r.spec_frames() == Seq::<AnalysisFrame>::empty(),
            r.spec_recorded() == 0,
            r.wf(),
    {
        let capacity: usize = if settings.enabled {
            64
        } else {
            0
        };
        let r = Recorder { settings, recorded_frames: 0, frames: Vec::with_capacity(capacity) };
        proof {
            assert(r.spec_frames() =~= Seq::<AnalysisFrame>::empty());
        }
        r
    }

    /// Returns the active settings.
    pub fn settings(&self) -> (r: &RecordingSettings)
        ensures
            *r == self.spec_settings(),
    {
        &self.settings
    }

    /// Returns how many frames were recorded since the last configuration.
    pub fn recorded_frames(&self) -> (r: usize)
        ensures
            r == self.spec_recorded(),
    {
        self.recorded_frames
    }

    /// Returns the collected frames.
    pub fn frames(&self) -> (r: &[AnalysisFrame])
        ensures
            r@ == self.spec_frames(),
    {
        self.frames.as_slice()
    }

    /// Replaces the settings in place, dropping anything collected so far.
    pub fn configure(&mut self, settings: RecordingSettings)
        ensures
            final(self).spec_settings() == settings,
            final(self).spec_frames() == Seq::<AnalysisFrame>::empty(),
            final(self).spec_recorded() == 0,
            final(self).wf(),
    {
        self.settings = settings;
        self.frames.clear();
        self.recorded_frames = 0;
        if self.settings.enabled {
            self.frames.reserve(64);
        }
    }

    /// Sets the output path a finished recording will be written to.
    pub fn set_output_path(&mut self, path: String)
        ensures
            final(self).spec_settings().enabled == old(self).spec_settings().enabled,
            final(self).spec_settings().output_path == Some(path),
            final(self).spec_frames() == old(self).spec_frames(),
            final(self).spec_recorded() == old(self).spec_recorded(),
    {
        self.settings.output_path = Some(path);
    }

    /// Collects one frame when recording is enabled; a disabled recorder
    /// ignores it.
    pub fn record_frame(&mut self, frame: &AnalysisFrame)
        requires
            old(self).wf(),
        ensures
            final(self).wf(),
            final(self).spec_settings() == old(self).spec_settings(),
            old(self).spec_settings().enabled ==> final(self).spec_frames() == old(
                self,
            ).spec_frames().push(*frame) && final(self).spec_recorded() == old(
                self,
            ).spec_recorded() + 1,
            !old(self).spec_settings().enabled ==> final(self).spec_frames() == old(
                self,
            ).spec_frames() && final(self).spec_recorded() == old(self).spec_recorded(),
    {
        if !self.settings.enabled {
            return ;
        }
        self.frames.push(*frame);
        self.recorded_frames = self.frames.len();
    }
}

} // verus!
