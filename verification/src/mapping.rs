//! Modulation mappings between audio features and visual parameters.

use vstd::prelude::*;

use crate::analysis::AnalysisFrame;
use crate::features::{clamp_unit, FEATURE_SCALE};
use vstd::arithmetic::div_mod::{
    lemma_div_by_multiple, lemma_div_is_ordered, lemma_div_pos_is_pos,
};
use vstd::string::StringExecFns;

verus! {

/// Description of a single modulation mapping between an audio feature and a
/// visual parameter. `min` and `max` are in micro-units and may be negative;
/// `smoothing` is in micro-units and is clamped below one.
#[derive(Debug, Clone, PartialEq)]
pub struct MappingDescriptor {
    /// Feature name: `rms`, `spectral_centroid` or `beat_confidence`.
    pub source: String,
    /// Name of the visual parameter driven by this mapping.
    pub target: String,
    pub min: i64,
    pub max: i64,
    pub smoothing: u32,
}

/// Result of applying a mapping to an analysis frame; `value` is in
/// micro-units.
#[derive(Debug, Clone, PartialEq)]
pub struct ParameterUpdate {
    pub target: String,
    pub value: i64,
}

/// The feature a mapping reads from a frame, in micro-units; `None` when the
/// source name is unknown.
pub open spec fn spec_feature_value(d: MappingDescriptor, f: AnalysisFrame) -> Option<i64> {
    if d.source@ == "rms"@ {
        Some(f.rms as i64)
    } else if d.source@ == "spectral_centroid"@ {
        Some(f.spectral_centroid as i64)
    } else if d.source@ == "beat_confidence"@ {
        Some(f.beat_confidence as i64)
    } else {
        None
    }
}

/// A feature value mapped into `[min, max]`: the feature is clamped to the
/// unit range and interpolates linearly between the two bounds.
pub open spec fn spec_map_value(d: MappingDescriptor, feature: int) -> int {
    let c = clamp_unit(feature);
    if d.max >= d.min {
        d.min + (d.max - d.min) * c / (FEATURE_SCALE as int)
    } else {
        d.min - (d.min - d.max) * c / (FEATURE_SCALE as int)
    }
}

/// Exponential smoothing towards `base`: the smoothing amount is clamped to
/// `[0, 0.99]` and the step covers the remaining fraction of the distance.
pub open spec fn spec_smooth(previous: int, base: int, smoothing: int) -> int {
    let s = if smoothing > 990_000 {
        990_000
    } else if smoothing < 0 {
        0
    } else {
        smoothing
    };
    let f = FEATURE_SCALE - s;
    if base >= previous {
        previous + (base - previous) * f / (FEATURE_SCALE as int)
    } else {
        previous - (previous - base) * f / (FEATURE_SCALE as int)
    }
}

/// A mapping together with its smoothing state.
#[derive(Debug, PartialEq)]
pub struct ActiveMapping {
    pub descriptor: MappingDescriptor,
    pub last_value: Option<i64>,
}

/// One evaluation step of a mapping against a frame: the refreshed mapping
/// state and the update it emits, if its source is known.
pub open spec fn spec_eval_one(m: ActiveMapping, f: AnalysisFrame) -> (ActiveMapping, Option<
    ParameterUpdate,
>) {
    match spec_feature_value(m.descriptor, f) {
        Option::None => (m, Option::None),
        Option::Some(v) => {
            let base = spec_map_value(m.descriptor, v as int);
            let mapped = if m.descriptor.smoothing > 0 {
                let previous = match m.last_value {
                    Option::Some(p) => p as int,
                    Option::None => base,
                };
                spec_smooth(previous, base, m.descriptor.smoothing as int)
            } else {
                base
            };
            (
                ActiveMapping { descriptor: m.descriptor, last_value: Some(mapped as i64) },
                Some(ParameterUpdate { target: m.descriptor.target, value: mapped as i64 }),
            )
        },
    }
}

/// The updates a sequence of mappings emits for a frame, in order.
pub open spec fn spec_updates(ms: Seq<ActiveMapping>, f: AnalysisFrame) -> Seq<ParameterUpdate>
    decreases ms.len(),
{
    if ms.len() == 0 {
        Seq::empty()
    } else {
        spec_updates(ms.drop_last(), f) + (match spec_eval_one(ms.last(), f).1 {
            Option::Some(u) => seq![u],
            Option::None => Seq::empty(),
        })
    }
}

/// A scaled distance never exceeds the distance: for `0 <= c <= S`,
/// `0 <= d * c / S <= d`.
proof fn lemma_scaled_fraction_bounds(d: int, c: int)
    requires
        0 <= d,
        0 <= c <= FEATURE_SCALE,
    ensures
        0 <= d * c / (FEATURE_SCALE as int) <= d,
{
    let s = FEATURE_SCALE as int;
    assert(d * c >= 0) by (nonlinear_arith)
        requires
            d >= 0,
            c >= 0,
    ;
    assert(d * c <= d * s) by (nonlinear_arith)
        requires
            d >= 0,
            c <= s,
    ;
    lemma_div_pos_is_pos(d * c, s);
    lemma_div_is_ordered(d * c, d * s, s);
    lemma_div_by_multiple(d, s);
}

impl MappingDescriptor {
    /// Reads this mapping's source feature from a frame.
    fn feature_value(&self, analysis: &AnalysisFrame) -> (r: Option<i64>)
        ensures
            r == spec_feature_value(*self, *analysis),
    {
        if self.source == String::from_str("rms") {
            Some(analysis.rms as i64)
        } else if self.source == String::from_str("spectral_centroid") {
            Some(analysis.spectral_centroid as i64)
        } else if self.source == String::from_str("beat_confidence") {
            Some(analysis.beat_confidence as i64)
        } else {
            None
        }
    }

    /// Maps a clamped feature value into `[min, max]`.
    fn map_value(&self, value: i64) -> (r: i64)
        ensures
            r == spec_map_value(*self, value as int),
            self.min <= self.max ==> self.min <= r <= self.max,
            self.max < self.min ==> self.max <= r <= self.min,
    {
        let clamped: i64 = if value > FEATURE_SCALE as i64 {
            FEATURE_SCALE as i64
        } else if value < 0 {
            0
        } else {
            value
        };
        if self.max >= self.min {
            proof {
                lemma_scaled_fraction_bounds((self.max - self.min) as int, clamped as int);
            }
            let span: i128 = (self.max as i128 - self.min as i128) * clamped as i128;
            let step: i128 = span / (FEATURE_SCALE as i128);
            (self.min as i128 + step) as i64
        } else {
            proof {
                lemma_scaled_fraction_bounds((self.min - self.max) as int, clamped as int);
            }
            let span: i128 = (self.min as i128 - self.max as i128) * clamped as i128;
            let step: i128 = span / (FEATURE_SCALE as i128);
            (self.min as i128 - step) as i64
        }
    }
}

/// Exponential smoothing step, in micro-units.
fn smooth_value(previous: i64, base: i64, smoothing: u32) -> (r: i64)
    ensures
        r == spec_smooth(previous as int, base as int, smoothing as int),
{
    let s: u32 = if smoothing > 990_000 {
        990_000
    } else {
        smoothing
    };
    let f: i128 = (FEATURE_SCALE - s) as i128;
    if base >= previous {
        proof {
            lemma_scaled_fraction_bounds((base - previous) as int, (FEATURE_SCALE - s) as int);
        }
        let step: i128 = (base as i128 - previous as i128) * f / (FEATURE_SCALE as i128);
        (previous as i128 + step) as i64
    } else {
        proof {
            lemma_scaled_fraction_bounds((previous - base) as int, (FEATURE_SCALE - s) as int);
        }
        let step: i128 = (previous as i128 - base as i128) * f / (FEATURE_SCALE as i128);
        (previous as i128 - step) as i64
    }
}

impl ActiveMapping {
    /// Evaluates this mapping against a frame, updating the smoothing state.
    fn evaluate(&mut self, analysis: &AnalysisFrame) -> (r: Option<ParameterUpdate>)
        ensures
            *final(self) == spec_eval_one(*old(self), *analysis).0,
            r == spec_eval_one(*old(self), *analysis).1,
    {
        let feature = match self.descriptor.feature_value(analysis) {
            Some(v) => v,
            None => {
                return None;
            },
        };
        let base = self.descriptor.map_value(feature);
        let mapped = if self.descriptor.smoothing > 0 {
            let previous = match self.last_value {
                Some(p) => p,
                None => base,
            };
            smooth_value(previous, base, self.descriptor.smoothing)
        } else {
            base
        };
        self.last_value = Some(mapped);
        Some(ParameterUpdate { target: self.descriptor.target.clone(), value: mapped })
    }
}

/// Collection of active mappings.
#[derive(Debug)]
pub struct MappingMatrix {
    mappings: Vec<ActiveMapping>,
}

impl View for MappingMatrix {
    type V = Seq<ActiveMapping>;

    closed spec fn view(&self) -> Seq<ActiveMapping> {
        self.mappings@
    }
}

impl MappingMatrix {
    /// Creates an empty mapping matrix.
    pub fn new() -> (r: Self)
        ensures
            r@ == Seq::<ActiveMapping>::empty(),
    {
        let r = MappingMatrix { mappings: Vec::new() };
        proof {
            assert(r@ =~= Seq::<ActiveMapping>::empty());
        }
        r
    }

    /// Adds a mapping with a fresh smoothing state.
    pub fn add_mapping(&mut self, mapping: MappingDescriptor)
        ensures
            final(self)@ == old(self)@.push(
                (ActiveMapping { descriptor: mapping, last_value: None }),
            ),
    {
        self.mappings.push(ActiveMapping { descriptor: mapping, last_value: None });
    }

    /// Removes every mapping.
    pub fn clear(&mut self)
        ensures
            final(self)@ == Seq::<ActiveMapping>::empty(),
    {
        self.mappings.clear();
    }

    /// Whether no mapping is registered.
    pub fn is_empty(&self) -> (r: bool)
        ensures
            r == (self@.len() == 0),
    {
        self.mappings.len() == 0
    }

    /// Evaluates every mapping against a frame, in order, returning the
    /// emitted parameter updates and advancing each mapping's smoothing
    /// state.
    #[verifier::loop_isolation(false)]
    pub fn evaluate(&mut self, analysis: &AnalysisFrame) -> (r: Vec<ParameterUpdate>)
        ensures
            final(self)@.len() == old(self)@.len(),
            forall|i: int|
                0 <= i < old(self)@.len() ==> final(self)@[i] == spec_eval_one(
                    old(self)@[i],
                    *analysis,
                ).0,
            r@ == spec_updates(old(self)@, *analysis),
    {
        let ghost pre = self@;
        let mut updates: Vec<ParameterUpdate> = Vec::new();
        let mut done: Vec<ActiveMapping> = Vec::new();
        proof {
            assert(pre.take(0) =~= Seq::<ActiveMapping>::empty());
            assert(pre.skip(0) =~= pre);
        }
        while self.mappings.len() > 0
            invariant
                done@.len() + self.mappings@.len() == pre.len(),
                self.mappings@ == pre.skip(done@.len() as int),
                forall|i: int|
                    0 <= i < done@.len() ==> done@[i] == spec_eval_one(pre[i], *analysis).0,
                updates@ == spec_updates(pre.take(done@.len() as int), *analysis),
            decreases self.mappings@.len(),
        {
            let ghost k = done@.len() as int;
            let mut m = self.mappings.remove(0);
            proof {
                assert(pre.skip(k)[0] == pre[k]);
                assert(pre.skip(k).drop_first() =~= pre.skip(k + 1));
            }
            let u = m.evaluate(analysis);
            done.push(m);
            match u {
                Some(u) => updates.push(u),
                None => {},
            }
            proof {
                assert(pre.take(k + 1).drop_last() =~= pre.take(k));
                assert(pre.take(k + 1).last() == pre[k]);
            }
        }
        proof {
            assert(pre.take(done@.len() as int) =~= pre);
        }
        self.mappings = done;
        updates
    }
}

} // verus!
