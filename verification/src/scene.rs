//! Scene descriptors and runtime scene instances.

use vstd::prelude::*;

use crate::analysis::AnalysisFrame;
use crate::mapping::ParameterUpdate;
use crate::strmap::{
    kv_lookup, kv_unique, lemma_kv_lookup_at, lemma_kv_lookup_not_found,
    lemma_kv_lookup_push_other, lemma_kv_lookup_push_self, lemma_kv_lookup_update_other,
};
use vstd::pervasive::VecAdditionalExecFns;
use vstd::string::StringExecFns;

verus! {

/// Enumeration of the core scene types supported by the renderer.
/// `speed` and `emit_rate` are carried in micro-units.
#[derive(Debug, Clone, PartialEq)]
pub enum SceneDescriptor {
    /// A loaded STL mesh.
    Stl { asset: String, mode: StlMode },
    /// A kaleidoscope of the given rotational order.
    Kaleidoscope { order: u32 },
    /// A tunnel fly-through.
    Tunnel { speed: i64 },
    /// A particle system.
    Particles { emit_rate: i64 },
}

/// How an STL asset is rendered.
#[derive(Debug, Clone, PartialEq)]
pub enum StlMode {
    Mesh,
    Wireframe,
    PointCloud,
}

/// Runtime representation of a scene instance: the descriptor plus a table
/// of named parameter values (in micro-units) and the last analysis frame it
/// saw.
#[derive(Debug)]
pub struct SceneInstance {
    /// The descriptor this instance was built from.
    pub descriptor: SceneDescriptor,
    parameters: Vec<(String, i64)>,
    last_analysis: Option<AnalysisFrame>,
}

impl SceneInstance {
    /// The descriptor this instance was built from.
    pub closed spec fn spec_descriptor(&self) -> SceneDescriptor {
        self.descriptor
    }

    /// The parameter table, as key characters and values.
    pub closed spec fn params(&self) -> Seq<(Seq<char>, i64)> {
        self.parameters@.map_values(|pr: (String, i64)| (pr.0@, pr.1))
    }

    /// The last analysis frame this scene saw.
    pub closed spec fn spec_last_analysis(&self) -> Option<AnalysisFrame> {
        self.last_analysis
    }

    /// Parameter keys are pairwise distinct.
    pub open spec fn wf(&self) -> bool {
        kv_unique(self.params())
    }

    /// Creates a scene instance with no parameters and no analysis yet.
    pub fn new(descriptor: SceneDescriptor) -> (r: Self)
        ensures
            r.spec_descriptor() == descriptor,
            r.params() == Seq::<(Seq<char>, i64)>::empty(),
            r.spec_last_analysis() is None,
            r.wf(),
    {
        let r = SceneInstance { descriptor, parameters: Vec::new(), last_analysis: None };
        proof {
            assert(r.params() =~= Seq::<(Seq<char>, i64)>::empty());
        }
        r
    }

    /// Looks up a parameter value by name.
    #[verifier::loop_isolation(false)]
    pub fn parameter_value(&self, key: &str) -> (r: Option<i64>)
        requires
            self.wf(),
        ensures
            r == kv_lookup(self.params(), key@),
    {
        let owned = key.to_owned();
        let len = self.parameters.len();
        let mut i: usize = 0;
        while i < len
            invariant
                i <= len,
                len == self.parameters@.len(),
                owned@ == key@,
                forall|j: int| 0 <= j < i ==> (#[trigger] self.params()[j]).0 != key@,
            decreases len - i,
        {
            if self.parameters[i].0 == owned {
                proof {
                    assert(self.params()[i as int].0 == key@);
                    lemma_kv_lookup_at(self.params(), key@, i as int);
                }
                return Some(self.parameters[i].1);
            }
            proof {
                assert(self.params()[i as int].0 != key@);
            }
            i = i + 1;
        }
        proof {
            lemma_kv_lookup_not_found(self.params(), key@);
        }
        None
    }

    /// Stores `value` under `key`, overwriting any previous value.
    #[verifier::loop_isolation(false)]
    pub fn set_parameter(&mut self, key: String, value: i64)
        requires
            old(self).wf(),
        ensures
            final(self).wf(),
            final(self).spec_descriptor() == old(self).spec_descriptor(),
            final(self).spec_last_analysis() == old(self).spec_last_analysis(),
            kv_lookup(final(self).params(), key@) == Some(value),
            forall|k: Seq<char>|
                k != key@ ==> kv_lookup(final(self).params(), k) == kv_lookup(
                    old(self).params(),
                    k,
                ),
            final(self).params().len() == (if kv_lookup(old(self).params(), key@) is Some {
                old(self).params().len()
            } else {
                old(self).params().len() + 1
            }),
    {
        let ghost pre = self.params();
        let len = self.parameters.len();
        let mut i: usize = 0;
        while i < len
            invariant
                i <= len,
                len == self.parameters@.len(),
                forall|j: int| 0 <= j < i ==> (#[trigger] self.params()[j]).0 != key@,
                self.params() == pre,
                self.wf(),
                self.spec_descriptor() == old(self).spec_descriptor(),
                self.spec_last_analysis() == old(self).spec_last_analysis(),
            decreases len - i,
        {
            if self.parameters[i].0 == key {
                proof {
                    assert(pre[i as int].0 == key@);
                    lemma_kv_lookup_at(pre, key@, i as int);
                }
                self.parameters.set(i, (key, value));
                proof {
                    let post = self.params();
                    assert(post =~= pre.update(i as int, (key@, value)));
                    lemma_kv_lookup_at(post, key@, i as int);
                    assert forall|k: Seq<char>| k != key@ implies kv_lookup(post, k) == kv_lookup(
                        pre,
                        k,
                    ) by {
                        lemma_kv_lookup_update_other(pre, i as int, (key@, value), k);
                    }
                    assert forall|a: int, b: int|
                        0 <= a < b < post.len() implies (#[trigger] post[a]).0 != (
                        #[trigger] post[b]).0 by {
                        if a != i && b != i {
                            assert(post[a] == pre[a]);
                            assert(post[b] == pre[b]);
                        }
                    }
                }
                return ;
            }
            proof {
                assert(self.params()[i as int].0 != key@);
            }
            i = i + 1;
        }
        proof {
            lemma_kv_lookup_not_found(pre, key@);
        }
        let ghost gkey = key@;
        self.parameters.push((key, value));
        proof {
            let post = self.params();
            assert(post =~= pre.push((gkey, value)));
            lemma_kv_lookup_push_self(pre, (gkey, value));
            assert forall|k: Seq<char>| k != gkey implies kv_lookup(post, k) == kv_lookup(
                pre,
                k,
            ) by {
                lemma_kv_lookup_push_other(pre, (gkey, value), k);
            }
            assert forall|a: int, b: int|
                0 <= a < b < post.len() implies (#[trigger] post[a]).0 != (#[trigger] post[b]).0 by {
                if b < post.len() - 1 {
                    assert(post[a] == pre[a]);
                    assert(post[b] == pre[b]);
                } else {
                    assert(post[b] == (gkey, value));
                    if a < post.len() - 1 {
                        assert(post[a] == pre[a]);
                    }
                }
            }
        }
    }

    /// Stores `value` under `key` only when the key is absent.
    #[verifier::loop_isolation(false)]
    fn ensure_parameter(&mut self, key: String, value: i64)
        requires
            old(self).wf(),
        ensures
            final(self).wf(),
            final(self).spec_descriptor() == old(self).spec_descriptor(),
            final(self).spec_last_analysis() == old(self).spec_last_analysis(),
            kv_lookup(final(self).params(), key@) == (match kv_lookup(old(self).params(), key@) {
                Some(v0) => Some(v0),
                None => Some(value),
            }),
            forall|k: Seq<char>|
                k != key@ ==> kv_lookup(final(self).params(), k) == kv_lookup(
                    old(self).params(),
                    k,
                ),
    {
        let ghost pre = self.params();
        let len = self.parameters.len();
        let mut i: usize = 0;
        while i < len
            invariant
                i <= len,
                len == self.parameters@.len(),
                forall|j: int| 0 <= j < i ==> (#[trigger] self.params()[j]).0 != key@,
                self.params() == pre,
                self.wf(),
                self.spec_descriptor() == old(self).spec_descriptor(),
                self.spec_last_analysis() == old(self).spec_last_analysis(),
            decreases len - i,
        {
            if self.parameters[i].0 == key {
                proof {
                    assert(pre[i as int].0 == key@);
                    lemma_kv_lookup_at(pre, key@, i as int);
                }
                return ;
            }
            proof {
                assert(self.params()[i as int].0 != key@);
            }
            i = i + 1;
        }
        proof {
            lemma_kv_lookup_not_found(pre, key@);
        }
        let ghost gkey = key@;
        self.parameters.push((key, value));
        proof {
            let post = self.params();
            assert(post =~= pre.push((gkey, value)));
            lemma_kv_lookup_push_self(pre, (gkey, value));
            assert forall|k: Seq<char>| k != gkey implies kv_lookup(post, k) == kv_lookup(
                pre,
                k,
            ) by {
                lemma_kv_lookup_push_other(pre, (gkey, value), k);
            }
            assert forall|a: int, b: int|
                0 <= a < b < post.len() implies (#[trigger] post[a]).0 != (#[trigger] post[b]).0 by {
                if b < post.len() - 1 {
                    assert(post[a] == pre[a]);
                    assert(post[b] == pre[b]);
                } else {
                    assert(post[b] == (gkey, value));
                    if a < post.len() - 1 {
                        assert(post[a] == pre[a]);
                    }
                }
            }
        }
    }

    /// Applies parameter updates derived from the mapping matrix to this
    /// scene: for every key the last update naming it wins; keys no update
    /// names keep their value.
    #[verifier::loop_isolation(false)]
    pub fn apply_updates(&mut self, updates: &[ParameterUpdate])
        requires
            old(self).wf(),
        ensures
            final(self).wf(),
            final(self).spec_descriptor() == old(self).spec_descriptor(),
            final(self).spec_last_analysis() == old(self).spec_last_analysis(),
            forall|k: Seq<char>|
                kv_lookup(final(self).params(), k) == (match last_update_value(updates@, k) {
                    Option::Some(v) => Some(v),
                    Option::None => kv_lookup(old(self).params(), k),
                }),
    {
        let len = updates.len();
        let mut i: usize = 0;
        proof {
            assert(updates@.take(0) =~= Seq::<ParameterUpdate>::empty());
        }
        while i < len
            invariant
                i <= len,
                self.wf(),
                self.spec_descriptor() == old(self).spec_descriptor(),
                self.spec_last_analysis() == old(self).spec_last_analysis(),
                forall|k: Seq<char>|
                    kv_lookup(self.params(), k) == (match last_update_value(
                        updates@.take(i as int),
                        k,
                    ) {
                        Option::Some(v) => Some(v),
                        Option::None => kv_lookup(old(self).params(), k),
                    }),
            decreases len - i,
        {
            let ghost mid = self.params();
            let update = &updates[i];
            self.set_parameter(update.target.clone(), update.value);
            proof {
                assert(updates@.take(i as int + 1).drop_last() =~= updates@.take(i as int));
                assert(updates@.take(i as int + 1).last() == updates@[i as int]);
                assert forall|k: Seq<char>|
                    kv_lookup(self.params(), k) == (match last_update_value(
                        updates@.take(i as int + 1),
                        k,
                    ) {
                        Option::Some(v) => Some(v),
                        Option::None => kv_lookup(old(self).params(), k),
                    }) by {
                    if k != updates@[i as int].target@ {
                        assert(kv_lookup(self.params(), k) == kv_lookup(mid, k));
                    }
                }
            }
            i = i + 1;
        }
        proof {
            assert(updates@.take(len as int) =~= updates@);
        }
    }

    /// Evaluates the scene against the current analysis frame: the frame is
    /// remembered, and the scene's own default parameters are filled in for
    /// keys that have no value yet (an existing value is kept).
    pub fn update(&mut self, analysis: &AnalysisFrame)
        requires
            old(self).wf(),
        ensures
            final(self).wf(),
            final(self).spec_descriptor() == old(self).spec_descriptor(),
            final(self).spec_last_analysis() == Some(*analysis),
            forall|k: Seq<char>|
                kv_lookup(final(self).params(), k) == (match kv_lookup(old(self).params(), k) {
                    Option::Some(v) => Some(v),
                    Option::None => kv_lookup(
                        scene_default_params(old(self).spec_descriptor(), *analysis),
                        k,
                    ),
                }),
    {
        self.last_analysis = Some(*analysis);
        let ghost pre = self.params();
        let ghost defaults = scene_default_params(self.descriptor, *analysis);
        match &self.descriptor {
            SceneDescriptor::Stl { .. } => {
                self.ensure_parameter(String::from_str("stl.rms"), analysis.rms as i64);
                self.ensure_parameter(
                    String::from_str("stl.centroid"),
                    analysis.spectral_centroid as i64,
                );
                proof {
                    reveal_strlit("stl.rms");
                    reveal_strlit("stl.centroid");
                    assert(defaults[0].0 == "stl.rms"@);
                    assert(defaults[1].0 == "stl.centroid"@);
                    assert("stl.rms"@.len() == 7);
                    assert("stl.centroid"@.len() == 12);
                    lemma_two_defaults(pre, self.params(), defaults);
                }
            },
            SceneDescriptor::Kaleidoscope { order } => {
                let base: u64 = if *order == 0 {
                    1
                } else {
                    *order as u64
                };
                proof {
                    assert((analysis.beat_confidence as int) * (base as int)
                        < 0x1_0000_0000_0000_0000) by (nonlinear_arith)
                        requires
                            analysis.beat_confidence < 0x1_0000_0000,
                            base <= 0x1_0000_0000,
                    ;
                }
                let rotation = ((analysis.beat_confidence as u64) * base) as i64;
                self.ensure_parameter(String::from_str("kaleidoscope.rotation"), rotation);
                proof {
                    lemma_one_default(pre, self.params(), defaults);
                }
            },
            SceneDescriptor::Tunnel { .. } => {
                self.ensure_parameter(String::from_str("tunnel.energy"), analysis.rms as i64);
                proof {
                    lemma_one_default(pre, self.params(), defaults);
                }
            },
            SceneDescriptor::Particles { .. } => {
                self.ensure_parameter(String::from_str("particles.emission"), analysis.rms as i64);
                self.ensure_parameter(
                    String::from_str("particles.tone"),
                    analysis.spectral_centroid as i64,
                );
                proof {
                    reveal_strlit("particles.emission");
                    reveal_strlit("particles.tone");
                    assert(defaults[0].0 == "particles.emission"@);
                    assert(defaults[1].0 == "particles.tone"@);
                    assert("particles.emission"@.len() == 18);
                    assert("particles.tone"@.len() == 14);
                    lemma_two_defaults(pre, self.params(), defaults);
                }
            },
        }
    }

    /// Returns the last analysis frame this scene saw, if any.
    pub fn last_analysis(&self) -> (r: Option<&AnalysisFrame>)
        ensures
            r is Some <==> self.spec_last_analysis() is Some,
            r matches Some(f) ==> self.spec_last_analysis() == Some(*f),
    {
        self.last_analysis.as_ref()
    }
}

/// The value the last update naming `k` carries, if any update names it.
pub open spec fn last_update_value(updates: Seq<ParameterUpdate>, k: Seq<char>) -> Option<i64>
    decreases updates.len(),
{
    if updates.len() == 0 {
        None
    } else if updates.last().target@ == k {
        Some(updates.last().value)
    } else {
        last_update_value(updates.drop_last(), k)
    }
}

/// The default parameter entries a scene descriptor fills in from a frame,
/// in micro-units.
pub open spec fn scene_default_params(d: SceneDescriptor, f: AnalysisFrame) -> Seq<
    (Seq<char>, i64),
> {
    match d {
        SceneDescriptor::Stl { .. } => seq![
            ("stl.rms"@, f.rms as i64),
            ("stl.centroid"@, f.spectral_centroid as i64),
        ],
        SceneDescriptor::Kaleidoscope { order } => seq![
            (
                "kaleidoscope.rotation"@,
                ((f.beat_confidence as u64) * (if order == 0 {
                    1u64
                } else {
                    order as u64
                })) as i64,
            ),
        ],
        SceneDescriptor::Tunnel { .. } => seq![("tunnel.energy"@, f.rms as i64)],
        SceneDescriptor::Particles { .. } => seq![
            ("particles.emission"@, f.rms as i64),
            ("particles.tone"@, f.spectral_centroid as i64),
        ],
    }
}

/// Filling in one default entry realises or-insert semantics against a
/// one-entry default table.
proof fn lemma_one_default(
    pre: Seq<(Seq<char>, i64)>,
    post: Seq<(Seq<char>, i64)>,
    defaults: Seq<(Seq<char>, i64)>,
)
    requires
        defaults.len() == 1,
        forall|k: Seq<char>|
            kv_lookup(post, k) == (if k == defaults[0].0 {
                match kv_lookup(pre, k) {
                    Option::Some(v) => Some(v),
                    Option::None => Some(defaults[0].1),
                }
            } else {
                kv_lookup(pre, k)
            }),
    ensures
        forall|k: Seq<char>|
            kv_lookup(post, k) == (match kv_lookup(pre, k) {
                Option::Some(v) => Some(v),
                Option::None => kv_lookup(defaults, k),
            }),
{
    assert forall|k: Seq<char>|
        kv_lookup(post, k) == (match kv_lookup(pre, k) {
            Option::Some(v) => Some(v),
            Option::None => kv_lookup(defaults, k),
        }) by {
        if k != defaults[0].0 {
            assert(kv_lookup(defaults, k) == kv_lookup(defaults.drop_first(), k));
            assert(defaults.drop_first().len() == 0);
        }
    }
}

/// Filling in two default entries with distinct keys realises or-insert
/// semantics against a two-entry default table.
proof fn lemma_two_defaults(
    pre: Seq<(Seq<char>, i64)>,
    post: Seq<(Seq<char>, i64)>,
    defaults: Seq<(Seq<char>, i64)>,
)
    requires
        defaults.len() == 2,
        defaults[0].0 != defaults[1].0,
        forall|k: Seq<char>|
            kv_lookup(post, k) == (if k == defaults[0].0 {
                match kv_lookup(pre, k) {
                    Option::Some(v) => Some(v),
                    Option::None => Some(defaults[0].1),
                }
            } else if k == defaults[1].0 {
                match kv_lookup(pre, k) {
                    Option::Some(v) => Some(v),
                    Option::None => Some(defaults[1].1),
                }
            } else {
                kv_lookup(pre, k)
            }),
    ensures
        forall|k: Seq<char>|
            kv_lookup(post, k) == (match kv_lookup(pre, k) {
                Option::Some(v) => Some(v),
                Option::None => kv_lookup(defaults, k),
            }),
{
    assert forall|k: Seq<char>|
        kv_lookup(post, k) == (match kv_lookup(pre, k) {
            Option::Some(v) => Some(v),
            Option::None => kv_lookup(defaults, k),
        }) by {
        assert(kv_lookup(defaults.drop_first(), k) == (if k == defaults[1].0 {
            Some(defaults[1].1)
        } else {
            kv_lookup(defaults.drop_first().drop_first(), k)
        }));
        assert(defaults.drop_first()[0] == defaults[1]);
        assert(defaults.drop_first().drop_first().len() == 0);
    }
}

} // verus!
