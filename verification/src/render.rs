//! Render graph: keeps track of registered scenes, the most recent parameter
//! updates and the most recent analysis frame.

use vstd::prelude::*;

use crate::analysis::AnalysisFrame;
use crate::error::MusicVizError;
use crate::mapping::ParameterUpdate;
use crate::scene::{last_update_value, scene_default_params, SceneInstance};
use crate::strmap::kv_lookup;
use vstd::string::StringExecFns;

verus! {

/// `post` is `pre` after applying `updates`: for every parameter key the
/// last update naming it wins, the rest keep their values; descriptor and
/// remembered frame are unchanged.
pub open spec fn scene_applied(
    pre: SceneInstance,
    post: SceneInstance,
    updates: Seq<ParameterUpdate>,
) -> bool {
    &&& post.wf()
    &&& post.spec_descriptor() == pre.spec_descriptor()
    &&& post.spec_last_analysis() == pre.spec_last_analysis()
    &&& forall|k: Seq<char>|
        kv_lookup(post.params(), k) == (match last_update_value(updates, k) {
            Option::Some(v) => Some(v),
            Option::None => kv_lookup(pre.params(), k),
        })
}

/// `post` is `pre` after seeing `frame`: the frame is remembered and the
/// scene's default parameters are filled in for keys that had no value.
pub open spec fn scene_saw_frame(
    pre: SceneInstance,
    post: SceneInstance,
    frame: AnalysisFrame,
) -> bool {
    &&& post.wf()
    &&& post.spec_descriptor() == pre.spec_descriptor()
    &&& post.spec_last_analysis() == Some(frame)
    &&& forall|k: Seq<char>|
        kv_lookup(post.params(), k) == (match kv_lookup(pre.params(), k) {
            Option::Some(v) => Some(v),
            Option::None => kv_lookup(scene_default_params(pre.spec_descriptor(), frame), k),
        })
}

/// Rendering backend abstraction: tracks registered scenes, the most recent
/// parameter updates and the most recent analysis frame.
#[derive(Debug)]
pub struct RenderGraph {
    scenes: Vec<SceneInstance>,
    last_updates: Vec<ParameterUpdate>,
    current_analysis: Option<AnalysisFrame>,
}

impl RenderGraph {
    /// The registered scenes, in registration order.
    pub closed spec fn scenes_view(&self) -> Seq<SceneInstance> {
        self.scenes@
    }

    /// The most recently applied parameter updates.
    pub closed spec fn updates_view(&self) -> Seq<ParameterUpdate> {
        self.last_updates@
    }

    /// The most recent analysis frame, if any.
    pub closed spec fn analysis_view(&self) -> Option<AnalysisFrame> {
        self.current_analysis
    }

    /// Every registered scene is well formed.
    pub open spec fn wf(&self) -> bool {
        forall|i: int| 0 <= i < self.scenes_view().len() ==> (#[trigger] self.scenes_view()[i]).wf()
    }

    /// Creates an empty render graph.
    pub fn new() -> (r: Self)
        ensures
            r.scenes_view() == Seq::<SceneInstance>::empty(),
            r.updates_view() == Seq::<ParameterUpdate>::empty(),
            r.analysis_view() is None,
            r.wf(),
    {
        let r = RenderGraph {
            scenes: Vec::new(),
            last_updates: Vec::new(),
            current_analysis: None,
        };
        proof {
            assert(r.scenes_view() =~= Seq::<SceneInstance>::empty());
            assert(r.updates_view() =~= Seq::<ParameterUpdate>::empty());
        }
        r
    }

    /// Registers a scene.
    pub fn register_scene(&mut self, scene: SceneInstance)
        requires
            old(self).wf(),
            scene.wf(),
        ensures
            final(self).wf(),
            final(self).scenes_view() == old(self).scenes_view().push(scene),
            final(self).updates_view() == old(self).updates_view(),
            final(self).analysis_view() == old(self).analysis_view(),
    {
        self.scenes.push(scene);
        proof {
            assert forall|i: int|
                0 <= i < self.scenes_view().len() implies (#[trigger] self.scenes_view()[i]).wf()
                by {
                if i < old(self).scenes_view().len() {
                    assert(self.scenes_view()[i] == old(self).scenes_view()[i]);
                } else {
                    assert(self.scenes_view()[i] == scene);
                }
            }
        }
    }

    /// Stores `updates` as the latest updates and applies them to every
    /// registered scene.
    #[verifier::loop_isolation(false)]
    pub fn apply_updates(&mut self, updates: Vec<ParameterUpdate>)
        requires
            old(self).wf(),
        ensures
            final(self).wf(),
            final(self).updates_view() == updates@,
            final(self).analysis_view() == old(self).analysis_view(),
            final(self).scenes_view().len() == old(self).scenes_view().len(),
            forall|i: int|
                0 <= i < old(self).scenes_view().len() ==> scene_applied(
                    old(self).scenes_view()[i],
                    #[trigger] final(self).scenes_view()[i],
                    updates@,
                ),
    {
        let ghost pre = self.scenes@;
        let mut done: Vec<SceneInstance> = Vec::new();
        while self.scenes.len() > 0
            invariant
                done@.len() + self.scenes@.len() == pre.len(),
                self.scenes@ == pre.skip(done@.len() as int),
                forall|i: int|
                    0 <= i < done@.len() ==> scene_applied(pre[i], #[trigger] done@[i], updates@),
                self.last_updates@ == old(self).last_updates@,
                self.current_analysis == old(self).current_analysis,
            decreases self.scenes@.len(),
        {
            let ghost k = done@.len() as int;
            let mut scene = self.scenes.remove(0);
            proof {
                assert(pre.skip(k)[0] == pre[k]);
                assert(pre.skip(k).drop_first() =~= pre.skip(k + 1));
            }
            scene.apply_updates(updates.as_slice());
            done.push(scene);
        }
        self.scenes = done;
        self.last_updates = updates;
    }

    /// Lets every registered scene see `frame` and remembers it as the
    /// current analysis.
    #[verifier::loop_isolation(false)]
    pub fn ingest_analysis_frame(&mut self, frame: AnalysisFrame)
        requires
            old(self).wf(),
        ensures
            final(self).wf(),
            final(self).analysis_view() == Some(frame),
            final(self).updates_view() == old(self).updates_view(),
            final(self).scenes_view().len() == old(self).scenes_view().len(),
            forall|i: int|
                0 <= i < old(self).scenes_view().len() ==> scene_saw_frame(
                    old(self).scenes_view()[i],
                    #[trigger] final(self).scenes_view()[i],
                    frame,
                ),
    {
        let ghost pre = self.scenes@;
        let mut done: Vec<SceneInstance> = Vec::new();
        while self.scenes.len() > 0
            invariant
                done@.len() + self.scenes@.len() == pre.len(),
                self.scenes@ == pre.skip(done@.len() as int),
                forall|i: int|
                    0 <= i < done@.len() ==> scene_saw_frame(pre[i], #[trigger] done@[i], frame),
                self.last_updates@ == old(self).last_updates@,
            decreases self.scenes@.len(),
        {
            let ghost k = done@.len() as int;
            let mut scene = self.scenes.remove(0);
            proof {
                assert(pre.skip(k)[0] == pre[k]);
                assert(pre.skip(k).drop_first() =~= pre.skip(k + 1));
            }
            scene.update(&frame);
            done.push(scene);
        }
        self.scenes = done;
        self.current_analysis = Some(frame);
    }

    /// Draws the graph: succeeds exactly when there is no scene, or every
    /// scene has seen an analysis frame.
    #[verifier::loop_isolation(false)]
    pub fn draw(&self) -> (r: Result<(), MusicVizError>)
        ensures
            r is Ok <==> (self.scenes_view().len() == 0 || forall|i: int|
                0 <= i < self.scenes_view().len() ==> (
                #[trigger] self.scenes_view()[i]).spec_last_analysis() is Some),
            !(r is Ok) ==> (r matches Err(MusicVizError::Message(m)) && m@
                == "render graph cannot draw scenes without analysis data"@),
    {
        let len = self.scenes.len();
        if len == 0 {
            return Ok(());
        }
        let mut i: usize = 0;
        while i < len
            invariant
                i <= len,
                forall|j: int|
                    0 <= j < i ==> (#[trigger] self.scenes_view()[j]).spec_last_analysis() is Some,
            decreases len - i,
        {
            match self.scenes[i].last_analysis() {
                Some(_) => {},
                None => {
                    return Err(
                        MusicVizError::Message(
                            String::from_str(
                                "render graph cannot draw scenes without analysis data",
                            ),
                        ),
                    );
                },
            }
            i = i + 1;
        }
        Ok(())
    }

    /// Returns the registered scenes.
    pub fn scenes(&self) -> (r: &[SceneInstance])
        ensures
            r@ == self.scenes_view(),
    {
        self.scenes.as_slice()
    }

    /// Returns the most recently applied updates.
    pub fn last_updates(&self) -> (r: &[ParameterUpdate])
        ensures
            r@ == self.updates_view(),
    {
        self.last_updates.as_slice()
    }

    /// Returns the most recent analysis frame, if any.
    pub fn last_analysis(&self) -> (r: Option<&AnalysisFrame>)
        ensures
            r is Some <==> self.analysis_view() is Some,
            r matches Some(f) ==> self.analysis_view() == Some(*f),
    {
        self.current_analysis.as_ref()
    }
}

} // verus!
