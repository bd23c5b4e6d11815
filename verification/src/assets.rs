//! Registry for STL assets referenced by scenes.

use vstd::prelude::*;

use crate::error::MusicVizError;
use crate::scene::SceneDescriptor;
use crate::strmap::{
    kv_lookup, kv_unique, lemma_kv_lookup_at, lemma_kv_lookup_not_found,
    lemma_kv_lookup_push_other, lemma_kv_lookup_push_self, lemma_kv_lookup_update_other,
};
use vstd::pervasive::VecAdditionalExecFns;
use vstd::string::StringExecFns;

verus! {

/// Descriptor for an STL asset that can be loaded at runtime; `scale` is in
/// micro-units, so one million means unscaled.
#[derive(Debug, Clone, PartialEq)]
pub struct StlAsset {
    pub path: String,
    pub scale: u64,
}

impl Default for StlAsset {
    /// An empty path at unit scale.
    fn default() -> (r: Self)
        ensures
            r.path@ == Seq::<char>::empty(),
            r.scale == 1_000_000u64,
    {
        StlAsset { path: String::new(), scale: 1_000_000 }
    }
}

/// What the registry remembers of an asset: its path characters and scale.
pub open spec fn asset_view(a: StlAsset) -> (Seq<char>, u64) {
    (a.path@, a.scale)
}

/// Registry for all assets referenced by scenes, keyed by asset path.
#[derive(Debug)]
pub struct AssetStore {
    stl_assets: Vec<(String, StlAsset)>,
}

impl AssetStore {
    /// The registered assets: path characters to asset views.
    pub closed spec fn assets(&self) -> Seq<(Seq<char>, (Seq<char>, u64))> {
        self.stl_assets@.map_values(|pr: (String, StlAsset)| (pr.0@, asset_view(pr.1)))
    }

    /// Registered paths are pairwise distinct.
    pub open spec fn wf(&self) -> bool {
        kv_unique(self.assets())
    }

    /// Creates an empty asset store.
    pub fn new() -> (r: Self)
        ensures
            r.assets() == Seq::<(Seq<char>, (Seq<char>, u64))>::empty(),
            r.wf(),
    {
        let r = AssetStore { stl_assets: Vec::new() };
        proof {
            assert(r.assets() =~= Seq::<(Seq<char>, (Seq<char>, u64))>::empty());
        }
        r
    }

    /// Registers an asset under its own path, replacing any asset already
    /// registered there.
    #[verifier::loop_isolation(false)]
    pub fn register_stl(&mut self, asset: StlAsset)
        requires
            old(self).wf(),
        ensures
            final(self).wf(),
            kv_lookup(final(self).assets(), asset.path@) == Some(asset_view(asset)),
            forall|k: Seq<char>|
                k != asset.path@ ==> kv_lookup(final(self).assets(), k) == kv_lookup(
                    old(self).assets(),
                    k,
                ),
    {
        let ghost pre = self.assets();
        let ghost entry = (asset.path@, asset_view(asset));
        let key = asset.path.clone();
        let len = self.stl_assets.len();
        let mut i: usize = 0;
        while i < len
            invariant
                i <= len,
                len == self.stl_assets@.len(),
                key@ == asset.path@,
                forall|j: int| 0 <= j < i ==> (#[trigger] self.assets()[j]).0 != asset.path@,
                self.assets() == pre,
                self.wf(),
            decreases len - i,
        {
            if self.stl_assets[i].0 == key {
                proof {
                    assert(pre[i as int].0 == asset.path@);
                    lemma_kv_lookup_at(pre, asset.path@, i as int);
                }
                self.stl_assets.set(i, (key, asset));
                proof {
                    let post = self.assets();
                    assert(post =~= pre.update(i as int, entry));
                    lemma_kv_lookup_at(post, entry.0, i as int);
                    assert forall|k: Seq<char>| k != entry.0 implies kv_lookup(post, k)
                        == kv_lookup(pre, k) by {
                        lemma_kv_lookup_update_other(pre, i as int, entry, k);
                    }
                    assert forall|a: int, b: int|
                        0 <= a < b < post.len() implies (#[trigger] post[a]).0 != (
                        #[trigger] post[b]).0 by {
                        if a != i && b != i {
                            assert(post[a] == pre[a]);
                            assert(post[b] == pre[b]);
                        }
                    }
                }
                return ;
            }
            proof {
                assert(self.assets()[i as int].0 != asset.path@);
            }
            i = i + 1;
        }
        proof {
            lemma_kv_lookup_not_found(pre, asset.path@);
        }
        self.stl_assets.push((key, asset));
        proof {
            let post = self.assets();
            assert(post =~= pre.push(entry));
            lemma_kv_lookup_push_self(pre, entry);
            assert forall|k: Seq<char>| k != entry.0 implies kv_lookup(post, k) == kv_lookup(
                pre,
                k,
            ) by {
                lemma_kv_lookup_push_other(pre, entry, k);
            }
            assert forall|a: int, b: int|
                0 <= a < b < post.len() implies (#[trigger] post[a]).0 != (#[trigger] post[b]).0 by {
                if b < post.len() - 1 {
                    assert(post[a] == pre[a]);
                    assert(post[b] == pre[b]);
                } else {
                    assert(post[b] == entry);
                    if a < post.len() - 1 {
                        assert(post[a] == pre[a]);
                    }
                }
            }
        }
    }

    /// Checks that every asset a scene references is registered: an STL scene
    /// whose asset is missing is rejected, anything else resolves.
    #[verifier::loop_isolation(false)]
    pub fn resolve_scene_assets(&self, scene: &SceneDescriptor) -> (r: Result<(), MusicVizError>)
        requires
            self.wf(),
        ensures
            r is Ok <==> (match *scene {
                SceneDescriptor::Stl { asset, .. } => kv_lookup(self.assets(), asset@) is Some,
                _ => true,
            }),
            !(r is Ok) ==> (scene matches SceneDescriptor::Stl { asset, .. } && r matches Err(
                MusicVizError::Message(m),
            ) && m@ == "unknown STL asset `"@ + asset@ + "` referenced by scene"@),
    {
        match scene {
            SceneDescriptor::Stl { asset, .. } => {
                if self.stl_asset(asset.as_str()).is_some() {
                    Ok(())
                } else {
                    let text = String::from_str("unknown STL asset `").concat(
                        asset.as_str(),
                    ).concat("` referenced by scene");
                    Err(MusicVizError::Message(text))
                }
            },
            _ => Ok(()),
        }
    }

    /// Looks up a registered asset by path.
    #[verifier::loop_isolation(false)]
    pub fn stl_asset(&self, id: &str) -> (r: Option<&StlAsset>)
        requires
            self.wf(),
        ensures
            r is Some <==> kv_lookup(self.assets(), id@) is Some,
            r matches Some(a) ==> kv_lookup(self.assets(), id@) == Some(asset_view(*a)),
    {
        let owned = id.to_owned();
        let len = self.stl_assets.len();
        let mut i: usize = 0;
        while i < len
            invariant
                i <= len,
                len == self.stl_assets@.len(),
                owned@ == id@,
                forall|j: int| 0 <= j < i ==> (#[trigger] self.assets()[j]).0 != id@,
            decreases len - i,
        {
            if self.stl_assets[i].0 == owned {
                proof {
                    assert(self.assets()[i as int].0 == id@);
                    lemma_kv_lookup_at(self.assets(), id@, i as int);
                }
                return Some(&self.stl_assets[i].1);
            }
            proof {
                assert(self.assets()[i as int].0 != id@);
            }
            i = i + 1;
        }
        proof {
            lemma_kv_lookup_not_found(self.assets(), id@);
        }
        None
    }
}

} // verus!
