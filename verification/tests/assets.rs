use music_visualiser_core::{AssetStore, MusicVizError, SceneDescriptor, StlAsset, StlMode};

fn asset(path: &str) -> StlAsset {
    StlAsset { path: path.to_string(), scale: 1_000_000 }
}

#[test]
fn resolves_registered_assets() {
    let mut store = AssetStore::new();
    store.register_stl(asset("model.stl"));

    let scene = SceneDescriptor::Stl { asset: "model.stl".to_string(), mode: StlMode::Mesh };

    assert!(store.resolve_scene_assets(&scene).is_ok());
}

#[test]
fn errors_on_missing_assets() {
    let store = AssetStore::new();
    let scene = SceneDescriptor::Stl { asset: "missing.stl".to_string(), mode: StlMode::Wireframe };

    let err = store.resolve_scene_assets(&scene).unwrap_err();
    assert!(err.message().contains("missing.stl"));
    assert!(matches!(err, MusicVizError::Message(_)));
}

#[test]
fn registering_twice_replaces_the_asset() {
    let mut store = AssetStore::new();
    store.register_stl(StlAsset { path: "model.stl".to_string(), scale: 1_000_000 });
    store.register_stl(StlAsset { path: "model.stl".to_string(), scale: 2_000_000 });

    let stored = store.stl_asset("model.stl").unwrap();
    assert_eq!(stored.scale, 2_000_000);
    assert!(store.stl_asset("other.stl").is_none());
}

#[test]
fn non_stl_scenes_resolve_without_assets() {
    let store = AssetStore::new();
    assert!(store.resolve_scene_assets(&SceneDescriptor::Kaleidoscope { order: 3 }).is_ok());
    assert!(store.resolve_scene_assets(&SceneDescriptor::Tunnel { speed: 5 }).is_ok());
}
