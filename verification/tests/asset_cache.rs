use raidillon::{AssetManager, ModelId};

#[test]
fn same_key_reuses_handle_and_loads_once() {
    let mut cache: AssetManager<&'static str> = AssetManager::new();
    let mut loads = 0;
    let first = cache
        .load_or_get("tree.gltf", || -> Result<&'static str, ()> {
            loads += 1;
            Ok("tree-data")
        })
        .unwrap();
    let again = cache
        .load_or_get("tree.gltf", || -> Result<&'static str, ()> {
            loads += 1;
            Ok("tree-data-reloaded")
        })
        .unwrap();
    assert_eq!(first, again);
    assert_eq!(loads, 1);
    assert_eq!(cache.get(first), Some(&"tree-data"));
}

#[test]
fn two_paths_receive_handles_zero_and_one() {
    let mut cache: AssetManager<u32> = AssetManager::new();
    let tree = cache.load_or_get("tree.gltf", || -> Result<u32, ()> { Ok(1) }).unwrap();
    let plane = cache.load_or_get("plane.gltf", || -> Result<u32, ()> { Ok(2) }).unwrap();
    assert_eq!(tree, ModelId(0));
    assert_eq!(plane, ModelId(1));
    let tree_again = cache.load_or_get("tree.gltf", || -> Result<u32, ()> { Ok(3) }).unwrap();
    assert_eq!(tree_again, ModelId(0));
    assert_eq!(cache.asset_count(), 2);
}

#[test]
fn loader_failure_is_propagated_and_caches_nothing() {
    let mut cache: AssetManager<u32> = AssetManager::new();
    let failed: Result<ModelId, &'static str> =
        cache.load_or_get("missing.gltf", || Err("no such file"));
    assert_eq!(failed, Err("no such file"));
    assert_eq!(cache.asset_count(), 0);
    assert_eq!(cache.lookup("missing.gltf"), None);

    // the next request of the same key tries the loader again
    let ok = cache.load_or_get("missing.gltf", || -> Result<u32, &'static str> { Ok(9) });
    assert_eq!(ok, Ok(ModelId(0)));
}

#[test]
fn get_with_unknown_handle_is_none_not_a_panic() {
    let mut cache: AssetManager<u32> = AssetManager::new();
    assert_eq!(cache.get(ModelId(0)), None);
    cache.load_or_get("a", || -> Result<u32, ()> { Ok(5) }).unwrap();
    assert_eq!(cache.get(ModelId(0)), Some(&5));
    assert_eq!(cache.get_model(ModelId(0)), Some(&5));
    assert_eq!(cache.get(ModelId(1)), None);
    assert_eq!(cache.get_model(ModelId(1)), None);
    assert_eq!(cache.get(ModelId(usize::MAX)), None);
}

#[test]
fn clear_cache_keeps_assets_and_issued_handles() {
    let mut cache: AssetManager<u32> = AssetManager::new();
    let first = cache.load_or_get("a", || -> Result<u32, ()> { Ok(5) }).unwrap();
    cache.clear_cache();

    // the old handle still resolves to the same asset
    assert_eq!(cache.get(first), Some(&5));
    assert_eq!(cache.asset_count(), 1);

    // but the key is re-resolved, through the loader, to a fresh handle
    assert_eq!(cache.lookup("a"), None);
    let second = cache.load_or_get("a", || -> Result<u32, ()> { Ok(6) }).unwrap();
    assert_ne!(first, second);
    assert_eq!(cache.get(second), Some(&6));
    assert_eq!(cache.get(first), Some(&5));
}

#[test]
fn lookup_reports_only_cached_keys() {
    let mut cache: AssetManager<u32> = AssetManager::new();
    assert_eq!(cache.lookup("tree.gltf"), None);
    let id = cache.load_or_get("tree.gltf", || -> Result<u32, ()> { Ok(1) }).unwrap();
    assert_eq!(cache.lookup("tree.gltf"), Some(id));
    assert_eq!(cache.lookup("plane.gltf"), None);
}
