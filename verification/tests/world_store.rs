use raidillon::{Camera, ComponentSet, ModelId, Quat, Scalar, Transform, Vec3, WorldError, WorldStore};

fn v3(x: u32, y: u32, z: u32) -> Vec3 {
    Vec3 { x: Scalar(x), y: Scalar(y), z: Scalar(z) }
}

fn quat(x: u32, y: u32, z: u32, w: u32) -> Quat {
    Quat { x: Scalar(x), y: Scalar(y), z: Scalar(z), w: Scalar(w) }
}

fn sample_transform() -> Transform {
    Transform { translation: v3(1, 2, 3), rotation: quat(0, 0, 0, 9), scale: v3(4, 4, 4) }
}

fn sample_camera() -> Camera {
    Camera {
        eye: v3(0, 0, 2),
        center: v3(0, 0, 0),
        up: v3(0, 1, 0),
        fovy: Scalar(60),
        aspect_width: 1280,
        aspect_height: 720,
        znear: Scalar(1),
        zfar: Scalar(100),
    }
}

#[test]
fn spawn_then_read_back() {
    let mut w = WorldStore::new();
    let mut c = ComponentSet::empty();
    c.transform = Some(sample_transform());
    c.model = Some(ModelId(3));
    let e = w.spawn(c);
    assert!(w.is_live(e));
    assert_eq!(w.get_transform(e), Some(sample_transform()));
    assert_eq!(w.get_model(e), Some(ModelId(3)));
    assert_eq!(w.get_camera(e), None);
    assert_eq!(w.get_body(e), None);
}

#[test]
fn despawn_makes_every_lookup_empty() {
    let mut w = WorldStore::new();
    let mut c = ComponentSet::empty();
    c.transform = Some(sample_transform());
    c.camera = Some(sample_camera());
    c.model = Some(ModelId(0));
    let e = w.spawn(c);
    assert!(w.despawn(e).is_ok());
    assert!(!w.is_live(e));
    assert_eq!(w.get_transform(e), None);
    assert_eq!(w.get_camera(e), None);
    assert_eq!(w.get_model(e), None);
    assert_eq!(w.get_body(e), None);
    // a second despawn of the same handle reports not-found
    assert_eq!(w.despawn(e), Err(WorldError::NotFound));
}

#[test]
fn stale_handle_stays_empty_after_slot_reuse() {
    let mut w = WorldStore::new();
    let mut c = ComponentSet::empty();
    c.transform = Some(sample_transform());
    let e = w.spawn(c);
    w.despawn(e).unwrap();

    // the slot is reused, but under a fresh generation
    let mut c2 = ComponentSet::empty();
    c2.transform = Some(sample_transform());
    let e2 = w.spawn(c2);
    assert_ne!(e, e2);
    assert!(w.is_live(e2));
    assert!(!w.is_live(e));
    assert_eq!(w.get_transform(e), None);

    // and the stale handle cannot mutate the new tenant
    assert_eq!(w.insert_model(e, ModelId(7)), Err(WorldError::NotFound));
    assert_eq!(w.get_model(e2), None);
}

#[test]
fn despawned_entity_never_queried() {
    let mut w = WorldStore::new();
    let mut c = ComponentSet::empty();
    c.transform = Some(sample_transform());
    c.model = Some(ModelId(0));
    let keep = w.spawn(c);
    let mut c2 = ComponentSet::empty();
    c2.transform = Some(sample_transform());
    c2.model = Some(ModelId(1));
    let drop_me = w.spawn(c2);

    let before = w.query_transform_model();
    assert_eq!(before.len(), 2);

    w.despawn(drop_me).unwrap();
    let after = w.query_transform_model();
    assert_eq!(after.len(), 1);
    assert_eq!(after[0].0, keep);
    assert!(after.iter().all(|row| row.0 != drop_me));
}

#[test]
fn query_skips_entities_missing_a_component() {
    let mut w = WorldStore::new();
    let mut both = ComponentSet::empty();
    both.transform = Some(sample_transform());
    both.model = Some(ModelId(0));
    let e_both = w.spawn(both);

    let mut only_transform = ComponentSet::empty();
    only_transform.transform = Some(sample_transform());
    w.spawn(only_transform);

    let mut only_model = ComponentSet::empty();
    only_model.model = Some(ModelId(1));
    w.spawn(only_model);

    let rows = w.query_transform_model();
    assert_eq!(rows.len(), 1);
    assert_eq!(rows[0].0, e_both);
    assert_eq!(rows[0].1, sample_transform());
    assert_eq!(rows[0].2, ModelId(0));
}

#[test]
fn update_model_demands_the_component() {
    let mut w = WorldStore::new();
    let mut c = ComponentSet::empty();
    c.transform = Some(sample_transform());
    let e = w.spawn(c);
    assert_eq!(w.update_model(e, ModelId(5)), Err(WorldError::MissingRequiredComponent));

    w.insert_model(e, ModelId(5)).unwrap();
    assert_eq!(w.update_model(e, ModelId(6)), Ok(()));
    assert_eq!(w.get_model(e), Some(ModelId(6)));

    w.despawn(e).unwrap();
    assert_eq!(w.update_model(e, ModelId(7)), Err(WorldError::NotFound));
}

#[test]
fn active_camera_finds_the_unique_camera() {
    let mut w = WorldStore::new();
    assert!(w.active_camera().is_none());

    let mut c = ComponentSet::empty();
    c.camera = Some(sample_camera());
    let e = w.spawn(c);
    let (found, cam) = w.active_camera().unwrap();
    assert_eq!(found, e);
    assert_eq!(cam, sample_camera());
}

#[test]
fn resize_cameras_sets_exact_aspect_and_touches_nothing_else() {
    let mut w = WorldStore::new();
    let mut with_cam = ComponentSet::empty();
    with_cam.camera = Some(sample_camera());
    let cam_entity = w.spawn(with_cam);

    let mut with_transform = ComponentSet::empty();
    with_transform.transform = Some(sample_transform());
    with_transform.model = Some(ModelId(2));
    let other = w.spawn(with_transform);

    w.resize_cameras(1920, 1080);

    let cam = w.get_camera(cam_entity).unwrap();
    assert_eq!(cam.aspect_width, 1920);
    assert_eq!(cam.aspect_height, 1080);
    // every other camera field is untouched
    assert_eq!(cam.eye, sample_camera().eye);
    assert_eq!(cam.fovy, sample_camera().fovy);
    assert_eq!(cam.znear, sample_camera().znear);
    assert_eq!(cam.zfar, sample_camera().zfar);
    // and no other component is touched
    assert_eq!(w.get_transform(other), Some(sample_transform()));
    assert_eq!(w.get_model(other), Some(ModelId(2)));
}

#[test]
fn set_pose_keeps_scale_and_skips_missing_transform() {
    let mut w = WorldStore::new();
    let mut c = ComponentSet::empty();
    c.transform = Some(sample_transform());
    let e = w.spawn(c);

    let moved = w.set_pose(e, v3(10, 11, 12), quat(1, 0, 0, 0));
    assert!(moved);
    let t = w.get_transform(e).unwrap();
    assert_eq!(t.translation, v3(10, 11, 12));
    assert_eq!(t.rotation, quat(1, 0, 0, 0));
    assert_eq!(t.scale, sample_transform().scale);

    let bare = w.spawn(ComponentSet::empty());
    assert!(!w.set_pose(bare, v3(0, 0, 0), quat(0, 0, 0, 1)));
    assert_eq!(w.get_transform(bare), None);
}
