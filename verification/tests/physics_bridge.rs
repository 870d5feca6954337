use raidillon::{
    BodyHandle, ComponentSet, PhysicsBridge, Pose, Quat, RigidBodyComponent, Scalar, Transform,
    Vec3, WorldError, WorldStore,
};

fn v3(x: u32, y: u32, z: u32) -> Vec3 {
    Vec3 { x: Scalar(x), y: Scalar(y), z: Scalar(z) }
}

fn quat(x: u32, y: u32, z: u32, w: u32) -> Quat {
    Quat { x: Scalar(x), y: Scalar(y), z: Scalar(z), w: Scalar(w) }
}

fn rest_transform() -> Transform {
    Transform { translation: v3(5, 6, 7), rotation: quat(0, 0, 0, 8), scale: v3(2, 2, 2) }
}

fn handle(i: u32) -> BodyHandle {
    BodyHandle { index: i, generation: 0 }
}

#[test]
fn zero_motion_step_leaves_transform_unchanged() {
    let mut world = WorldStore::new();
    let mut bridge = PhysicsBridge::new();
    let mut c = ComponentSet::empty();
    c.transform = Some(rest_transform());
    let e = world.spawn(c);
    bridge.attach(&mut world, e, handle(0)).unwrap();

    // the step reports the body exactly where the transform stands
    let poses = vec![Pose {
        body: handle(0),
        translation: rest_transform().translation,
        rotation: rest_transform().rotation,
    }];
    bridge.sync_transforms(&mut world, &poses);
    assert_eq!(world.get_transform(e), Some(rest_transform()));
}

#[test]
fn sync_copies_pose_and_keeps_scale() {
    let mut world = WorldStore::new();
    let mut bridge = PhysicsBridge::new();
    let mut c = ComponentSet::empty();
    c.transform = Some(rest_transform());
    let e = world.spawn(c);
    bridge.attach(&mut world, e, handle(3)).unwrap();

    let poses = vec![Pose { body: handle(3), translation: v3(100, 101, 102), rotation: quat(1, 2, 3, 4) }];
    bridge.sync_transforms(&mut world, &poses);
    let t = world.get_transform(e).unwrap();
    assert_eq!(t.translation, v3(100, 101, 102));
    assert_eq!(t.rotation, quat(1, 2, 3, 4));
    assert_eq!(t.scale, rest_transform().scale);
}

#[test]
fn sync_skips_entities_without_transform_or_pose() {
    let mut world = WorldStore::new();
    let mut bridge = PhysicsBridge::new();

    // mapped, but its transform was never attached
    let bare = world.spawn(ComponentSet::empty());
    bridge.attach(&mut world, bare, handle(0)).unwrap();

    // mapped with a transform, but the step reported no pose for it
    let mut c = ComponentSet::empty();
    c.transform = Some(rest_transform());
    let unreported = world.spawn(c);
    bridge.attach(&mut world, unreported, handle(1)).unwrap();

    let poses = vec![Pose { body: handle(0), translation: v3(9, 9, 9), rotation: quat(0, 0, 0, 1) }];
    bridge.sync_transforms(&mut world, &poses);

    assert_eq!(world.get_transform(bare), None);
    assert_eq!(world.get_transform(unreported), Some(rest_transform()));
}

#[test]
fn attach_rejects_stale_entities_and_marks_live_ones() {
    let mut world = WorldStore::new();
    let mut bridge = PhysicsBridge::new();
    let e = world.spawn(ComponentSet::empty());
    world.despawn(e).unwrap();
    assert_eq!(bridge.attach(&mut world, e, handle(0)), Err(WorldError::NotFound));
    assert_eq!(bridge.body_of(e), None);

    let live = world.spawn(ComponentSet::empty());
    bridge.attach(&mut world, live, handle(4)).unwrap();
    assert_eq!(bridge.body_of(live), Some(handle(4)));
    assert_eq!(world.get_body(live), Some(RigidBodyComponent(handle(4))));
}

#[test]
fn detach_removes_only_that_association() {
    let mut world = WorldStore::new();
    let mut bridge = PhysicsBridge::new();
    let a = world.spawn(ComponentSet::empty());
    let b = world.spawn(ComponentSet::empty());
    bridge.attach(&mut world, a, handle(0)).unwrap();
    bridge.attach(&mut world, b, handle(1)).unwrap();

    bridge.detach(a);
    assert_eq!(bridge.body_of(a), None);
    assert_eq!(bridge.body_of(b), Some(handle(1)));

    // detaching an unmapped entity is harmless
    bridge.detach(a);
    assert_eq!(bridge.body_of(b), Some(handle(1)));
}

#[test]
fn reattach_points_at_the_new_body() {
    let mut world = WorldStore::new();
    let mut bridge = PhysicsBridge::new();
    let e = world.spawn(ComponentSet::empty());
    bridge.attach(&mut world, e, handle(0)).unwrap();
    bridge.attach(&mut world, e, handle(9)).unwrap();
    assert_eq!(bridge.body_of(e), Some(handle(9)));
    assert_eq!(world.get_body(e), Some(RigidBodyComponent(handle(9))));
}
