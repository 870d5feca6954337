use std::cell::RefCell;
use std::rc::Rc;

use raidillon::{
    Action, AspectSystem, BodyHandle, Camera, ComponentSet, Engine, EventHandler, GameEvent,
    ModelId, Pose, Quat, Scalar, Transform, Vec3,
};

/// A subscriber recording into a shared log.
struct Recorder {
    seen: Rc<RefCell<Vec<GameEvent<Action>>>>,
}

impl EventHandler<Action> for Recorder {
    fn handle(&mut self, event: &GameEvent<Action>) {
        self.seen.borrow_mut().push(*event);
    }
}

type GameEngine = Engine<Action, Recorder, u32, AspectSystem<Action>>;

fn v3(x: u32, y: u32, z: u32) -> Vec3 {
    Vec3 { x: Scalar(x), y: Scalar(y), z: Scalar(z) }
}

fn quat(x: u32, y: u32, z: u32, w: u32) -> Quat {
    Quat { x: Scalar(x), y: Scalar(y), z: Scalar(z), w: Scalar(w) }
}

fn sample_camera() -> Camera {
    Camera {
        eye: v3(0, 0, 2),
        center: v3(0, 0, 0),
        up: v3(0, 1, 0),
        fovy: Scalar(60),
        aspect_width: 1280,
        aspect_height: 720,
        znear: Scalar(1),
        zfar: Scalar(100),
    }
}

fn sample_transform() -> Transform {
    Transform { translation: v3(1, 2, 3), rotation: quat(0, 0, 0, 7), scale: v3(9, 9, 9) }
}

#[test]
fn resize_event_updates_the_unique_camera_exactly() {
    let mut engine: GameEngine = Engine::new();
    engine.add_system(AspectSystem::new());

    let mut with_cam = ComponentSet::empty();
    with_cam.camera = Some(sample_camera());
    let cam_entity = engine.spawn(with_cam);

    let mut with_transform = ComponentSet::empty();
    with_transform.transform = Some(sample_transform());
    let other = engine.spawn(with_transform);

    engine.handle_window_event(GameEvent::WindowResize { width: 1920, height: 1080 });

    let cam = engine.world().get_camera(cam_entity).unwrap();
    assert_eq!(cam.aspect_width, 1920);
    assert_eq!(cam.aspect_height, 1080);
    assert_eq!(cam.eye, sample_camera().eye);
    assert_eq!(cam.fovy, sample_camera().fovy);
    // no other component is touched
    assert_eq!(engine.world().get_transform(other), Some(sample_transform()));
}

#[test]
fn resize_event_needs_no_registered_system() {
    // the engine itself applies a window resize, so the camera update
    // does not depend on which systems the application registered
    let mut engine: GameEngine = Engine::new();

    let mut with_cam = ComponentSet::empty();
    with_cam.camera = Some(sample_camera());
    let cam_entity = engine.spawn(with_cam);

    engine.handle_window_event(GameEvent::WindowResize { width: 640, height: 480 });

    let cam = engine.world().get_camera(cam_entity).unwrap();
    assert_eq!(cam.aspect_width, 640);
    assert_eq!(cam.aspect_height, 480);
    assert_eq!(cam.znear, sample_camera().znear);
}

#[test]
fn update_runs_systems_and_dispatches_pending_events() {
    let log: Rc<RefCell<Vec<GameEvent<Action>>>> = Rc::new(RefCell::new(Vec::new()));
    let mut engine: GameEngine = Engine::new();
    engine.add_system(AspectSystem::new());
    engine.subscribe(Recorder { seen: log.clone() });

    engine.emit_event(GameEvent::InputAction(Action::MoveForward));
    engine.emit_event(GameEvent::InputAction(Action::MoveLeft));
    assert!(log.borrow().is_empty());

    engine.update();
    assert_eq!(
        *log.borrow(),
        vec![
            GameEvent::InputAction(Action::MoveForward),
            GameEvent::InputAction(Action::MoveLeft)
        ]
    );
}

#[test]
fn frame_with_physics_copies_poses_after_the_step() {
    let mut engine: GameEngine = Engine::new();
    let mut c = ComponentSet::empty();
    c.transform = Some(sample_transform());
    let e = engine.spawn(c);
    let body = BodyHandle { index: 0, generation: 0 };
    engine.attach_body(e, body).unwrap();

    let dt = engine.begin_frame();
    // the external simulation would step with `dt` here
    let _ = dt;
    let poses = vec![Pose { body, translation: v3(50, 51, 52), rotation: quat(0, 1, 0, 0) }];
    engine.sync_physics(&poses);
    engine.finish_frame();

    let t = engine.world().get_transform(e).unwrap();
    assert_eq!(t.translation, v3(50, 51, 52));
    assert_eq!(t.rotation, quat(0, 1, 0, 0));
    assert_eq!(t.scale, sample_transform().scale);
}

#[test]
fn despawn_through_engine_forgets_the_body_association() {
    let mut engine: GameEngine = Engine::new();
    let mut c = ComponentSet::empty();
    c.transform = Some(sample_transform());
    let e = engine.spawn(c);
    let body = BodyHandle { index: 2, generation: 0 };
    engine.attach_body(e, body).unwrap();

    engine.despawn(e).unwrap();
    assert!(!engine.world().is_live(e));
    assert_eq!(engine.world().get_transform(e), None);

    // a later sync with a pose for that body touches nothing
    let poses = vec![Pose { body, translation: v3(1, 1, 1), rotation: quat(0, 0, 0, 1) }];
    engine.sync_physics(&poses);
    assert_eq!(engine.world().get_transform(e), None);
}

#[test]
fn load_model_memoizes_and_serves_the_renderer() {
    let mut engine: GameEngine = Engine::new();
    let tree = engine.load_model("tree.gltf", || -> Result<u32, ()> { Ok(11) }).unwrap();
    let plane = engine.load_model("plane.gltf", || -> Result<u32, ()> { Ok(22) }).unwrap();
    assert_eq!(tree, ModelId(0));
    assert_eq!(plane, ModelId(1));
    assert_eq!(engine.load_model("tree.gltf", || -> Result<u32, ()> { Ok(33) }), Ok(ModelId(0)));
    assert_eq!(engine.get_model(tree), Some(&11));
    assert_eq!(engine.get_model(plane), Some(&22));
    assert_eq!(engine.get_model(ModelId(5)), None);
}

#[test]
fn active_camera_absent_means_skip_frame() {
    let mut engine: GameEngine = Engine::new();
    assert!(engine.active_camera().is_none());
    let mut c = ComponentSet::empty();
    c.camera = Some(sample_camera());
    let e = engine.spawn(c);
    let (found, cam) = engine.active_camera().unwrap();
    assert_eq!(found, e);
    assert_eq!(cam, sample_camera());
}

#[test]
fn spawned_entities_count_and_system_count() {
    let mut engine: GameEngine = Engine::new();
    assert_eq!(engine.system_count(), 0);
    engine.add_system(AspectSystem::new());
    engine.add_system(AspectSystem::new());
    assert_eq!(engine.system_count(), 2);

    let e1 = engine.spawn_entity_with_model(ModelId(0));
    let e2 = engine.spawn_model(ModelId(1), sample_transform());
    assert_ne!(e1, e2);
    assert_eq!(engine.world().get_model(e1), Some(ModelId(0)));
    assert_eq!(engine.world().get_transform(e1), None);
    assert_eq!(engine.world().get_transform(e2), Some(sample_transform()));
}
