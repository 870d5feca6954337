//! The per-frame orchestrator.
//!
//! The engine is the sole owner of the world store, the asset cache, the
//! event bus, the system registry, the physics bridge and the frame
//! clock, and serializes all access to them. A frame runs in a strict
//! order: advance the clock and run every system once, step the external
//! simulation (outside this core) and copy the resulting poses back, and
//! finally dispatch the pending events. The configuration without
//! physics collapses the first and last step into one `update` call.

use vstd::prelude::*;

use crate::assets::AssetManager;
use crate::components::{Camera, ModelId, Transform};
use crate::events::{queue_extended, EventBus, EventHandler, GameEvent};
use crate::physics::{PhysicsBridge, Pose, pose_for, synced_transform};
use crate::systems::{System, SystemRegistry};
use crate::time::Time;
use crate::world::{ComponentSet, Entity, WorldError, WorldStore};

verus! {

/// The engine: owner of every core component. `A` is the application's
/// action enumeration, `H` its event-handler type, `T` its asset
/// payload, `S` its system type.
pub struct Engine<A, H, T, S> {
    world: WorldStore,
    assets: AssetManager<T>,
    events: EventBus<A, H>,
    systems: SystemRegistry<S>,
    bridge: PhysicsBridge,
    time: Time,
}

impl<A, H: EventHandler<A>, T, S: System<A, H, T>> Engine<A, H, T, S> {
    /// The world store, for specification purposes.
    pub closed spec fn world_spec(self) -> WorldStore {
        self.world
    }

    /// The asset cache, for specification purposes.
    pub closed spec fn assets_spec(self) -> AssetManager<T> {
        self.assets
    }

    /// The event bus, for specification purposes.
    pub closed spec fn events_spec(self) -> EventBus<A, H> {
        self.events
    }

    /// The system registry, for specification purposes.
    pub closed spec fn systems_spec(self) -> SystemRegistry<S> {
        self.systems
    }

    /// The physics bridge, for specification purposes.
    pub closed spec fn bridge_spec(self) -> PhysicsBridge {
        self.bridge
    }

    /// The frame clock, for specification purposes.
    pub closed spec fn time_spec(self) -> Time {
        self.time
    }

    /// Internal consistency of all owned components.
    pub open spec fn wf(self) -> bool {
        &&& self.world_spec().wf()
        &&& self.assets_spec().wf()
        &&& self.bridge_spec().wf()
    }

    /// An engine with an empty world, cache, bus and registry, and a
    /// clock started now.
    pub fn new() -> (r: Engine<A, H, T, S>)
        ensures
            r.wf(),
            r.world_spec().slots_spec().len() == 0,
            forall|e: Entity| !r.world_spec().live(e) && !r.world_spec().stale(e),
            r.assets_spec().assets_spec().len() == 0,
            r.assets_spec().cache_spec().len() == 0,
            r.events_spec().pending() == Seq::<GameEvent<A>>::empty(),
            r.events_spec().handlers() == Seq::<H>::empty(),
            r.systems_spec().systems_spec().len() == 0,
            r.bridge_spec().mapping().len() == 0,
            r.time_spec().delta_spec() == 0,
            r.time_spec().total_spec() == 0,
    {
        Engine {
            world: WorldStore::new(),
            assets: AssetManager::new(),
            events: EventBus::new(),
            systems: SystemRegistry::new(),
            bridge: PhysicsBridge::new(),
            time: Time::new(),
        }
    }

    /// A read-only view of the world, for the renderer.
    pub fn world(&self) -> (r: &WorldStore)
        ensures
            *r == self.world_spec(),
    {
        &self.world
    }

    /// Direct mutable access to the world.
    pub fn world_mut(&mut self) -> (r: &mut WorldStore)
        ensures
            *r == old(self).world_spec(),
            final(self).world_spec() == *final(r),
            final(self).assets_spec() == old(self).assets_spec(),
            final(self).events_spec() == old(self).events_spec(),
            final(self).systems_spec() == old(self).systems_spec(),
            final(self).bridge_spec() == old(self).bridge_spec(),
            final(self).time_spec() == old(self).time_spec(),
    {
        &mut self.world
    }

    /// A read-only view of the asset cache, for the renderer.
    pub fn assets(&self) -> (r: &AssetManager<T>)
        ensures
            *r == self.assets_spec(),
    {
        &self.assets
    }

    /// Register one more system, behind all earlier ones.
    pub fn add_system(&mut self, system: S)
        ensures
            final(self).wf() == old(self).wf(),
            final(self).systems_spec().systems_spec() == old(self).systems_spec().systems_spec().push(system),
            final(self).world_spec() == old(self).world_spec(),
            final(self).assets_spec() == old(self).assets_spec(),
            final(self).events_spec() == old(self).events_spec(),
            final(self).bridge_spec() == old(self).bridge_spec(),
            final(self).time_spec() == old(self).time_spec(),
    {
        self.systems.add_system(system);
    }

    /// Register one more event subscriber, behind all earlier ones.
    pub fn subscribe(&mut self, handler: H)
        ensures
            final(self).wf() == old(self).wf(),
            final(self).events_spec().handlers() == old(self).events_spec().handlers().push(
                handler,
            ),
            final(self).events_spec().pending() == old(self).events_spec().pending(),
            final(self).world_spec() == old(self).world_spec(),
            final(self).assets_spec() == old(self).assets_spec(),
            final(self).systems_spec() == old(self).systems_spec(),
            final(self).bridge_spec() == old(self).bridge_spec(),
            final(self).time_spec() == old(self).time_spec(),
    {
        self.events.subscribe(handler);
    }

    /// Queue one event for the next dispatch.
    pub fn emit_event(&mut self, event: GameEvent<A>)
        ensures
            final(self).wf() == old(self).wf(),
            final(self).events_spec().pending() == old(self).events_spec().pending().push(event),
            final(self).events_spec().handlers() == old(self).events_spec().handlers(),
            final(self).world_spec() == old(self).world_spec(),
            final(self).assets_spec() == old(self).assets_spec(),
            final(self).systems_spec() == old(self).systems_spec(),
            final(self).bridge_spec() == old(self).bridge_spec(),
            final(self).time_spec() == old(self).time_spec(),
    {
        self.events.emit(event);
    }

    /// Hand an outside-world event to the engine: queue it for the next
    /// dispatch, and show it to every system's event hook immediately,
    /// exactly once each, in registration order. A window resize is also
    /// applied by the engine itself, after the hooks, so whatever the
    /// hooks do, every camera left in the world carries the new aspect
    /// pair exactly.
    pub fn handle_window_event(&mut self, event: GameEvent<A>)
        requires
            old(self).wf(),
        ensures
            final(self).wf(),
            final(self).events_spec().pending() == old(self).events_spec().pending().push(event),
            final(self).events_spec().handlers() == old(self).events_spec().handlers(),
            old(self).world_spec().preserves_stale(final(self).world_spec()),
            final(self).systems_spec().systems_spec().len() == old(self).systems_spec().systems_spec().len(),
            forall|i: int|
                0 <= i < old(self).systems_spec().systems_spec().len() ==> (#[trigger] final(self).systems_spec().systems_spec()[i]).handled() == old(self).systems_spec().systems_spec()[i].handled().push(event),
            match event {
                GameEvent::WindowResize { width, height } => forall|e: Entity|
                    #[trigger] final(self).world_spec().live(e) && final(self).world_spec().camera_of(e) is Some ==> final(self).world_spec().camera_of(e).unwrap().aspect_width == width
                        && final(self).world_spec().camera_of(e).unwrap().aspect_height == height,
                _ => true,
            },
            // with no systems registered the event's whole effect on the
            // world is pinned: a resize sets exactly the aspect pair of
            // every live camera and touches nothing else; any other event
            // leaves the world as it was
            old(self).systems_spec().systems_spec().len() == 0 ==> {
                &&& forall|e: Entity|
                    #[trigger] final(self).world_spec().live(e) == old(self).world_spec().live(e)
                &&& match event {
                    GameEvent::WindowResize { width, height } => forall|e: Entity|
                        #[trigger] old(self).world_spec().live(e) ==> final(self).world_spec().transform_of(e) == old(self).world_spec().transform_of(e) && final(self).world_spec().model_of(e) == old(self).world_spec().model_of(e) && final(self).world_spec().body_of(e) == old(self).world_spec().body_of(e) && (old(self).world_spec().camera_of(e) is Some ==> final(self).world_spec().camera_of(e) == Some(
                            Camera {
                                aspect_width: width,
                                aspect_height: height,
                                ..old(self).world_spec().camera_of(e).unwrap()
                            },
                        )) && (old(self).world_spec().camera_of(e) is None ==> final(self).world_spec().camera_of(e) is None),
                    _ => final(self).world_spec() == old(self).world_spec(),
                }
            },
            final(self).assets_spec() == old(self).assets_spec(),
            final(self).bridge_spec() == old(self).bridge_spec(),
            final(self).time_spec() == old(self).time_spec(),
    {
        self.systems.handle_event_for_all(&event, &mut self.world);
        match event {
            GameEvent::WindowResize { width, height } => {
                self.world.resize_cameras(width, height);
            }
            _ => {},
        }
        self.events.emit(event);
    }

    /// Create a new entity carrying the given components; the handle is
    /// fresh and aliases nothing that ever lived.
    pub fn spawn(&mut self, components: ComponentSet) -> (e: Entity)
        requires
            old(self).wf(),
        ensures
            final(self).wf(),
            final(self).world_spec().live(e),
            !old(self).world_spec().live(e),
            !old(self).world_spec().stale(e),
            final(self).world_spec().transform_of(e) == components.transform,
            final(self).world_spec().camera_of(e) == components.camera,
            final(self).world_spec().model_of(e) == components.model,
            final(self).world_spec().body_of(e) == components.body,
            old(self).world_spec().preserves_live_except(final(self).world_spec(), e),
            old(self).world_spec().preserves_stale(final(self).world_spec()),
            forall|e2: Entity|
                #[trigger] final(self).world_spec().live(e2) ==> old(self).world_spec().live(e2)
                    || e2 == e,
            final(self).assets_spec() == old(self).assets_spec(),
            final(self).events_spec() == old(self).events_spec(),
            final(self).systems_spec() == old(self).systems_spec(),
            final(self).bridge_spec() == old(self).bridge_spec(),
            final(self).time_spec() == old(self).time_spec(),
    {
        self.world.spawn(components)
    }

    /// Create a new entity that carries only a model reference: a fresh
    /// handle, no other component, no other entity appears.
    pub fn spawn_entity_with_model(&mut self, model: ModelId) -> (e: Entity)
        requires
            old(self).wf(),
        ensures
            final(self).wf(),
            final(self).world_spec().live(e),
            !old(self).world_spec().live(e),
            !old(self).world_spec().stale(e),
            final(self).world_spec().model_of(e) == Some(model),
            final(self).world_spec().transform_of(e) is None,
            final(self).world_spec().camera_of(e) is None,
            final(self).world_spec().body_of(e) is None,
            old(self).world_spec().preserves_live_except(final(self).world_spec(), e),
            old(self).world_spec().preserves_stale(final(self).world_spec()),
            forall|e2: Entity|
                #[trigger] final(self).world_spec().live(e2) ==> old(self).world_spec().live(e2)
                    || e2 == e,
            final(self).assets_spec() == old(self).assets_spec(),
            final(self).events_spec() == old(self).events_spec(),
            final(self).systems_spec() == old(self).systems_spec(),
            final(self).bridge_spec() == old(self).bridge_spec(),
            final(self).time_spec() == old(self).time_spec(),
    {
        let mut components = ComponentSet::empty();
        components.model = Some(model);
        self.world.spawn(components)
    }

    /// Create a new entity placed by `transform` and drawn as `model`: a
    /// fresh handle with exactly those two components, and no other
    /// entity appears.
    pub fn spawn_model(&mut self, model: ModelId, transform: Transform) -> (e: Entity)
        requires
            old(self).wf(),
        ensures
            final(self).wf(),
            final(self).world_spec().live(e),
            !old(self).world_spec().live(e),
            !old(self).world_spec().stale(e),
            final(self).world_spec().model_of(e) == Some(model),
            final(self).world_spec().transform_of(e) == Some(transform),
            final(self).world_spec().camera_of(e) is None,
            final(self).world_spec().body_of(e) is None,
            old(self).world_spec().preserves_live_except(final(self).world_spec(), e),
            old(self).world_spec().preserves_stale(final(self).world_spec()),
            forall|e2: Entity|
                #[trigger] final(self).world_spec().live(e2) ==> old(self).world_spec().live(e2)
                    || e2 == e,
            final(self).assets_spec() == old(self).assets_spec(),
            final(self).events_spec() == old(self).events_spec(),
            final(self).systems_spec() == old(self).systems_spec(),
            final(self).bridge_spec() == old(self).bridge_spec(),
            final(self).time_spec() == old(self).time_spec(),
    {
        let mut components = ComponentSet::empty();
        components.model = Some(model);
        components.transform = Some(transform);
        self.world.spawn(components)
    }

    /// Remove an entity and its body association, if it has one, so no
    /// dangling entity-to-body entry survives a despawn. The handle is
    /// stale afterwards, forever.
    pub fn despawn(&mut self, e: Entity) -> (r: Result<(), WorldError>)
        requires
            old(self).wf(),
        ensures
            final(self).wf(),
            r is Ok <==> old(self).world_spec().live(e),
            old(self).world_spec().live(e) ==> final(self).world_spec().stale(e),
            !final(self).bridge_spec().is_mapped(e),
            old(self).world_spec().preserves_live_except(final(self).world_spec(), e),
            old(self).world_spec().preserves_stale(final(self).world_spec()),
            final(self).assets_spec() == old(self).assets_spec(),
            final(self).events_spec() == old(self).events_spec(),
            final(self).systems_spec() == old(self).systems_spec(),
            forall|e2: Entity|
                e2 != e ==> (final(self).bridge_spec().is_mapped(e2) <==> old(self).bridge_spec().is_mapped(e2)) && (old(self).bridge_spec().is_mapped(e2) ==> final(self).bridge_spec().body_for(e2) == old(self).bridge_spec().body_for(e2)),
            final(self).time_spec() == old(self).time_spec(),
    {
        let r = self.world.despawn(e);
        self.bridge.detach(e);
        r
    }

    /// Associate a live entity with the rigid body the simulation
    /// created for it.
    pub fn attach_body(&mut self, e: Entity, handle: crate::components::BodyHandle) -> (r: Result<
        (),
        WorldError,
    >)
        requires
            old(self).wf(),
        ensures
            final(self).wf(),
            r is Ok <==> old(self).world_spec().live(e),
            r is Ok ==> final(self).bridge_spec().is_mapped(e) && final(self).bridge_spec().body_for(e) == handle,
            old(self).world_spec().preserves_live_except(final(self).world_spec(), e),
            old(self).world_spec().preserves_stale(final(self).world_spec()),
            final(self).assets_spec() == old(self).assets_spec(),
            final(self).events_spec() == old(self).events_spec(),
            final(self).systems_spec() == old(self).systems_spec(),
            final(self).time_spec() == old(self).time_spec(),
    {
        self.bridge.attach(&mut self.world, e, handle)
    }

    /// Resolve a content key to a model handle through the asset cache:
    /// a key seen before answers from the memoization table without
    /// invoking the loader; a new key runs the loader once, and a loader
    /// failure is handed back unchanged, caching nothing.
    pub fn load_model<E, F: FnOnce() -> Result<T, E>>(&mut self, key: &str, loader: F) -> (r:
        Result<ModelId, E>)
        requires
            old(self).wf(),
            call_requires(loader, ()),
        ensures
            final(self).wf(),
            old(self).assets_spec().is_cached(key@) ==> final(self).assets_spec() == old(self).assets_spec() && r == Ok::<ModelId, E>(old(self).assets_spec().handle_of(key@)),
            !old(self).assets_spec().is_cached(key@) ==> match r {
                Ok(id) => {
                    &&& id.0 == old(self).assets_spec().assets_spec().len()
                    &&& exists|v: T|
                        call_ensures(loader, (), Ok(v)) && final(self).assets_spec().assets_spec()
                            == old(self).assets_spec().assets_spec().push(v)
                    &&& final(self).assets_spec().is_cached(key@)
                    &&& final(self).assets_spec().handle_of(key@) == id
                },
                Err(e) => call_ensures(loader, (), Err::<T, E>(e)) && final(self).assets_spec()
                    == old(self).assets_spec(),
            },
            forall|key2: Seq<char>|
                #[trigger] old(self).assets_spec().is_cached(key2) ==> final(self).assets_spec().is_cached(key2) && final(self).assets_spec().handle_of(key2)
                    == old(self).assets_spec().handle_of(key2),
            forall|key2: Seq<char>|
                #[trigger] final(self).assets_spec().is_cached(key2) ==> old(self).assets_spec().is_cached(key2) || key2 == key@,
            final(self).world_spec() == old(self).world_spec(),
            final(self).events_spec() == old(self).events_spec(),
            final(self).systems_spec() == old(self).systems_spec(),
            final(self).bridge_spec() == old(self).bridge_spec(),
            final(self).time_spec() == old(self).time_spec(),
    {
        self.assets.load_or_get(key, loader)
    }

    /// The model a handle points at, for the renderer.
    pub fn get_model(&self, id: ModelId) -> (r: Option<&T>)
        ensures
            id.0 < self.assets_spec().assets_spec().len() ==> r == Some(
                &self.assets_spec().assets_spec()[id.0 as int],
            ),
            id.0 >= self.assets_spec().assets_spec().len() ==> r is None,
    {
        self.assets.get(id)
    }

    /// Advance the clock and run every system once, in registration
    /// order. Returns the frame delta in nanoseconds — exactly what the
    /// clock measured and accumulated — for the external physics step.
    /// Nothing is dispatched here: hook records and subscribers are
    /// untouched, and events emitted by the systems only extend the
    /// pending queue.
    pub fn begin_frame(&mut self) -> (dt_nanos: u64)
        requires
            old(self).wf(),
        ensures
            final(self).wf(),
            old(self).world_spec().preserves_stale(final(self).world_spec()),
            final(self).systems_spec().systems_spec().len() == old(self).systems_spec().systems_spec().len(),
            forall|i: int|
                0 <= i < old(self).systems_spec().systems_spec().len() ==> (#[trigger] final(self).systems_spec().systems_spec()[i]).updated() == old(self).systems_spec().systems_spec()[i].updated() + 1,
            forall|i: int|
                0 <= i < old(self).systems_spec().systems_spec().len() ==> (#[trigger] final(self).systems_spec().systems_spec()[i]).handled() == old(self).systems_spec().systems_spec()[i].handled(),
            queue_extended(old(self).events_spec().pending(), final(self).events_spec().pending()),
            final(self).events_spec().handlers() == old(self).events_spec().handlers(),
            final(self).bridge_spec() == old(self).bridge_spec(),
            dt_nanos == final(self).time_spec().delta_spec(),
            final(self).time_spec().total_spec() == if old(self).time_spec().total_spec() + final(self).time_spec().delta_spec() <= u64::MAX {
                old(self).time_spec().total_spec() + final(self).time_spec().delta_spec()
            } else {
                u64::MAX as int
            },
    {
        self.time.tick();
        let dt = self.time.delta_nanos();
        self.systems.update_all(&mut self.world, &self.assets, &mut self.events, dt);
        dt
    }

    /// Copy the poses the external physics step reported into the
    /// transforms of their associated entities, scale kept, everything
    /// else untouched.
    pub fn sync_physics(&mut self, poses: &Vec<Pose>)
        requires
            old(self).wf(),
        ensures
            final(self).wf(),
            old(self).world_spec().preserves_stale(final(self).world_spec()),
            forall|e: Entity|
                #[trigger] final(self).world_spec().live(e) == old(self).world_spec().live(e),
            forall|k: int|
                0 <= k < old(self).bridge_spec().mapping().len() ==> match pose_for(
                    poses@,
                    (#[trigger] old(self).bridge_spec().mapping()[k]).1,
                ) {
                    Some(p) => final(self).world_spec().transform_of(
                        old(self).bridge_spec().mapping()[k].0,
                    ) == synced_transform(
                        old(self).world_spec().transform_of(
                            old(self).bridge_spec().mapping()[k].0,
                        ),
                        p,
                    ),
                    None => final(self).world_spec().transform_of(
                        old(self).bridge_spec().mapping()[k].0,
                    ) == old(self).world_spec().transform_of(
                        old(self).bridge_spec().mapping()[k].0,
                    ),
                },
            forall|e: Entity|
                !old(self).bridge_spec().is_mapped(e) ==> final(self).world_spec().transform_of(e)
                    == old(self).world_spec().transform_of(e),
            final(self).assets_spec() == old(self).assets_spec(),
            final(self).events_spec() == old(self).events_spec(),
            final(self).systems_spec() == old(self).systems_spec(),
            final(self).bridge_spec() == old(self).bridge_spec(),
            final(self).time_spec() == old(self).time_spec(),
    {
        self.bridge.sync_transforms(&mut self.world, poses);
    }

    /// Remove and return the pending events without dispatching them,
    /// in emission order, for callers that inspect events manually
    /// instead of running the generic dispatch.
    pub fn drain_events(&mut self) -> (r: Vec<GameEvent<A>>)
        ensures
            r@ == old(self).events_spec().pending(),
            final(self).events_spec().pending() == Seq::<GameEvent<A>>::empty(),
            final(self).events_spec().handlers() == old(self).events_spec().handlers(),
            final(self).world_spec() == old(self).world_spec(),
            final(self).assets_spec() == old(self).assets_spec(),
            final(self).systems_spec() == old(self).systems_spec(),
            final(self).bridge_spec() == old(self).bridge_spec(),
            final(self).time_spec() == old(self).time_spec(),
    {
        self.events.drain()
    }

    /// Dispatch every pending event to every subscriber, in emission
    /// order, and leave the queue empty.
    pub fn finish_frame(&mut self)
        requires
            old(self).wf(),
        ensures
            final(self).wf(),
            final(self).events_spec().pending() == Seq::<GameEvent<A>>::empty(),
            final(self).events_spec().handlers().len() == old(self).events_spec().handlers().len(),
            forall|i: int|
                0 <= i < old(self).events_spec().handlers().len() ==> (#[trigger] final(self).events_spec().handlers()[i]).observed() == old(self).events_spec().handlers()[i].observed() + old(self).events_spec().pending(),
            old(self).events_spec().pending().len() == 0 ==> final(self).events_spec().handlers()
                == old(self).events_spec().handlers(),
            final(self).world_spec() == old(self).world_spec(),
            final(self).assets_spec() == old(self).assets_spec(),
            final(self).systems_spec() == old(self).systems_spec(),
            final(self).bridge_spec() == old(self).bridge_spec(),
            final(self).time_spec() == old(self).time_spec(),
    {
        self.events.process();
    }

    /// One whole frame of the configuration without physics: advance the
    /// clock, run every system once, then dispatch the pending events.
    /// No system's hook runs here; every subscriber observes one batch —
    /// the events pending at entry followed by whatever the systems
    /// emitted, in emission order — and the queue is empty afterwards.
    pub fn update(&mut self)
        requires
            old(self).wf(),
        ensures
            final(self).wf(),
            old(self).world_spec().preserves_stale(final(self).world_spec()),
            final(self).events_spec().pending() == Seq::<GameEvent<A>>::empty(),
            final(self).events_spec().handlers().len() == old(self).events_spec().handlers().len(),
            exists|batch: Seq<GameEvent<A>>|
                #[trigger] queue_extended(old(self).events_spec().pending(), batch) && forall|
                    i: int,
                |
                    0 <= i < old(self).events_spec().handlers().len() ==> (#[trigger] final(self).events_spec().handlers()[i]).observed() == old(self).events_spec().handlers()[i].observed() + batch,
            final(self).systems_spec().systems_spec().len() == old(self).systems_spec().systems_spec().len(),
            forall|i: int|
                0 <= i < old(self).systems_spec().systems_spec().len() ==> (#[trigger] final(self).systems_spec().systems_spec()[i]).updated() == old(self).systems_spec().systems_spec()[i].updated() + 1,
            forall|i: int|
                0 <= i < old(self).systems_spec().systems_spec().len() ==> (#[trigger] final(self).systems_spec().systems_spec()[i]).handled() == old(self).systems_spec().systems_spec()[i].handled(),
            final(self).bridge_spec() == old(self).bridge_spec(),
            final(self).time_spec().total_spec() == if old(self).time_spec().total_spec() + final(self).time_spec().delta_spec() <= u64::MAX {
                old(self).time_spec().total_spec() + final(self).time_spec().delta_spec()
            } else {
                u64::MAX as int
            },
    {
        let _ = self.begin_frame();
        let ghost batch = self.events_spec().pending();
        self.finish_frame();
        proof {
            assert(queue_extended(old(self).events_spec().pending(), batch));
            assert(forall|i: int|
                0 <= i < old(self).events_spec().handlers().len() ==> (#[trigger] final(self).events_spec().handlers()[i]).observed() == old(self).events_spec().handlers()[i].observed()
                    + batch);
        }
    }

    /// The last measured frame delta, in nanoseconds.
    pub fn delta_nanos(&self) -> (r: u64)
        ensures
            r == self.time_spec().delta_spec(),
    {
        self.time.delta_nanos()
    }

    /// How many systems are registered.
    pub fn system_count(&self) -> (r: usize)
        ensures
            r == self.systems_spec().systems_spec().len(),
    {
        self.systems.system_count()
    }

    /// The first live camera for rendering, or nothing when the scene
    /// has none (the renderer then skips the frame).
    pub fn active_camera(&self) -> (r: Option<(Entity, Camera)>)
        ensures
            r is None ==> forall|e: Entity|
                #[trigger] self.world_spec().live(e) ==> self.world_spec().camera_of(e) is None,
            r is Some ==> self.world_spec().live(r.unwrap().0) && self.world_spec().camera_of(
                r.unwrap().0,
            ) == Some(r.unwrap().1),
            r is Some ==> forall|e: Entity|
                #[trigger] self.world_spec().live(e) && self.world_spec().camera_of(e) is Some
                    ==> r.unwrap().0.index <= e.index,
    {
        self.world.active_camera()
    }
}

} // verus!
