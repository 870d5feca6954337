//! The ordered registry of per-frame update systems.
//!
//! A system is a polymorphic unit with an `update` entry point run once
//! per frame and a `handle_event` hook. The registry runs its systems
//! strictly in registration order, one at a time, against the same
//! world, asset and event-bus references, so each system's mutations are
//! visible to the next system of the same frame.

use vstd::prelude::*;

use crate::assets::AssetManager;
use crate::events::{queue_extended, EventBus, EventHandler, GameEvent};
use crate::world::WorldStore;

verus! {

/// A per-frame update unit.
///
/// Two ghost records make the registry's dispatch observable: `updated`
/// counts the frame updates the system has run, and `handled` lists
/// every event its hook has been shown, in delivery order. An update may
/// only append to the bus's pending queue — never dispatch, drop or
/// reorder it, and never touch the subscribers or this system's own hook
/// record — so an event emitted during a frame stays pending until an
/// explicit processing pass. Systems reach the world only through its
/// public operations, which is why every update preserves the store's
/// consistency and can never resurrect a despawned entity.
pub trait System<A, H: EventHandler<A>, T>: Sized {
    /// How many frame updates this system has run. A verified
    /// implementation must override this with a real counter — keeping
    /// the default, no body of `update` can meet its contract. The
    /// default exists only so that implementations outside the verifier
    /// need not name a counter.
    open spec fn updated(&self) -> nat {
        0
    }

    /// Every event this system's hook has been shown, in delivery
    /// order. A verified implementation must override this with a real
    /// record — keeping the default, no body of `handle_event` can meet
    /// its contract. The default exists only so that implementations
    /// outside the verifier need not name a history.
    open spec fn handled(&self) -> Seq<GameEvent<A>> {
        Seq::empty()
    }

    /// Run one frame update. `dt_nanos` is the time since the previous
    /// frame in nanoseconds.
    fn update(
        &mut self,
        world: &mut WorldStore,
        assets: &AssetManager<T>,
        events: &mut EventBus<A, H>,
        dt_nanos: u64,
    )
        requires
            old(world).wf(),
        ensures
            final(self).updated() == old(self).updated() + 1,
            final(self).handled() == old(self).handled(),
            final(world).wf(),
            old(world).preserves_stale(*final(world)),
            queue_extended(old(events).pending(), final(events).pending()),
            final(events).handlers() == old(events).handlers(),
    ;

    /// React to one event outside the regular update, with direct world
    /// access.
    fn handle_event(&mut self, event: &GameEvent<A>, world: &mut WorldStore)
        requires
            old(world).wf(),
        ensures
            final(self).handled() == old(self).handled().push(*event),
            final(world).wf(),
            old(world).preserves_stale(*final(world)),
    ;
}

/// Owns the systems, in registration order.
pub struct SystemRegistry<S> {
    systems: Vec<S>,
}

impl<S> SystemRegistry<S> {
    /// The systems, in registration order.
    pub closed spec fn systems_spec(self) -> Seq<S> {
        self.systems@
    }

    /// An empty registry.
    pub fn new() -> (r: SystemRegistry<S>)
        ensures
            r.systems_spec().len() == 0,
    {
        SystemRegistry { systems: Vec::new() }
    }

    /// Register one more system, behind all earlier ones.
    pub fn add_system(&mut self, system: S)
        ensures
            final(self).systems_spec() == old(self).systems_spec().push(system),
    {
        self.systems.push(system);
    }

    /// How many systems are registered.
    pub fn system_count(&self) -> (r: usize)
        ensures
            r == self.systems_spec().len(),
    {
        self.systems.len()
    }
}

impl<S> SystemRegistry<S> {
    /// Run every system's frame update exactly once, in registration
    /// order, against the same world, assets and event bus. The world
    /// stays consistent and despawned entities stay despawned across the
    /// whole pass, and no dispatch of any kind happens here: every
    /// system's hook record and every subscriber are exactly as they
    /// were, and events emitted during the pass are only appended to the
    /// pending queue, where they wait for a later processing pass.
    pub fn update_all<A, H: EventHandler<A>, T>(
        &mut self,
        world: &mut WorldStore,
        assets: &AssetManager<T>,
        events: &mut EventBus<A, H>,
        dt_nanos: u64,
    ) where S: System<A, H, T>
        requires
            old(world).wf(),
        ensures
            final(self).systems_spec().len() == old(self).systems_spec().len(),
            forall|i: int|
                0 <= i < old(self).systems_spec().len() ==> (#[trigger] final(self).systems_spec()[i]).updated() == old(self).systems_spec()[i].updated() + 1,
            forall|i: int|
                0 <= i < old(self).systems_spec().len() ==> (#[trigger] final(self).systems_spec()[i]).handled() == old(self).systems_spec()[i].handled(),
            final(world).wf(),
            old(world).preserves_stale(*final(world)),
            queue_extended(old(events).pending(), final(events).pending()),
            final(events).handlers() == old(events).handlers(),
    {
        let m = self.systems.len();
        for i in 0..m
            invariant
                m == self.systems@.len(),
                m == old(self).systems@.len(),
                world.wf(),
                old(world).preserves_stale(*world),
                queue_extended(old(events).pending(), events.pending()),
                events.handlers() == old(events).handlers(),
                forall|i2: int|
                    0 <= i2 < i ==> (#[trigger] self.systems@[i2]).updated() == old(self).systems@[i2].updated() + 1
                        && self.systems@[i2].handled() == old(self).systems@[i2].handled(),
                forall|i2: int| i <= i2 < m ==> self.systems@[i2] == old(self).systems@[i2],
        {
            let s = &mut self.systems[i];
            s.update(world, assets, events, dt_nanos);
        }
    }

    /// Show one event to every system's hook, exactly once each, in
    /// registration order: every system's hook record grows by exactly
    /// this event.
    pub fn handle_event_for_all<A, H: EventHandler<A>, T>(
        &mut self,
        event: &GameEvent<A>,
        world: &mut WorldStore,
    ) where S: System<A, H, T>
        requires
            old(world).wf(),
        ensures
            final(self).systems_spec().len() == old(self).systems_spec().len(),
            forall|i: int|
                0 <= i < old(self).systems_spec().len() ==> (#[trigger] final(self).systems_spec()[i]).handled() == old(self).systems_spec()[i].handled().push(*event),
            final(world).wf(),
            old(world).preserves_stale(*final(world)),
            // with nothing registered, nothing runs: the world is untouched
            old(self).systems_spec().len() == 0 ==> *final(world) == *old(world),
    {
        let m = self.systems.len();
        for i in 0..m
            invariant
                m == self.systems@.len(),
                m == old(self).systems@.len(),
                world.wf(),
                old(world).preserves_stale(*world),
                m == 0 ==> *world == *old(world),
                forall|i2: int|
                    0 <= i2 < i ==> (#[trigger] self.systems@[i2]).handled() == old(self).systems@[i2].handled().push(*event),
                forall|i2: int| i <= i2 < m ==> self.systems@[i2] == old(self).systems@[i2],
        {
            let s = &mut self.systems[i];
            s.handle_event(event, world);
        }
    }
}

/// A system that keeps every camera's aspect ratio in step with the
/// window: a resize event sets the exact width/height pair on each live
/// camera and touches nothing else.
pub struct AspectSystem<A> {
    frames: Ghost<nat>,
    hooked: Ghost<Seq<GameEvent<A>>>,
}

impl<A> AspectSystem<A> {
    /// How many frame updates this system has run.
    pub closed spec fn frame_count(self) -> nat {
        self.frames@
    }

    /// Every event its hook has been shown, in delivery order.
    pub closed spec fn hook_log(self) -> Seq<GameEvent<A>> {
        self.hooked@
    }

    /// A fresh system that has run no updates and seen no events.
    pub fn new() -> (r: AspectSystem<A>)
        ensures
            r.frame_count() == 0,
            r.hook_log().len() == 0,
    {
        AspectSystem { frames: Ghost(0nat), hooked: Ghost(Seq::empty()) }
    }
}

impl<A, H: EventHandler<A>, T> System<A, H, T> for AspectSystem<A> {
    open spec fn updated(&self) -> nat {
        self.frame_count()
    }

    open spec fn handled(&self) -> Seq<GameEvent<A>> {
        self.hook_log()
    }

    fn update(
        &mut self,
        world: &mut WorldStore,
        assets: &AssetManager<T>,
        events: &mut EventBus<A, H>,
        dt_nanos: u64,
    ) {
        self.frames = Ghost(self.frames@ + 1);
    }

    fn handle_event(&mut self, event: &GameEvent<A>, world: &mut WorldStore) {
        match event {
            GameEvent::WindowResize { width, height } => {
                world.resize_cameras(*width, *height);
            }
            _ => {},
        }
        self.hooked = Ghost(self.hooked@.push(*event));
    }
}

} // verus!
