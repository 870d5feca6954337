//! The entity/component arena.
//!
//! Entities are generational handles: a slot's generation is bumped when
//! its entity is despawned, so a stale handle never aliases a reused
//! slot. Components are stored per slot, at most one of each type per
//! entity. Every lookup on a despawned or forged handle answers "not
//! found" instead of reaching stale data.

use vstd::prelude::*;
use vstd::pervasive::VecAdditionalExecFns;

use crate::components::{Transform, Camera, ModelId, RigidBodyComponent, Vec3, Quat};

verus! {

/// An opaque identifier for a row of components, valid until the row is
/// despawned.
#[derive(Clone, Copy, PartialEq, Eq, Structural, Debug)]
pub struct Entity {
    pub index: usize,
    pub generation: u64,
}

/// Failure of a store operation.
#[derive(Clone, Copy, PartialEq, Eq, Structural, Debug)]
pub enum WorldError {
    /// The entity handle is stale or was never issued.
    NotFound,
    /// The entity is live but lacks the component the operation needs.
    MissingRequiredComponent,
}

/// One storage row: its current generation, whether it is occupied, and
/// the components of its entity while it is.
#[derive(Clone, Copy, PartialEq, Eq, Structural, Debug)]
pub struct Slot {
    pub generation: u64,
    pub alive: bool,
    pub transform: Option<Transform>,
    pub camera: Option<Camera>,
    pub model: Option<ModelId>,
    pub body: Option<RigidBodyComponent>,
}

/// The components a fresh entity starts with; `None` fields are simply
/// absent.
#[derive(Clone, Copy, PartialEq, Eq, Structural, Debug)]
pub struct ComponentSet {
    pub transform: Option<Transform>,
    pub camera: Option<Camera>,
    pub model: Option<ModelId>,
    pub body: Option<RigidBodyComponent>,
}

impl ComponentSet {
    /// A bundle with no components at all.
    pub fn empty() -> (r: ComponentSet)
        ensures
            r.transform is None,
            r.camera is None,
            r.model is None,
            r.body is None,
    {
        ComponentSet { transform: None, camera: None, model: None, body: None }
    }
}

/// The arena itself: a vector of slots and the list of slot indices
/// that may be reused by the next spawns.
pub struct WorldStore {
    slots: Vec<Slot>,
    free: Vec<usize>,
}

impl WorldStore {
    /// The slot sequence, for specification purposes.
    pub closed spec fn slots_spec(self) -> Seq<Slot> {
        self.slots@
    }

    /// The reusable-slot list, for specification purposes.
    pub closed spec fn free_spec(self) -> Seq<usize> {
        self.free@
    }

    /// Internal consistency: reusable slots exist and are unoccupied,
    /// and no slot is offered for reuse twice.
    pub open spec fn wf(self) -> bool {
        &&& forall|k: int|
            0 <= k < self.free_spec().len() ==> (#[trigger] self.free_spec()[k]) < self.slots_spec().len()
                && !self.slots_spec()[self.free_spec()[k] as int].alive
        &&& forall|k1: int, k2: int|
            0 <= k1 < k2 < self.free_spec().len() ==> self.free_spec()[k1] != self.free_spec()[k2]
    }

    /// `e` currently identifies an occupied row.
    pub open spec fn live(self, e: Entity) -> bool {
        &&& e.index < self.slots_spec().len()
        &&& self.slots_spec()[e.index as int].alive
        &&& self.slots_spec()[e.index as int].generation == e.generation
    }

    /// `e` was despawned: its slot has moved past its generation, or was
    /// vacated at the very last generation and withdrawn from reuse.
    /// A stale handle can never become live again.
    pub open spec fn stale(self, e: Entity) -> bool {
        &&& e.index < self.slots_spec().len()
        &&& {
            ||| self.slots_spec()[e.index as int].generation > e.generation
            ||| (self.slots_spec()[e.index as int].generation == e.generation
                && !self.slots_spec()[e.index as int].alive
                && !self.free_spec().contains(e.index))
        }
    }

    /// The transform attached to `e`, if `e` is live and has one.
    pub open spec fn transform_of(self, e: Entity) -> Option<Transform> {
        if self.live(e) {
            self.slots_spec()[e.index as int].transform
        } else {
            None
        }
    }

    /// The camera attached to `e`, if `e` is live and has one.
    pub open spec fn camera_of(self, e: Entity) -> Option<Camera> {
        if self.live(e) {
            self.slots_spec()[e.index as int].camera
        } else {
            None
        }
    }

    /// The model reference attached to `e`, if `e` is live and has one.
    pub open spec fn model_of(self, e: Entity) -> Option<ModelId> {
        if self.live(e) {
            self.slots_spec()[e.index as int].model
        } else {
            None
        }
    }

    /// The rigid-body link attached to `e`, if `e` is live and has one.
    pub open spec fn body_of(self, e: Entity) -> Option<RigidBodyComponent> {
        if self.live(e) {
            self.slots_spec()[e.index as int].body
        } else {
            None
        }
    }

    /// All four component lookups of `e` agree between `self` and `post`.
    pub open spec fn same_components(self, post: WorldStore, e: Entity) -> bool {
        &&& post.transform_of(e) == self.transform_of(e)
        &&& post.camera_of(e) == self.camera_of(e)
        &&& post.model_of(e) == self.model_of(e)
        &&& post.body_of(e) == self.body_of(e)
    }

    /// Every entity live in `self` is live in `post` with the same
    /// components, except possibly `except`.
    pub open spec fn preserves_live_except(self, post: WorldStore, except: Entity) -> bool {
        forall|e: Entity|
            #[trigger] self.live(e) && e != except ==> post.live(e) && self.same_components(post, e)
    }

    /// Staleness is permanent: every handle stale in `self` is stale in
    /// `post`.
    pub open spec fn preserves_stale(self, post: WorldStore) -> bool {
        forall|e: Entity| #[trigger] self.stale(e) ==> post.stale(e)
    }

    /// An empty store.
    pub fn new() -> (r: WorldStore)
        ensures
            r.wf(),
            r.slots_spec().len() == 0,
            forall|e: Entity| !r.live(e) && !r.stale(e),
    {
        WorldStore { slots: Vec::new(), free: Vec::new() }
    }

    /// A handle can never be both live and stale.
    pub proof fn lemma_stale_not_live(self, e: Entity)
        ensures
            self.stale(e) ==> !self.live(e),
    {
    }

    /// A stale handle holds no components.
    pub proof fn lemma_stale_has_no_components(self, e: Entity)
        requires
            self.stale(e),
        ensures
            self.transform_of(e) is None,
            self.camera_of(e) is None,
            self.model_of(e) is None,
            self.body_of(e) is None,
    {
    }

    /// Law: a despawned entity stays empty. Every mutating store
    /// operation ensures `preserves_stale`, so however many operations
    /// run after the despawn that left `e` stale, `e` is still stale:
    /// not live, holding no components, and — since queries only yield
    /// live entities — never returned by any query.
    pub proof fn lemma_despawned_stays_empty(pre: WorldStore, post: WorldStore, e: Entity)
        requires
            pre.stale(e),
            pre.preserves_stale(post),
        ensures
            post.stale(e),
            !post.live(e),
            post.transform_of(e) is None,
            post.camera_of(e) is None,
            post.model_of(e) is None,
            post.body_of(e) is None,
    {
        post.lemma_stale_has_no_components(e);
    }

    /// Create a new entity carrying the given components. The returned
    /// handle is fresh: it aliases no handle that is or ever was live.
    pub fn spawn(&mut self, components: ComponentSet) -> (e: Entity)
        requires
            old(self).wf(),
        ensures
            final(self).wf(),
            final(self).live(e),
            !old(self).live(e),
            !old(self).stale(e),
            final(self).transform_of(e) == components.transform,
            final(self).camera_of(e) == components.camera,
            final(self).model_of(e) == components.model,
            final(self).body_of(e) == components.body,
            old(self).preserves_live_except(*final(self), e),
            old(self).preserves_stale(*final(self)),
            forall|e2: Entity| #[trigger] final(self).live(e2) ==> old(self).live(e2) || e2 == e,
    {
        let reused = self.free.pop();
        match reused {
            Some(i) => {
                let g = self.slots[i].generation;
                let slot = Slot {
                    generation: g,
                    alive: true,
                    transform: components.transform,
                    camera: components.camera,
                    model: components.model,
                    body: components.body,
                };
                self.slots.set(i, slot);
                let e = Entity { index: i, generation: g };
                proof {
                    let pre = *old(self);
                    assert forall|e2: Entity| pre.stale(e2) implies self.stale(e2) by {
                        if pre.slots_spec()[e2.index as int].generation == e2.generation {
                            // a slot stale at its own generation is outside the
                            // free list, so this spawn did not touch it
                            assert(pre.free_spec()[pre.free_spec().len() - 1] == i);
                            assert(!pre.free_spec().contains(e2.index));
                            assert(e2.index != i);
                            assert(!self.free_spec().contains(e2.index)) by {
                                if self.free_spec().contains(e2.index) {
                                    let k = choose|k: int|
                                        0 <= k < self.free_spec().len()
                                            && self.free_spec()[k] == e2.index;
                                    assert(pre.free_spec()[k] == e2.index);
                                }
                            }
                        }
                    }
                    assert forall|e2: Entity| pre.live(e2) && e2 != e implies self.live(e2)
                        && pre.same_components(*self, e2) by {
                        assert(e2.index != i);
                    }
                    assert(self.wf()) by {
                        assert forall|k: int|
                            0 <= k < self.free_spec().len() implies (#[trigger] self.free_spec()[k])
                            < self.slots_spec().len() && !self.slots_spec()[self.free_spec()[k] as int].alive by {
                            assert(self.free_spec()[k] == pre.free_spec()[k]);
                            // the reused index appears only once in the free
                            // list, so the remaining entries are still vacant
                            assert(pre.free_spec()[pre.free_spec().len() - 1] == i);
                            assert(self.free_spec()[k] != i);
                        }
                    }
                }
                e
            }
            None => {
                let i = self.slots.len();
                let slot = Slot {
                    generation: 0,
                    alive: true,
                    transform: components.transform,
                    camera: components.camera,
                    model: components.model,
                    body: components.body,
                };
                self.slots.push(slot);
                let e = Entity { index: i, generation: 0 };
                proof {
                    let pre = *old(self);
                    assert forall|e2: Entity| pre.stale(e2) implies self.stale(e2) by {
                        assert(e2.index < i);
                        assert(self.slots_spec()[e2.index as int] == pre.slots_spec()[e2.index as int]);
                    }
                    assert forall|e2: Entity| pre.live(e2) && e2 != e implies self.live(e2)
                        && pre.same_components(*self, e2) by {
                        assert(e2.index < i);
                    }
                }
                e
            }
        }
    }

    /// Remove an entity and everything attached to it. Afterwards the
    /// handle is stale: no lookup through it finds anything, and no
    /// later spawn reissues it.
    pub fn despawn(&mut self, e: Entity) -> (r: Result<(), WorldError>)
        requires
            old(self).wf(),
        ensures
            final(self).wf(),
            r is Ok <==> old(self).live(e),
            !old(self).live(e) ==> *final(self) == *old(self) && r == Err::<(), WorldError>(
                WorldError::NotFound,
            ),
            old(self).live(e) ==> final(self).stale(e),
            old(self).preserves_live_except(*final(self), e),
            old(self).preserves_stale(*final(self)),
            forall|e2: Entity| #[trigger] final(self).live(e2) ==> old(self).live(e2) && e2 != e,
    {
        if e.index >= self.slots.len() {
            return Err(WorldError::NotFound);
        }
        let slot = self.slots[e.index];
        if !(slot.alive && slot.generation == e.generation) {
            return Err(WorldError::NotFound);
        }
        let vacated = Slot {
            generation: if slot.generation < u64::MAX {
                slot.generation + 1
            } else {
                slot.generation
            },
            alive: false,
            transform: None,
            camera: None,
            model: None,
            body: None,
        };
        self.slots.set(e.index, vacated);
        if slot.generation < u64::MAX {
            // the slot may be reused; stale handles are fenced off by the
            // bumped generation
            self.free.push(e.index);
        }
        proof {
            let pre = *old(self);
            assert(!pre.free_spec().contains(e.index)) by {
                if pre.free_spec().contains(e.index) {
                    let k = choose|k: int|
                        0 <= k < pre.free_spec().len() && pre.free_spec()[k] == e.index;
                    assert(!pre.slots_spec()[pre.free_spec()[k] as int].alive);
                }
            }
            assert forall|e2: Entity| pre.stale(e2) implies self.stale(e2) by {
                if e2.index == e.index {
                    assert(pre.slots_spec()[e2.index as int].generation > e2.generation);
                } else {
                    if pre.slots_spec()[e2.index as int].generation == e2.generation
                        && !pre.slots_spec()[e2.index as int].alive && !pre.free_spec().contains(
                        e2.index,
                    ) {
                        assert(!self.free_spec().contains(e2.index)) by {
                            if self.free_spec().contains(e2.index) {
                                let k = choose|k: int|
                                    0 <= k < self.free_spec().len() && self.free_spec()[k]
                                        == e2.index;
                                assert(k < pre.free_spec().len());
                                assert(pre.free_spec()[k] == e2.index);
                            }
                        }
                    }
                }
            }
            assert forall|e2: Entity| pre.live(e2) && e2 != e implies self.live(e2)
                && pre.same_components(*self, e2) by {
                assert(e2.index != e.index);
            }
        }
        Ok(())
    }

    /// Whether `e` currently identifies a live entity.
    pub fn is_live(&self, e: Entity) -> (r: bool)
        ensures
            r == self.live(e),
    {
        e.index < self.slots.len() && self.slots[e.index].alive && self.slots[e.index].generation
            == e.generation
    }

    /// The transform of `e`, or nothing for a stale or unknown handle.
    pub fn get_transform(&self, e: Entity) -> (r: Option<Transform>)
        ensures
            r == self.transform_of(e),
    {
        if self.is_live(e) {
            self.slots[e.index].transform
        } else {
            None
        }
    }

    /// The camera of `e`, or nothing for a stale or unknown handle.
    pub fn get_camera(&self, e: Entity) -> (r: Option<Camera>)
        ensures
            r == self.camera_of(e),
    {
        if self.is_live(e) {
            self.slots[e.index].camera
        } else {
            None
        }
    }

    /// The model reference of `e`, or nothing for a stale or unknown
    /// handle.
    pub fn get_model(&self, e: Entity) -> (r: Option<ModelId>)
        ensures
            r == self.model_of(e),
    {
        if self.is_live(e) {
            self.slots[e.index].model
        } else {
            None
        }
    }

    /// The rigid-body link of `e`, or nothing for a stale or unknown
    /// handle.
    pub fn get_body(&self, e: Entity) -> (r: Option<RigidBodyComponent>)
        ensures
            r == self.body_of(e),
    {
        if self.is_live(e) {
            self.slots[e.index].body
        } else {
            None
        }
    }

    /// Rewriting the components of one slot, without touching its
    /// generation, its occupancy or the free list, changes nothing about
    /// which handles are live or stale, and no other entity's components.
    proof fn lemma_component_update_preserves(pre: WorldStore, post: WorldStore, i: int)
        requires
            post.free_spec() == pre.free_spec(),
            post.slots_spec().len() == pre.slots_spec().len(),
            0 <= i < pre.slots_spec().len(),
            forall|j: int|
                0 <= j < pre.slots_spec().len() && j != i ==> post.slots_spec()[j]
                    == pre.slots_spec()[j],
            post.slots_spec()[i].generation == pre.slots_spec()[i].generation,
            post.slots_spec()[i].alive == pre.slots_spec()[i].alive,
        ensures
            forall|e: Entity| #[trigger] post.live(e) == pre.live(e),
            pre.preserves_stale(post),
            pre.wf() ==> post.wf(),
            forall|e: Entity|
                #[trigger] pre.live(e) && e.index != i ==> pre.same_components(post, e),
    {
        assert forall|e: Entity| #[trigger] post.live(e) == pre.live(e) by {
            if e.index < pre.slots_spec().len() {
                assert(post.slots_spec()[e.index as int].alive == pre.slots_spec()[e.index as int].alive);
            }
        }
    }

    /// Attach a transform to `e`, replacing any transform it already
    /// carries. Fails on a stale or unknown handle.
    pub fn insert_transform(&mut self, e: Entity, t: Transform) -> (r: Result<(), WorldError>)
        requires
            old(self).wf(),
        ensures
            final(self).wf(),
            r is Ok <==> old(self).live(e),
            !old(self).live(e) ==> *final(self) == *old(self) && r == Err::<(), WorldError>(
                WorldError::NotFound,
            ),
            old(self).live(e) ==> final(self).live(e) && final(self).transform_of(e) == Some(t)
                && final(self).camera_of(e) == old(self).camera_of(e) && final(self).model_of(e)
                == old(self).model_of(e) && final(self).body_of(e) == old(self).body_of(e),
            old(self).preserves_live_except(*final(self), e),
            old(self).preserves_stale(*final(self)),
            forall|e2: Entity| #[trigger] final(self).live(e2) == old(self).live(e2),
    {
        if !self.is_live(e) {
            return Err(WorldError::NotFound);
        }
        let slot = self.slots[e.index];
        self.slots.set(e.index, Slot { transform: Some(t), ..slot });
        proof {
            WorldStore::lemma_component_update_preserves(*old(self), *self, e.index as int);
        }
        Ok(())
    }

    /// Attach a camera to `e`, replacing any camera it already carries.
    /// Fails on a stale or unknown handle.
    pub fn insert_camera(&mut self, e: Entity, c: Camera) -> (r: Result<(), WorldError>)
        requires
            old(self).wf(),
        ensures
            final(self).wf(),
            r is Ok <==> old(self).live(e),
            !old(self).live(e) ==> *final(self) == *old(self) && r == Err::<(), WorldError>(
                WorldError::NotFound,
            ),
            old(self).live(e) ==> final(self).live(e) && final(self).camera_of(e) == Some(c)
                && final(self).transform_of(e) == old(self).transform_of(e) && final(self).model_of(e) == old(self).model_of(e) && final(self).body_of(e) == old(self).body_of(
                e,
            ),
            old(self).preserves_live_except(*final(self), e),
            old(self).preserves_stale(*final(self)),
            forall|e2: Entity| #[trigger] final(self).live(e2) == old(self).live(e2),
    {
        if !self.is_live(e) {
            return Err(WorldError::NotFound);
        }
        let slot = self.slots[e.index];
        self.slots.set(e.index, Slot { camera: Some(c), ..slot });
        proof {
            WorldStore::lemma_component_update_preserves(*old(self), *self, e.index as int);
        }
        Ok(())
    }

    /// Attach a model reference to `e`, replacing any it already
    /// carries. Fails on a stale or unknown handle.
    pub fn insert_model(&mut self, e: Entity, m: ModelId) -> (r: Result<(), WorldError>)
        requires
            old(self).wf(),
        ensures
            final(self).wf(),
            r is Ok <==> old(self).live(e),
            !old(self).live(e) ==> *final(self) == *old(self) && r == Err::<(), WorldError>(
                WorldError::NotFound,
            ),
            old(self).live(e) ==> final(self).live(e) && final(self).model_of(e) == Some(m)
                && final(self).transform_of(e) == old(self).transform_of(e) && final(self).camera_of(e) == old(self).camera_of(e) && final(self).body_of(e) == old(self).body_of(e),
            old(self).preserves_live_except(*final(self), e),
            old(self).preserves_stale(*final(self)),
            forall|e2: Entity| #[trigger] final(self).live(e2) == old(self).live(e2),
    {
        if !self.is_live(e) {
            return Err(WorldError::NotFound);
        }
        let slot = self.slots[e.index];
        self.slots.set(e.index, Slot { model: Some(m), ..slot });
        proof {
            WorldStore::lemma_component_update_preserves(*old(self), *self, e.index as int);
        }
        Ok(())
    }

    /// Attach a rigid-body link to `e`, replacing any it already
    /// carries. Fails on a stale or unknown handle.
    pub fn insert_body(&mut self, e: Entity, b: RigidBodyComponent) -> (r: Result<
        (),
        WorldError,
    >)
        requires
            old(self).wf(),
        ensures
            final(self).wf(),
            r is Ok <==> old(self).live(e),
            !old(self).live(e) ==> *final(self) == *old(self) && r == Err::<(), WorldError>(
                WorldError::NotFound,
            ),
            old(self).live(e) ==> final(self).live(e) && final(self).body_of(e) == Some(b)
                && final(self).transform_of(e) == old(self).transform_of(e) && final(self).camera_of(e) == old(self).camera_of(e) && final(self).model_of(e) == old(self).model_of(e),
            old(self).preserves_live_except(*final(self), e),
            old(self).preserves_stale(*final(self)),
            forall|e2: Entity| #[trigger] final(self).live(e2) == old(self).live(e2),
    {
        if !self.is_live(e) {
            return Err(WorldError::NotFound);
        }
        let slot = self.slots[e.index];
        self.slots.set(e.index, Slot { body: Some(b), ..slot });
        proof {
            WorldStore::lemma_component_update_preserves(*old(self), *self, e.index as int);
        }
        Ok(())
    }

    /// Redirect the model reference an entity already carries. Unlike
    /// `insert_model`, this demands that the component is present.
    pub fn update_model(&mut self, e: Entity, m: ModelId) -> (r: Result<(), WorldError>)
        requires
            old(self).wf(),
        ensures
            final(self).wf(),
            r is Ok <==> old(self).live(e) && old(self).model_of(e) is Some,
            !old(self).live(e) ==> *final(self) == *old(self) && r == Err::<(), WorldError>(
                WorldError::NotFound,
            ),
            old(self).live(e) && old(self).model_of(e) is None ==> *final(self) == *old(self)
                && r == Err::<(), WorldError>(WorldError::MissingRequiredComponent),
            r is Ok ==> final(self).live(e) && final(self).model_of(e) == Some(m) && final(self).transform_of(e) == old(self).transform_of(e) && final(self).camera_of(e) == old(self).camera_of(e) && final(self).body_of(e) == old(self).body_of(e),
            old(self).preserves_live_except(*final(self), e),
            old(self).preserves_stale(*final(self)),
            forall|e2: Entity| #[trigger] final(self).live(e2) == old(self).live(e2),
    {
        if !self.is_live(e) {
            return Err(WorldError::NotFound);
        }
        let slot = self.slots[e.index];
        if slot.model.is_none() {
            return Err(WorldError::MissingRequiredComponent);
        }
        self.slots.set(e.index, Slot { model: Some(m), ..slot });
        proof {
            WorldStore::lemma_component_update_preserves(*old(self), *self, e.index as int);
        }
        Ok(())
    }

    /// Overwrite the position and orientation of an entity's transform
    /// with a pose, keeping its scale. Entities without a transform are
    /// skipped, never an error: the physics bridge calls this for
    /// entities whose transform may have been removed since the body was
    /// attached.
    pub fn set_pose(&mut self, e: Entity, translation: Vec3, rotation: Quat) -> (written: bool)
        requires
            old(self).wf(),
        ensures
            final(self).wf(),
            written <==> old(self).live(e) && old(self).transform_of(e) is Some,
            !written ==> *final(self) == *old(self),
            written ==> final(self).live(e) && final(self).transform_of(e) == Some(
                Transform {
                    translation,
                    rotation,
                    scale: old(self).transform_of(e).unwrap().scale,
                },
            ) && final(self).camera_of(e) == old(self).camera_of(e) && final(self).model_of(e)
                == old(self).model_of(e) && final(self).body_of(e) == old(self).body_of(e),
            old(self).preserves_live_except(*final(self), e),
            old(self).preserves_stale(*final(self)),
            forall|e2: Entity| #[trigger] final(self).live(e2) == old(self).live(e2),
    {
        if !self.is_live(e) {
            return false;
        }
        let slot = self.slots[e.index];
        match slot.transform {
            None => false,
            Some(t) => {
                let updated = Transform { translation, rotation, scale: t.scale };
                self.slots.set(e.index, Slot { transform: Some(updated), ..slot });
                proof {
                    WorldStore::lemma_component_update_preserves(
                        *old(self),
                        *self,
                        e.index as int,
                    );
                }
                true
            }
        }
    }

    /// All live entities that carry both a transform and a model
    /// reference, in slot order. The renderer walks this to draw the
    /// scene; it never sees an entity that lacks either component.
    pub fn query_transform_model(&self) -> (r: Vec<(Entity, Transform, ModelId)>)
        ensures
            forall|k: int|
                0 <= k < r@.len() ==> self.live((#[trigger] r@[k]).0) && self.transform_of(r@[k].0)
                    == Some(r@[k].1) && self.model_of(r@[k].0) == Some(r@[k].2),
            forall|e: Entity|
                #[trigger] self.live(e) && self.transform_of(e) is Some && self.model_of(e)
                    is Some ==> exists|k: int| 0 <= k < r@.len() && (#[trigger] r@[k]).0 == e,
            forall|k1: int, k2: int|
                0 <= k1 < k2 < r@.len() ==> r@[k1].0.index < r@[k2].0.index,
    {
        let mut out: Vec<(Entity, Transform, ModelId)> = Vec::new();
        let n = self.slots.len();
        for i in 0..n
            invariant
                n == self.slots_spec().len(),
                forall|k: int|
                    0 <= k < out@.len() ==> self.live((#[trigger] out@[k]).0)
                        && self.transform_of(out@[k].0) == Some(out@[k].1) && self.model_of(
                        out@[k].0,
                    ) == Some(out@[k].2) && out@[k].0.index < i,
                forall|e: Entity|
                    #[trigger] self.live(e) && e.index < i && self.transform_of(e) is Some
                        && self.model_of(e) is Some ==> exists|k: int|
                        0 <= k < out@.len() && (#[trigger] out@[k]).0 == e,
                forall|k1: int, k2: int|
                    0 <= k1 < k2 < out@.len() ==> out@[k1].0.index < out@[k2].0.index,
        {
            let slot = self.slots[i];
            if slot.alive {
                match (slot.transform, slot.model) {
                    (Some(t), Some(m)) => {
                        let e = Entity { index: i, generation: slot.generation };
                        let ghost pre = out@;
                        out.push((e, t, m));
                        proof {
                            assert forall|e2: Entity|
                                #[trigger] self.live(e2) && e2.index < i + 1 && self.transform_of(
                                    e2,
                                ) is Some && self.model_of(e2) is Some implies exists|k: int|
                                0 <= k < out@.len() && (#[trigger] out@[k]).0 == e2 by {
                                if e2.index < i {
                                    let k = choose|k: int|
                                        0 <= k < pre.len() && (#[trigger] pre[k]).0 == e2;
                                    assert(out@[k].0 == e2);
                                } else {
                                    assert(out@[out@.len() - 1].0 == e2);
                                }
                            }
                        }
                    }
                    _ => {},
                }
            }
        }
        out
    }

    /// All live entities that carry a camera, in slot order.
    pub fn query_cameras(&self) -> (r: Vec<(Entity, Camera)>)
        ensures
            forall|k: int|
                0 <= k < r@.len() ==> self.live((#[trigger] r@[k]).0) && self.camera_of(r@[k].0)
                    == Some(r@[k].1),
            forall|e: Entity|
                #[trigger] self.live(e) && self.camera_of(e) is Some ==> exists|k: int|
                    0 <= k < r@.len() && (#[trigger] r@[k]).0 == e,
            forall|k1: int, k2: int|
                0 <= k1 < k2 < r@.len() ==> r@[k1].0.index < r@[k2].0.index,
    {
        let mut out: Vec<(Entity, Camera)> = Vec::new();
        let n = self.slots.len();
        for i in 0..n
            invariant
                n == self.slots_spec().len(),
                forall|k: int|
                    0 <= k < out@.len() ==> self.live((#[trigger] out@[k]).0) && self.camera_of(
                        out@[k].0,
                    ) == Some(out@[k].1) && out@[k].0.index < i,
                forall|e: Entity|
                    #[trigger] self.live(e) && e.index < i && self.camera_of(e) is Some ==> exists|
                        k: int,
                    | 0 <= k < out@.len() && (#[trigger] out@[k]).0 == e,
                forall|k1: int, k2: int|
                    0 <= k1 < k2 < out@.len() ==> out@[k1].0.index < out@[k2].0.index,
        {
            let slot = self.slots[i];
            if slot.alive {
                match slot.camera {
                    Some(c) => {
                        let e = Entity { index: i, generation: slot.generation };
                        let ghost pre = out@;
                        out.push((e, c));
                        proof {
                            assert forall|e2: Entity|
                                #[trigger] self.live(e2) && e2.index < i + 1 && self.camera_of(
                                    e2,
                                ) is Some implies exists|k: int|
                                0 <= k < out@.len() && (#[trigger] out@[k]).0 == e2 by {
                                if e2.index < i {
                                    let k = choose|k: int|
                                        0 <= k < pre.len() && (#[trigger] pre[k]).0 == e2;
                                    assert(out@[k].0 == e2);
                                } else {
                                    assert(out@[out@.len() - 1].0 == e2);
                                }
                            }
                        }
                    }
                    None => {},
                }
            }
        }
        out
    }

    /// The first live entity that carries a camera, in slot order, or
    /// nothing when the scene has no camera at all (the renderer then
    /// skips the frame instead of crashing).
    pub fn active_camera(&self) -> (r: Option<(Entity, Camera)>)
        ensures
            r is None ==> forall|e: Entity| #[trigger] self.live(e) ==> self.camera_of(e) is None,
            r is Some ==> self.live(r.unwrap().0) && self.camera_of(r.unwrap().0) == Some(
                r.unwrap().1,
            ),
            r is Some ==> forall|e: Entity|
                #[trigger] self.live(e) && self.camera_of(e) is Some ==> r.unwrap().0.index
                    <= e.index,
    {
        let n = self.slots.len();
        for i in 0..n
            invariant
                n == self.slots_spec().len(),
                forall|e: Entity|
                    #[trigger] self.live(e) && e.index < i ==> self.camera_of(e) is None,
        {
            let slot = self.slots[i];
            if slot.alive {
                match slot.camera {
                    Some(c) => {
                        let e = Entity { index: i, generation: slot.generation };
                        return Some((e, c));
                    }
                    None => {},
                }
            }
        }
        None
    }

    /// Set every live camera's aspect ratio to exactly `width:height`,
    /// touching nothing else: no transform, model reference, body link
    /// or other camera field changes, and no entity appears or
    /// disappears.
    pub fn resize_cameras(&mut self, width: u32, height: u32)
        requires
            old(self).wf(),
        ensures
            final(self).wf(),
            forall|e: Entity| #[trigger] final(self).live(e) == old(self).live(e),
            old(self).preserves_stale(*final(self)),
            forall|e: Entity|
                #[trigger] old(self).live(e) ==> final(self).transform_of(e) == old(self).transform_of(e) && final(self).model_of(e) == old(self).model_of(e) && final(self).body_of(e) == old(self).body_of(e),
            forall|e: Entity|
                #[trigger] old(self).live(e) && old(self).camera_of(e) is Some ==> final(self).camera_of(e) == Some(
                    Camera {
                        aspect_width: width,
                        aspect_height: height,
                        ..old(self).camera_of(e).unwrap()
                    },
                ),
            forall|e: Entity|
                #[trigger] old(self).live(e) && old(self).camera_of(e) is None ==> final(self).camera_of(e) is None,
    {
        let n = self.slots.len();
        for i in 0..n
            invariant
                n == self.slots_spec().len() == old(self).slots_spec().len(),
                self.free_spec() == old(self).free_spec(),
                forall|j: int| i <= j < n ==> self.slots_spec()[j] == old(self).slots_spec()[j],
                forall|j: int|
                    0 <= j < i ==> (#[trigger] self.slots_spec()[j]) == match old(self).slots_spec()[j].camera {
                        Some(c) => Slot {
                            camera: Some(
                                Camera { aspect_width: width, aspect_height: height, ..c },
                            ),
                            ..old(self).slots_spec()[j]
                        },
                        None => old(self).slots_spec()[j],
                    },
        {
            let slot = self.slots[i];
            match slot.camera {
                Some(c) => {
                    let resized = Camera { aspect_width: width, aspect_height: height, ..c };
                    self.slots.set(i, Slot { camera: Some(resized), ..slot });
                }
                None => {},
            }
        }
        proof {
            let pre = *old(self);
            assert forall|j: int|
                0 <= j < pre.slots_spec().len() implies self.slots_spec()[j].generation
                == pre.slots_spec()[j].generation && self.slots_spec()[j].alive
                == pre.slots_spec()[j].alive && self.slots_spec()[j].transform
                == pre.slots_spec()[j].transform && self.slots_spec()[j].model
                == pre.slots_spec()[j].model && self.slots_spec()[j].body
                == pre.slots_spec()[j].body by {}
            assert forall|e: Entity| #[trigger] self.live(e) == pre.live(e) by {}
            assert forall|e: Entity| pre.stale(e) implies self.stale(e) by {}
        }
    }
}

} // verus!
