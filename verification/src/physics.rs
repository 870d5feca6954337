//! The bridge between the entity store and the external rigid-body
//! simulation.
//!
//! The bridge keeps the entity-to-body associations and, once per frame
//! after the external physics step, copies each body's resulting pose —
//! position and orientation, in the simulation's own scalar encoding and
//! quaternion component order — into the entity's transform, leaving the
//! scale untouched. The simulation is authoritative: poses flow from it
//! into transforms, never back. An association is removed when its
//! entity is despawned, and an entity whose transform has gone missing
//! is skipped, never a crash.

use vstd::prelude::*;
use vstd::pervasive::VecAdditionalExecFns;

use crate::components::{BodyHandle, Quat, RigidBodyComponent, Transform, Vec3};
use crate::world::{Entity, WorldError, WorldStore};

verus! {

/// One body's position and orientation as the simulation reports it
/// after a step.
#[derive(Clone, Copy, PartialEq, Eq, Structural, Debug)]
pub struct Pose {
    pub body: BodyHandle,
    pub translation: Vec3,
    pub rotation: Quat,
}

/// The pose reported for `h`, searching in report order; `None` when the
/// step reported nothing for that body.
pub open spec fn pose_for(poses: Seq<Pose>, h: BodyHandle) -> Option<Pose>
    decreases poses.len(),
{
    if poses.len() == 0 {
        None
    } else if poses[0].body == h {
        Some(poses[0])
    } else {
        pose_for(poses.drop_first(), h)
    }
}

/// A transform after a pose has been copied into it: position and
/// orientation come from the pose, the scale stays. An absent transform
/// stays absent — the bridge skips such entities.
pub open spec fn synced_transform(t: Option<Transform>, p: Pose) -> Option<Transform> {
    match t {
        Some(t0) => Some(Transform { translation: p.translation, rotation: p.rotation, scale: t0.scale }),
        None => None,
    }
}

/// Law: a step that leaves a body exactly where its transform already
/// stands writes the transform back unchanged, so a zero-motion step is
/// invisible.
pub proof fn lemma_sync_at_rest(t: Transform, p: Pose)
    requires
        p.translation == t.translation,
        p.rotation == t.rotation,
    ensures
        synced_transform(Some(t), p) == Some(t),
{
}

/// `e` owns one of the first `upto` entries of the association list.
spec fn touched(map: Seq<(Entity, BodyHandle)>, upto: int, e: Entity) -> bool {
    exists|j: int| 0 <= j < upto && (#[trigger] map[j]).0 == e
}

/// The first pose reported for `h`, by linear search.
fn find_pose(poses: &Vec<Pose>, h: BodyHandle) -> (r: Option<Pose>)
    ensures
        r == pose_for(poses@, h),
{
    let n = poses.len();
    proof {
        assert(poses@.subrange(0, n as int) =~= poses@);
    }
    for k in 0..n
        invariant
            n == poses@.len(),
            pose_for(poses@, h) == pose_for(poses@.subrange(k as int, n as int), h),
    {
        let sub = Ghost(poses@.subrange(k as int, n as int));
        if poses[k].body == h {
            proof {
                assert(sub@[0] == poses@[k as int]);
            }
            return Some(poses[k]);
        }
        proof {
            assert(sub@[0] == poses@[k as int]);
            assert(sub@.drop_first() =~= poses@.subrange(k as int + 1, n as int));
        }
    }
    proof {
        assert(poses@.subrange(n as int, n as int).len() == 0);
    }
    None
}

/// The entity-to-body associations, in attachment order, each entity at
/// most once.
pub struct PhysicsBridge {
    map: Vec<(Entity, BodyHandle)>,
}

impl PhysicsBridge {
    /// The associations, in attachment order.
    pub closed spec fn mapping(self) -> Seq<(Entity, BodyHandle)> {
        self.map@
    }

    /// `e` is associated with a body.
    pub open spec fn is_mapped(self, e: Entity) -> bool {
        exists|k: int| 0 <= k < self.mapping().len() && (#[trigger] self.mapping()[k]).0 == e
    }

    /// The body associated with `e`, when there is one.
    pub open spec fn body_for(self, e: Entity) -> BodyHandle {
        self.mapping()[choose|k: int|
            0 <= k < self.mapping().len() && (#[trigger] self.mapping()[k]).0 == e].1
    }

    /// Internal consistency: no entity is associated twice.
    pub open spec fn wf(self) -> bool {
        forall|k1: int, k2: int|
            0 <= k1 < k2 < self.mapping().len() ==> self.mapping()[k1].0 != self.mapping()[k2].0
    }

    /// Any entry's position pins down the association: entities appear
    /// at most once, so `body_for` answers with that entry's body.
    pub proof fn lemma_body_for_at(self, e: Entity, k: int)
        requires
            self.wf(),
            0 <= k < self.mapping().len(),
            self.mapping()[k].0 == e,
        ensures
            self.is_mapped(e),
            self.body_for(e) == self.mapping()[k].1,
    {
        assert(self.is_mapped(e));
        let w = choose|k2: int|
            0 <= k2 < self.mapping().len() && (#[trigger] self.mapping()[k2]).0 == e;
        if w < k {
            assert(self.mapping()[w].0 != self.mapping()[k].0);
        } else if k < w {
            assert(self.mapping()[k].0 != self.mapping()[w].0);
        }
    }

    /// A bridge with no associations.
    pub fn new() -> (r: PhysicsBridge)
        ensures
            r.wf(),
            r.mapping().len() == 0,
            forall|e: Entity| !r.is_mapped(e),
    {
        PhysicsBridge { map: Vec::new() }
    }

    /// Find the association entry for `e`, if any.
    fn find_entry(&self, e: Entity) -> (r: Option<usize>)
        requires
            self.wf(),
        ensures
            r is Some <==> self.is_mapped(e),
            r is Some ==> 0 <= r.unwrap() < self.mapping().len() && self.mapping()[
                r.unwrap() as int
            ].0 == e && self.mapping()[r.unwrap() as int].1 == self.body_for(e),
    {
        let n = self.map.len();
        for k in 0..n
            invariant
                n == self.mapping().len(),
                self.wf(),
                forall|k2: int| 0 <= k2 < k ==> (#[trigger] self.mapping()[k2]).0 != e,
        {
            if self.map[k].0 == e {
                proof {
                    let w = choose|k2: int|
                        0 <= k2 < self.mapping().len() && (#[trigger] self.mapping()[k2]).0 == e;
                    assert(w == k as int);
                }
                return Some(k);
            }
        }
        None
    }

    /// Whether `e` is associated with a body, and with which.
    pub fn body_of(&self, e: Entity) -> (r: Option<BodyHandle>)
        requires
            self.wf(),
        ensures
            r is Some <==> self.is_mapped(e),
            r is Some ==> r == Some(self.body_for(e)),
    {
        match self.find_entry(e) {
            Some(k) => Some(self.map[k].1),
            None => None,
        }
    }

    /// Associate a live entity with the rigid body the simulation
    /// created for it, and mark the entity with the body component. An
    /// entity attached again simply points at the new body.
    pub fn attach(&mut self, world: &mut WorldStore, e: Entity, handle: BodyHandle) -> (r: Result<
        (),
        WorldError,
    >)
        requires
            old(self).wf(),
            old(world).wf(),
        ensures
            final(self).wf(),
            final(world).wf(),
            r is Ok <==> old(world).live(e),
            !old(world).live(e) ==> *final(self) == *old(self) && *final(world) == *old(world)
                && r == Err::<(), WorldError>(WorldError::NotFound),
            r is Ok ==> final(self).is_mapped(e) && final(self).body_for(e) == handle && final(world).live(e) && final(world).body_of(e) == Some(RigidBodyComponent(handle)) && final(world).transform_of(e) == old(world).transform_of(e)
                && final(world).camera_of(e) == old(world).camera_of(e)
                && final(world).model_of(e) == old(world).model_of(e),
            forall|e2: Entity|
                e2 != e ==> (final(self).is_mapped(e2) <==> old(self).is_mapped(e2)) && (old(self).is_mapped(e2) ==> final(self).body_for(e2) == old(self).body_for(e2)),
            old(world).preserves_live_except(*final(world), e),
            old(world).preserves_stale(*final(world)),
            forall|e2: Entity| #[trigger] final(world).live(e2) == old(world).live(e2),
    {
        match world.insert_body(e, RigidBodyComponent(handle)) {
            Err(err) => Err(err),
            Ok(()) => {
                match self.find_entry(e) {
                    Some(k) => {
                        let ghost pre = self.map@;
                        self.map.set(k, (e, handle));
                        proof {
                            assert forall|j: int|
                                0 <= j < self.mapping().len() implies (#[trigger] self.mapping()[j]).0 == pre[j].0 by {}
                            assert(self.wf()) by {
                                assert forall|k1: int, k2: int|
                                    0 <= k1 < k2 < self.mapping().len() implies self.mapping()[k1].0
                                    != self.mapping()[k2].0 by {
                                    assert(pre[k1].0 != pre[k2].0);
                                }
                            }
                            assert(self.mapping()[k as int].0 == e);
                            self.lemma_body_for_at(e, k as int);
                            assert forall|e2: Entity| e2 != e implies (self.is_mapped(e2)
                                <==> old(self).is_mapped(e2)) && (old(self).is_mapped(e2)
                                ==> self.body_for(e2) == old(self).body_for(e2)) by {
                                if old(self).is_mapped(e2) {
                                    let w = choose|k2: int|
                                        0 <= k2 < pre.len() && (#[trigger] pre[k2]).0 == e2;
                                    assert(self.mapping()[w].0 == e2);
                                    assert(w != k as int);
                                    assert(self.mapping()[w].1 == pre[w].1);
                                    self.lemma_body_for_at(e2, w);
                                    old(self).lemma_body_for_at(e2, w);
                                }
                                if self.is_mapped(e2) {
                                    let w = choose|k2: int|
                                        0 <= k2 < self.mapping().len() && (#[trigger] self.mapping()[k2]).0 == e2;
                                    assert(pre[w].0 == e2);
                                }
                            }
                        }
                        Ok(())
                    }
                    None => {
                        let ghost pre = self.map@;
                        self.map.push((e, handle));
                        proof {
                            let last = self.mapping().len() - 1;
                            assert(self.mapping()[last].0 == e);
                            assert(self.wf()) by {
                                assert forall|k1: int, k2: int|
                                    0 <= k1 < k2 < self.mapping().len() implies self.mapping()[k1].0
                                    != self.mapping()[k2].0 by {
                                    if k2 == last {
                                        assert(pre[k1].0 != e);
                                    }
                                }
                            }
                            self.lemma_body_for_at(e, last);
                            assert forall|e2: Entity| e2 != e implies (self.is_mapped(e2)
                                <==> old(self).is_mapped(e2)) && (old(self).is_mapped(e2)
                                ==> self.body_for(e2) == old(self).body_for(e2)) by {
                                if old(self).is_mapped(e2) {
                                    let w = choose|k2: int|
                                        0 <= k2 < pre.len() && (#[trigger] pre[k2]).0 == e2;
                                    assert(self.mapping()[w].0 == e2);
                                    assert(self.mapping()[w].1 == pre[w].1);
                                    self.lemma_body_for_at(e2, w);
                                    old(self).lemma_body_for_at(e2, w);
                                }
                                if self.is_mapped(e2) {
                                    let w = choose|k2: int|
                                        0 <= k2 < self.mapping().len() && (#[trigger] self.mapping()[k2]).0 == e2;
                                    assert(w != last);
                                    assert(pre[w].0 == e2);
                                }
                            }
                        }
                        Ok(())
                    }
                }
            }
        }
    }

    /// Drop the association of a despawned entity, if it had one. Called
    /// by the engine whenever an entity leaves the world, so no dangling
    /// entity-to-body entry survives a despawn.
    pub fn detach(&mut self, e: Entity)
        requires
            old(self).wf(),
        ensures
            final(self).wf(),
            !final(self).is_mapped(e),
            forall|e2: Entity|
                e2 != e ==> (final(self).is_mapped(e2) <==> old(self).is_mapped(e2)) && (old(self).is_mapped(e2) ==> final(self).body_for(e2) == old(self).body_for(e2)),
    {
        match self.find_entry(e) {
            None => {},
            Some(k) => {
                let ghost pre = self.map@;
                self.map.remove(k);
                proof {
                    assert forall|e2: Entity| e2 != e implies (self.is_mapped(e2) <==> old(self).is_mapped(e2)) && (old(self).is_mapped(e2) ==> self.body_for(e2) == old(self).body_for(e2)) by {
                        if old(self).is_mapped(e2) {
                            let w = choose|k2: int|
                                0 <= k2 < pre.len() && (#[trigger] pre[k2]).0 == e2;
                            assert(w != k);
                            if w < k {
                                assert(self.mapping()[w].0 == e2);
                            } else {
                                assert(self.mapping()[w - 1].0 == e2);
                            }
                            let w2 = choose|k2: int|
                                0 <= k2 < self.mapping().len() && (#[trigger] self.mapping()[k2]).0 == e2;
                            let orig = if w2 < k { w2 } else { w2 + 1 };
                            assert(pre[orig].0 == e2);
                            let w0 = choose|k2: int|
                                0 <= k2 < pre.len() && (#[trigger] pre[k2]).0 == e2;
                            assert(pre[w0].0 == e2 && pre[orig].0 == e2);
                            assert(w0 == orig);
                        } else {
                            if self.is_mapped(e2) {
                                let w2 = choose|k2: int|
                                    0 <= k2 < self.mapping().len() && (#[trigger] self.mapping()[k2]).0 == e2;
                                let orig = if w2 < k { w2 } else { w2 + 1 };
                                assert(pre[orig].0 == e2);
                            }
                        }
                    }
                    assert(!self.is_mapped(e)) by {
                        if self.is_mapped(e) {
                            let w2 = choose|k2: int|
                                0 <= k2 < self.mapping().len() && (#[trigger] self.mapping()[k2]).0 == e;
                            let orig: int = if w2 < k { w2 } else { w2 + 1 };
                            assert(pre[orig].0 == e);
                            assert(orig != k);
                            assert(pre[k as int].0 == e);
                        }
                    }
                }
            }
        }
    }

    /// Copy every reported pose into the transform of its associated
    /// entity, keeping each entity's scale, in association order. An
    /// entity without a reported pose, without a transform, or despawned
    /// since attachment keeps whatever it has; nothing else in the world
    /// — no camera, model reference, body link, nor any unassociated
    /// entity — changes in any way.
    pub fn sync_transforms(&self, world: &mut WorldStore, poses: &Vec<Pose>)
        requires
            self.wf(),
            old(world).wf(),
        ensures
            final(world).wf(),
            forall|e: Entity| #[trigger] final(world).live(e) == old(world).live(e),
            old(world).preserves_stale(*final(world)),
            forall|e: Entity|
                #[trigger] old(world).live(e) ==> final(world).camera_of(e) == old(world).camera_of(e) && final(world).model_of(e) == old(world).model_of(e) && final(world).body_of(e) == old(world).body_of(e),
            forall|k: int|
                0 <= k < self.mapping().len() ==> match pose_for(
                    poses@,
                    (#[trigger] self.mapping()[k]).1,
                ) {
                    Some(p) => final(world).transform_of(self.mapping()[k].0) == synced_transform(
                        old(world).transform_of(self.mapping()[k].0),
                        p,
                    ),
                    None => final(world).transform_of(self.mapping()[k].0) == old(world).transform_of(self.mapping()[k].0),
                },
            forall|e: Entity|
                !self.is_mapped(e) ==> final(world).transform_of(e) == old(world).transform_of(e),
    {
        let n = self.map.len();
        for k in 0..n
            invariant
                n == self.mapping().len(),
                self.wf(),
                world.wf(),
                forall|e: Entity| #[trigger] world.live(e) == old(world).live(e),
                old(world).preserves_stale(*world),
                forall|e: Entity|
                    #[trigger] old(world).live(e) ==> world.camera_of(e) == old(world).camera_of(e)
                        && world.model_of(e) == old(world).model_of(e) && world.body_of(e) == old(world).body_of(e),
                forall|j: int|
                    0 <= j < k ==> match pose_for(poses@, (#[trigger] self.mapping()[j]).1) {
                        Some(p) => world.transform_of(self.mapping()[j].0) == synced_transform(
                            old(world).transform_of(self.mapping()[j].0),
                            p,
                        ),
                        None => world.transform_of(self.mapping()[j].0) == old(world).transform_of(self.mapping()[j].0),
                    },
                forall|e: Entity|
                    !touched(self.mapping(), k as int, e) ==> world.transform_of(e) == old(world).transform_of(e),
        {
            let entry = self.map[k];
            proof {
                assert(!touched(self.mapping(), k as int, entry.0)) by {
                    if touched(self.mapping(), k as int, entry.0) {
                        let j = choose|j: int|
                            0 <= j < k && (#[trigger] self.mapping()[j]).0 == entry.0;
                        assert(self.mapping()[j].0 != self.mapping()[k as int].0);
                    }
                }
            }
            match find_pose(poses, entry.1) {
                Some(p) => {
                    let ghost mid = *world;
                    let _written = world.set_pose(entry.0, p.translation, p.rotation);
                    proof {
                        assert(world.transform_of(entry.0) == synced_transform(
                            mid.transform_of(entry.0),
                            p,
                        ));
                        assert(mid.transform_of(entry.0) == old(world).transform_of(entry.0));
                        assert forall|e: Entity|
                            !touched(self.mapping(), k + 1, e) implies world.transform_of(e)
                            == old(world).transform_of(e) by {
                            assert(!touched(self.mapping(), k as int, e));
                            assert(e != entry.0);
                            if mid.live(e) {
                                assert(mid.same_components(*world, e));
                            }
                        }
                        assert forall|j: int|
                            0 <= j < k + 1 implies match pose_for(
                            poses@,
                            (#[trigger] self.mapping()[j]).1,
                        ) {
                            Some(p2) => world.transform_of(self.mapping()[j].0)
                                == synced_transform(
                                old(world).transform_of(self.mapping()[j].0),
                                p2,
                            ),
                            None => world.transform_of(self.mapping()[j].0) == old(world).transform_of(self.mapping()[j].0),
                        } by {
                            if j < k {
                                let ej = self.mapping()[j].0;
                                assert(ej != entry.0);
                                if mid.live(ej) {
                                    assert(mid.same_components(*world, ej));
                                } else {
                                    assert(world.transform_of(ej) is None);
                                    assert(mid.transform_of(ej) is None);
                                }
                            }
                        }
                    }
                }
                None => {
                    proof {
                        assert forall|e: Entity|
                            !touched(self.mapping(), k + 1, e) implies world.transform_of(e)
                            == old(world).transform_of(e) by {
                            assert(!touched(self.mapping(), k as int, e));
                        }
                    }
                }
            }
        }
        proof {
            assert forall|e: Entity|
                !self.is_mapped(e) implies final(world).transform_of(e) == old(world).transform_of(e) by {
                assert(!touched(self.mapping(), n as int, e));
            }
        }
    }
}

} // verus!
