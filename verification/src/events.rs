//! The typed, buffered event bus.
//!
//! Events are queued in emission order and dispatched in one batch: a
//! `process` call shows every pending event, oldest first, to every
//! subscriber, then leaves the queue empty. Handlers receive events by
//! reference and have no access to the bus, so nothing can be enqueued
//! while a batch is being dispatched.
//!
//! The event payload is generic over the application's input-action
//! enumeration, so the core never names game-specific actions.

use vstd::prelude::*;

use crate::components::Vec3;
use crate::world::Entity;

verus! {

/// Core event variants. `A` is the application's action enumeration.
#[derive(Clone, Copy, PartialEq, Eq, Debug)]
pub enum GameEvent<A> {
    /// The input layer resolved a key or button into an action.
    InputAction(A),
    /// The camera controller moved; position and view direction follow.
    CameraMove { position: Vec3, front: Vec3 },
    /// The window was resized to the given pixel dimensions.
    WindowResize { width: u32, height: u32 },
    /// A new entity entered the world.
    EntitySpawned(Entity),
}

/// `post` is `pre` with zero or more events appended: nothing already
/// queued has been reordered, replaced or removed. This is the only
/// change a frame update may make to the pending queue.
pub open spec fn queue_extended<A>(pre: Seq<GameEvent<A>>, post: Seq<GameEvent<A>>) -> bool {
    &&& pre.len() <= post.len()
    &&& forall|i: int| 0 <= i < pre.len() ==> #[trigger] post[i] == pre[i]
}

/// A subscriber. Its ghost `observed` sequence records every event it
/// has ever been shown, oldest first; `handle` must extend it by exactly
/// the delivered event.
pub trait EventHandler<A>: Sized {
    /// Every event this handler has been shown, in delivery order. A
    /// verified implementation must override this with a real record —
    /// keeping the default, no body of `handle` can meet its contract.
    /// The default exists only so that implementations outside the
    /// verifier need not name a history.
    open spec fn observed(&self) -> Seq<GameEvent<A>> {
        Seq::empty()
    }

    /// Deliver one event.
    fn handle(&mut self, event: &GameEvent<A>)
        ensures
            final(self).observed() == old(self).observed().push(*event),
    ;
}

/// A subscriber that records, as a ghost sequence, every event it is
/// shown: the simplest witness that the handler contract is satisfiable,
/// and a ready probe for stating dispatch facts about a concrete bus.
pub struct EventLog<A> {
    seen: Ghost<Seq<GameEvent<A>>>,
}

impl<A> EventLog<A> {
    /// Every event this log has been shown, in delivery order.
    pub closed spec fn seen_spec(self) -> Seq<GameEvent<A>> {
        self.seen@
    }

    /// A log that has seen nothing.
    pub fn new() -> (r: EventLog<A>)
        ensures
            r.seen_spec().len() == 0,
    {
        EventLog { seen: Ghost(Seq::empty()) }
    }
}

impl<A> EventHandler<A> for EventLog<A> {
    open spec fn observed(&self) -> Seq<GameEvent<A>> {
        self.seen_spec()
    }

    fn handle(&mut self, event: &GameEvent<A>) {
        self.seen = Ghost(self.seen@.push(*event));
    }
}

/// The bus: a pending queue in emission order, and the subscribers in
/// registration order. Registration position acts as the subscription
/// token, so any number of handlers of the same type can coexist.
pub struct EventBus<A, H> {
    events: Vec<GameEvent<A>>,
    subscribers: Vec<H>,
}

impl<A, H: EventHandler<A>> EventBus<A, H> {
    /// The pending queue, oldest event first.
    pub closed spec fn pending(self) -> Seq<GameEvent<A>> {
        self.events@
    }

    /// The subscribers, in registration order.
    pub closed spec fn handlers(self) -> Seq<H> {
        self.subscribers@
    }

    /// An empty bus: nothing pending, nobody subscribed.
    pub fn new() -> (r: EventBus<A, H>)
        ensures
            r.pending() == Seq::<GameEvent<A>>::empty(),
            r.handlers() == Seq::<H>::empty(),
    {
        EventBus { events: Vec::new(), subscribers: Vec::new() }
    }

    /// Append one event to the pending queue. Nothing is dispatched yet.
    pub fn emit(&mut self, event: GameEvent<A>)
        ensures
            final(self).pending() == old(self).pending().push(event),
            final(self).handlers() == old(self).handlers(),
    {
        self.events.push(event);
    }

    /// Register one more subscriber, behind all earlier ones.
    pub fn subscribe(&mut self, handler: H)
        ensures
            final(self).handlers() == old(self).handlers().push(handler),
            final(self).pending() == old(self).pending(),
    {
        self.subscribers.push(handler);
    }

    /// Remove and return the pending queue without dispatching anything,
    /// in emission order.
    pub fn drain(&mut self) -> (r: Vec<GameEvent<A>>)
        ensures
            r@ == old(self).pending(),
            final(self).pending() == Seq::<GameEvent<A>>::empty(),
            final(self).handlers() == old(self).handlers(),
    {
        let mut drained: Vec<GameEvent<A>> = Vec::new();
        core::mem::swap(&mut drained, &mut self.events);
        drained
    }

    /// Dispatch every pending event, in emission order, to every
    /// subscriber, then leave the queue empty: each subscriber's
    /// observation sequence grows by exactly the old pending queue.
    /// Nothing a handler does can enqueue events into this batch.
    pub fn process(&mut self)
        ensures
            final(self).pending() == Seq::<GameEvent<A>>::empty(),
            final(self).handlers().len() == old(self).handlers().len(),
            forall|i: int|
                0 <= i < old(self).handlers().len() ==> (#[trigger] final(self).handlers()[i]).observed() == old(self).handlers()[i].observed() + old(self).pending(),
            // an empty queue dispatches nothing: the subscribers are
            // exactly as they were
            old(self).pending().len() == 0 ==> final(self).handlers() == old(self).handlers(),
    {
        let mut drained: Vec<GameEvent<A>> = Vec::new();
        core::mem::swap(&mut drained, &mut self.events);
        let n = drained.len();
        let m = self.subscribers.len();
        for j in 0..n
            invariant
                self.events@.len() == 0,
                n == drained@.len(),
                m == self.subscribers@.len(),
                m == old(self).subscribers@.len(),
                n == 0 ==> self.subscribers@ == old(self).subscribers@,
                forall|i: int|
                    0 <= i < m ==> (#[trigger] self.subscribers@[i]).observed() == old(self).subscribers@[i].observed() + drained@.subrange(0, j as int),
        {
            let ghost at_j = self.subscribers@;
            for i in 0..m
                invariant
                    self.events@.len() == 0,
                    j < n,
                    n == drained@.len(),
                    m == self.subscribers@.len(),
                    m == old(self).subscribers@.len(),
                    forall|i2: int|
                        0 <= i2 < m ==> (#[trigger] at_j[i2]).observed() == old(self).subscribers@[i2].observed() + drained@.subrange(0, j as int),
                    forall|i2: int|
                        0 <= i2 < i ==> (#[trigger] self.subscribers@[i2]).observed()
                            == at_j[i2].observed().push(drained@[j as int]),
                    forall|i2: int|
                        i <= i2 < m ==> self.subscribers@[i2] == at_j[i2],
            {
                let ev = &drained[j];
                let h = &mut self.subscribers[i];
                h.handle(ev);
            }
            proof {
                assert forall|i: int|
                    0 <= i < m implies (#[trigger] self.subscribers@[i]).observed() == old(self).subscribers@[i].observed() + drained@.subrange(0, j + 1) by {
                    assert(drained@.subrange(0, j + 1) == drained@.subrange(0, j as int).push(
                        drained@[j as int],
                    ));
                }
            }
        }
        proof {
            assert(drained@.subrange(0, n as int) == drained@);
        }
    }

    /// How many events are waiting for the next dispatch.
    pub fn pending_count(&self) -> (r: usize)
        ensures
            r == self.pending().len(),
    {
        self.events.len()
    }

    /// How many subscribers are registered.
    pub fn subscriber_count(&self) -> (r: usize)
        ensures
            r == self.handlers().len(),
    {
        self.subscribers.len()
    }
}

} // verus!
