use std::cell::RefCell;
use std::rc::Rc;

use raidillon::{Action, EventBus, EventHandler, GameEvent};

/// A subscriber that records every event it is shown, in order, into a
/// log shared with the test.
struct Recorder {
    seen: Rc<RefCell<Vec<GameEvent<Action>>>>,
}

impl EventHandler<Action> for Recorder {
    fn handle(&mut self, event: &GameEvent<Action>) {
        self.seen.borrow_mut().push(*event);
    }
}

fn e1() -> GameEvent<Action> {
    GameEvent::InputAction(Action::MoveForward)
}

fn e2() -> GameEvent<Action> {
    GameEvent::WindowResize { width: 800, height: 600 }
}

fn e3() -> GameEvent<Action> {
    GameEvent::InputAction(Action::MoveLeft)
}

#[test]
fn process_shows_every_event_in_emission_order() {
    let log_a: Rc<RefCell<Vec<GameEvent<Action>>>> = Rc::new(RefCell::new(Vec::new()));
    let log_b: Rc<RefCell<Vec<GameEvent<Action>>>> = Rc::new(RefCell::new(Vec::new()));
    let mut bus: EventBus<Action, Recorder> = EventBus::new();
    bus.subscribe(Recorder { seen: log_a.clone() });
    bus.subscribe(Recorder { seen: log_b.clone() });
    bus.emit(e1());
    bus.emit(e2());
    bus.emit(e3());
    assert_eq!(bus.pending_count(), 3);

    bus.process();
    assert_eq!(bus.pending_count(), 0);
    assert_eq!(*log_a.borrow(), vec![e1(), e2(), e3()]);
    assert_eq!(*log_b.borrow(), vec![e1(), e2(), e3()]);

    // the queue really is empty: a second process dispatches nothing
    bus.process();
    assert_eq!(*log_a.borrow(), vec![e1(), e2(), e3()]);
    assert_eq!(*log_b.borrow(), vec![e1(), e2(), e3()]);
}

#[test]
fn late_subscriber_sees_only_later_batches() {
    let log_a: Rc<RefCell<Vec<GameEvent<Action>>>> = Rc::new(RefCell::new(Vec::new()));
    let log_b: Rc<RefCell<Vec<GameEvent<Action>>>> = Rc::new(RefCell::new(Vec::new()));
    let mut bus: EventBus<Action, Recorder> = EventBus::new();
    bus.subscribe(Recorder { seen: log_a.clone() });
    bus.emit(e1());
    bus.process();

    bus.subscribe(Recorder { seen: log_b.clone() });
    bus.emit(e2());
    bus.process();

    assert_eq!(*log_a.borrow(), vec![e1(), e2()]);
    assert_eq!(*log_b.borrow(), vec![e2()]);
}

#[test]
fn two_handlers_of_the_same_type_both_observe() {
    // registration position, not type identity, keys a subscription:
    // two instances of one handler type do not collapse into one
    let log_a: Rc<RefCell<Vec<GameEvent<Action>>>> = Rc::new(RefCell::new(Vec::new()));
    let log_b: Rc<RefCell<Vec<GameEvent<Action>>>> = Rc::new(RefCell::new(Vec::new()));
    let mut bus: EventBus<Action, Recorder> = EventBus::new();
    bus.subscribe(Recorder { seen: log_a.clone() });
    bus.subscribe(Recorder { seen: log_b.clone() });
    assert_eq!(bus.subscriber_count(), 2);
    bus.emit(e3());
    bus.process();
    assert_eq!(*log_a.borrow(), vec![e3()]);
    assert_eq!(*log_b.borrow(), vec![e3()]);
}

#[test]
fn drain_returns_events_without_dispatching() {
    let log: Rc<RefCell<Vec<GameEvent<Action>>>> = Rc::new(RefCell::new(Vec::new()));
    let mut bus: EventBus<Action, Recorder> = EventBus::new();
    bus.subscribe(Recorder { seen: log.clone() });
    bus.emit(e1());
    bus.emit(e2());

    let drained = bus.drain();
    assert_eq!(drained, vec![e1(), e2()]);
    assert_eq!(bus.pending_count(), 0);
    assert_eq!(bus.subscriber_count(), 1);
    assert!(log.borrow().is_empty());
}

#[test]
fn events_keep_emission_order_across_emits() {
    let mut bus: EventBus<Action, Recorder> = EventBus::new();
    bus.emit(e3());
    bus.emit(e1());
    bus.emit(e2());
    let drained = bus.drain();
    assert_eq!(drained, vec![e3(), e1(), e2()]);
}
