use component_messaging::callbacks::{MessageCallback, Outcome};
use component_messaging::engine::Engine;
use component_messaging::recorder::Recorder;
use component_messaging::types::{CallbackHandle, ComponentHandle, ErrorKind, Message, QueueKind};
use std::cell::RefCell;
use std::rc::Rc;

/// One observed delivery: which callback saw which handle, type and payload.
type Seen = (u8, u8, u8, Vec<u8>);

/// Writes every delivery into a log shared with the test, and reports
/// failure when told to.
struct Logger {
    id: u8,
    fails: bool,
    log: Rc<RefCell<Vec<Seen>>>,
}

impl MessageCallback for Logger {
    fn on_message(&mut self, destination: ComponentHandle, message_type: u8, payload: &[u8]) -> bool {
        self.log.borrow_mut().push((self.id, destination.0, message_type, payload.to_vec()));
        !self.fails
    }
}

fn logger(id: u8, log: &Rc<RefCell<Vec<Seen>>>) -> Logger {
    Logger { id, fails: false, log: log.clone() }
}

fn active_engine() -> (Engine<Recorder>, ComponentHandle) {
    let mut engine: Engine<Recorder> = Engine::new();
    engine.initialize(QueueKind::Normal);
    engine.initialize(QueueKind::Priority);
    let h = engine.allocate_handle().unwrap();
    (engine, h)
}

#[test]
fn new_engine_is_empty_and_inactive() {
    let engine: Engine<Recorder> = Engine::new();
    assert!(!engine.is_active(QueueKind::Normal));
    assert!(!engine.is_active(QueueKind::Priority));
    assert_eq!(engine.pending_len(QueueKind::Normal), 0);
    assert_eq!(engine.pending_len(QueueKind::Priority), 0);
    assert!(!engine.is_live(ComponentHandle(0)));
    assert_eq!(engine.callback_count(QueueKind::Normal, ComponentHandle(0)), 0);
}

#[test]
fn allocate_hands_out_the_smallest_unused_handle() {
    let mut engine: Engine<Recorder> = Engine::new();
    assert_eq!(engine.allocate_handle(), Ok(ComponentHandle(0)));
    assert_eq!(engine.allocate_handle(), Ok(ComponentHandle(1)));
    assert_eq!(engine.allocate_handle(), Ok(ComponentHandle(2)));
    assert_eq!(engine.release_handle(ComponentHandle(1)), Ok(()));
    assert!(!engine.is_live(ComponentHandle(1)));
    assert_eq!(engine.allocate_handle(), Ok(ComponentHandle(1)));
    assert_eq!(engine.allocate_handle(), Ok(ComponentHandle(3)));
    assert!(engine.is_live(ComponentHandle(0)));
    assert!(engine.is_live(ComponentHandle(3)));
    assert!(!engine.is_live(ComponentHandle(4)));
}

#[test]
fn live_handles_are_never_equal() {
    let mut engine: Engine<Recorder> = Engine::new();
    let mut held: Vec<ComponentHandle> = Vec::new();
    for round in 0..40usize {
        for _ in 0..5 {
            let h = engine.allocate_handle().unwrap();
            assert!(!held.contains(&h));
            held.push(h);
        }
        let gone = held.remove((round * 7) % held.len());
        assert_eq!(engine.release_handle(gone), Ok(()));
        let gone = held.remove((round * 3) % held.len());
        assert_eq!(engine.release_handle(gone), Ok(()));
    }
    assert_eq!(held.len(), 120);
    for (i, a) in held.iter().enumerate() {
        assert!(engine.is_live(*a));
        for b in held.iter().skip(i + 1) {
            assert_ne!(a, b);
        }
    }
}

#[test]
fn allocate_is_refused_when_every_handle_is_live() {
    let mut engine: Engine<Recorder> = Engine::new();
    for i in 0..256u32 {
        assert_eq!(engine.allocate_handle(), Ok(ComponentHandle(i as u8)));
    }
    assert_eq!(engine.allocate_handle(), Err(ErrorKind::ExhaustedHandleSpace));
    assert_eq!(engine.allocate_handle(), Err(ErrorKind::ExhaustedHandleSpace));
    assert!(engine.is_live(ComponentHandle(255)));
    assert_eq!(engine.release_handle(ComponentHandle(200)), Ok(()));
    assert_eq!(engine.allocate_handle(), Ok(ComponentHandle(200)));
    assert_eq!(engine.allocate_handle(), Err(ErrorKind::ExhaustedHandleSpace));
}

#[test]
fn release_of_a_handle_that_is_not_live_is_refused() {
    let mut engine: Engine<Recorder> = Engine::new();
    assert_eq!(engine.release_handle(ComponentHandle(0)), Err(ErrorKind::UnknownHandle));
    let h = engine.allocate_handle().unwrap();
    assert_eq!(engine.release_handle(ComponentHandle(9)), Err(ErrorKind::UnknownHandle));
    assert!(engine.is_live(h));
    assert_eq!(engine.release_handle(h), Ok(()));
    assert_eq!(engine.release_handle(h), Err(ErrorKind::UnknownHandle));
}

#[test]
fn release_is_refused_while_callbacks_are_registered() {
    let (mut engine, h) = active_engine();
    let on_normal = engine.register_callback(QueueKind::Normal, h, Recorder::new(1)).unwrap();
    let on_priority = engine.register_callback(QueueKind::Priority, h, Recorder::new(2)).unwrap();
    assert_eq!(engine.release_handle(h), Err(ErrorKind::HandleStillInUse));
    assert!(engine.is_live(h));
    assert_eq!(engine.callback_count(QueueKind::Normal, h), 1);
    assert!(engine.unregister_callback(QueueKind::Normal, h, on_normal).is_ok());
    assert_eq!(engine.release_handle(h), Err(ErrorKind::HandleStillInUse));
    assert_eq!(engine.callback_count(QueueKind::Priority, h), 1);
    assert!(engine.unregister_callback(QueueKind::Priority, h, on_priority).is_ok());
    assert_eq!(engine.release_handle(h), Ok(()));
    assert!(!engine.is_live(h));
}

#[test]
fn clear_handles_is_refused_while_callbacks_are_registered() {
    let (mut engine, h) = active_engine();
    let other = engine.allocate_handle().unwrap();
    let callback = engine.register_callback(QueueKind::Priority, other, Recorder::new(1)).unwrap();
    assert_eq!(engine.clear_handles(), Err(ErrorKind::HandleStillInUse));
    assert!(engine.is_live(h));
    assert!(engine.is_live(other));
    assert!(engine.unregister_callback(QueueKind::Priority, other, callback).is_ok());
    assert_eq!(engine.clear_handles(), Ok(()));
    assert!(!engine.is_live(h));
    assert!(!engine.is_live(other));
    assert_eq!(engine.allocate_handle(), Ok(ComponentHandle(0)));
}

#[test]
fn register_for_a_handle_that_is_not_live_is_refused() {
    let mut engine: Engine<Recorder> = Engine::new();
    assert_eq!(
        engine.register_callback(QueueKind::Normal, ComponentHandle(5), Recorder::new(1)),
        Err(ErrorKind::UnknownHandle)
    );
    let h = engine.allocate_handle().unwrap();
    assert_eq!(engine.release_handle(h), Ok(()));
    assert_eq!(
        engine.register_callback(QueueKind::Priority, h, Recorder::new(1)),
        Err(ErrorKind::UnknownHandle)
    );
    assert_eq!(engine.callback_count(QueueKind::Priority, h), 0);
}

#[test]
fn callback_handles_count_up_from_one_on_each_queue() {
    let (mut engine, h) = active_engine();
    let g = engine.allocate_handle().unwrap();
    assert_eq!(engine.register_callback(QueueKind::Normal, h, Recorder::new(1)), Ok(CallbackHandle(1)));
    assert_eq!(engine.register_callback(QueueKind::Normal, g, Recorder::new(1)), Ok(CallbackHandle(2)));
    assert_eq!(engine.register_callback(QueueKind::Priority, h, Recorder::new(1)), Ok(CallbackHandle(1)));
    assert_eq!(engine.register_callback(QueueKind::Normal, h, Recorder::new(1)), Ok(CallbackHandle(3)));
    assert!(engine.unregister_callback(QueueKind::Normal, h, CallbackHandle(3)).is_ok());
    assert_eq!(engine.register_callback(QueueKind::Normal, h, Recorder::new(1)), Ok(CallbackHandle(4)));
    assert_eq!(engine.callback_count(QueueKind::Normal, h), 2);
    assert_eq!(engine.callback_count(QueueKind::Normal, g), 1);
    assert_eq!(engine.callback_count(QueueKind::Priority, h), 1);
    assert_eq!(engine.callback_count(QueueKind::Priority, g), 0);
}

#[test]
fn unregister_keeps_the_order_of_the_rest() {
    let log = Rc::new(RefCell::new(Vec::new()));
    let mut engine: Engine<Logger> = Engine::new();
    engine.initialize(QueueKind::Normal);
    let h = engine.allocate_handle().unwrap();
    let a = engine.register_callback(QueueKind::Normal, h, logger(10, &log)).unwrap();
    let b = engine.register_callback(QueueKind::Normal, h, logger(20, &log)).unwrap();
    let c = engine.register_callback(QueueKind::Normal, h, logger(30, &log)).unwrap();
    let d = engine.register_callback(QueueKind::Normal, h, logger(40, &log)).unwrap();
    let removed = engine.unregister_callback(QueueKind::Normal, h, b).ok().unwrap();
    assert_eq!(removed.id, 20);
    assert_eq!(engine.enqueue(QueueKind::Normal, Message::new(1, h, b"x")), Ok(()));
    let report = engine.drain_once(QueueKind::Normal).unwrap();
    assert_eq!(
        report.outcomes,
        vec![
            Outcome { callback: a, ok: true },
            Outcome { callback: c, ok: true },
            Outcome { callback: d, ok: true },
        ]
    );
    let ids: Vec<u8> = log.borrow().iter().map(|seen| seen.0).collect();
    assert_eq!(ids, vec![10, 30, 40]);
}

#[test]
fn unregister_of_a_handle_already_unregistered_is_refused() {
    let (mut engine, h) = active_engine();
    let a = engine.register_callback(QueueKind::Normal, h, Recorder::new(1)).unwrap();
    let b = engine.register_callback(QueueKind::Normal, h, Recorder::new(2)).unwrap();
    assert!(engine.unregister_callback(QueueKind::Normal, h, a).is_ok());
    let again = engine.unregister_callback(QueueKind::Normal, h, a);
    assert_eq!(again.err(), Some(ErrorKind::UnknownCallback));
    assert_eq!(engine.callback_count(QueueKind::Normal, h), 1);
    assert!(engine.callback(QueueKind::Normal, h, a).is_none());
    assert_eq!(engine.callback(QueueKind::Normal, h, b).map(|r| r.id), Some(2));
}

#[test]
fn unregister_needs_the_queue_and_the_handle_of_the_registration() {
    let (mut engine, h) = active_engine();
    let g = engine.allocate_handle().unwrap();
    let a = engine.register_callback(QueueKind::Normal, h, Recorder::new(1)).unwrap();
    assert_eq!(engine.unregister_callback(QueueKind::Priority, h, a).err(), Some(ErrorKind::UnknownCallback));
    assert_eq!(engine.unregister_callback(QueueKind::Normal, g, a).err(), Some(ErrorKind::UnknownCallback));
    assert_eq!(
        engine.unregister_callback(QueueKind::Normal, ComponentHandle(77), a).err(),
        Some(ErrorKind::UnknownCallback)
    );
    assert_eq!(
        engine.unregister_callback(QueueKind::Normal, h, CallbackHandle(0)).err(),
        Some(ErrorKind::UnknownCallback)
    );
    assert_eq!(engine.callback_count(QueueKind::Normal, h), 1);
    assert!(engine.unregister_callback(QueueKind::Normal, h, a).is_ok());
}

#[test]
fn unregister_hands_the_callback_back() {
    let (mut engine, h) = active_engine();
    let a = engine.register_callback(QueueKind::Normal, h, Recorder::new(7)).unwrap();
    assert_eq!(engine.enqueue(QueueKind::Normal, Message::new(9, h, &[1, 2, 3])), Ok(()));
    assert!(engine.drain_once(QueueKind::Normal).unwrap().delivered);
    let recorder = engine.unregister_callback(QueueKind::Normal, h, a).ok().unwrap();
    assert_eq!(recorder.id, 7);
    assert_eq!(recorder.deliveries, 1);
    let last = recorder.last.unwrap();
    assert_eq!(last.message_type, 9);
    assert_eq!(last.destination, h);
    assert_eq!(last.payload, vec![1, 2, 3]);
}

#[test]
fn enqueue_into_an_uninitialized_queue_is_refused() {
    let mut engine: Engine<Recorder> = Engine::new();
    let h = engine.allocate_handle().unwrap();
    for _ in 0..3 {
        assert_eq!(
            engine.enqueue(QueueKind::Normal, Message::new(1, h, b"lost")),
            Err(ErrorKind::QueueNotActive)
        );
        assert_eq!(engine.pending_len(QueueKind::Normal), 0);
    }
    engine.initialize(QueueKind::Priority);
    assert_eq!(
        engine.enqueue(QueueKind::Normal, Message::new(1, h, b"lost")),
        Err(ErrorKind::QueueNotActive)
    );
    engine.initialize(QueueKind::Normal);
    assert_eq!(engine.pending_len(QueueKind::Normal), 0);
    assert!(!engine.drain_once(QueueKind::Normal).unwrap().delivered);
}

#[test]
fn enqueue_is_refused_at_capacity() {
    let mut engine: Engine<Recorder> = Engine::with_capacities(Some(2), None);
    engine.initialize(QueueKind::Normal);
    engine.initialize(QueueKind::Priority);
    let h = engine.allocate_handle().unwrap();
    assert_eq!(engine.enqueue(QueueKind::Normal, Message::new(1, h, b"a")), Ok(()));
    assert_eq!(engine.enqueue(QueueKind::Normal, Message::new(2, h, b"b")), Ok(()));
    assert_eq!(engine.enqueue(QueueKind::Normal, Message::new(3, h, b"c")), Err(ErrorKind::QueueFull));
    assert_eq!(engine.pending_len(QueueKind::Normal), 2);
    for i in 0..10u8 {
        assert_eq!(engine.enqueue(QueueKind::Priority, Message::new(i, h, b"p")), Ok(()));
    }
    assert_eq!(engine.pending_len(QueueKind::Priority), 10);
    assert!(engine.drain_once(QueueKind::Normal).unwrap().delivered);
    assert_eq!(engine.enqueue(QueueKind::Normal, Message::new(4, h, b"d")), Ok(()));
    assert_eq!(engine.enqueue(QueueKind::Normal, Message::new(5, h, b"e")), Err(ErrorKind::QueueFull));
}

#[test]
fn a_queue_of_capacity_zero_takes_nothing() {
    let mut engine: Engine<Recorder> = Engine::with_capacities(None, Some(0));
    engine.initialize(QueueKind::Priority);
    let h = engine.allocate_handle().unwrap();
    assert_eq!(engine.enqueue(QueueKind::Priority, Message::new(1, h, b"a")), Err(ErrorKind::QueueFull));
    assert_eq!(engine.pending_len(QueueKind::Priority), 0);
    assert_eq!(engine.enqueue(QueueKind::Normal, Message::new(1, h, b"a")), Err(ErrorKind::QueueNotActive));
}

#[test]
fn drain_of_an_uninitialized_queue_is_refused() {
    let mut engine: Engine<Recorder> = Engine::new();
    assert_eq!(engine.drain_once(QueueKind::Normal).err(), Some(ErrorKind::QueueNotActive));
    engine.initialize(QueueKind::Normal);
    assert_eq!(engine.drain_once(QueueKind::Priority).err(), Some(ErrorKind::QueueNotActive));
    assert!(engine.drain_once(QueueKind::Normal).is_ok());
}

#[test]
fn drain_of_an_empty_active_queue_delivers_nothing_any_number_of_times() {
    let (mut engine, h) = active_engine();
    let a = engine.register_callback(QueueKind::Normal, h, Recorder::new(1)).unwrap();
    for _ in 0..25 {
        let report = engine.drain_once(QueueKind::Normal).unwrap();
        assert!(!report.delivered);
        assert!(report.outcomes.is_empty());
    }
    assert!(engine.is_active(QueueKind::Normal));
    assert_eq!(engine.pending_len(QueueKind::Normal), 0);
    let recorder = engine.callback(QueueKind::Normal, h, a).unwrap();
    assert_eq!(recorder.deliveries, 0);
    assert!(recorder.last.is_none());
}

#[test]
fn round_trip_reaches_three_callbacks_once_each_in_registration_order() {
    let log = Rc::new(RefCell::new(Vec::new()));
    let mut engine: Engine<Logger> = Engine::new();
    engine.initialize(QueueKind::Normal);
    let h = engine.allocate_handle().unwrap();
    let a = engine.register_callback(QueueKind::Normal, h, logger(1, &log)).unwrap();
    let b = engine.register_callback(QueueKind::Normal, h, logger(2, &log)).unwrap();
    let c = engine.register_callback(QueueKind::Normal, h, logger(3, &log)).unwrap();
    assert_eq!(engine.enqueue(QueueKind::Normal, Message::new(3, h, b"test Message")), Ok(()));
    let report = engine.drain_once(QueueKind::Normal).unwrap();
    assert!(report.delivered);
    assert_eq!(
        report.outcomes,
        vec![
            Outcome { callback: a, ok: true },
            Outcome { callback: b, ok: true },
            Outcome { callback: c, ok: true },
        ]
    );
    let expected: Vec<Seen> = vec![
        (1, h.0, 3, b"test Message".to_vec()),
        (2, h.0, 3, b"test Message".to_vec()),
        (3, h.0, 3, b"test Message".to_vec()),
    ];
    assert_eq!(*log.borrow(), expected);
    assert!(!engine.drain_once(QueueKind::Normal).unwrap().delivered);
    assert_eq!(log.borrow().len(), 3);
}

#[test]
fn scenario_deliver_then_tear_down() {
    let mut engine: Engine<Recorder> = Engine::new();
    engine.initialize(QueueKind::Normal);
    let h = engine.allocate_handle().unwrap();
    let a = engine.register_callback(QueueKind::Normal, h, Recorder::new(1)).unwrap();
    let b = engine.register_callback(QueueKind::Normal, h, Recorder::new(2)).unwrap();
    let c = engine.register_callback(QueueKind::Normal, h, Recorder::new(3)).unwrap();
    assert_eq!(engine.enqueue(QueueKind::Normal, Message::new(3, h, b"test Message")), Ok(()));
    let report = engine.drain_once(QueueKind::Normal).unwrap();
    assert_eq!(report.delivered, true);
    for callback in [a, b, c] {
        let recorder = engine.callback(QueueKind::Normal, h, callback).unwrap();
        assert_eq!(recorder.deliveries, 1);
        let last = recorder.last.as_ref().unwrap();
        assert_eq!(last.message_type, 3);
        assert_eq!(last.destination, h);
        assert_eq!(last.payload, b"test Message".to_vec());
    }
    for callback in [a, b, c] {
        assert!(engine.unregister_callback(QueueKind::Normal, h, callback).is_ok());
    }
    assert_eq!(engine.release_handle(h), Ok(()));
    assert_eq!(engine.pending_len(QueueKind::Normal), 0);
    assert_eq!(engine.uninitialize(QueueKind::Normal), Ok(()));
    assert!(!engine.is_active(QueueKind::Normal));
}

#[test]
fn uninitialize_is_refused_while_a_message_is_pending() {
    let (mut engine, h) = active_engine();
    let a = engine.register_callback(QueueKind::Normal, h, Recorder::new(1)).unwrap();
    assert_eq!(engine.enqueue(QueueKind::Normal, Message::new(8, h, b"kept")), Ok(()));
    assert_eq!(engine.uninitialize(QueueKind::Normal), Err(ErrorKind::MessagesPending));
    assert!(engine.is_active(QueueKind::Normal));
    assert_eq!(engine.pending_len(QueueKind::Normal), 1);
    assert!(engine.drain_once(QueueKind::Normal).unwrap().delivered);
    let last = engine.callback(QueueKind::Normal, h, a).unwrap().last.as_ref().unwrap();
    assert_eq!(last.payload, b"kept".to_vec());
    assert_eq!(last.message_type, 8);
    assert_eq!(engine.uninitialize(QueueKind::Normal), Ok(()));
    assert!(!engine.is_active(QueueKind::Normal));
}

#[test]
fn lifecycle_can_be_repeated() {
    let mut engine: Engine<Recorder> = Engine::new();
    assert_eq!(engine.uninitialize(QueueKind::Normal), Ok(()));
    assert!(!engine.is_active(QueueKind::Normal));
    engine.initialize(QueueKind::Normal);
    engine.initialize(QueueKind::Normal);
    assert!(engine.is_active(QueueKind::Normal));
    let h = engine.allocate_handle().unwrap();
    assert_eq!(engine.enqueue(QueueKind::Normal, Message::new(1, h, b"a")), Ok(()));
    engine.initialize(QueueKind::Normal);
    assert_eq!(engine.pending_len(QueueKind::Normal), 1);
    assert!(engine.drain_once(QueueKind::Normal).unwrap().delivered);
    assert_eq!(engine.uninitialize(QueueKind::Normal), Ok(()));
    assert_eq!(engine.enqueue(QueueKind::Normal, Message::new(1, h, b"a")), Err(ErrorKind::QueueNotActive));
    engine.initialize(QueueKind::Normal);
    assert_eq!(engine.enqueue(QueueKind::Normal, Message::new(1, h, b"a")), Ok(()));
}

#[test]
fn registrations_outlive_the_teardown_of_their_queue() {
    let mut engine: Engine<Recorder> = Engine::new();
    let h = engine.allocate_handle().unwrap();
    let a = engine.register_callback(QueueKind::Normal, h, Recorder::new(1)).unwrap();
    engine.initialize(QueueKind::Normal);
    assert_eq!(engine.uninitialize(QueueKind::Normal), Ok(()));
    engine.initialize(QueueKind::Normal);
    assert_eq!(engine.enqueue(QueueKind::Normal, Message::new(4, h, b"z")), Ok(()));
    assert!(engine.drain_once(QueueKind::Normal).unwrap().delivered);
    assert_eq!(engine.callback(QueueKind::Normal, h, a).unwrap().deliveries, 1);
}

#[test]
fn the_two_queues_are_independent() {
    let (mut engine, h) = active_engine();
    let on_normal = engine.register_callback(QueueKind::Normal, h, Recorder::new(1)).unwrap();
    let on_priority = engine.register_callback(QueueKind::Priority, h, Recorder::new(2)).unwrap();
    assert_eq!(engine.enqueue(QueueKind::Priority, Message::new(5, h, b"urgent")), Ok(()));
    for _ in 0..3 {
        let report = engine.drain_once(QueueKind::Normal).unwrap();
        assert!(!report.delivered);
    }
    assert_eq!(engine.pending_len(QueueKind::Priority), 1);
    assert_eq!(engine.callback(QueueKind::Normal, h, on_normal).unwrap().deliveries, 0);
    assert_eq!(engine.callback(QueueKind::Priority, h, on_priority).unwrap().deliveries, 0);

    assert_eq!(engine.enqueue(QueueKind::Normal, Message::new(6, h, b"later")), Ok(()));
    let report = engine.drain_once(QueueKind::Priority).unwrap();
    assert_eq!(report.outcomes, vec![Outcome { callback: on_priority, ok: true }]);
    assert_eq!(engine.pending_len(QueueKind::Normal), 1);
    assert!(!engine.drain_once(QueueKind::Priority).unwrap().delivered);
    assert_eq!(engine.callback(QueueKind::Normal, h, on_normal).unwrap().deliveries, 0);
    let seen = engine.callback(QueueKind::Priority, h, on_priority).unwrap();
    assert_eq!(seen.last.as_ref().unwrap().payload, b"urgent".to_vec());

    let report = engine.drain_once(QueueKind::Normal).unwrap();
    assert_eq!(report.outcomes, vec![Outcome { callback: on_normal, ok: true }]);
    let seen = engine.callback(QueueKind::Normal, h, on_normal).unwrap();
    assert_eq!(seen.last.as_ref().unwrap().payload, b"later".to_vec());
    assert_eq!(engine.callback(QueueKind::Priority, h, on_priority).unwrap().deliveries, 1);
}

#[test]
fn messages_leave_in_the_order_they_came_one_per_drain() {
    let (mut engine, h) = active_engine();
    let a = engine.register_callback(QueueKind::Normal, h, Recorder::new(1)).unwrap();
    for t in [11u8, 22, 33] {
        assert_eq!(engine.enqueue(QueueKind::Normal, Message::new(t, h, &[t, t])), Ok(()));
    }
    for (i, t) in [11u8, 22, 33].iter().enumerate() {
        assert_eq!(engine.pending_len(QueueKind::Normal), 3 - i);
        assert!(engine.drain_once(QueueKind::Normal).unwrap().delivered);
        let recorder = engine.callback(QueueKind::Normal, h, a).unwrap();
        assert_eq!(recorder.deliveries, i as u64 + 1);
        assert_eq!(recorder.last.as_ref().unwrap().message_type, *t);
        assert_eq!(recorder.last.as_ref().unwrap().payload, vec![*t, *t]);
    }
    assert_eq!(engine.pending_len(QueueKind::Normal), 0);
}

#[test]
fn a_message_reaches_only_the_callbacks_of_its_destination() {
    let (mut engine, h) = active_engine();
    let g = engine.allocate_handle().unwrap();
    let for_h = engine.register_callback(QueueKind::Normal, h, Recorder::new(1)).unwrap();
    let for_g = engine.register_callback(QueueKind::Normal, g, Recorder::new(2)).unwrap();
    assert_eq!(engine.enqueue(QueueKind::Normal, Message::new(1, g, b"for g")), Ok(()));
    let report = engine.drain_once(QueueKind::Normal).unwrap();
    assert_eq!(report.outcomes, vec![Outcome { callback: for_g, ok: true }]);
    assert_eq!(engine.callback(QueueKind::Normal, h, for_h).unwrap().deliveries, 0);
    assert_eq!(engine.callback(QueueKind::Normal, g, for_g).unwrap().deliveries, 1);
}

#[test]
fn a_message_without_callbacks_is_still_taken_off_the_queue() {
    let (mut engine, h) = active_engine();
    assert_eq!(engine.enqueue(QueueKind::Normal, Message::new(1, h, b"nobody")), Ok(()));
    assert_eq!(engine.enqueue(QueueKind::Normal, Message::new(1, ComponentHandle(200), b"unknown")), Ok(()));
    for left in [1usize, 0] {
        let report = engine.drain_once(QueueKind::Normal).unwrap();
        assert!(report.delivered);
        assert!(report.outcomes.is_empty());
        assert_eq!(engine.pending_len(QueueKind::Normal), left);
    }
}

#[test]
fn a_failing_callback_does_not_stop_the_others() {
    let log = Rc::new(RefCell::new(Vec::new()));
    let mut engine: Engine<Logger> = Engine::new();
    engine.initialize(QueueKind::Priority);
    let h = engine.allocate_handle().unwrap();
    let a = engine.register_callback(QueueKind::Priority, h, logger(1, &log)).unwrap();
    let b = engine
        .register_callback(QueueKind::Priority, h, Logger { id: 2, fails: true, log: log.clone() })
        .unwrap();
    let c = engine.register_callback(QueueKind::Priority, h, logger(3, &log)).unwrap();
    assert_eq!(engine.enqueue(QueueKind::Priority, Message::new(1, h, &[])), Ok(()));
    let report = engine.drain_once(QueueKind::Priority).unwrap();
    assert!(report.delivered);
    assert_eq!(
        report.outcomes,
        vec![
            Outcome { callback: a, ok: true },
            Outcome { callback: b, ok: false },
            Outcome { callback: c, ok: true },
        ]
    );
    let ids: Vec<u8> = log.borrow().iter().map(|seen| seen.0).collect();
    assert_eq!(ids, vec![1, 2, 3]);
    assert_eq!(log.borrow()[2].3, Vec::<u8>::new());
}

#[test]
fn the_recorder_counts_and_keeps_the_last_message() {
    let mut recorder = Recorder::new(4);
    assert_eq!(recorder.id, 4);
    assert_eq!(recorder.deliveries, 0);
    assert!(recorder.last.is_none());
    assert!(recorder.on_message(ComponentHandle(9), 1, b"one"));
    assert!(recorder.on_message(ComponentHandle(8), 2, b"two"));
    assert_eq!(recorder.id, 4);
    assert_eq!(recorder.deliveries, 2);
    let last = recorder.last.as_ref().unwrap();
    assert_eq!((last.destination, last.message_type), (ComponentHandle(8), 2));
    assert_eq!(last.payload, b"two".to_vec());
    recorder.deliveries = u64::MAX;
    assert!(recorder.on_message(ComponentHandle(7), 3, b"three"));
    assert_eq!(recorder.deliveries, u64::MAX);
}

#[test]
fn a_message_owns_a_copy_of_its_payload() {
    let mut bytes = vec![1u8, 2, 3, 4];
    let message = Message::new(200, ComponentHandle(17), &bytes);
    bytes[0] = 9;
    assert_eq!(message.message_type, 200);
    assert_eq!(message.destination, ComponentHandle(17));
    assert_eq!(message.payload, vec![1, 2, 3, 4]);
    assert_eq!(Message::new(0, ComponentHandle(0), &[]).payload, Vec::<u8>::new());
}

#[test]
fn every_error_has_its_status_code() {
    assert_eq!(ErrorKind::UnknownHandle.code(), 1);
    assert_eq!(ErrorKind::HandleStillInUse.code(), 2);
    assert_eq!(ErrorKind::ExhaustedHandleSpace.code(), 3);
    assert_eq!(ErrorKind::UnknownCallback.code(), 4);
    assert_eq!(ErrorKind::QueueNotActive.code(), 5);
    assert_eq!(ErrorKind::QueueFull.code(), 6);
    assert_eq!(ErrorKind::MessagesPending.code(), 7);
}

#[test]
fn queue_type_codes_name_the_queues() {
    assert_eq!(QueueKind::from_code(0), Some(QueueKind::Normal));
    assert_eq!(QueueKind::from_code(1), Some(QueueKind::Priority));
    assert_eq!(QueueKind::from_code(2), None);
    assert_eq!(QueueKind::from_code(255), None);
}
