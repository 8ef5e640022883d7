//! The engine: one handle registry and two independent lanes, each a
//! queue with its own callback registry, and the drain step that
//! dispatches one message.

use vstd::prelude::*;
use crate::callbacks::{CallbackRegistry, MessageCallback, Outcome};
use crate::handles::HandleRegistry;
use crate::laws::{law_callback_handle_fresh, law_stale_callback_handle};
use crate::model::{lemma_registrations_covered, EngineState, LaneState};
use crate::queue::MessageQueue;
use crate::types::{CallbackHandle, ComponentHandle, ErrorKind, Message, QueueKind};

verus! {

/// What one call of `drain_once` did.
#[derive(Debug)]
pub struct Dispatch {
    /// Whether a message was taken off the queue and dispatched.
    pub delivered: bool,
    /// The report of each callback that was invoked, in invocation order.
    pub outcomes: Vec<Outcome>,
}

/// A queue and its callback registry. The two lanes of an engine share
/// nothing.
struct Lane<C> {
    queue: MessageQueue,
    callbacks: CallbackRegistry<C>,
}

impl<C: MessageCallback> View for Lane<C> {
    type V = LaneState<C>;

    closed spec fn view(&self) -> LaneState<C> {
        LaneState { queue: self.queue@, callbacks: self.callbacks@ }
    }
}

impl<C: MessageCallback> Lane<C> {
    spec fn wf(&self) -> bool {
        self.queue.wf() && self.callbacks.wf()
    }

    fn new(capacity: Option<usize>) -> (lane: Lane<C>)
        ensures
            lane.wf(),
            lane@ == LaneState::<C>::fresh(
                match capacity {
                    Some(limit) => Some(limit as nat),
                    None => None,
                },
            ),
    {
        Lane { queue: MessageQueue::new(capacity), callbacks: CallbackRegistry::new() }
    }

    /// Takes the head message, if there is one, and fans it out.
    fn drain_once(&mut self) -> (result: Result<Dispatch, ErrorKind>)
        requires
            old(self).wf(),
        ensures
            final(self).wf(),
            final(self)@.queue == old(self)@.queue.take(),
            match result {
                Ok(report) => {
                    &&& old(self)@.queue.take_error() is None
                    &&& match old(self)@.queue.head() {
                        None => final(self)@ == old(self)@ && !report.delivered
                            && report.outcomes@.len() == 0,
                        Some(message) => report.delivered && old(self)@.callbacks.dispatched(
                            message,
                            final(self)@.callbacks,
                            report.outcomes@,
                        ),
                    }
                },
                Err(e) => old(self)@.queue.take_error() == Some(e) && final(self)@ == old(self)@,
            },
    {
        match self.queue.take() {
            Err(e) => Err(e),
            Ok(None) => Ok(Dispatch { delivered: false, outcomes: Vec::new() }),
            Ok(Some(message)) => {
                let outcomes = self.callbacks.dispatch(&message);
                Ok(Dispatch { delivered: true, outcomes })
            },
        }
    }
}

/// The dispatch engine. It owns the handle registry, both queues and both
/// callback registries; `C` is the type of the callbacks it holds.
pub struct Engine<C> {
    handles: HandleRegistry,
    normal: Lane<C>,
    priority: Lane<C>,
}

impl<C: MessageCallback> View for Engine<C> {
    type V = EngineState<C>;

    closed spec fn view(&self) -> EngineState<C> {
        EngineState { live: self.handles@, normal: self.normal@, priority: self.priority@ }
    }
}

impl<C: MessageCallback> Engine<C> {
    /// The representation invariant. Every constructor establishes it and
    /// every method keeps it.
    pub closed spec fn wf(&self) -> bool {
        &&& self.handles.wf()
        &&& self.normal.wf()
        &&& self.priority.wf()
        &&& forall|h: ComponentHandle| #[trigger] self@.in_use(h) ==> self@.live.contains(h)
    }

    /// A well-formed engine is in a valid state.
    pub proof fn lemma_wf_valid(&self)
        requires
            self.wf(),
        ensures
            self@.valid(),
    {
        self.normal.queue.lemma_wf_valid();
        self.priority.queue.lemma_wf_valid();
        self.normal.callbacks.lemma_wf_valid();
        self.priority.callbacks.lemma_wf_valid();
    }

    /// An engine with no live handle, both queues uninitialized and
    /// unbounded, and no callback registered.
    pub fn new() -> (engine: Engine<C>)
        ensures
            engine.wf(),
            engine@ == EngineState::<C>::fresh(None, None),
    {
        Engine::with_capacities(None, None)
    }

    /// As `new`, with a fixed capacity for each queue; `None` leaves a
    /// queue unbounded.
    pub fn with_capacities(normal: Option<usize>, priority: Option<usize>) -> (engine: Engine<C>)
        ensures
            engine.wf(),
            engine@ == EngineState::<C>::fresh(
                match normal {
                    Some(limit) => Some(limit as nat),
                    None => None,
                },
                match priority {
                    Some(limit) => Some(limit as nat),
                    None => None,
                },
            ),
    {
        let engine = Engine {
            handles: HandleRegistry::new(),
            normal: Lane::new(normal),
            priority: Lane::new(priority),
        };
        engine
    }

    /// Returns a handle that is not live and makes it live: the smallest
    /// such identifier. Refuses with `ExhaustedHandleSpace` when none is left.
    pub fn allocate_handle(&mut self) -> (result: Result<ComponentHandle, ErrorKind>)
        requires
            old(self).wf(),
        ensures
            final(self).wf(),
            result == old(self)@.allocate_result(),
            final(self)@ == old(self)@.allocate_handle(),
            result matches Ok(h) ==> !old(self)@.live.contains(h) && final(self)@.live.contains(h),
    {
        let result = self.handles.allocate();
        proof {
            lemma_registrations_covered(old(self)@, self@);
        }
        result
    }

    /// Ends the life of `h`. Refuses with `UnknownHandle` when `h` is not
    /// live, and with `HandleStillInUse` while a callback is registered for
    /// it on either queue: registrations are never dropped on the quiet.
    pub fn release_handle(&mut self, h: ComponentHandle) -> (result: Result<(), ErrorKind>)
        requires
            old(self).wf(),
        ensures
            final(self).wf(),
            final(self)@ == old(self)@.release_handle(h),
            match result {
                Ok(()) => old(self)@.release_error(h) is None,
                Err(e) => old(self)@.release_error(h) == Some(e),
            },
    {
        if !self.handles.contains(h) {
            return Err(ErrorKind::UnknownHandle);
        }
        if self.normal.callbacks.in_use(h) || self.priority.callbacks.in_use(h) {
            return Err(ErrorKind::HandleStillInUse);
        }
        let released = self.handles.release(h);
        proof {
            let after = self@;
            assert forall|g: ComponentHandle| #[trigger] after.in_use(g) implies after.live.contains(
                g,
            ) by {
                assert(old(self)@.in_use(g));
            }
        }
        released
    }

    /// Ends the life of every handle. Refuses with `HandleStillInUse` while
    /// any callback is registered on either queue.
    pub fn clear_handles(&mut self) -> (result: Result<(), ErrorKind>)
        requires
            old(self).wf(),
        ensures
            final(self).wf(),
            final(self)@ == old(self)@.clear_handles(),
            match result {
                Ok(()) => old(self)@.clear_error() is None,
                Err(e) => old(self)@.clear_error() == Some(e),
            },
    {
        if !self.normal.callbacks.is_idle() || !self.priority.callbacks.is_idle() {
            return Err(ErrorKind::HandleStillInUse);
        }
        self.handles.clear();
        Ok(())
    }

    /// Whether `h` is live.
    pub fn is_live(&self, h: ComponentHandle) -> (live: bool)
        requires
            self.wf(),
        ensures
            live == self@.live.contains(h),
    {
        self.handles.contains(h)
    }

    /// Registers `callback` for `h` on the queue `kind`, behind the
    /// callbacks that `h` already has there, and returns its handle: one
    /// that this queue never issued before. Refuses with `UnknownHandle`
    /// when `h` is not live, and with `ExhaustedHandleSpace` once the queue
    /// has issued every callback handle.
    pub fn register_callback(
        &mut self,
        kind: QueueKind,
        h: ComponentHandle,
        callback: C,
    ) -> (result: Result<CallbackHandle, ErrorKind>)
        requires
            old(self).wf(),
        ensures
            final(self).wf(),
            final(self)@ == old(self)@.register_callback(kind, h, callback),
            match result {
                Ok(handle) => old(self)@.register_error(kind, h) is None && handle == old(
                    self,
                )@.lane(kind).callbacks.next_handle(),
                Err(e) => old(self)@.register_error(kind, h) == Some(e),
            },
            result matches Ok(handle) ==> forall|g: ComponentHandle|
                !old(self)@.lane(kind).callbacks.holds(g, handle),
    {
        if !self.handles.contains(h) {
            return Err(ErrorKind::UnknownHandle);
        }
        proof {
            self.lemma_wf_valid();
            if self@.register_error(kind, h) is None {
                law_callback_handle_fresh(self@, kind, h, callback);
            }
        }
        let result = match kind {
            QueueKind::Normal => self.normal.callbacks.register(h, callback),
            QueueKind::Priority => self.priority.callbacks.register(h, callback),
        };
        proof {
            let after = self@;
            assert forall|g: ComponentHandle| #[trigger] after.in_use(g) implies after.live.contains(
                g,
            ) by {
                if g != h {
                    assert(old(self)@.in_use(g));
                }
            }
        }
        result
    }

    /// Removes the registration `callback` of `h` on the queue `kind` and
    /// hands the callback back; the callbacks that remain keep their order.
    /// Refuses with `UnknownCallback` when `callback` is not registered
    /// for `h` on that queue.
    pub fn unregister_callback(
        &mut self,
        kind: QueueKind,
        h: ComponentHandle,
        callback: CallbackHandle,
    ) -> (result: Result<C, ErrorKind>)
        requires
            old(self).wf(),
        ensures
            final(self).wf(),
            final(self)@ == old(self)@.unregister_callback(kind, h, callback),
            match result {
                Ok(c) => {
                    let table = old(self)@.lane(kind).callbacks;
                    table.holds(h, callback) && c == table.of(h)[table.position(
                        h,
                        callback,
                    )].callback
                },
                Err(e) => old(self)@.unregister_error(kind, h, callback) == Some(e),
            },
            result is Ok ==> forall|g: ComponentHandle|
                !final(self)@.lane(kind).callbacks.holds(g, callback),
    {
        proof {
            self.lemma_wf_valid();
            if self@.unregister_error(kind, h, callback) is None {
                law_stale_callback_handle(self@, kind, h, callback);
            }
        }
        let result = match kind {
            QueueKind::Normal => self.normal.callbacks.unregister(h, callback),
            QueueKind::Priority => self.priority.callbacks.unregister(h, callback),
        };
        proof {
            lemma_registrations_covered(old(self)@, self@);
        }
        result
    }

    /// The callback registered for `h` on the queue `kind` under
    /// `callback`, if there is one.
    pub fn callback(
        &self,
        kind: QueueKind,
        h: ComponentHandle,
        callback: CallbackHandle,
    ) -> (found: Option<&C>)
        requires
            self.wf(),
        ensures
            match found {
                Some(c) => {
                    let table = self@.lane(kind).callbacks;
                    table.holds(h, callback) && *c == table.of(h)[table.position(
                        h,
                        callback,
                    )].callback
                },
                None => !self@.lane(kind).callbacks.holds(h, callback),
            },
    {
        match kind {
            QueueKind::Normal => self.normal.callbacks.get(h, callback),
            QueueKind::Priority => self.priority.callbacks.get(h, callback),
        }
    }

    /// The number of callbacks registered for `h` on the queue `kind`.
    pub fn callback_count(&self, kind: QueueKind, h: ComponentHandle) -> (count: usize)
        requires
            self.wf(),
        ensures
            count == self@.lane(kind).callbacks.of(h).len(),
    {
        match kind {
            QueueKind::Normal => self.normal.callbacks.count(h),
            QueueKind::Priority => self.priority.callbacks.count(h),
        }
    }

    /// Makes the queue `kind` active. An active queue stays as it is.
    pub fn initialize(&mut self, kind: QueueKind)
        requires
            old(self).wf(),
        ensures
            final(self).wf(),
            final(self)@ == old(self)@.initialize(kind),
    {
        match kind {
            QueueKind::Normal => self.normal.queue.initialize(),
            QueueKind::Priority => self.priority.queue.initialize(),
        }
        proof {
            lemma_registrations_covered(old(self)@, self@);
        }
    }

    /// Whether the queue `kind` is active.
    pub fn is_active(&self, kind: QueueKind) -> (active: bool)
        ensures
            active == self@.lane(kind).queue.active,
    {
        match kind {
            QueueKind::Normal => self.normal.queue.is_active(),
            QueueKind::Priority => self.priority.queue.is_active(),
        }
    }

    /// The number of messages pending on the queue `kind`.
    pub fn pending_len(&self, kind: QueueKind) -> (count: usize)
        ensures
            count == self@.pending(kind).len(),
    {
        match kind {
            QueueKind::Normal => self.normal.queue.len(),
            QueueKind::Priority => self.priority.queue.len(),
        }
    }

    /// Appends `message` to the queue `kind`, which takes ownership of the
    /// payload. Refuses with `QueueNotActive` on an inactive queue and with
    /// `QueueFull` on one that has reached its capacity; a refused message
    /// changes nothing.
    pub fn enqueue(&mut self, kind: QueueKind, message: Message) -> (result: Result<(), ErrorKind>)
        requires
            old(self).wf(),
        ensures
            final(self).wf(),
            final(self)@ == old(self)@.enqueue(kind, message@),
            match result {
                Ok(()) => old(self)@.enqueue_error(kind) is None,
                Err(e) => old(self)@.enqueue_error(kind) == Some(e),
            },
            !old(self)@.lane(kind).queue.active ==> result == Err::<(), ErrorKind>(
                ErrorKind::QueueNotActive,
            ) && final(self)@ == old(self)@,
    {
        let result = match kind {
            QueueKind::Normal => self.normal.queue.enqueue(message),
            QueueKind::Priority => self.priority.queue.enqueue(message),
        };
        proof {
            lemma_registrations_covered(old(self)@, self@);
        }
        result
    }

    /// Makes the queue `kind` inactive. Refuses with `MessagesPending`
    /// while messages are pending, and then changes nothing: queued data is
    /// never lost on the quiet. An inactive queue stays as it is.
    pub fn uninitialize(&mut self, kind: QueueKind) -> (result: Result<(), ErrorKind>)
        requires
            old(self).wf(),
        ensures
            final(self).wf(),
            final(self)@ == old(self)@.uninitialize(kind),
            match result {
                Ok(()) => old(self)@.uninitialize_error(kind) is None,
                Err(e) => old(self)@.uninitialize_error(kind) == Some(e),
            },
    {
        let result = match kind {
            QueueKind::Normal => self.normal.queue.uninitialize(),
            QueueKind::Priority => self.priority.queue.uninitialize(),
        };
        proof {
            lemma_registrations_covered(old(self)@, self@);
        }
        result
    }

    /// Processes at most one message of the queue `kind`. Refuses with
    /// `QueueNotActive` on an inactive queue. On an empty active queue
    /// nothing is delivered, which is no error. Otherwise the head message
    /// leaves the queue and every callback registered for its destination
    /// on this queue is invoked with it, once each and in registration
    /// order; the payload is released when the last one has returned.
    pub fn drain_once(&mut self, kind: QueueKind) -> (result: Result<Dispatch, ErrorKind>)
        requires
            old(self).wf(),
        ensures
            final(self).wf(),
            match result {
                Ok(report) => {
                    &&& old(self)@.drain_error(kind) is None
                    &&& old(self)@.drained(kind, final(self)@, report.delivered, report.outcomes@)
                },
                Err(e) => old(self)@.drain_error(kind) == Some(e) && final(self)@ == old(self)@,
            },
            old(self)@.lane(kind).queue.active && old(self)@.pending(kind).len() == 0 ==> {
                &&& result matches Ok(report)
                &&& !report.delivered
                &&& final(self)@ == old(self)@
            },
    {
        let result = match kind {
            QueueKind::Normal => self.normal.drain_once(),
            QueueKind::Priority => self.priority.drain_once(),
        };
        proof {
            lemma_registrations_covered(old(self)@, self@);
        }
        result
    }
}

} // verus!
