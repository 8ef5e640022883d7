//! The engine as a mathematical state, and each operation as a function
//! from state to state. The executable engine is proved to follow these.

use vstd::prelude::*;
use crate::callbacks::{CallbackTable, MessageCallback, Outcome};
use crate::handles::{exhausted, first_free};
use crate::queue::QueueState;
use crate::types::{CallbackHandle, ComponentHandle, ErrorKind, MessageView, QueueKind};

verus! {

/// One delivery path: a queue and the callbacks registered on it.
#[verifier::ext_equal]
pub struct LaneState<C> {
    pub queue: QueueState,
    pub callbacks: CallbackTable<C>,
}

/// The whole engine: the live component handles and the two delivery paths.
#[verifier::ext_equal]
pub struct EngineState<C> {
    pub live: Set<ComponentHandle>,
    pub normal: LaneState<C>,
    pub priority: LaneState<C>,
}

impl<C: MessageCallback> LaneState<C> {
    /// A lane as it is configured: queue uninitialized, nothing registered.
    pub open spec fn fresh(capacity: Option<nat>) -> LaneState<C> {
        LaneState { queue: QueueState::fresh(capacity), callbacks: CallbackTable::empty() }
    }

    /// Queue and callback table are both valid.
    pub open spec fn valid(self) -> bool {
        self.queue.valid() && self.callbacks.valid()
    }
}

impl<C: MessageCallback> EngineState<C> {
    /// The engine as it is built: no live handle, both lanes fresh.
    pub open spec fn fresh(normal: Option<nat>, priority: Option<nat>) -> EngineState<C> {
        EngineState {
            live: Set::empty(),
            normal: LaneState::fresh(normal),
            priority: LaneState::fresh(priority),
        }
    }

    /// The lane that `kind` selects.
    pub open spec fn lane(self, kind: QueueKind) -> LaneState<C> {
        match kind {
            QueueKind::Normal => self.normal,
            QueueKind::Priority => self.priority,
        }
    }

    /// This state with `lane` in the place that `kind` selects.
    pub open spec fn with_lane(self, kind: QueueKind, lane: LaneState<C>) -> EngineState<C> {
        match kind {
            QueueKind::Normal => EngineState { normal: lane, ..self },
            QueueKind::Priority => EngineState { priority: lane, ..self },
        }
    }

    /// The messages pending on the queue `kind`, oldest first.
    pub open spec fn pending(self, kind: QueueKind) -> Seq<MessageView> {
        self.lane(kind).queue.pending
    }

    /// At least one callback is registered for `h`, on either queue.
    pub open spec fn in_use(self, h: ComponentHandle) -> bool {
        self.normal.callbacks.in_use(h) || self.priority.callbacks.in_use(h)
    }

    /// Both lanes are valid, and callbacks are registered for live handles only.
    pub open spec fn valid(self) -> bool {
        &&& self.normal.valid()
        &&& self.priority.valid()
        &&& forall|h: ComponentHandle| #[trigger] self.in_use(h) ==> self.live.contains(h)
    }

    /// What `allocate_handle` returns.
    pub open spec fn allocate_result(self) -> Result<ComponentHandle, ErrorKind> {
        if exhausted(self.live) {
            Err(ErrorKind::ExhaustedHandleSpace)
        } else {
            Ok(first_free(self.live))
        }
    }

    /// The state after `allocate_handle`.
    pub open spec fn allocate_handle(self) -> EngineState<C> {
        match self.allocate_result() {
            Ok(h) => EngineState { live: self.live.insert(h), ..self },
            Err(_) => self,
        }
    }

    /// Why `release_handle` refuses, if it does.
    pub open spec fn release_error(self, h: ComponentHandle) -> Option<ErrorKind> {
        if !self.live.contains(h) {
            Some(ErrorKind::UnknownHandle)
        } else if self.in_use(h) {
            Some(ErrorKind::HandleStillInUse)
        } else {
            None
        }
    }

    /// The state after `release_handle`.
    pub open spec fn release_handle(self, h: ComponentHandle) -> EngineState<C> {
        if self.release_error(h) is None {
            EngineState { live: self.live.remove(h), ..self }
        } else {
            self
        }
    }

    /// Why `clear_handles` refuses, if it does.
    pub open spec fn clear_error(self) -> Option<ErrorKind> {
        if self.normal.callbacks.idle() && self.priority.callbacks.idle() {
            None
        } else {
            Some(ErrorKind::HandleStillInUse)
        }
    }

    /// The state after `clear_handles`.
    pub open spec fn clear_handles(self) -> EngineState<C> {
        if self.clear_error() is None {
            EngineState { live: Set::empty(), ..self }
        } else {
            self
        }
    }

    /// Why `register_callback` refuses, if it does.
    pub open spec fn register_error(
        self,
        kind: QueueKind,
        h: ComponentHandle,
    ) -> Option<ErrorKind> {
        if !self.live.contains(h) {
            Some(ErrorKind::UnknownHandle)
        } else {
            self.lane(kind).callbacks.register_error()
        }
    }

    /// The state after `register_callback`.
    pub open spec fn register_callback(
        self,
        kind: QueueKind,
        h: ComponentHandle,
        callback: C,
    ) -> EngineState<C> {
        if self.register_error(kind, h) is None {
            let lane = self.lane(kind);
            self.with_lane(
                kind,
                LaneState { callbacks: lane.callbacks.register(h, callback), ..lane },
            )
        } else {
            self
        }
    }

    /// Why `unregister_callback` refuses, if it does.
    pub open spec fn unregister_error(
        self,
        kind: QueueKind,
        h: ComponentHandle,
        callback: CallbackHandle,
    ) -> Option<ErrorKind> {
        self.lane(kind).callbacks.unregister_error(h, callback)
    }

    /// The state after `unregister_callback`.
    pub open spec fn unregister_callback(
        self,
        kind: QueueKind,
        h: ComponentHandle,
        callback: CallbackHandle,
    ) -> EngineState<C> {
        let lane = self.lane(kind);
        self.with_lane(
            kind,
            LaneState { callbacks: lane.callbacks.unregister(h, callback), ..lane },
        )
    }

    /// The state after `initialize`.
    pub open spec fn initialize(self, kind: QueueKind) -> EngineState<C> {
        let lane = self.lane(kind);
        self.with_lane(kind, LaneState { queue: lane.queue.initialize(), ..lane })
    }

    /// Why `enqueue` refuses, if it does.
    pub open spec fn enqueue_error(self, kind: QueueKind) -> Option<ErrorKind> {
        self.lane(kind).queue.enqueue_error()
    }

    /// The state after `enqueue`.
    pub open spec fn enqueue(self, kind: QueueKind, message: MessageView) -> EngineState<C> {
        let lane = self.lane(kind);
        self.with_lane(kind, LaneState { queue: lane.queue.enqueue(message), ..lane })
    }

    /// Why `uninitialize` refuses, if it does.
    pub open spec fn uninitialize_error(self, kind: QueueKind) -> Option<ErrorKind> {
        self.lane(kind).queue.uninitialize_error()
    }

    /// The state after `uninitialize`.
    pub open spec fn uninitialize(self, kind: QueueKind) -> EngineState<C> {
        let lane = self.lane(kind);
        self.with_lane(kind, LaneState { queue: lane.queue.uninitialize(), ..lane })
    }

    /// Why `drain_once` refuses, if it does.
    pub open spec fn drain_error(self, kind: QueueKind) -> Option<ErrorKind> {
        self.lane(kind).queue.take_error()
    }

    /// `after`, `delivered` and `outcomes` are a possible result of
    /// `drain_once` on the queue `kind`. Where no message is at the head,
    /// nothing changes and nothing is delivered. Otherwise the head message
    /// leaves the queue and is fanned out over the callbacks registered
    /// for its destination on that queue, and the rest of the engine
    /// stays as it was.
    pub open spec fn drained(
        self,
        kind: QueueKind,
        after: EngineState<C>,
        delivered: bool,
        outcomes: Seq<Outcome>,
    ) -> bool {
        match self.lane(kind).queue.head() {
            None => after == self && !delivered && outcomes.len() == 0,
            Some(message) => {
                &&& delivered
                &&& after.live == self.live
                &&& after.lane(kind.other()) == self.lane(kind.other())
                &&& after.lane(kind).queue == self.lane(kind).queue.take()
                &&& self.lane(kind).callbacks.dispatched(
                    message,
                    after.lane(kind).callbacks,
                    outcomes,
                )
            },
        }
    }
}

/// Callbacks stay registered for live handles only, where a step neither
/// registers a callback for a new handle nor ends the life of a handle.
pub proof fn lemma_registrations_covered<C: MessageCallback>(
    before: EngineState<C>,
    after: EngineState<C>,
)
    requires
        forall|h: ComponentHandle| #[trigger] before.in_use(h) ==> before.live.contains(h),
        forall|h: ComponentHandle| #[trigger] after.in_use(h) ==> before.in_use(h),
        forall|h: ComponentHandle| before.live.contains(h) ==> after.live.contains(h),
    ensures
        forall|h: ComponentHandle| #[trigger] after.in_use(h) ==> after.live.contains(h),
{
    assert forall|h: ComponentHandle| #[trigger] after.in_use(h) implies after.live.contains(h) by {
        assert(before.in_use(h));
    }
}

} // verus!
