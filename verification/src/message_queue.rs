//! The engine's operations under the names and with the status codes of
//! the firmware's message-queue interface. A status of 0 is success; every
//! other status is the code of the `ErrorKind` that refused the call.

#![allow(non_snake_case)]
#![allow(non_camel_case_types)]

use vstd::prelude::*;
use crate::callbacks::MessageCallback;
use crate::engine::Engine;
use crate::model::EngineState;
use crate::recorder::Recorder;
use crate::types::{CallbackHandle, ComponentHandle, ErrorKind, Message, MessageView, QueueKind};

verus! {

/// A component handle as the firmware interface passes it.
pub type component_handle_t = u8;

/// A callback handle as the firmware interface passes it.
pub type callback_handle_t = u64;

/// The callback handle that names no registration. No queue ever issues it.
pub const NO_CALLBACK: callback_handle_t = 0;

/// The largest number that selects a test handler; the smallest is 1.
pub const TEST_HANDLERS: u8 = 3;

/// The status code for the outcome of an operation.
pub open spec fn status_of(error: Option<ErrorKind>) -> u8 {
    match error {
        None => 0,
        Some(e) => e.code(),
    }
}

/// Makes the normal queue active.
pub fn initMessageQueue<C: MessageCallback>(engine: &mut Engine<C>)
    requires
        old(engine).wf(),
    ensures
        final(engine).wf(),
        final(engine)@ == old(engine)@.initialize(QueueKind::Normal),
{
    engine.initialize(QueueKind::Normal);
}

/// Makes the priority queue active.
pub fn initPriorityMessageQueue<C: MessageCallback>(engine: &mut Engine<C>)
    requires
        old(engine).wf(),
    ensures
        final(engine).wf(),
        final(engine)@ == old(engine)@.initialize(QueueKind::Priority),
{
    engine.initialize(QueueKind::Priority);
}

/// Whether the queue that `queueType` names is active; a code that names
/// no queue gives `false`.
pub fn checkQueueActive<C: MessageCallback>(engine: &Engine<C>, queueType: u8) -> (active: bool)
    ensures
        active == match QueueKind::from_code(queueType) {
            Some(kind) => engine@.lane(kind).queue.active,
            None => false,
        },
{
    match QueueKind::from_code(queueType) {
        Some(kind) => engine.is_active(kind),
        None => false,
    }
}

/// Ends the life of every component handle, unless a callback is still
/// registered on either queue.
pub fn clearMessageQueueHandles<C: MessageCallback>(engine: &mut Engine<C>) -> (status: u8)
    requires
        old(engine).wf(),
    ensures
        final(engine).wf(),
        final(engine)@ == old(engine)@.clear_handles(),
        status == status_of(old(engine)@.clear_error()),
{
    match engine.clear_handles() {
        Ok(()) => 0,
        Err(e) => e.code(),
    }
}

/// Allocates a component handle. Returns the handle with status 0, or
/// handle 0 with the status of the refusal.
pub fn generateTestComponentHandle<C: MessageCallback>(
    engine: &mut Engine<C>,
) -> (result: (component_handle_t, u8))
    requires
        old(engine).wf(),
    ensures
        final(engine).wf(),
        final(engine)@ == old(engine)@.allocate_handle(),
        match old(engine)@.allocate_result() {
            Ok(h) => result == (h.0, 0u8) && !old(engine)@.live.contains(h),
            Err(e) => result == (0u8, e.code()),
        },
{
    match engine.allocate_handle() {
        Ok(h) => (h.0, 0),
        Err(e) => (0, e.code()),
    }
}

/// Releases the component handle `compHandle`.
pub fn removeTestComponentHandle<C: MessageCallback>(
    engine: &mut Engine<C>,
    compHandle: component_handle_t,
) -> (status: u8)
    requires
        old(engine).wf(),
    ensures
        final(engine).wf(),
        final(engine)@ == old(engine)@.release_handle(ComponentHandle(compHandle)),
        status == status_of(old(engine)@.release_error(ComponentHandle(compHandle))),
{
    match engine.release_handle(ComponentHandle(compHandle)) {
        Ok(()) => 0,
        Err(e) => e.code(),
    }
}

/// Whether `handler` selects one of the test handlers.
pub open spec fn is_test_handler(handler: u8) -> bool {
    1 <= handler <= TEST_HANDLERS
}

/// What registering a test handler does: where `handler` selects one and
/// the engine accepts the registration, a new `Recorder` with that id is
/// registered and its callback handle returned; otherwise nothing changes
/// and `NO_CALLBACK` is returned.
pub open spec fn test_handler_registered(
    before: EngineState<Recorder>,
    kind: QueueKind,
    handler: u8,
    compHandle: component_handle_t,
    after: EngineState<Recorder>,
    handle: callback_handle_t,
) -> bool {
    let h = ComponentHandle(compHandle);
    if is_test_handler(handler) && before.register_error(kind, h) is None {
        &&& handle == before.lane(kind).callbacks.next_handle().0
        &&& handle != NO_CALLBACK
        &&& after == before.register_callback(kind, h, Recorder::fresh(handler))
    } else {
        handle == NO_CALLBACK && after == before
    }
}

/// Registers the test handler `handler` for `compHandle` on the queue `kind`.
fn register_test_handler(
    engine: &mut Engine<Recorder>,
    kind: QueueKind,
    handler: u8,
    compHandle: component_handle_t,
) -> (handle: callback_handle_t)
    requires
        old(engine).wf(),
    ensures
        final(engine).wf(),
        test_handler_registered(old(engine)@, kind, handler, compHandle, final(engine)@, handle),
{
    if handler < 1 || handler > TEST_HANDLERS {
        return NO_CALLBACK;
    }
    match engine.register_callback(kind, ComponentHandle(compHandle), Recorder::new(handler)) {
        Ok(handle) => handle.0,
        Err(_) => NO_CALLBACK,
    }
}

/// Registers the test handler `handler` for `compHandle` on the normal queue.
pub fn registerTestHandlerNormal(
    engine: &mut Engine<Recorder>,
    handler: u8,
    compHandle: component_handle_t,
) -> (handle: callback_handle_t)
    requires
        old(engine).wf(),
    ensures
        final(engine).wf(),
        test_handler_registered(
            old(engine)@,
            QueueKind::Normal,
            handler,
            compHandle,
            final(engine)@,
            handle,
        ),
{
    register_test_handler(engine, QueueKind::Normal, handler, compHandle)
}

/// Removes the registration `callHandle` of `compHandle` on the normal queue.
pub fn unregisterTestHandlerNormal<C: MessageCallback>(
    engine: &mut Engine<C>,
    compHandle: component_handle_t,
    callHandle: callback_handle_t,
) -> (status: u8)
    requires
        old(engine).wf(),
    ensures
        final(engine).wf(),
        final(engine)@ == old(engine)@.unregister_callback(
            QueueKind::Normal,
            ComponentHandle(compHandle),
            CallbackHandle(callHandle),
        ),
        status == status_of(
            old(engine)@.unregister_error(
                QueueKind::Normal,
                ComponentHandle(compHandle),
                CallbackHandle(callHandle),
            ),
        ),
{
    match engine.unregister_callback(
        QueueKind::Normal,
        ComponentHandle(compHandle),
        CallbackHandle(callHandle),
    ) {
        Ok(_) => 0,
        Err(e) => e.code(),
    }
}

/// Sends a message of type `msg_type` with a copy of `data` as its payload
/// to `compHandle` through the normal queue.
pub fn createNewMessageNormal<C: MessageCallback>(
    engine: &mut Engine<C>,
    msg_type: u8,
    compHandle: component_handle_t,
    data: &[u8],
) -> (status: u8)
    requires
        old(engine).wf(),
    ensures
        final(engine).wf(),
        final(engine)@ == old(engine)@.enqueue(
            QueueKind::Normal,
            MessageView {
                message_type: msg_type,
                destination: ComponentHandle(compHandle),
                payload: data@,
            },
        ),
        status == status_of(old(engine)@.enqueue_error(QueueKind::Normal)),
{
    let message = Message::new(msg_type, ComponentHandle(compHandle), data);
    match engine.enqueue(QueueKind::Normal, message) {
        Ok(()) => 0,
        Err(e) => e.code(),
    }
}

/// Registers the test handler `handler` for `compHandle` on the priority queue.
pub fn registerTestHandlerPriority(
    engine: &mut Engine<Recorder>,
    handler: u8,
    compHandle: component_handle_t,
) -> (handle: callback_handle_t)
    requires
        old(engine).wf(),
    ensures
        final(engine).wf(),
        test_handler_registered(
            old(engine)@,
            QueueKind::Priority,
            handler,
            compHandle,
            final(engine)@,
            handle,
        ),
{
    register_test_handler(engine, QueueKind::Priority, handler, compHandle)
}

/// Removes the registration `callHandle` of `compHandle` on the priority queue.
pub fn unregisterTestHandlerPriority<C: MessageCallback>(
    engine: &mut Engine<C>,
    compHandle: component_handle_t,
    callHandle: callback_handle_t,
) -> (status: u8)
    requires
        old(engine).wf(),
    ensures
        final(engine).wf(),
        final(engine)@ == old(engine)@.unregister_callback(
            QueueKind::Priority,
            ComponentHandle(compHandle),
            CallbackHandle(callHandle),
        ),
        status == status_of(
            old(engine)@.unregister_error(
                QueueKind::Priority,
                ComponentHandle(compHandle),
                CallbackHandle(callHandle),
            ),
        ),
{
    match engine.unregister_callback(
        QueueKind::Priority,
        ComponentHandle(compHandle),
        CallbackHandle(callHandle),
    ) {
        Ok(_) => 0,
        Err(e) => e.code(),
    }
}

/// Sends a message of type `msg_type` with a copy of `data` as its payload
/// to `compHandle` through the priority queue.
pub fn createNewMessagePriority<C: MessageCallback>(
    engine: &mut Engine<C>,
    msg_type: u8,
    compHandle: component_handle_t,
    data: &[u8],
) -> (status: u8)
    requires
        old(engine).wf(),
    ensures
        final(engine).wf(),
        final(engine)@ == old(engine)@.enqueue(
            QueueKind::Priority,
            MessageView {
                message_type: msg_type,
                destination: ComponentHandle(compHandle),
                payload: data@,
            },
        ),
        status == status_of(old(engine)@.enqueue_error(QueueKind::Priority)),
{
    let message = Message::new(msg_type, ComponentHandle(compHandle), data);
    match engine.enqueue(QueueKind::Priority, message) {
        Ok(()) => 0,
        Err(e) => e.code(),
    }
}

} // verus!
