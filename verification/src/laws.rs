//! Properties of the engine that hold of every state and every sequence
//! of calls, proved over the model that the executable engine follows.

use vstd::prelude::*;
use vstd::multiset::Multiset;
use crate::callbacks::{
    lemma_dispatched_valid, lemma_register_valid, lemma_unregister_valid, MessageCallback, Outcome,
    Registration,
};
use crate::model::{lemma_registrations_covered, EngineState};
use crate::types::{CallbackHandle, ComponentHandle, ErrorKind, MessageView, QueueKind};

verus! {

/// One call on the handle registry.
pub enum HandleOp {
    Allocate,
    Release(ComponentHandle),
}

/// The state after the calls `ops` on `start`, and the handles that
/// those calls handed out and that were not released since, each as
/// often as some caller still holds it.
pub open spec fn after_handle_ops<C: MessageCallback>(
    start: EngineState<C>,
    ops: Seq<HandleOp>,
) -> (EngineState<C>, Multiset<ComponentHandle>)
    decreases ops.len(),
{
    if ops.len() == 0 {
        (start, Multiset::empty())
    } else {
        let (state, held) = after_handle_ops(start, ops.drop_last());
        match ops.last() {
            HandleOp::Allocate => match state.allocate_result() {
                Ok(h) => (state.allocate_handle(), held.insert(h)),
                Err(_) => (state, held),
            },
            HandleOp::Release(h) => if state.release_error(h) is None {
                (state.release_handle(h), held.remove(h))
            } else {
                (state, held)
            },
        }
    }
}

/// Whatever sequence of allocations and releases is made, no handle is
/// held twice at the same time, and every handle held is live.
pub proof fn law_live_handles_distinct<C: MessageCallback>(
    start: EngineState<C>,
    ops: Seq<HandleOp>,
)
    ensures
        forall|h: ComponentHandle| #[trigger] after_handle_ops(start, ops).1.count(h) <= 1,
        forall|h: ComponentHandle| #[trigger]
            after_handle_ops(start, ops).1.count(h) == 1 ==> after_handle_ops(
                start,
                ops,
            ).0.live.contains(h),
    decreases ops.len(),
{
    broadcast use vstd::multiset::group_multiset_axioms;

    if ops.len() > 0 {
        law_live_handles_distinct(start, ops.drop_last());
        let (state, held) = after_handle_ops(start, ops.drop_last());
        let (next, holding) = after_handle_ops(start, ops);
        assert forall|h: ComponentHandle| #[trigger] holding.count(h) <= 1 && (holding.count(h) == 1
            ==> next.live.contains(h)) by {
            assert(held.count(h) <= 1);
            assert(held.count(h) == 1 ==> state.live.contains(h));
            match ops.last() {
                HandleOp::Allocate => {
                    if let Ok(fresh) = state.allocate_result() {
                        crate::handles::lemma_first_free_exists(state.live);
                        assert(!state.live.contains(fresh));
                        assert(held.count(fresh) == 0);
                    }
                },
                HandleOp::Release(released) => {},
            }
        }
    }
}

/// The states that consecutive calls of `drain_once` on the queue `kind`
/// lead through, with what each call delivered: `states[0]` is the state
/// before the first call, `states[i + 1]` the state after call `i`.
pub open spec fn drain_calls<C: MessageCallback>(
    kind: QueueKind,
    states: Seq<EngineState<C>>,
    delivered: Seq<bool>,
    outcomes: Seq<Seq<Outcome>>,
) -> bool {
    &&& states.len() == delivered.len() + 1
    &&& outcomes.len() == delivered.len()
    &&& forall|i: int|
        0 <= i < delivered.len() ==> (#[trigger] states[i]).drained(
            kind,
            states[i + 1],
            delivered[i],
            outcomes[i],
        )
}

/// Draining an empty active queue delivers nothing, is no error and
/// changes nothing, however many times in a row it is done.
pub proof fn law_idle_drains<C: MessageCallback>(
    kind: QueueKind,
    states: Seq<EngineState<C>>,
    delivered: Seq<bool>,
    outcomes: Seq<Seq<Outcome>>,
)
    requires
        drain_calls(kind, states, delivered, outcomes),
        states[0].lane(kind).queue.active,
        states[0].pending(kind).len() == 0,
    ensures
        forall|i: int| 0 <= i < states.len() ==> #[trigger] states[i] == states[0],
        forall|i: int|
            0 <= i < delivered.len() ==> (#[trigger] states[i]).drain_error(kind) is None
                && !delivered[i] && outcomes[i].len() == 0,
    decreases delivered.len(),
{
    if delivered.len() > 0 {
        let n = delivered.len() as int;
        assert(drain_calls(
            kind,
            states.drop_last(),
            delivered.drop_last(),
            outcomes.drop_last(),
        )) by {
            assert forall|i: int| 0 <= i < n - 1 implies (#[trigger] states.drop_last()[i]).drained(
                kind,
                states.drop_last()[i + 1],
                delivered.drop_last()[i],
                outcomes.drop_last()[i],
            ) by {
                assert(states[i].drained(kind, states[i + 1], delivered[i], outcomes[i]));
            }
        }
        law_idle_drains(kind, states.drop_last(), delivered.drop_last(), outcomes.drop_last());
        assert(states.drop_last()[n - 1] == states[0]);
        assert(states[n - 1].drained(kind, states[n], delivered[n - 1], outcomes[n - 1]));
        assert forall|i: int| 0 <= i < states.len() implies #[trigger] states[i] == states[0] by {
            if i < n {
                assert(states.drop_last()[i] == states[0]);
            }
        }
    }
}

/// Enqueueing on one queue is invisible to the other: it leaves the other
/// lane as it was, a drain of the other queue leaves the message pending
/// where it was put, and that drain delivers exactly what it would have
/// delivered without the message, whatever handle the message is for.
pub proof fn law_queues_independent<C: MessageCallback>(
    state: EngineState<C>,
    kind: QueueKind,
    message: MessageView,
    after: EngineState<C>,
    delivered: bool,
    outcomes: Seq<Outcome>,
)
    ensures
        state.enqueue(kind, message).lane(kind.other()) == state.lane(kind.other()),
        state.drained(kind.other(), after, delivered, outcomes) ==> state.enqueue(
            kind,
            message,
        ).drained(
            kind.other(),
            after.with_lane(kind, state.enqueue(kind, message).lane(kind)),
            delivered,
            outcomes,
        ),
        state.enqueue(kind, message).drained(kind.other(), after, delivered, outcomes) ==> {
            &&& after.lane(kind) == state.enqueue(kind, message).lane(kind)
            &&& state.drained(
                kind.other(),
                after.with_lane(kind, state.lane(kind)),
                delivered,
                outcomes,
            )
        },
{
    let other = kind.other();
    let sent = state.enqueue(kind, message);
    assert(other.other() == kind);
    assert(sent.lane(other) == state.lane(other));
    if state.drained(other, after, delivered, outcomes) {
        let moved = after.with_lane(kind, sent.lane(kind));
        if state.lane(other).queue.head() is None {
            assert(moved =~= sent);
        }
        assert(sent.drained(other, moved, delivered, outcomes));
    }
    if sent.drained(other, after, delivered, outcomes) {
        let back = after.with_lane(kind, state.lane(kind));
        if sent.lane(other).queue.head() is None {
            assert(back =~= state);
        }
        assert(state.drained(other, back, delivered, outcomes));
    }
}

/// The state after registering `callbacks`, first to last, for `h` on the
/// queue `kind`.
pub open spec fn register_all<C: MessageCallback>(
    state: EngineState<C>,
    kind: QueueKind,
    h: ComponentHandle,
    callbacks: Seq<C>,
) -> EngineState<C>
    decreases callbacks.len(),
{
    if callbacks.len() == 0 {
        state
    } else {
        register_all(state, kind, h, callbacks.drop_last()).register_callback(
            kind,
            h,
            callbacks.last(),
        )
    }
}

/// The handle under which the callback at `index` of a run of
/// registrations is registered, on a queue that had issued `issued`
/// handles before the run.
pub open spec fn handle_in_run(issued: nat, index: int) -> CallbackHandle {
    CallbackHandle((issued + 1 + index) as u64)
}

/// Registering a run of callbacks for a live handle appends them to the
/// registrations of that handle, in order and under consecutive handles,
/// and leaves everything else as it was.
pub proof fn lemma_register_all<C: MessageCallback>(
    state: EngineState<C>,
    kind: QueueKind,
    h: ComponentHandle,
    callbacks: Seq<C>,
)
    requires
        state.live.contains(h),
        state.lane(kind).callbacks.issued + callbacks.len() <= u64::MAX,
    ensures
        ({
            let after = register_all(state, kind, h, callbacks);
            let table = state.lane(kind).callbacks;
            &&& after.live == state.live
            &&& after.lane(kind.other()) == state.lane(kind.other())
            &&& after.lane(kind).queue == state.lane(kind).queue
            &&& after.lane(kind).callbacks.issued == table.issued + callbacks.len()
            &&& after.lane(kind).callbacks.of(h) == table.of(h) + Seq::new(
                callbacks.len(),
                |j: int|
                    Registration {
                        handle: handle_in_run(table.issued, j),
                        callback: callbacks[j],
                    },
            )
        }),
    decreases callbacks.len(),
{
    if callbacks.len() > 0 {
        let front = callbacks.drop_last();
        lemma_register_all(state, kind, h, front);
        let before = register_all(state, kind, h, front);
        let after = register_all(state, kind, h, callbacks);
        let table = state.lane(kind).callbacks;
        assert(before.register_error(kind, h) is None);
        assert(after == before.register_callback(kind, h, callbacks.last()));
        let expected = table.of(h) + Seq::new(
            callbacks.len(),
            |j: int| Registration { handle: handle_in_run(table.issued, j), callback: callbacks[j] },
        );
        assert(after.lane(kind).callbacks.of(h) =~= expected);
    } else {
        let table = state.lane(kind).callbacks;
        assert(table.of(h) =~= table.of(h) + Seq::new(
            callbacks.len(),
            |j: int| Registration { handle: handle_in_run(table.issued, j), callback: callbacks[j] },
        ));
    }
}

/// The callback at `index` of the run `callbacks`, registered for `h` on
/// the queue `kind` in `state`, was given `message` once on the way to
/// `after`: its report and its registration stand behind those of the
/// callbacks registered before the run, in the run's order, under the
/// handle it was issued, and one delivery of exactly the destination,
/// type and payload of `message` leads from the callback as it was
/// registered to the callback as it is in `after`.
pub open spec fn delivered_in_run<C: MessageCallback>(
    state: EngineState<C>,
    kind: QueueKind,
    h: ComponentHandle,
    callbacks: Seq<C>,
    message: MessageView,
    after: EngineState<C>,
    outcomes: Seq<Outcome>,
    index: int,
) -> bool {
    let table = state.lane(kind).callbacks;
    let at = table.of(h).len() + index;
    &&& outcomes[at].callback == handle_in_run(table.issued, index)
    &&& after.lane(kind).callbacks.of(h)[at].handle == handle_in_run(table.issued, index)
    &&& C::delivered(
        callbacks[index],
        message.destination,
        message.message_type,
        message.payload,
        after.lane(kind).callbacks.of(h)[at].callback,
        outcomes[at].ok,
    )
}

/// Round trip: callbacks are registered for a live handle on a queue that
/// is active and empty, one message for that handle is enqueued there, and
/// the queue is drained once. Then the message is delivered and the queue
/// is empty again; each of the new callbacks is given exactly that
/// handle, message type and payload, once; and the reports come in
/// registration order, behind those of the callbacks that were registered
/// before.
pub proof fn law_round_trip<C: MessageCallback>(
    state: EngineState<C>,
    kind: QueueKind,
    h: ComponentHandle,
    callbacks: Seq<C>,
    message: MessageView,
    after: EngineState<C>,
    delivered: bool,
    outcomes: Seq<Outcome>,
)
    requires
        state.live.contains(h),
        state.lane(kind).callbacks.issued + callbacks.len() <= u64::MAX,
        state.lane(kind).queue.active,
        state.pending(kind).len() == 0,
        !state.lane(kind).queue.full(),
        message.destination == h,
        register_all(state, kind, h, callbacks).enqueue(kind, message).drained(
            kind,
            after,
            delivered,
            outcomes,
        ),
    ensures
        delivered,
        after.pending(kind).len() == 0,
        outcomes.len() == state.lane(kind).callbacks.of(h).len() + callbacks.len(),
        after.lane(kind).callbacks.of(h).len() == outcomes.len(),
        forall|j: int|
            0 <= j < callbacks.len() ==> #[trigger] delivered_in_run(
                state,
                kind,
                h,
                callbacks,
                message,
                after,
                outcomes,
                j,
            ),
{
    lemma_register_all(state, kind, h, callbacks);
    let registered = register_all(state, kind, h, callbacks);
    let sent = registered.enqueue(kind, message);
    let table = state.lane(kind).callbacks;
    assert(registered.enqueue_error(kind) is None);
    assert(sent.pending(kind) =~= seq![message]);
    assert(sent.lane(kind).queue.head() == Some(message));
    assert(sent.lane(kind).queue.take().pending =~= Seq::<MessageView>::empty());
    assert(sent.lane(kind).callbacks == registered.lane(kind).callbacks);
    assert forall|j: int| 0 <= j < callbacks.len() implies #[trigger] delivered_in_run(
        state,
        kind,
        h,
        callbacks,
        message,
        after,
        outcomes,
        j,
    ) by {
        let at = table.of(h).len() + j;
        let regs = sent.lane(kind).callbacks.of(h);
        assert(regs[at] == Registration {
            handle: handle_in_run(table.issued, j),
            callback: callbacks[j],
        });
        assert(after.lane(kind).callbacks.of(h)[at].handle == regs[at].handle);
    }
}

/// A callback handle is unique within its queue: the handle that a
/// registration is given names no registration made before, and names
/// the new one afterwards, which stands last among those of its handle.
pub proof fn law_callback_handle_fresh<C: MessageCallback>(
    state: EngineState<C>,
    kind: QueueKind,
    h: ComponentHandle,
    callback: C,
)
    requires
        state.valid(),
        state.register_error(kind, h) is None,
    ensures
        ({
            let table = state.lane(kind).callbacks;
            let after = state.register_callback(kind, h, callback).lane(kind).callbacks;
            &&& forall|g: ComponentHandle| !table.holds(g, table.next_handle())
            &&& after.holds(h, table.next_handle())
            &&& after.of(h).last() == Registration { handle: table.next_handle(), callback }
            &&& after.of(h).drop_last() == table.of(h)
        }),
{
    let table = state.lane(kind).callbacks;
    let after = state.register_callback(kind, h, callback).lane(kind).callbacks;
    assert forall|g: ComponentHandle| !table.holds(g, table.next_handle()) by {
        if table.holds(g, table.next_handle()) {
            let i = table.position(g, table.next_handle());
            assert(table.of(g)[i].handle.0 <= table.issued);
        }
    }
    assert(after.of(h)[table.of(h).len() as int].handle == table.next_handle());
    assert(after.of(h).drop_last() =~= table.of(h));
}

/// A callback handle is invalid as soon as it is unregistered: it names
/// no registration on its queue any more, a second `unregister_callback`
/// with it is refused with `UnknownCallback` and changes nothing, and the
/// next registration that the queue accepts is given another handle.
pub proof fn law_stale_callback_handle<C: MessageCallback>(
    state: EngineState<C>,
    kind: QueueKind,
    h: ComponentHandle,
    callback: CallbackHandle,
)
    requires
        state.valid(),
        state.unregister_error(kind, h, callback) is None,
    ensures
        ({
            let after = state.unregister_callback(kind, h, callback);
            &&& forall|g: ComponentHandle| !after.lane(kind).callbacks.holds(g, callback)
            &&& after.unregister_error(kind, h, callback) == Some(ErrorKind::UnknownCallback)
            &&& after.unregister_callback(kind, h, callback) == after
            &&& after.register_error(kind, h) is None ==> after.lane(
                kind,
            ).callbacks.next_handle() != callback
        }),
{
    let table = state.lane(kind).callbacks;
    let after = state.unregister_callback(kind, h, callback);
    let left = after.lane(kind).callbacks;
    let p = table.position(h, callback);
    assert(table.of(h)[p].handle == callback);
    assert(callback.0 <= table.issued);
    assert forall|g: ComponentHandle| !left.holds(g, callback) by {
        if left.holds(g, callback) {
            let i = left.position(g, callback);
            let j = if g == h && i >= p {
                i + 1
            } else {
                i
            };
            assert(left.of(g)[i] == table.of(g)[j]);
            assert(table.of(g)[j].handle == table.of(h)[p].handle);
        }
    }
    assert(after.unregister_callback(kind, h, callback) =~= after);
}

/// Every operation leads from a valid state to a valid state.
pub proof fn law_steps_keep_valid<C: MessageCallback>(
    state: EngineState<C>,
    kind: QueueKind,
    h: ComponentHandle,
    callback: C,
    registered: CallbackHandle,
    message: MessageView,
    after: EngineState<C>,
    delivered: bool,
    outcomes: Seq<Outcome>,
)
    requires
        state.valid(),
    ensures
        EngineState::<C>::fresh(None, None).valid(),
        state.allocate_handle().valid(),
        state.release_handle(h).valid(),
        state.clear_handles().valid(),
        state.register_callback(kind, h, callback).valid(),
        state.unregister_callback(kind, h, registered).valid(),
        state.initialize(kind).valid(),
        state.enqueue(kind, message).valid(),
        state.uninitialize(kind).valid(),
        state.drained(kind, after, delivered, outcomes) ==> after.valid(),
{
    let table = state.lane(kind).callbacks;
    let other = kind.other();
    assert(other.other() == kind);
    lemma_registrations_covered(state, state.allocate_handle());
    assert(state.release_handle(h).valid()) by {
        let released = state.release_handle(h);
        assert forall|g: ComponentHandle| #[trigger] released.in_use(g) implies released.live.contains(
            g,
        ) by {
            assert(state.in_use(g));
        }
    }
    assert(state.clear_handles().valid()) by {
        let cleared = state.clear_handles();
        assert forall|g: ComponentHandle| #[trigger] cleared.in_use(g) implies cleared.live.contains(
            g,
        ) by {
            assert(state.in_use(g));
            assert(state.normal.callbacks.in_use(g) || state.priority.callbacks.in_use(g));
        }
    }
    assert(state.register_callback(kind, h, callback).valid()) by {
        let added = state.register_callback(kind, h, callback);
        lemma_register_valid(table, h, callback);
        assert forall|g: ComponentHandle| #[trigger] added.in_use(g) implies added.live.contains(
            g,
        ) by {
            if g != h {
                assert(state.in_use(g));
            }
        }
    }
    assert(state.unregister_callback(kind, h, registered).valid()) by {
        lemma_unregister_valid(table, h, registered);
        lemma_registrations_covered(state, state.unregister_callback(kind, h, registered));
    }
    lemma_registrations_covered(state, state.initialize(kind));
    lemma_registrations_covered(state, state.enqueue(kind, message));
    lemma_registrations_covered(state, state.uninitialize(kind));
    if state.drained(kind, after, delivered, outcomes) {
        if let Some(head) = state.lane(kind).queue.head() {
            lemma_dispatched_valid(table, head, after.lane(kind).callbacks, outcomes);
            lemma_registrations_covered(state, after);
        }
    }
}

/// A refused operation leaves the engine as it was.
pub proof fn law_refusals_change_nothing<C: MessageCallback>(
    state: EngineState<C>,
    kind: QueueKind,
    h: ComponentHandle,
    callback: C,
    registered: CallbackHandle,
    message: MessageView,
    after: EngineState<C>,
    delivered: bool,
    outcomes: Seq<Outcome>,
)
    ensures
        state.allocate_result() is Err ==> state.allocate_handle() == state,
        state.release_error(h) is Some ==> state.release_handle(h) == state,
        state.clear_error() is Some ==> state.clear_handles() == state,
        state.register_error(kind, h) is Some ==> state.register_callback(kind, h, callback)
            == state,
        state.unregister_error(kind, h, registered) is Some ==> state.unregister_callback(
            kind,
            h,
            registered,
        ) == state,
        state.enqueue_error(kind) is Some ==> state.enqueue(kind, message) == state,
        state.uninitialize_error(kind) is Some ==> state.uninitialize(kind) == state,
        state.drain_error(kind) is Some && state.drained(kind, after, delivered, outcomes)
            ==> after == state && !delivered,
{
    if state.unregister_error(kind, h, registered) is Some {
        assert(state.unregister_callback(kind, h, registered) =~= state);
    }
    if state.enqueue_error(kind) is Some {
        assert(state.enqueue(kind, message) =~= state);
    }
    if state.uninitialize_error(kind) is Some {
        assert(state.uninitialize(kind) =~= state);
    }
}

} // verus!
