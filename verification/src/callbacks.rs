//! The callback registry of one queue: for each component handle, the
//! callbacks registered for it, in registration order.

use vstd::prelude::*;
use crate::handles::HANDLE_SPACE;
use crate::types::{CallbackHandle, ComponentHandle, ErrorKind, Message, MessageView};

verus! {

/// Application code that receives the messages addressed to a component.
///
/// A callback reports through its result whether it handled the message.
/// The engine gives every registered callback its turn whatever the
/// earlier ones reported, and hands the reports on to whoever drains.
pub trait MessageCallback: Sized {
    /// What one delivery may do: relates the callback before the call, the
    /// message it was given, the callback after the call and its report.
    /// An implementation that promises nothing keeps this default.
    open spec fn delivered(
        before: Self,
        destination: ComponentHandle,
        message_type: u8,
        payload: Seq<u8>,
        after: Self,
        ok: bool,
    ) -> bool {
        true
    }

    /// Receives one message.
    fn on_message(
        &mut self,
        destination: ComponentHandle,
        message_type: u8,
        payload: &[u8],
    ) -> (ok: bool)
        ensures
            Self::delivered(*old(self), destination, message_type, payload@, *final(self), ok),
    ;
}

/// One registered callback and the handle it was registered under.
pub struct Registration<C> {
    pub handle: CallbackHandle,
    pub callback: C,
}

/// What one callback reported for one message.
#[derive(Clone, Copy, Debug, PartialEq, Eq, Structural)]
pub struct Outcome {
    /// The registration that was invoked.
    pub callback: CallbackHandle,
    /// Whether the callback handled the message.
    pub ok: bool,
}

/// What a callback registry holds, as plain mathematical values.
#[verifier::ext_equal]
pub struct CallbackTable<C> {
    /// For every component handle, its registrations in registration order.
    pub entries: Map<ComponentHandle, Seq<Registration<C>>>,
    /// How many callback handles this registry has issued so far.
    pub issued: nat,
}

impl<C: MessageCallback> CallbackTable<C> {
    /// The table of a new registry: nothing registered, nothing issued.
    pub open spec fn empty() -> CallbackTable<C> {
        CallbackTable {
            entries: Map::total(|h: ComponentHandle| Seq::<Registration<C>>::empty()),
            issued: 0,
        }
    }

    /// The registrations of `h`, in registration order.
    pub open spec fn of(self, h: ComponentHandle) -> Seq<Registration<C>> {
        self.entries[h]
    }

    /// Every handle has an entry, every registered callback handle was
    /// issued by this registry, and no two registrations share one.
    pub open spec fn valid(self) -> bool {
        &&& forall|h: ComponentHandle| self.entries.dom().contains(h)
        &&& self.issued <= u64::MAX
        &&& forall|h: ComponentHandle, i: int|
            0 <= i < self.of(h).len() ==> 1 <= (#[trigger] self.of(h)[i]).handle.0 <= self.issued
        &&& forall|h1: ComponentHandle, i1: int, h2: ComponentHandle, i2: int|
            #![trigger self.of(h1)[i1], self.of(h2)[i2]]
            0 <= i1 < self.of(h1).len() && 0 <= i2 < self.of(h2).len() && self.of(h1)[i1].handle
                == self.of(h2)[i2].handle ==> h1 == h2 && i1 == i2
    }

    /// `callback` is registered for `h`.
    pub open spec fn holds(self, h: ComponentHandle, callback: CallbackHandle) -> bool {
        exists|i: int| 0 <= i < self.of(h).len() && (#[trigger] self.of(h)[i]).handle == callback
    }

    /// Where `callback` stands among the registrations of `h`.
    pub open spec fn position(self, h: ComponentHandle, callback: CallbackHandle) -> int {
        choose|i: int| 0 <= i < self.of(h).len() && (#[trigger] self.of(h)[i]).handle == callback
    }

    /// At least one callback is registered for `h`.
    pub open spec fn in_use(self, h: ComponentHandle) -> bool {
        self.of(h).len() > 0
    }

    /// No callback is registered for any handle.
    pub open spec fn idle(self) -> bool {
        forall|h: ComponentHandle| !self.in_use(h)
    }

    /// Why `register` refuses, if it does.
    pub open spec fn register_error(self) -> Option<ErrorKind> {
        if self.issued >= u64::MAX {
            Some(ErrorKind::ExhaustedHandleSpace)
        } else {
            None
        }
    }

    /// The callback handle that the next registration is given.
    pub open spec fn next_handle(self) -> CallbackHandle {
        CallbackHandle((self.issued + 1) as u64)
    }

    /// The table after `register`: `callback` behind the registrations that
    /// `h` already has, under the next handle.
    pub open spec fn register(self, h: ComponentHandle, callback: C) -> CallbackTable<C> {
        if self.register_error() is None {
            CallbackTable {
                entries: self.entries.insert(
                    h,
                    self.of(h).push(Registration { handle: self.next_handle(), callback }),
                ),
                issued: self.issued + 1,
            }
        } else {
            self
        }
    }

    /// Why `unregister` refuses, if it does.
    pub open spec fn unregister_error(
        self,
        h: ComponentHandle,
        callback: CallbackHandle,
    ) -> Option<ErrorKind> {
        if self.holds(h, callback) {
            None
        } else {
            Some(ErrorKind::UnknownCallback)
        }
    }

    /// The table after `unregister`: the registration gone, the others of
    /// `h` in their old order.
    pub open spec fn unregister(
        self,
        h: ComponentHandle,
        callback: CallbackHandle,
    ) -> CallbackTable<C> {
        if self.holds(h, callback) {
            CallbackTable {
                entries: self.entries.insert(h, self.of(h).remove(self.position(h, callback))),
                ..self
            }
        } else {
            self
        }
    }

    /// `after` and `outcomes` are a possible result of fanning `message` out
    /// over this table: each callback registered for the destination was
    /// given the message once, `outcomes` lists their reports in
    /// registration order, and nothing else changed.
    pub open spec fn dispatched(
        self,
        message: MessageView,
        after: CallbackTable<C>,
        outcomes: Seq<Outcome>,
    ) -> bool {
        let h = message.destination;
        &&& after.issued == self.issued
        &&& forall|g: ComponentHandle| after.entries.dom().contains(g)
        &&& forall|g: ComponentHandle| g != h ==> after.of(g) == self.of(g)
        &&& after.of(h).len() == self.of(h).len()
        &&& outcomes.len() == self.of(h).len()
        &&& forall|i: int|
            0 <= i < self.of(h).len() ==> {
                &&& (#[trigger] after.of(h)[i]).handle == self.of(h)[i].handle
                &&& outcomes[i].callback == self.of(h)[i].handle
                &&& C::delivered(
                    self.of(h)[i].callback,
                    h,
                    message.message_type,
                    message.payload,
                    after.of(h)[i].callback,
                    outcomes[i].ok,
                )
            }
    }
}

/// The callback registry of one queue.
pub struct CallbackRegistry<C> {
    slots: Vec<Vec<Registration<C>>>,
    issued: u64,
}

impl<C: MessageCallback> View for CallbackRegistry<C> {
    type V = CallbackTable<C>;

    closed spec fn view(&self) -> CallbackTable<C> {
        CallbackTable {
            entries: Map::total(|h: ComponentHandle| self.slots@[h.0 as int]@),
            issued: self.issued as nat,
        }
    }
}

impl<C: MessageCallback> CallbackRegistry<C> {
    /// The representation invariant: one list for each component handle,
    /// and a valid view.
    pub closed spec fn wf(&self) -> bool {
        &&& self.slots@.len() == HANDLE_SPACE
        &&& self@.valid()
    }

    /// A well-formed registry has a valid view.
    pub proof fn lemma_wf_valid(&self)
        requires
            self.wf(),
        ensures
            self@.valid(),
    {
    }

    /// A registry with nothing registered.
    pub fn new() -> (registry: CallbackRegistry<C>)
        ensures
            registry.wf(),
            registry@ == CallbackTable::<C>::empty(),
    {
        let mut slots: Vec<Vec<Registration<C>>> = Vec::new();
        let mut i: usize = 0;
        while i < HANDLE_SPACE
            invariant
                i <= HANDLE_SPACE,
                slots@.len() == i,
                forall|j: int| 0 <= j < i ==> slots@[j]@.len() == 0,
            decreases HANDLE_SPACE - i,
        {
            slots.push(Vec::new());
            i += 1;
        }
        let registry = CallbackRegistry { slots, issued: 0 };
        assert(registry@ =~= CallbackTable::<C>::empty()) by {
            assert forall|h: ComponentHandle|
                registry@.entries[h] =~= CallbackTable::<C>::empty().entries[h] by {}
        }
        registry
    }

    /// Whether any callback is registered for `h`.
    pub fn in_use(&self, h: ComponentHandle) -> (used: bool)
        requires
            self.wf(),
        ensures
            used == self@.in_use(h),
    {
        self.slots[h.0 as usize].len() > 0
    }

    /// The number of callbacks registered for `h`.
    pub fn count(&self, h: ComponentHandle) -> (count: usize)
        requires
            self.wf(),
        ensures
            count == self@.of(h).len(),
    {
        self.slots[h.0 as usize].len()
    }

    /// Whether nothing is registered for any handle.
    pub fn is_idle(&self) -> (idle: bool)
        requires
            self.wf(),
        ensures
            idle == self@.idle(),
    {
        let mut i: usize = 0;
        while i < HANDLE_SPACE
            invariant
                i <= HANDLE_SPACE,
                self.wf(),
                forall|j: int| 0 <= j < i ==> self.slots@[j]@.len() == 0,
            decreases HANDLE_SPACE - i,
        {
            if self.slots[i].len() > 0 {
                assert(self@.in_use(ComponentHandle(i as u8)));
                return false;
            }
            i += 1;
        }
        true
    }

    /// The index in the list of `h` at which `callback` stands, if it is
    /// registered for `h`.
    fn find(&self, h: ComponentHandle, callback: CallbackHandle) -> (found: Option<usize>)
        requires
            self.wf(),
        ensures
            match found {
                Some(i) => {
                    &&& self@.holds(h, callback)
                    &&& i == self@.position(h, callback)
                    &&& i < self@.of(h).len()
                },
                None => !self@.holds(h, callback),
            },
    {
        let slot = h.0 as usize;
        let n = self.slots[slot].len();
        let mut i: usize = 0;
        while i < n
            invariant
                i <= n,
                self.wf(),
                slot == h.0,
                n == self@.of(h).len(),
                forall|j: int| 0 <= j < i ==> (#[trigger] self@.of(h)[j]).handle != callback,
            decreases n - i,
        {
            if self.slots[slot][i].handle == callback {
                proof {
                    let table = self@;
                    assert(table.of(h)[i as int].handle == callback);
                    assert(table.holds(h, callback));
                    let p = table.position(h, callback);
                    assert(table.of(h)[p].handle == table.of(h)[i as int].handle);
                }
                return Some(i);
            }
            i += 1;
        }
        None
    }

    /// The callback registered for `h` under `callback`, if there is one.
    pub fn get(&self, h: ComponentHandle, callback: CallbackHandle) -> (found: Option<&C>)
        requires
            self.wf(),
        ensures
            match found {
                Some(c) => self@.holds(h, callback) && *c == self@.of(h)[self@.position(
                    h,
                    callback,
                )].callback,
                None => !self@.holds(h, callback),
            },
    {
        match self.find(h, callback) {
            Some(i) => Some(&self.slots[h.0 as usize][i].callback),
            None => None,
        }
    }

    /// Registers `callback` for `h`, behind the callbacks that `h` already
    /// has, and returns its handle. Refuses with `ExhaustedHandleSpace` once
    /// every callback handle has been issued.
    pub fn register(
        &mut self,
        h: ComponentHandle,
        callback: C,
    ) -> (result: Result<CallbackHandle, ErrorKind>)
        requires
            old(self).wf(),
        ensures
            final(self).wf(),
            final(self)@ == old(self)@.register(h, callback),
            match result {
                Ok(handle) => old(self)@.register_error() is None && handle == old(
                    self,
                )@.next_handle(),
                Err(e) => old(self)@.register_error() == Some(e),
            },
    {
        if self.issued == u64::MAX {
            return Err(ErrorKind::ExhaustedHandleSpace);
        }
        let handle = CallbackHandle(self.issued + 1);
        self.issued = self.issued + 1;
        self.slots[h.0 as usize].push(Registration { handle, callback });
        proof {
            let before = old(self)@;
            let after = before.register(h, callback);
            assert(self@ =~= after) by {
                assert forall|g: ComponentHandle| self@.entries[g] =~= after.entries[g] by {}
            }
            lemma_register_valid(before, h, callback);
        }
        Ok(handle)
    }

    /// Removes the registration `callback` of `h` and hands the callback
    /// back; the remaining callbacks of `h` keep their order. Refuses with
    /// `UnknownCallback` when `callback` is not registered for `h`.
    pub fn unregister(
        &mut self,
        h: ComponentHandle,
        callback: CallbackHandle,
    ) -> (result: Result<C, ErrorKind>)
        requires
            old(self).wf(),
        ensures
            final(self).wf(),
            final(self)@ == old(self)@.unregister(h, callback),
            match result {
                Ok(c) => old(self)@.holds(h, callback) && c == old(self)@.of(h)[old(
                    self,
                )@.position(h, callback)].callback,
                Err(e) => old(self)@.unregister_error(h, callback) == Some(e),
            },
    {
        match self.find(h, callback) {
            None => Err(ErrorKind::UnknownCallback),
            Some(i) => {
                let removed = self.slots[h.0 as usize].remove(i);
                proof {
                    let before = old(self)@;
                    let after = before.unregister(h, callback);
                    assert(self@ =~= after) by {
                        assert forall|g: ComponentHandle| self@.entries[g] =~= after.entries[g] by {}
                    }
                    lemma_unregister_valid(before, h, callback);
                }
                Ok(removed.callback)
            },
        }
    }

    /// Gives `message` to every callback registered for its destination,
    /// once each and in registration order, and returns their reports in
    /// that order.
    pub fn dispatch(&mut self, message: &Message) -> (outcomes: Vec<Outcome>)
        requires
            old(self).wf(),
        ensures
            final(self).wf(),
            old(self)@.dispatched(message@, final(self)@, outcomes@),
    {
        let h = message.destination;
        let slot = h.0 as usize;
        let n = self.slots[slot].len();
        let mut outcomes: Vec<Outcome> = Vec::new();
        let mut i: usize = 0;
        while i < n
            invariant
                i <= n,
                slot == h.0,
                h == message.destination,
                old(self).wf(),
                self.slots@.len() == HANDLE_SPACE,
                self.issued == old(self).issued,
                n == old(self).slots@[slot as int]@.len(),
                n == self.slots@[slot as int]@.len(),
                outcomes@.len() == i,
                forall|s: int|
                    0 <= s < HANDLE_SPACE && s != slot ==> self.slots@[s]@ == old(self).slots@[s]@,
                forall|j: int|
                    0 <= j < n ==> (#[trigger] self.slots@[slot as int]@[j]).handle == old(
                        self,
                    ).slots@[slot as int]@[j].handle,
                forall|j: int|
                    i <= j < n ==> #[trigger] self.slots@[slot as int]@[j] == old(
                        self,
                    ).slots@[slot as int]@[j],
                forall|j: int|
                    0 <= j < i ==> {
                        &&& (#[trigger] outcomes@[j]).callback == old(
                            self,
                        ).slots@[slot as int]@[j].handle
                        &&& C::delivered(
                            old(self).slots@[slot as int]@[j].callback,
                            h,
                            message.message_type,
                            message.payload@,
                            self.slots@[slot as int]@[j].callback,
                            outcomes@[j].ok,
                        )
                    },
            decreases n - i,
        {
            let ok = self.slots[slot][i].callback.on_message(
                h,
                message.message_type,
                message.payload.as_slice(),
            );
            let callback = self.slots[slot][i].handle;
            outcomes.push(Outcome { callback, ok });
            i += 1;
        }
        proof {
            lemma_dispatched_valid(old(self)@, message@, self@, outcomes@);
        }
        outcomes
    }
}

/// Registering keeps a valid table valid.
pub proof fn lemma_register_valid<C: MessageCallback>(
    table: CallbackTable<C>,
    h: ComponentHandle,
    callback: C,
)
    requires
        table.valid(),
    ensures
        table.register(h, callback).valid(),
{
    let after = table.register(h, callback);
    if table.register_error() is None {
        assert forall|g: ComponentHandle, i: int| 0 <= i < after.of(g).len() implies {
            1 <= (#[trigger] after.of(g)[i]).handle.0 <= after.issued
        } by {
            if g == h && i == table.of(h).len() {
            } else {
                assert(after.of(g)[i] == table.of(g)[i]);
            }
        }
        assert forall|h1: ComponentHandle, i1: int, h2: ComponentHandle, i2: int|
            #![trigger after.of(h1)[i1], after.of(h2)[i2]]
            0 <= i1 < after.of(h1).len() && 0 <= i2 < after.of(h2).len() && after.of(h1)[i1].handle
                == after.of(h2)[i2].handle implies h1 == h2 && i1 == i2 by {
            let new1 = h1 == h && i1 == table.of(h).len();
            let new2 = h2 == h && i2 == table.of(h).len();
            if !new1 {
                assert(after.of(h1)[i1] == table.of(h1)[i1]);
            }
            if !new2 {
                assert(after.of(h2)[i2] == table.of(h2)[i2]);
            }
        }
    }
}

/// Unregistering keeps a valid table valid.
pub proof fn lemma_unregister_valid<C: MessageCallback>(
    table: CallbackTable<C>,
    h: ComponentHandle,
    callback: CallbackHandle,
)
    requires
        table.valid(),
    ensures
        table.unregister(h, callback).valid(),
{
    let after = table.unregister(h, callback);
    if table.holds(h, callback) {
        let p = table.position(h, callback);
        assert forall|g: ComponentHandle, i: int| 0 <= i < after.of(g).len() implies {
            1 <= (#[trigger] after.of(g)[i]).handle.0 <= after.issued
        } by {
            if g == h {
                if i < p {
                    assert(after.of(g)[i] == table.of(g)[i]);
                } else {
                    assert(after.of(g)[i] == table.of(g)[i + 1]);
                }
            } else {
                assert(after.of(g)[i] == table.of(g)[i]);
            }
        }
        assert forall|h1: ComponentHandle, i1: int, h2: ComponentHandle, i2: int|
            #![trigger after.of(h1)[i1], after.of(h2)[i2]]
            0 <= i1 < after.of(h1).len() && 0 <= i2 < after.of(h2).len() && after.of(h1)[i1].handle
                == after.of(h2)[i2].handle implies h1 == h2 && i1 == i2 by {
            let j1 = if h1 == h && i1 >= p { i1 + 1 } else { i1 };
            let j2 = if h2 == h && i2 >= p { i2 + 1 } else { i2 };
            assert(after.of(h1)[i1] == table.of(h1)[j1]);
            assert(after.of(h2)[i2] == table.of(h2)[j2]);
        }
    }
}

/// Fanning a message out keeps a valid table valid.
pub proof fn lemma_dispatched_valid<C: MessageCallback>(
    table: CallbackTable<C>,
    message: MessageView,
    after: CallbackTable<C>,
    outcomes: Seq<Outcome>,
)
    requires
        table.valid(),
        table.dispatched(message, after, outcomes),
    ensures
        after.valid(),
{
    assert forall|g: ComponentHandle, i: int| 0 <= i < after.of(g).len() implies {
        1 <= (#[trigger] after.of(g)[i]).handle.0 <= after.issued
    } by {
        assert(after.of(g)[i].handle == table.of(g)[i].handle);
    }
    assert forall|h1: ComponentHandle, i1: int, h2: ComponentHandle, i2: int|
        #![trigger after.of(h1)[i1], after.of(h2)[i2]]
        0 <= i1 < after.of(h1).len() && 0 <= i2 < after.of(h2).len() && after.of(h1)[i1].handle
            == after.of(h2)[i2].handle implies h1 == h2 && i1 == i2 by {
        assert(after.of(h1)[i1].handle == table.of(h1)[i1].handle);
        assert(after.of(h2)[i2].handle == table.of(h2)[i2].handle);
    }
}

} // verus!
