//! The queue core: one FIFO of pending messages with an active/inactive
//! lifecycle and an optional fixed capacity.

use vstd::prelude::*;
use std::collections::VecDeque;
use crate::types::{ErrorKind, Message, MessageView};

verus! {

/// What a queue holds, as plain mathematical values.
#[verifier::ext_equal]
pub struct QueueState {
    /// Whether the queue has been initialized and not torn down since.
    pub active: bool,
    /// The largest number of pending messages, where one is configured.
    pub capacity: Option<nat>,
    /// The messages waiting to be drained, oldest first.
    pub pending: Seq<MessageView>,
}

impl QueueState {
    /// A queue as it is configured: uninitialized and empty.
    pub open spec fn fresh(capacity: Option<nat>) -> QueueState {
        QueueState { active: false, capacity, pending: Seq::empty() }
    }

    /// Only an active queue holds messages, and never more than its capacity.
    pub open spec fn valid(self) -> bool {
        &&& !self.active ==> self.pending.len() == 0
        &&& self.capacity matches Some(limit) ==> self.pending.len() <= limit
    }

    /// The queue has a capacity and has reached it.
    pub open spec fn full(self) -> bool {
        self.capacity matches Some(limit) && self.pending.len() >= limit
    }

    /// The queue after `initialize`: active, with its messages untouched.
    pub open spec fn initialize(self) -> QueueState {
        QueueState { active: true, ..self }
    }

    /// Why `enqueue` refuses, if it does.
    pub open spec fn enqueue_error(self) -> Option<ErrorKind> {
        if !self.active {
            Some(ErrorKind::QueueNotActive)
        } else if self.full() {
            Some(ErrorKind::QueueFull)
        } else {
            None
        }
    }

    /// The queue after `enqueue`: `message` at the tail, or no change where
    /// the queue refuses it.
    pub open spec fn enqueue(self, message: MessageView) -> QueueState {
        if self.enqueue_error() is None {
            QueueState { pending: self.pending.push(message), ..self }
        } else {
            self
        }
    }

    /// Why `uninitialize` refuses, if it does.
    pub open spec fn uninitialize_error(self) -> Option<ErrorKind> {
        if self.pending.len() > 0 {
            Some(ErrorKind::MessagesPending)
        } else {
            None
        }
    }

    /// The queue after `uninitialize`: inactive, or no change where messages
    /// are pending.
    pub open spec fn uninitialize(self) -> QueueState {
        if self.uninitialize_error() is None {
            QueueState { active: false, ..self }
        } else {
            self
        }
    }

    /// Why taking the head message refuses, if it does.
    pub open spec fn take_error(self) -> Option<ErrorKind> {
        if !self.active {
            Some(ErrorKind::QueueNotActive)
        } else {
            None
        }
    }

    /// The message that the next drain delivers, if there is one.
    pub open spec fn head(self) -> Option<MessageView> {
        if self.active && self.pending.len() > 0 {
            Some(self.pending[0])
        } else {
            None
        }
    }

    /// The queue after its head message was taken; no change where there
    /// is none.
    pub open spec fn take(self) -> QueueState {
        if self.head() is Some {
            QueueState { pending: self.pending.drop_first(), ..self }
        } else {
            self
        }
    }
}

/// The views of queued messages, in queue order.
pub open spec fn message_views(messages: Seq<Message>) -> Seq<MessageView> {
    messages.map_values(|m: Message| m@)
}

/// One FIFO message queue.
pub struct MessageQueue {
    active: bool,
    capacity: Option<usize>,
    pending: VecDeque<Message>,
}

impl View for MessageQueue {
    type V = QueueState;

    closed spec fn view(&self) -> QueueState {
        QueueState {
            active: self.active,
            capacity: match self.capacity {
                Some(limit) => Some(limit as nat),
                None => None,
            },
            pending: message_views(self.pending@),
        }
    }
}

impl MessageQueue {
    /// The representation invariant; it is that of the view.
    pub closed spec fn wf(&self) -> bool {
        self@.valid()
    }

    /// A well-formed queue has a valid view.
    pub proof fn lemma_wf_valid(&self)
        requires
            self.wf(),
        ensures
            self@.valid(),
    {
    }

    /// An uninitialized, empty queue; `capacity` bounds the number of
    /// pending messages, `None` leaves it unbounded.
    pub fn new(capacity: Option<usize>) -> (queue: MessageQueue)
        ensures
            queue.wf(),
            queue@ == QueueState::fresh(
                match capacity {
                    Some(limit) => Some(limit as nat),
                    None => None,
                },
            ),
    {
        let queue = MessageQueue { active: false, capacity, pending: VecDeque::new() };
        assert(queue@.pending =~= Seq::<MessageView>::empty());
        queue
    }

    /// Makes the queue active; an active queue stays as it is.
    pub fn initialize(&mut self)
        requires
            old(self).wf(),
        ensures
            final(self).wf(),
            final(self)@ == old(self)@.initialize(),
    {
        self.active = true;
    }

    /// Whether the queue is active.
    pub fn is_active(&self) -> (active: bool)
        ensures
            active == self@.active,
    {
        self.active
    }

    /// The number of pending messages.
    pub fn len(&self) -> (count: usize)
        ensures
            count == self@.pending.len(),
    {
        self.pending.len()
    }

    /// Appends `message` at the tail. Refuses with `QueueNotActive` on an
    /// inactive queue and with `QueueFull` on one that has reached its
    /// capacity; a refused message changes nothing.
    pub fn enqueue(&mut self, message: Message) -> (result: Result<(), ErrorKind>)
        requires
            old(self).wf(),
        ensures
            final(self).wf(),
            final(self)@ == old(self)@.enqueue(message@),
            match result {
                Ok(()) => old(self)@.enqueue_error() is None,
                Err(e) => old(self)@.enqueue_error() == Some(e),
            },
    {
        if !self.active {
            return Err(ErrorKind::QueueNotActive);
        }
        if let Some(limit) = self.capacity {
            if self.pending.len() >= limit {
                return Err(ErrorKind::QueueFull);
            }
        }
        self.pending.push_back(message);
        assert(self@.pending =~= old(self)@.pending.push(message@));
        Ok(())
    }

    /// Makes the queue inactive. Refuses with `MessagesPending` while
    /// messages are pending, and then changes nothing; an inactive queue
    /// stays as it is.
    pub fn uninitialize(&mut self) -> (result: Result<(), ErrorKind>)
        requires
            old(self).wf(),
        ensures
            final(self).wf(),
            final(self)@ == old(self)@.uninitialize(),
            match result {
                Ok(()) => old(self)@.uninitialize_error() is None,
                Err(e) => old(self)@.uninitialize_error() == Some(e),
            },
    {
        if self.pending.len() > 0 {
            return Err(ErrorKind::MessagesPending);
        }
        self.active = false;
        Ok(())
    }

    /// Takes the head message off the queue. Refuses with `QueueNotActive`
    /// on an inactive queue; on an empty active queue there is nothing to
    /// take, which is no error.
    pub fn take(&mut self) -> (result: Result<Option<Message>, ErrorKind>)
        requires
            old(self).wf(),
        ensures
            final(self).wf(),
            final(self)@ == old(self)@.take(),
            match result {
                Ok(Some(message)) => old(self)@.head() == Some(message@),
                Ok(None) => old(self)@.take_error() is None && old(self)@.head() is None,
                Err(e) => old(self)@.take_error() == Some(e),
            },
    {
        if !self.active {
            return Err(ErrorKind::QueueNotActive);
        }
        let head = self.pending.pop_front();
        assert(self@.pending =~= old(self)@.take().pending);
        Ok(head)
    }
}

} // verus!
