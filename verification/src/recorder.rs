//! A callback that keeps the last message it was given.

use vstd::prelude::*;
use crate::callbacks::MessageCallback;
use crate::types::{ComponentHandle, Message, MessageView};

verus! {

/// Remembers the last message delivered to it and counts the deliveries.
#[derive(Debug)]
pub struct Recorder {
    /// A number chosen by whoever made the recorder, to tell recorders apart.
    pub id: u8,
    /// How many messages were delivered; the count stops at `u64::MAX`.
    pub deliveries: u64,
    /// The last message delivered, if any was.
    pub last: Option<Message>,
}

impl Recorder {
    /// The delivery count after one more delivery.
    pub open spec fn counted(deliveries: u64) -> u64 {
        if deliveries < u64::MAX {
            (deliveries + 1) as u64
        } else {
            deliveries
        }
    }

    /// The recorder `id` before its first message.
    pub open spec fn fresh(id: u8) -> Recorder {
        Recorder { id, deliveries: 0, last: None }
    }

    /// A recorder that has seen no message yet.
    pub fn new(id: u8) -> (recorder: Recorder)
        ensures
            recorder == Recorder::fresh(id),
    {
        Recorder { id, deliveries: 0, last: None }
    }
}

impl MessageCallback for Recorder {
    /// The recorder keeps its id, counts the delivery, holds exactly the
    /// message it was given, and reports success.
    open spec fn delivered(
        before: Self,
        destination: ComponentHandle,
        message_type: u8,
        payload: Seq<u8>,
        after: Self,
        ok: bool,
    ) -> bool {
        &&& ok
        &&& after.id == before.id
        &&& after.deliveries == Recorder::counted(before.deliveries)
        &&& after.last matches Some(message)
        &&& message@ == (MessageView { message_type, destination, payload })
    }

    fn on_message(
        &mut self,
        destination: ComponentHandle,
        message_type: u8,
        payload: &[u8],
    ) -> (ok: bool) {
        if self.deliveries < u64::MAX {
            self.deliveries = self.deliveries + 1;
        }
        self.last = Some(Message::new(message_type, destination, payload));
        true
    }
}

} // verus!
