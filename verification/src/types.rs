//! Identifiers, messages and error kinds shared by every part of the engine.

use vstd::prelude::*;

verus! {

/// Identifies a component that produces or consumes messages.
#[derive(Clone, Copy, Debug, PartialEq, Eq, Structural)]
pub struct ComponentHandle(pub u8);

/// Identifies one callback registration within the queue it was made on.
#[derive(Clone, Copy, Debug, PartialEq, Eq, Structural)]
pub struct CallbackHandle(pub u64);

/// Selects one of the two delivery paths.
#[derive(Clone, Copy, Debug, PartialEq, Eq, Structural)]
pub enum QueueKind {
    Normal,
    Priority,
}

impl QueueKind {
    /// The other delivery path.
    pub open spec fn other(self) -> QueueKind {
        match self {
            QueueKind::Normal => QueueKind::Priority,
            QueueKind::Priority => QueueKind::Normal,
        }
    }

    /// The queue that a queue-type code names: 0 the normal one, 1 the
    /// priority one, any other code none.
    pub open spec fn spec_from_code(code: u8) -> Option<QueueKind> {
        if code == 0 {
            Some(QueueKind::Normal)
        } else if code == 1 {
            Some(QueueKind::Priority)
        } else {
            None
        }
    }

    /// The queue that a queue-type code names: 0 the normal one, 1 the
    /// priority one, any other code none.
    #[verifier::when_used_as_spec(spec_from_code)]
    pub fn from_code(code: u8) -> (kind: Option<QueueKind>)
        ensures
            kind == QueueKind::spec_from_code(code),
    {
        if code == 0 {
            Some(QueueKind::Normal)
        } else if code == 1 {
            Some(QueueKind::Priority)
        } else {
            None
        }
    }
}

/// Why an operation was refused. A refused operation leaves the engine as it was.
#[derive(Clone, Copy, Debug, PartialEq, Eq, Structural)]
pub enum ErrorKind {
    UnknownHandle,
    HandleStillInUse,
    ExhaustedHandleSpace,
    UnknownCallback,
    QueueNotActive,
    QueueFull,
    MessagesPending,
}

impl ErrorKind {
    /// The status code of this error; 0 is kept for success.
    pub open spec fn spec_code(self) -> u8 {
        match self {
            ErrorKind::UnknownHandle => 1,
            ErrorKind::HandleStillInUse => 2,
            ErrorKind::ExhaustedHandleSpace => 3,
            ErrorKind::UnknownCallback => 4,
            ErrorKind::QueueNotActive => 5,
            ErrorKind::QueueFull => 6,
            ErrorKind::MessagesPending => 7,
        }
    }

    /// The status code of this error; 0 is kept for success.
    #[verifier::when_used_as_spec(spec_code)]
    pub fn code(self) -> (code: u8)
        ensures
            code == self.spec_code(),
            code != 0,
    {
        match self {
            ErrorKind::UnknownHandle => 1,
            ErrorKind::HandleStillInUse => 2,
            ErrorKind::ExhaustedHandleSpace => 3,
            ErrorKind::UnknownCallback => 4,
            ErrorKind::QueueNotActive => 5,
            ErrorKind::QueueFull => 6,
            ErrorKind::MessagesPending => 7,
        }
    }
}

/// A message on its way to the callbacks of one component.
#[derive(Debug)]
pub struct Message {
    pub message_type: u8,
    pub destination: ComponentHandle,
    pub payload: Vec<u8>,
}

/// What a message holds, with the payload as a sequence of bytes.
pub struct MessageView {
    pub message_type: u8,
    pub destination: ComponentHandle,
    pub payload: Seq<u8>,
}

impl View for Message {
    type V = MessageView;

    open spec fn view(&self) -> MessageView {
        MessageView {
            message_type: self.message_type,
            destination: self.destination,
            payload: self.payload@,
        }
    }
}

impl Message {
    /// Builds a message that owns a copy of `payload`.
    pub fn new(message_type: u8, destination: ComponentHandle, payload: &[u8]) -> (message: Message)
        ensures
            message@ == (MessageView { message_type, destination, payload: payload@ }),
    {
        let mut bytes: Vec<u8> = Vec::new();
        let mut i: usize = 0;
        while i < payload.len()
            invariant
                i <= payload.len(),
                bytes@ == payload@.subrange(0, i as int),
            decreases payload.len() - i,
        {
            bytes.push(payload[i]);
            i += 1;
        }
        assert(payload@.subrange(0, payload@.len() as int) =~= payload@);
        Message { message_type, destination, payload: bytes }
    }
}

} // verus!
