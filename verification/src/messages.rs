//! The protocol messages exchanged with the kernel.
//!
//! A message carries its own correlation id in `header.msg_id`; a reply
//! additionally carries the id of the request it answers in
//! `parent_header`. The content is a tagged union: requests the session
//! sends, plus the reply kinds the router cares about.

use vstd::prelude::*;

verus! {

/// Whether the kernel is currently executing something.
#[derive(Clone, Copy, PartialEq, Eq, Structural, Debug)]
pub enum ExecutionState {
    Idle,
    Busy,
}

/// The correlation id of a message.
#[derive(Clone, Copy, PartialEq, Eq, Structural, Debug)]
pub struct MessageHeader {
    pub msg_id: u64,
}

/// The tagged union of message contents the session sends or routes.
pub enum MessageContent {
    /// Ask the kernel to run `code`.
    ExecuteRequest { code: String },
    /// Ask the kernel to interrupt what it is running.
    InterruptRequest,
    /// Ask the kernel to stop; `restart` distinguishes a restart from a
    /// plain shutdown.
    ShutdownRequest { restart: bool },
    /// The kernel reports whether it is idle or busy.
    Status { execution_state: ExecutionState },
    /// The kernel reports its metadata; `language` is the name of the
    /// language it executes.
    KernelInfoReply { language: String },
    /// Replace the payload of every output previously shown under
    /// `display_id`, in whichever execution it appeared.
    UpdateDisplayData { display_id: Option<u64>, data: String },
    /// A displayable output, optionally tagged with a display id so it can
    /// be updated later.
    DisplayData { display_id: Option<u64>, data: String },
    /// A chunk of stream output (stdout or stderr).
    StreamOutput { text: String },
    /// The kernel finished handling an execute request.
    ExecuteReply,
}

/// One protocol message.
pub struct Message {
    pub header: MessageHeader,
    /// Correlation id of the request this message replies to, if any.
    pub parent_header: Option<MessageHeader>,
    pub content: MessageContent,
}

impl Message {
    /// A fresh outbound request: it carries its own correlation id and
    /// replies to nothing.
    pub fn request(msg_id: u64, content: MessageContent) -> (m: Message)
        ensures
            m == (Message {
                header: MessageHeader { msg_id },
                parent_header: None::<MessageHeader>,
                content,
            }),
    {
        Message { header: MessageHeader { msg_id }, parent_header: None, content }
    }
}

} // verus!
