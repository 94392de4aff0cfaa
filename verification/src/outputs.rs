//! The accumulated output of one submitted execution.
//!
//! An execution view owns the rendering state for one code region:
//! a status and an append-only list of output entries. Entries that were
//! shown under a display id can be replaced later by an update-display
//! message aimed at that id, in whichever execution they appeared.

use vstd::prelude::*;

use crate::messages::MessageContent;

verus! {

/// The status of one submitted execution, a projection of the kernel's
/// state at submission time until replies change it.
pub enum ExecutionStatus {
    /// Sent to a running kernel, waiting to be picked up.
    Queued,
    /// Submitted while the kernel was still starting.
    ConnectingToKernel,
    /// The kernel answered the execute request.
    Finished,
    /// The kernel could not be launched, or failed while this execution
    /// was outstanding; carries the launch error.
    KernelErrored(String),
    /// Submitted while the kernel was restarting.
    Restarting,
    /// Submitted while a shutdown was in flight.
    ShuttingDown,
    /// Submitted after the kernel was shut down.
    Shutdown,
}

/// One displayable output, optionally tagged with the display id it was
/// shown under.
pub struct OutputEntry {
    pub display_id: Option<u64>,
    pub data: String,
}

/// The rendering state of one execution: its status and its accumulated
/// outputs.
pub struct ExecutionView {
    pub status: ExecutionStatus,
    pub outputs: Vec<OutputEntry>,
}

/// What an update-display message does to one entry: entries shown under
/// the updated id get the new payload, all others are untouched.
pub open spec fn spec_entry_updated(e: OutputEntry, display_id: u64, data: String) -> OutputEntry {
    if e.display_id == Some(display_id) {
        OutputEntry { display_id: e.display_id, data }
    } else {
        e
    }
}

/// What an update-display message does to a whole view: the status is kept
/// and every entry is updated pointwise.
pub open spec fn spec_display_updated(
    v0: ExecutionView,
    v1: ExecutionView,
    display_id: u64,
    data: String,
) -> bool {
    &&& v1.status == v0.status
    &&& v1.outputs@ == v0.outputs@.map_values(|e: OutputEntry| spec_entry_updated(e, display_id, data))
}

/// What routing one message content to a view does: displayable contents
/// append an entry, an execute reply finishes the execution, and every
/// other content leaves the view as it was.
pub open spec fn spec_message_pushed(
    v0: ExecutionView,
    v1: ExecutionView,
    content: MessageContent,
) -> bool {
    match content {
        MessageContent::DisplayData { display_id, data } => {
            &&& v1.status == v0.status
            &&& v1.outputs@ == v0.outputs@.push(OutputEntry { display_id, data })
        },
        MessageContent::StreamOutput { text } => {
            &&& v1.status == v0.status
            &&& v1.outputs@ == v0.outputs@.push(
                OutputEntry { display_id: None::<u64>, data: text },
            )
        },
        MessageContent::ExecuteReply => {
            &&& v1.status is Finished
            &&& v1.outputs@ == v0.outputs@
        },
        _ => v1 == v0,
    }
}

/// What a launch error does to a view: an execution whose output already
/// finished is left alone; every other one is marked errored with the
/// launch message.
pub open spec fn spec_view_errored(v0: ExecutionView, v1: ExecutionView, message: String) -> bool {
    &&& v1.outputs@ == v0.outputs@
    &&& v1.status == if v0.status is Finished {
        v0.status
    } else {
        ExecutionStatus::KernelErrored(message)
    }
}

/// Law: an update-display message touches no execution that is not
/// showing the updated display id. A view with no entry under that id
/// comes out of the broadcast exactly as it went in.
pub proof fn lemma_display_update_leaves_others(
    v0: ExecutionView,
    v1: ExecutionView,
    display_id: u64,
    data: String,
)
    requires
        spec_display_updated(v0, v1, display_id, data),
        forall|i: int|
            0 <= i < v0.outputs@.len() ==> (#[trigger] v0.outputs@[i]).display_id != Some(
                display_id,
            ),
    ensures
        v1.outputs@ == v0.outputs@,
        v1.status == v0.status,
{
    assert(v1.outputs@ =~= v0.outputs@) by {
        assert(forall|i: int|
            0 <= i < v0.outputs@.len() ==> v1.outputs@[i] == spec_entry_updated(
                #[trigger] v0.outputs@[i],
                display_id,
                data,
            ));
    }
}

impl ExecutionView {
    /// A fresh view with no outputs yet.
    pub fn new(status: ExecutionStatus) -> (v: ExecutionView)
        ensures
            v.status == status,
            v.outputs@ == Seq::<OutputEntry>::empty(),
    {
        ExecutionView { status, outputs: Vec::new() }
    }

    /// Append the output carried by one routed message, or finish the
    /// execution on an execute reply.
    pub fn push_message(&mut self, content: &MessageContent)
        ensures
            spec_message_pushed(*old(self), *final(self), *content),
    {
        match content {
            MessageContent::DisplayData { display_id, data } => {
                let id = match display_id {
                    Some(i) => Some(*i),
                    None => None,
                };
                self.outputs.push(OutputEntry { display_id: id, data: data.clone() });
            },
            MessageContent::StreamOutput { text } => {
                self.outputs.push(OutputEntry { display_id: None, data: text.clone() });
            },
            MessageContent::ExecuteReply => {
                self.status = ExecutionStatus::Finished;
            },
            _ => {},
        }
    }

    /// Replace the payload of every entry shown under `display_id`.
    pub fn update_display_data(&mut self, display_id: u64, data: &String)
        ensures
            spec_display_updated(*old(self), *final(self), display_id, *data),
    {
        let ghost orig: Seq<OutputEntry> = self.outputs@;
        let mut pending: Vec<OutputEntry> = Vec::new();
        core::mem::swap(&mut pending, &mut self.outputs);
        while pending.len() > 0
            invariant
                self.status == old(self).status,
                pending@.len() <= orig.len(),
                pending@ == orig.skip(orig.len() - pending@.len()),
                self.outputs@ == orig.take(orig.len() - pending@.len()).map_values(
                    |e: OutputEntry| spec_entry_updated(e, display_id, *data),
                ),
            decreases pending@.len(),
        {
            let ghost k = orig.len() - pending@.len();
            proof {
                assert(orig.skip(k)[0] == orig[k]);
            }
            let e = pending.remove(0);
            assert(e == orig[k]);
            proof {
                assert(orig.skip(k).remove(0) =~= orig.skip(k + 1));
            }
            let updated = match e.display_id {
                Some(id) => id == display_id,
                None => false,
            };
            if updated {
                self.outputs.push(OutputEntry { display_id: e.display_id, data: data.clone() });
            } else {
                self.outputs.push(e);
            }
            proof {
                assert(orig.take(k + 1) =~= orig.take(k).push(orig[k]));
                assert(orig.take(k + 1).map_values(
                    |x: OutputEntry| spec_entry_updated(x, display_id, *data),
                ) =~= orig.take(k).map_values(
                    |x: OutputEntry| spec_entry_updated(x, display_id, *data),
                ).push(spec_entry_updated(orig[k], display_id, *data)));
                assert(pending@ =~= orig.skip(orig.len() - pending@.len()));
            }
        }
        proof {
            assert(orig.take(orig.len() as int) =~= orig);
        }
    }

    /// Mark the execution errored after a failed kernel launch, unless its
    /// output already finished.
    pub fn mark_kernel_errored(&mut self, message: &String)
        ensures
            spec_view_errored(*old(self), *final(self), *message),
    {
        match &self.status {
            ExecutionStatus::Finished => {},
            _ => {
                self.status = ExecutionStatus::KernelErrored(message.clone());
            },
        }
    }
}

} // verus!
