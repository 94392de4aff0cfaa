//! The session: owner of the kernel handle and of the execution blocks,
//! router of inbound kernel messages.
//!
//! The session is driven from outside: callers invoke `execute`,
//! `interrupt`, `shutdown` and `restart`; the document collaborator reports
//! edits through `on_buffer_event`; the transport's reply stream is fed to
//! `route`; timers and the startup task report back through
//! `on_startup_resolved`, `finish_shutdown` and `finish_restart`. Every
//! outward effect is recorded on the session — messages handed to the
//! transport in `outbox`, sends waiting for startup in `queued`, telemetry
//! labels in `telemetry`, session events in `events` — and removals of
//! visual blocks are returned to the caller as batches of block ids.

use vstd::prelude::*;

use crate::document::{ranges_overlap, spec_ranges_overlap, Anchor, AnchorRange, Snapshot};
use crate::kernel::{Kernel, KernelInfo, KernelStatus, RunningState};
use crate::messages::{ExecutionState, Message, MessageContent, MessageHeader};
use crate::outputs::{
    spec_display_updated, spec_message_pushed, spec_view_errored, ExecutionStatus, ExecutionView,
    OutputEntry,
};

verus! {

/// Grace period, in seconds, between a plain shutdown request and the
/// moment the kernel process is considered gone.
pub const SHUTDOWN_GRACE_SECS: u64 = 3;

/// Grace period, in seconds, between a restart-flagged shutdown request
/// and the forced kill that precedes the new launch.
pub const RESTART_GRACE_SECS: u64 = 1;

/// Which kernel the session launches: its display name and the name of
/// the language it executes.
pub struct KernelSpecification {
    pub name: String,
    pub language: String,
}

/// The tracked output lifecycle for one submitted code execution.
pub struct EditorBlock {
    /// Correlation id of the execute request this block belongs to.
    pub msg_id: u64,
    /// The anchored source range that was executed.
    pub code_range: AnchorRange,
    /// An anchor one row past the code; the block lives only while this
    /// anchor still resolves.
    pub invalidation_anchor: Anchor,
    /// Opaque id of the visual region registered with the document view.
    pub block_id: u64,
    /// The accumulated output shown below the code.
    pub execution_view: ExecutionView,
}

impl EditorBlock {
    /// Apply one kernel reply to this block's accumulated output.
    pub fn handle_message(&mut self, message: &Message)
        ensures
            spec_same_block_except_view(*old(self), *final(self)),
            spec_message_pushed(
                old(self).execution_view,
                final(self).execution_view,
                message.content,
            ),
    {
        self.execution_view.push_message(&message.content);
    }
}

/// An event the session emits for outside listeners.
pub enum SessionEvent {
    /// The session reached the terminal `Shutdown` state.
    Shutdown,
}

/// A document event reported by the buffer the session subscribes to.
pub enum BufferEvent {
    /// The text changed; stale blocks must be re-validated.
    Edited,
    /// The buffer was written to disk.
    Saved,
    /// The buffer's dirty flag changed.
    DirtyChanged,
}

/// Where an execute request went when it was submitted.
pub enum SendDisposition {
    /// The kernel was running; the message was handed to the transport.
    SentNow,
    /// The kernel was starting; the message waits for the startup task.
    QueuedUntilStart,
    /// No kernel could take it; the message was dropped, not queued.
    Dropped,
}

/// What `execute` did.
pub enum ExecuteOutcome {
    /// The code was empty; nothing happened.
    Skipped,
    /// A block was created and the request dispatched.
    Submitted {
        /// Correlation id of the outbound execute request.
        msg_id: u64,
        /// Visual-block id of the new output region.
        block_id: u64,
        /// Visual-block ids the caller must remove: the blocks whose code
        /// range overlapped the new one.
        removed_block_ids: Vec<u64>,
        /// The code ended the document, so the caller must first insert a
        /// trailing line break to make the invalidation anchor resolvable.
        inserted_newline: bool,
        /// Where the caller should move the cursor, when asked to.
        cursor: Option<Anchor>,
        /// Where the request went.
        disposition: SendDisposition,
    },
}

/// What the caller must still do after `shutdown` returned.
pub enum ShutdownDisposition {
    /// A graceful request was handed to the transport; force-kill the
    /// kernel, wait out the grace period, then call `finish_shutdown`.
    AwaitTermination { grace_secs: u64 },
    /// No transport existed; the session is already shut down with every
    /// block cleared. The listed visual blocks must be removed.
    Done { removed_block_ids: Vec<u64> },
}

/// What the caller must still do after `restart` returned.
pub enum RestartDisposition {
    /// A restart was already in flight; the call was a no-op.
    AlreadyRestarting,
    /// A restart-flagged shutdown request was handed to the transport;
    /// wait out the grace period, force-kill, then call `finish_restart`.
    AwaitTermination { grace_secs: u64 },
    /// No transport existed; outputs were cleared and a fresh launch
    /// begins at once. The listed visual blocks must be removed.
    Restarted { removed_block_ids: Vec<u64> },
}

/// The blocks a sweep keeps: exactly those satisfying `keep`, in their
/// original order.
pub open spec fn spec_kept_blocks(
    blocks: Seq<EditorBlock>,
    keep: spec_fn(EditorBlock) -> bool,
) -> Seq<EditorBlock>
    decreases blocks.len(),
{
    if blocks.len() == 0 {
        Seq::empty()
    } else if keep(blocks.first()) {
        seq![blocks.first()] + spec_kept_blocks(blocks.drop_first(), keep)
    } else {
        spec_kept_blocks(blocks.drop_first(), keep)
    }
}

/// The visual-block ids a sweep removes: exactly those of the blocks not
/// satisfying `keep`, in order.
pub open spec fn spec_dropped_ids(
    blocks: Seq<EditorBlock>,
    keep: spec_fn(EditorBlock) -> bool,
) -> Seq<u64>
    decreases blocks.len(),
{
    if blocks.len() == 0 {
        Seq::empty()
    } else if keep(blocks.first()) {
        spec_dropped_ids(blocks.drop_first(), keep)
    } else {
        seq![blocks.first().block_id] + spec_dropped_ids(blocks.drop_first(), keep)
    }
}

/// A block survives an execution over `range` when its code range does
/// not overlap it.
pub open spec fn spec_survives(range: AnchorRange) -> spec_fn(EditorBlock) -> bool {
    |b: EditorBlock| !spec_ranges_overlap(range, b.code_range)
}

/// A block survives the closing of the execution keyed by `msg_id` when
/// it belongs to a different execution.
pub open spec fn spec_other_execution(msg_id: u64) -> spec_fn(EditorBlock) -> bool {
    |b: EditorBlock| b.msg_id != msg_id
}

/// A block survives an edit when its invalidation anchor still resolves
/// in the new snapshot.
pub open spec fn spec_resolves(snapshot: Snapshot) -> spec_fn(EditorBlock) -> bool {
    |b: EditorBlock| snapshot.spec_anchor_valid(b.invalidation_anchor)
}

/// Two blocks that differ at most in their accumulated output.
pub open spec fn spec_same_block_except_view(b0: EditorBlock, b1: EditorBlock) -> bool {
    &&& b1.msg_id == b0.msg_id
    &&& b1.code_range == b0.code_range
    &&& b1.invalidation_anchor == b0.invalidation_anchor
    &&& b1.block_id == b0.block_id
}

/// The visual-block ids of all blocks, in order.
pub open spec fn spec_block_ids(blocks: Seq<EditorBlock>) -> Seq<u64>
    decreases blocks.len(),
{
    if blocks.len() == 0 {
        Seq::empty()
    } else {
        seq![blocks.first().block_id] + spec_block_ids(blocks.drop_first())
    }
}

/// Every block a sweep keeps satisfies `keep` and was among the blocks
/// the sweep ran over.
pub proof fn lemma_kept_blocks_contained(blocks: Seq<EditorBlock>, keep: spec_fn(EditorBlock) -> bool)
    ensures
        forall|i: int|
            0 <= i < spec_kept_blocks(blocks, keep).len() ==> keep(
                #[trigger] spec_kept_blocks(blocks, keep)[i],
            ) && blocks.contains(spec_kept_blocks(blocks, keep)[i]),
    decreases blocks.len(),
{
    if blocks.len() == 0 {
    } else {
        let rest = blocks.drop_first();
        lemma_kept_blocks_contained(rest, keep);
        let kept = spec_kept_blocks(blocks, keep);
        let kept_rest = spec_kept_blocks(rest, keep);
        assert forall|i: int| 0 <= i < kept.len() implies keep(#[trigger] kept[i])
            && blocks.contains(kept[i]) by {
            if keep(blocks.first()) {
                if i == 0 {
                    assert(kept[0] == blocks.first());
                    assert(blocks[0] == blocks.first());
                } else {
                    assert(kept[i] == kept_rest[i - 1]);
                    assert(rest.contains(kept_rest[i - 1]));
                    let j = choose|j: int| 0 <= j < rest.len() && rest[j] == kept_rest[i - 1];
                    assert(blocks[j + 1] == rest[j]);
                }
            } else {
                assert(kept[i] == kept_rest[i]);
                assert(rest.contains(kept_rest[i]));
                let j = choose|j: int| 0 <= j < rest.len() && rest[j] == kept_rest[i];
                assert(blocks[j + 1] == rest[j]);
            }
        }
    }
}

/// A sweep preserves well-formed blocks: ids stay below their bounds and
/// stay pairwise distinct.
pub proof fn lemma_kept_blocks_wf(
    blocks: Seq<EditorBlock>,
    keep: spec_fn(EditorBlock) -> bool,
    msg_bound: u64,
    block_bound: u64,
)
    requires
        forall|i: int|
            0 <= i < blocks.len() ==> (#[trigger] blocks[i]).msg_id < msg_bound
                && blocks[i].block_id < block_bound,
        forall|i: int, j: int|
            0 <= i < j < blocks.len() ==> (#[trigger] blocks[i]).msg_id != (
            #[trigger] blocks[j]).msg_id && blocks[i].block_id != blocks[j].block_id,
    ensures
        spec_kept_blocks(blocks, keep).len() <= blocks.len(),
        forall|i: int|
            0 <= i < spec_kept_blocks(blocks, keep).len() ==> (#[trigger] spec_kept_blocks(
                blocks,
                keep,
            )[i]).msg_id < msg_bound && spec_kept_blocks(blocks, keep)[i].block_id < block_bound,
        forall|i: int, j: int|
            0 <= i < j < spec_kept_blocks(blocks, keep).len() ==> (#[trigger] spec_kept_blocks(
                blocks,
                keep,
            )[i]).msg_id != (#[trigger] spec_kept_blocks(blocks, keep)[j]).msg_id
                && spec_kept_blocks(blocks, keep)[i].block_id != spec_kept_blocks(
                blocks,
                keep,
            )[j].block_id,
    decreases blocks.len(),
{
    if blocks.len() == 0 {
    } else {
        let rest = blocks.drop_first();
        assert(forall|i: int| 0 <= i < rest.len() ==> rest[i] == blocks[i + 1]);
        lemma_kept_blocks_wf(rest, keep, msg_bound, block_bound);
        lemma_kept_blocks_contained(rest, keep);
        let kept = spec_kept_blocks(blocks, keep);
        let kept_rest = spec_kept_blocks(rest, keep);
        if keep(blocks.first()) {
            assert(kept == seq![blocks.first()] + kept_rest);
            assert forall|i: int, j: int| 0 <= i < j < kept.len() implies (#[trigger] kept[i]).msg_id
                != (#[trigger] kept[j]).msg_id && kept[i].block_id != kept[j].block_id by {
                if i == 0 {
                    assert(kept[0] == blocks.first());
                    assert(kept[j] == kept_rest[j - 1]);
                    assert(rest.contains(kept_rest[j - 1]));
                    let m = choose|m: int| 0 <= m < rest.len() && rest[m] == kept_rest[j - 1];
                    assert(blocks[m + 1] == rest[m]);
                    assert(blocks[0].msg_id != blocks[m + 1].msg_id);
                    assert(blocks[0].block_id != blocks[m + 1].block_id);
                } else {
                    assert(kept[i] == kept_rest[i - 1]);
                    assert(kept[j] == kept_rest[j - 1]);
                }
            }
        }
    }
}

/// A sweep that keeps everything changes nothing.
pub proof fn lemma_kept_blocks_all(blocks: Seq<EditorBlock>, keep: spec_fn(EditorBlock) -> bool)
    requires
        forall|i: int| 0 <= i < blocks.len() ==> keep(#[trigger] blocks[i]),
    ensures
        spec_kept_blocks(blocks, keep) == blocks,
        spec_dropped_ids(blocks, keep) == Seq::<u64>::empty(),
    decreases blocks.len(),
{
    if blocks.len() == 0 {
        assert(spec_kept_blocks(blocks, keep) =~= blocks);
    } else {
        let rest = blocks.drop_first();
        assert(forall|i: int| 0 <= i < rest.len() ==> rest[i] == blocks[i + 1]);
        lemma_kept_blocks_all(rest, keep);
        assert(keep(blocks.first()));
        assert(spec_kept_blocks(blocks, keep) =~= blocks);
    }
}

/// A sweep accounts for every block exactly once: what it keeps and what
/// it removes partition the blocks it ran over.
pub proof fn lemma_sweep_partition(blocks: Seq<EditorBlock>, keep: spec_fn(EditorBlock) -> bool)
    ensures
        spec_kept_blocks(blocks, keep).len() + spec_dropped_ids(blocks, keep).len()
            == blocks.len(),
    decreases blocks.len(),
{
    if blocks.len() == 0 {
    } else {
        lemma_sweep_partition(blocks.drop_first(), keep);
    }
}

/// A sweep misses nothing: every block satisfying `keep` is still there
/// afterwards, and the id of every block failing it is in the removal
/// batch. Together with `lemma_kept_blocks_contained` and
/// `lemma_dropped_ids_contained` this says a sweep keeps and removes
/// exactly what its predicate dictates — an eviction evicts exactly the
/// overlapping blocks, an edit retracts exactly the blocks whose
/// invalidation anchor stopped resolving, and no others.
pub proof fn lemma_sweep_complete(blocks: Seq<EditorBlock>, keep: spec_fn(EditorBlock) -> bool)
    ensures
        forall|i: int|
            0 <= i < blocks.len() && keep(#[trigger] blocks[i]) ==> spec_kept_blocks(
                blocks,
                keep,
            ).contains(blocks[i]),
        forall|i: int|
            0 <= i < blocks.len() && !keep(#[trigger] blocks[i]) ==> spec_dropped_ids(
                blocks,
                keep,
            ).contains(blocks[i].block_id),
    decreases blocks.len(),
{
    if blocks.len() == 0 {
    } else {
        let rest = blocks.drop_first();
        lemma_sweep_complete(rest, keep);
        let kept = spec_kept_blocks(blocks, keep);
        let dropped = spec_dropped_ids(blocks, keep);
        let kept_rest = spec_kept_blocks(rest, keep);
        let dropped_rest = spec_dropped_ids(rest, keep);
        assert forall|i: int| 0 <= i < blocks.len() && keep(#[trigger] blocks[i]) implies
            kept.contains(blocks[i]) by {
            if i == 0 {
                assert(blocks[0] == blocks.first());
                assert(kept[0] == blocks.first());
            } else {
                assert(rest[i - 1] == blocks[i]);
                assert(kept_rest.contains(blocks[i]));
                let j = choose|j: int| 0 <= j < kept_rest.len() && kept_rest[j] == blocks[i];
                if keep(blocks.first()) {
                    assert(kept[j + 1] == kept_rest[j]);
                } else {
                    assert(kept[j] == kept_rest[j]);
                }
            }
        }
        assert forall|i: int| 0 <= i < blocks.len() && !keep(#[trigger] blocks[i]) implies
            dropped.contains(blocks[i].block_id) by {
            if i == 0 {
                assert(blocks[0] == blocks.first());
                assert(dropped[0] == blocks.first().block_id);
            } else {
                assert(rest[i - 1] == blocks[i]);
                assert(dropped_rest.contains(blocks[i].block_id));
                let j = choose|j: int|
                    0 <= j < dropped_rest.len() && dropped_rest[j] == blocks[i].block_id;
                if keep(blocks.first()) {
                    assert(dropped[j] == dropped_rest[j]);
                } else {
                    assert(dropped[j + 1] == dropped_rest[j]);
                }
            }
        }
    }
}

/// Every id in a sweep's removal batch belongs to a block that failed
/// `keep`: a sweep never removes a block its predicate would keep.
pub proof fn lemma_dropped_ids_contained(
    blocks: Seq<EditorBlock>,
    keep: spec_fn(EditorBlock) -> bool,
    i: int,
)
    requires
        0 <= i < spec_dropped_ids(blocks, keep).len(),
    ensures
        exists|j: int|
            #![auto]
            0 <= j < blocks.len() && !keep(blocks[j]) && spec_dropped_ids(blocks, keep)[i]
                == blocks[j].block_id,
    decreases blocks.len(),
{
    let rest = blocks.drop_first();
    let dropped = spec_dropped_ids(blocks, keep);
    let dropped_rest = spec_dropped_ids(rest, keep);
    if keep(blocks.first()) {
        assert(dropped[i] == dropped_rest[i]);
        lemma_dropped_ids_contained(rest, keep, i);
        let j = choose|j: int|
            #![auto]
            0 <= j < rest.len() && !keep(rest[j]) && dropped_rest[i] == rest[j].block_id;
        assert(blocks[j + 1] == rest[j]);
    } else {
        if i == 0 {
            assert(dropped[0] == blocks.first().block_id);
            assert(blocks[0] == blocks.first());
        } else {
            assert(dropped[i] == dropped_rest[i - 1]);
            lemma_dropped_ids_contained(rest, keep, i - 1);
            let j = choose|j: int|
                #![auto]
                0 <= j < rest.len() && !keep(rest[j]) && dropped_rest[i - 1] == rest[j].block_id;
            assert(blocks[j + 1] == rest[j]);
        }
    }
}

/// Law: an execution over `range` evicts exactly the blocks whose code
/// range overlaps it, and no others. Every survivor misses the range and
/// was live before; every live block missing the range survives; the id
/// of every overlapping block is in the removal batch; and the survivors
/// and the batch together account for every block.
pub proof fn lemma_eviction_exact(blocks: Seq<EditorBlock>, range: AnchorRange)
    ensures
        forall|i: int|
            0 <= i < spec_kept_blocks(blocks, spec_survives(range)).len() ==> !spec_ranges_overlap(
                range,
                (#[trigger] spec_kept_blocks(blocks, spec_survives(range))[i]).code_range,
            ) && blocks.contains(spec_kept_blocks(blocks, spec_survives(range))[i]),
        forall|i: int|
            0 <= i < blocks.len() && !spec_ranges_overlap(
                range,
                (#[trigger] blocks[i]).code_range,
            ) ==> spec_kept_blocks(blocks, spec_survives(range)).contains(blocks[i]),
        forall|i: int|
            0 <= i < blocks.len() && spec_ranges_overlap(range, (#[trigger] blocks[i]).code_range)
                ==> spec_dropped_ids(blocks, spec_survives(range)).contains(blocks[i].block_id),
        spec_kept_blocks(blocks, spec_survives(range)).len() + spec_dropped_ids(
            blocks,
            spec_survives(range),
        ).len() == blocks.len(),
{
    let keep = spec_survives(range);
    lemma_kept_blocks_contained(blocks, keep);
    lemma_sweep_complete(blocks, keep);
    lemma_sweep_partition(blocks, keep);
    assert(forall|b: EditorBlock| keep(b) == !spec_ranges_overlap(range, b.code_range));
}

/// Law: an edit notification removes exactly the blocks whose
/// invalidation anchor stopped resolving in the new snapshot; the blocks
/// whose anchor still resolves remain, and no resolvable block is in the
/// removal batch.
pub proof fn lemma_edit_invalidation_exact(blocks: Seq<EditorBlock>, snapshot: Snapshot)
    ensures
        forall|i: int|
            0 <= i < spec_kept_blocks(blocks, spec_resolves(snapshot)).len()
                ==> snapshot.spec_anchor_valid(
                (#[trigger] spec_kept_blocks(blocks, spec_resolves(snapshot))[i]).invalidation_anchor,
            ) && blocks.contains(spec_kept_blocks(blocks, spec_resolves(snapshot))[i]),
        forall|i: int|
            0 <= i < blocks.len() && snapshot.spec_anchor_valid(
                (#[trigger] blocks[i]).invalidation_anchor,
            ) ==> spec_kept_blocks(blocks, spec_resolves(snapshot)).contains(blocks[i]),
        forall|i: int|
            0 <= i < blocks.len() && !snapshot.spec_anchor_valid(
                (#[trigger] blocks[i]).invalidation_anchor,
            ) ==> spec_dropped_ids(blocks, spec_resolves(snapshot)).contains(blocks[i].block_id),
        spec_kept_blocks(blocks, spec_resolves(snapshot)).len() + spec_dropped_ids(
            blocks,
            spec_resolves(snapshot),
        ).len() == blocks.len(),
{
    let keep = spec_resolves(snapshot);
    lemma_kept_blocks_contained(blocks, keep);
    lemma_sweep_complete(blocks, keep);
    lemma_sweep_partition(blocks, keep);
    assert(forall|b: EditorBlock| keep(b) == snapshot.spec_anchor_valid(b.invalidation_anchor));
}

/// With pairwise-distinct correlation ids, closing one execution removes
/// at most one block.
proof fn lemma_close_removes_at_most_one(blocks: Seq<EditorBlock>, msg_id: u64)
    requires
        forall|i: int, j: int|
            0 <= i < j < blocks.len() ==> (#[trigger] blocks[i]).msg_id != (
            #[trigger] blocks[j]).msg_id,
    ensures
        spec_dropped_ids(blocks, spec_other_execution(msg_id)).len() <= 1,
    decreases blocks.len(),
{
    if blocks.len() == 0 {
    } else {
        let rest = blocks.drop_first();
        assert(forall|i: int| 0 <= i < rest.len() ==> rest[i] == blocks[i + 1]);
        let keep = spec_other_execution(msg_id);
        if keep(blocks.first()) {
            lemma_close_removes_at_most_one(rest, msg_id);
        } else {
            assert forall|i: int| 0 <= i < rest.len() implies keep(#[trigger] rest[i]) by {
                assert(blocks[0].msg_id != blocks[i + 1].msg_id);
            }
            lemma_kept_blocks_all(rest, keep);
        }
    }
}

/// The block collection after one submission over `nb.code_range`: the
/// non-overlapping blocks survive in order and the new block goes last.
/// This is the block-collection part of what `execute` ensures.
pub open spec fn spec_blocks_after_execute(
    blocks: Seq<EditorBlock>,
    nb: EditorBlock,
) -> Seq<EditorBlock> {
    spec_kept_blocks(blocks, spec_survives(nb.code_range)).push(nb)
}

/// The block collection after a whole run of submissions, oldest first.
pub open spec fn spec_blocks_after_executes(
    blocks: Seq<EditorBlock>,
    submitted: Seq<EditorBlock>,
) -> Seq<EditorBlock>
    decreases submitted.len(),
{
    if submitted.len() == 0 {
        blocks
    } else {
        spec_blocks_after_executes(
            spec_blocks_after_execute(blocks, submitted.first()),
            submitted.drop_first(),
        )
    }
}

/// Law: as long as no ranges overlap, executions only accumulate. A run
/// of submissions whose code ranges overlap neither the live blocks nor
/// each other evicts nothing, so the number of live blocks grows by
/// exactly one per submission — empty-code calls change nothing and are
/// not submissions.
pub proof fn lemma_nonoverlapping_executes_accumulate(
    blocks: Seq<EditorBlock>,
    submitted: Seq<EditorBlock>,
)
    requires
        forall|i: int, j: int|
            0 <= i < blocks.len() && 0 <= j < submitted.len() ==> !spec_ranges_overlap(
                (#[trigger] submitted[j]).code_range,
                (#[trigger] blocks[i]).code_range,
            ),
        forall|i: int, j: int|
            0 <= i < j < submitted.len() ==> !spec_ranges_overlap(
                (#[trigger] submitted[j]).code_range,
                (#[trigger] submitted[i]).code_range,
            ),
    ensures
        spec_blocks_after_executes(blocks, submitted).len() == blocks.len() + submitted.len(),
    decreases submitted.len(),
{
    if submitted.len() == 0 {
    } else {
        let nb = submitted.first();
        let keep = spec_survives(nb.code_range);
        assert forall|i: int| 0 <= i < blocks.len() implies keep(#[trigger] blocks[i]) by {
            assert(!spec_ranges_overlap(submitted[0].code_range, blocks[i].code_range));
        }
        lemma_kept_blocks_all(blocks, keep);
        let after = spec_blocks_after_execute(blocks, nb);
        assert(after =~= blocks.push(nb));
        let rest = submitted.drop_first();
        assert forall|i: int, j: int|
            0 <= i < after.len() && 0 <= j < rest.len() implies !spec_ranges_overlap(
            (#[trigger] rest[j]).code_range,
            (#[trigger] after[i]).code_range,
        ) by {
            assert(rest[j] == submitted[j + 1]);
            if i < blocks.len() {
                assert(after[i] == blocks[i]);
            } else {
                assert(after[i] == submitted[0]);
            }
        }
        assert forall|i: int, j: int| 0 <= i < j < rest.len() implies !spec_ranges_overlap(
            (#[trigger] rest[j]).code_range,
            (#[trigger] rest[i]).code_range,
        ) by {
            assert(rest[j] == submitted[j + 1]);
            assert(rest[i] == submitted[i + 1]);
        }
        lemma_nonoverlapping_executes_accumulate(after, rest);
    }
}

/// There is one removed id per block: clearing all outputs removes
/// exactly as many visual regions as there were blocks.
pub proof fn lemma_block_ids_len(blocks: Seq<EditorBlock>)
    ensures
        spec_block_ids(blocks).len() == blocks.len(),
    decreases blocks.len(),
{
    if blocks.len() == 0 {
    } else {
        lemma_block_ids_len(blocks.drop_first());
    }
}

/// The status a new execution starts with: a pure projection of the
/// kernel's state at submission time.
pub open spec fn spec_submission_status(kernel: Kernel) -> ExecutionStatus {
    match kernel {
        Kernel::Restarting => ExecutionStatus::Restarting,
        Kernel::RunningKernel(_) => ExecutionStatus::Queued,
        Kernel::StartingKernel => ExecutionStatus::ConnectingToKernel,
        Kernel::ErroredLaunch(error) => ExecutionStatus::KernelErrored(error),
        Kernel::ShuttingDown => ExecutionStatus::ShuttingDown,
        Kernel::Shutdown => ExecutionStatus::Shutdown,
    }
}

/// What the block created by a submission looks like: fresh ids from the
/// session's counters, the executed range, an invalidation anchor one row
/// past the code, and an empty output whose status projects the kernel's
/// state.
pub open spec fn spec_is_new_block(b: EditorBlock, s: Session, range: AnchorRange) -> bool {
    &&& b.msg_id == s.next_msg_id
    &&& b.code_range == range
    &&& b.invalidation_anchor == (Anchor { row: (range.end.row + 1) as u64 })
    &&& b.block_id == s.next_block_id
    &&& b.execution_view.status == spec_submission_status(s.kernel)
    &&& b.execution_view.outputs@ == Seq::<OutputEntry>::empty()
}

/// Where a submission goes: sent at once to a running kernel, queued
/// behind a starting one, dropped everywhere else.
pub open spec fn spec_dispatch(kernel: Kernel) -> SendDisposition {
    match kernel {
        Kernel::RunningKernel(_) => SendDisposition::SentNow,
        Kernel::StartingKernel => SendDisposition::QueuedUntilStart,
        _ => SendDisposition::Dropped,
    }
}

/// Where the cursor moves after a submission: to the caller's next cell
/// when given, else to the new block's invalidation anchor, and nowhere
/// unless asked.
pub open spec fn spec_cursor_target(
    move_down: bool,
    next_cell: Option<Anchor>,
    invalidation_anchor: Anchor,
) -> Option<Anchor> {
    if move_down {
        match next_cell {
            Some(a) => Some(a),
            None => Some(invalidation_anchor),
        }
    } else {
        None
    }
}

/// The execute request that `execute` hands out for a submission.
pub open spec fn spec_execute_message(msg_id: u64, code: String) -> Message {
    Message {
        header: MessageHeader { msg_id },
        parent_header: None,
        content: MessageContent::ExecuteRequest { code },
    }
}

/// The interrupt request `interrupt` hands out.
pub open spec fn spec_interrupt_message(msg_id: u64) -> Message {
    Message {
        header: MessageHeader { msg_id },
        parent_header: None,
        content: MessageContent::InterruptRequest,
    }
}

/// The shutdown request `shutdown` and `restart` hand out.
pub open spec fn spec_shutdown_message(msg_id: u64, restart: bool) -> Message {
    Message {
        header: MessageHeader { msg_id },
        parent_header: None,
        content: MessageContent::ShutdownRequest { restart },
    }
}

/// Whether a message content is forwarded to the execution block it
/// correlates with, rather than handled session-globally.
pub open spec fn spec_routes_to_block(content: MessageContent) -> bool {
    match content {
        MessageContent::Status { .. } => false,
        MessageContent::KernelInfoReply { .. } => false,
        MessageContent::UpdateDisplayData { .. } => false,
        _ => true,
    }
}

/// The session: owner of the kernel handle, of the execution blocks and
/// of everything it has told its collaborators.
pub struct Session {
    /// The kernel's lifecycle state.
    pub kernel: Kernel,
    /// The live execution blocks, keyed by the correlation id of the
    /// request that created each.
    pub blocks: Vec<EditorBlock>,
    /// Which kernel this session launches.
    pub kernel_specification: KernelSpecification,
    /// Status labels reported to the telemetry sink, oldest first.
    pub telemetry: Vec<KernelStatus>,
    /// Events emitted for outside listeners, oldest first.
    pub events: Vec<SessionEvent>,
    /// Messages handed to the transport's outbound channel, oldest first.
    pub outbox: Vec<Message>,
    /// Execute requests waiting for the startup task to resolve.
    pub queued: Vec<Message>,
    /// Next unused correlation id.
    pub next_msg_id: u64,
    /// Next unused visual-block id.
    pub next_block_id: u64,
}

impl Session {
    /// Well-formedness: every block's ids are below the session's
    /// counters, and no two blocks share a correlation id or a visual
    /// block id.
    pub open spec fn wf(self) -> bool {
        &&& forall|i: int|
            0 <= i < self.blocks@.len() ==> (#[trigger] self.blocks@[i]).msg_id < self.next_msg_id
                && self.blocks@[i].block_id < self.next_block_id
        &&& forall|i: int, j: int|
            0 <= i < j < self.blocks@.len() ==> (#[trigger] self.blocks@[i]).msg_id != (
            #[trigger] self.blocks@[j]).msg_id && self.blocks@[i].block_id
                != self.blocks@[j].block_id
    }

    /// A fresh session for `kernel_specification`: no blocks, nothing
    /// sent, and a kernel launch already in flight.
    pub fn new(kernel_specification: KernelSpecification) -> (s: Session)
        ensures
            s.kernel is StartingKernel,
            s.blocks@ == Seq::<EditorBlock>::empty(),
            s.kernel_specification == kernel_specification,
            s.telemetry@ == seq![KernelStatus::Starting],
            s.events@ == Seq::<SessionEvent>::empty(),
            s.outbox@ == Seq::<Message>::empty(),
            s.queued@ == Seq::<Message>::empty(),
            s.next_msg_id == 0,
            s.next_block_id == 0,
            s.wf(),
    {
        let mut s = Session {
            kernel: Kernel::StartingKernel,
            blocks: Vec::new(),
            kernel_specification,
            telemetry: Vec::new(),
            events: Vec::new(),
            outbox: Vec::new(),
            queued: Vec::new(),
            next_msg_id: 0,
            next_block_id: 0,
        };
        s.start_kernel();
        s
    }

    /// Replace the kernel handle with `kernel`, report the new status to
    /// telemetry, and, when the new state is the terminal `Shutdown`,
    /// additionally emit a session-shutdown event for outside listeners.
    pub fn kernel(&mut self, kernel: Kernel)
        ensures
            final(self).kernel == kernel,
            final(self).telemetry@ == old(self).telemetry@.push(kernel.spec_status()),
            kernel is Shutdown ==> final(self).events@ == old(self).events@.push(
                SessionEvent::Shutdown,
            ),
            !(kernel is Shutdown) ==> final(self).events == old(self).events,
            final(self).blocks == old(self).blocks,
            final(self).kernel_specification == old(self).kernel_specification,
            final(self).outbox == old(self).outbox,
            final(self).queued == old(self).queued,
            final(self).next_msg_id == old(self).next_msg_id,
            final(self).next_block_id == old(self).next_block_id,
    {
        if let Kernel::Shutdown = kernel {
            self.events.push(SessionEvent::Shutdown);
        }
        let status = kernel.status();
        self.telemetry.push(status);
        self.kernel = kernel;
    }

    /// Begin a kernel launch: the state becomes `StartingKernel` at once.
    /// The caller starts the transport and reports the outcome through
    /// `on_startup_resolved`; late queries observe this same state rather
    /// than re-launching.
    pub fn start_kernel(&mut self)
        ensures
            final(self).kernel is StartingKernel,
            final(self).telemetry@ == old(self).telemetry@.push(KernelStatus::Starting),
            final(self).events == old(self).events,
            final(self).blocks == old(self).blocks,
            final(self).kernel_specification == old(self).kernel_specification,
            final(self).outbox == old(self).outbox,
            final(self).queued == old(self).queued,
            final(self).next_msg_id == old(self).next_msg_id,
            final(self).next_block_id == old(self).next_block_id,
    {
        self.kernel(Kernel::StartingKernel);
    }

    /// Hand `message` to the transport's outbound channel. The send is
    /// best-effort: without a running kernel the message is dropped.
    fn send(&mut self, message: Message)
        ensures
            final(self).outbox@ == if old(self).kernel is RunningKernel {
                old(self).outbox@.push(message)
            } else {
                old(self).outbox@
            },
            final(self).kernel == old(self).kernel,
            final(self).blocks == old(self).blocks,
            final(self).kernel_specification == old(self).kernel_specification,
            final(self).telemetry == old(self).telemetry,
            final(self).events == old(self).events,
            final(self).queued == old(self).queued,
            final(self).next_msg_id == old(self).next_msg_id,
            final(self).next_block_id == old(self).next_block_id,
    {
        if let Kernel::RunningKernel(_) = &self.kernel {
            self.outbox.push(message);
        }
    }

    /// Evict every block unconditionally; the returned visual-block ids
    /// must be removed from the document view in one batch.
    pub fn clear_outputs(&mut self) -> (removed: Vec<u64>)
        ensures
            removed@ == spec_block_ids(old(self).blocks@),
            final(self).blocks@ == Seq::<EditorBlock>::empty(),
            final(self).kernel == old(self).kernel,
            final(self).kernel_specification == old(self).kernel_specification,
            final(self).telemetry == old(self).telemetry,
            final(self).events == old(self).events,
            final(self).outbox == old(self).outbox,
            final(self).queued == old(self).queued,
            final(self).next_msg_id == old(self).next_msg_id,
            final(self).next_block_id == old(self).next_block_id,
            final(self).wf(),
    {
        let ghost orig = self.blocks@;
        let mut removed: Vec<u64> = Vec::new();
        let mut pending: Vec<EditorBlock> = Vec::new();
        core::mem::swap(&mut pending, &mut self.blocks);
        while pending.len() > 0
            invariant
                removed@ + spec_block_ids(pending@) == spec_block_ids(orig),
                self.blocks@ == Seq::<EditorBlock>::empty(),
                self.kernel == old(self).kernel,
                self.kernel_specification == old(self).kernel_specification,
                self.telemetry == old(self).telemetry,
                self.events == old(self).events,
                self.outbox == old(self).outbox,
                self.queued == old(self).queued,
                self.next_msg_id == old(self).next_msg_id,
                self.next_block_id == old(self).next_block_id,
            decreases pending@.len(),
        {
            let ghost before = pending@;
            let b = pending.remove(0);
            proof {
                assert(before.remove(0) =~= before.drop_first());
                assert(b == before.first());
                assert(spec_block_ids(before) == seq![b.block_id] + spec_block_ids(
                    before.drop_first(),
                ));
            }
            removed.push(b.block_id);
            proof {
                assert(removed@ + spec_block_ids(pending@) =~= (removed@.drop_last() + seq![
                    b.block_id,
                ]) + spec_block_ids(before.drop_first()));
                assert((removed@.drop_last() + seq![b.block_id]) + spec_block_ids(
                    before.drop_first(),
                ) =~= removed@.drop_last() + (seq![b.block_id] + spec_block_ids(
                    before.drop_first(),
                )));
            }
        }
        proof {
            assert(spec_block_ids(pending@) =~= Seq::<u64>::empty());
            assert(removed@ + spec_block_ids(pending@) =~= removed@);
        }
        removed
    }

    /// Close one execution's output: its close control removes the block
    /// keyed by `msg_id` from the session, and the returned visual-block
    /// id must be removed from the document view. Blocks of other
    /// executions are untouched; an unknown or already-evicted id is a
    /// no-op.
    pub fn close_block(&mut self, msg_id: u64) -> (removed: Option<u64>)
        requires
            old(self).wf(),
        ensures
            final(self).blocks@ == spec_kept_blocks(
                old(self).blocks@,
                spec_other_execution(msg_id),
            ),
            spec_dropped_ids(old(self).blocks@, spec_other_execution(msg_id)) == match removed {
                Some(id) => seq![id],
                None => Seq::<u64>::empty(),
            },
            final(self).kernel == old(self).kernel,
            final(self).kernel_specification == old(self).kernel_specification,
            final(self).telemetry == old(self).telemetry,
            final(self).events == old(self).events,
            final(self).outbox == old(self).outbox,
            final(self).queued == old(self).queued,
            final(self).next_msg_id == old(self).next_msg_id,
            final(self).next_block_id == old(self).next_block_id,
            final(self).wf(),
    {
        let ghost keep = spec_other_execution(msg_id);
        let ghost orig = self.blocks@;
        let mut removed_ids: Vec<u64> = Vec::new();
        let mut pending: Vec<EditorBlock> = Vec::new();
        core::mem::swap(&mut pending, &mut self.blocks);
        while pending.len() > 0
            invariant
                keep == spec_other_execution(msg_id),
                spec_kept_blocks(orig, keep) == self.blocks@ + spec_kept_blocks(pending@, keep),
                spec_dropped_ids(orig, keep) == removed_ids@ + spec_dropped_ids(pending@, keep),
                self.kernel == old(self).kernel,
                self.kernel_specification == old(self).kernel_specification,
                self.telemetry == old(self).telemetry,
                self.events == old(self).events,
                self.outbox == old(self).outbox,
                self.queued == old(self).queued,
                self.next_msg_id == old(self).next_msg_id,
                self.next_block_id == old(self).next_block_id,
            decreases pending@.len(),
        {
            let ghost before = pending@;
            let b = pending.remove(0);
            proof {
                assert(before.remove(0) =~= before.drop_first());
                assert(b == before.first());
                assert(keep(b) == (b.msg_id != msg_id));
            }
            if b.msg_id == msg_id {
                let ghost removed_before = removed_ids@;
                removed_ids.push(b.block_id);
                proof {
                    assert(spec_dropped_ids(before, keep) == seq![b.block_id] + spec_dropped_ids(
                        before.drop_first(),
                        keep,
                    ));
                    assert(removed_before + spec_dropped_ids(before, keep) =~= removed_ids@
                        + spec_dropped_ids(before.drop_first(), keep));
                }
            } else {
                let ghost blocks_before = self.blocks@;
                self.blocks.push(b);
                proof {
                    assert(spec_kept_blocks(before, keep) == seq![b] + spec_kept_blocks(
                        before.drop_first(),
                        keep,
                    ));
                    assert(blocks_before + spec_kept_blocks(before, keep) =~= self.blocks@
                        + spec_kept_blocks(before.drop_first(), keep));
                }
            }
        }
        proof {
            assert(spec_kept_blocks(pending@, keep) =~= Seq::<EditorBlock>::empty());
            assert(spec_dropped_ids(pending@, keep) =~= Seq::<u64>::empty());
            assert(self.blocks@ + spec_kept_blocks(pending@, keep) =~= self.blocks@);
            assert(removed_ids@ + spec_dropped_ids(pending@, keep) =~= removed_ids@);
            lemma_kept_blocks_wf(orig, keep, old(self).next_msg_id, old(self).next_block_id);
            lemma_close_removes_at_most_one(orig, msg_id);
        }
        if removed_ids.len() > 0 {
            let id = removed_ids[0];
            proof {
                assert(removed_ids@ =~= seq![id]);
            }
            Some(id)
        } else {
            proof {
                assert(removed_ids@ =~= Seq::<u64>::empty());
            }
            None
        }
    }

    /// Send an interrupt to a running kernel. While the kernel is still
    /// starting this is deliberately a no-op: startup cannot yet be
    /// interrupted meaningfully. Every other state has nothing to
    /// interrupt.
    pub fn interrupt(&mut self)
        requires
            old(self).next_msg_id < u64::MAX,
        ensures
            old(self).kernel is RunningKernel ==> {
                &&& final(self).outbox@ == old(self).outbox@.push(
                    spec_interrupt_message(old(self).next_msg_id),
                )
                &&& final(self).next_msg_id == old(self).next_msg_id + 1
            },
            !(old(self).kernel is RunningKernel) ==> *final(self) == *old(self),
            final(self).kernel == old(self).kernel,
            final(self).blocks == old(self).blocks,
            final(self).kernel_specification == old(self).kernel_specification,
            final(self).telemetry == old(self).telemetry,
            final(self).events == old(self).events,
            final(self).queued == old(self).queued,
            final(self).next_block_id == old(self).next_block_id,
            old(self).wf() ==> final(self).wf(),
    {
        match &self.kernel {
            Kernel::RunningKernel(_) => {
                let msg_id = self.next_msg_id;
                self.next_msg_id = msg_id + 1;
                let message = Message::request(msg_id, MessageContent::InterruptRequest);
                self.send(message);
            },
            Kernel::StartingKernel => {},
            _ => {},
        }
    }

    /// Record a failed kernel launch: the state becomes
    /// `ErroredLaunch(error_message)`, and every execution whose output
    /// had not finished is marked errored with that message.
    pub fn kernel_errored(&mut self, error_message: String)
        ensures
            final(self).kernel == Kernel::ErroredLaunch(error_message),
            final(self).telemetry@ == old(self).telemetry@.push(KernelStatus::Error),
            final(self).blocks@.len() == old(self).blocks@.len(),
            forall|i: int|
                0 <= i < old(self).blocks@.len() ==> spec_same_block_except_view(
                    old(self).blocks@[i],
                    #[trigger] final(self).blocks@[i],
                ) && spec_view_errored(
                    old(self).blocks@[i].execution_view,
                    final(self).blocks@[i].execution_view,
                    error_message,
                ),
            final(self).events == old(self).events,
            final(self).kernel_specification == old(self).kernel_specification,
            final(self).outbox == old(self).outbox,
            final(self).queued == old(self).queued,
            final(self).next_msg_id == old(self).next_msg_id,
            final(self).next_block_id == old(self).next_block_id,
            old(self).wf() ==> final(self).wf(),
    {
        let launch_error = error_message.clone();
        self.kernel(Kernel::ErroredLaunch(launch_error));
        let ghost orig = self.blocks@;
        let mut pending: Vec<EditorBlock> = Vec::new();
        core::mem::swap(&mut pending, &mut self.blocks);
        while pending.len() > 0
            invariant
                pending@.len() <= orig.len(),
                self.blocks@.len() == orig.len() - pending@.len(),
                pending@ == orig.skip(orig.len() - pending@.len()),
                forall|i: int|
                    0 <= i < self.blocks@.len() ==> spec_same_block_except_view(
                        orig[i],
                        #[trigger] self.blocks@[i],
                    ) && spec_view_errored(
                        orig[i].execution_view,
                        self.blocks@[i].execution_view,
                        error_message,
                    ),
                self.kernel == Kernel::ErroredLaunch(error_message),
                self.telemetry@ == old(self).telemetry@.push(KernelStatus::Error),
                self.events == old(self).events,
                self.kernel_specification == old(self).kernel_specification,
                self.outbox == old(self).outbox,
                self.queued == old(self).queued,
                self.next_msg_id == old(self).next_msg_id,
                self.next_block_id == old(self).next_block_id,
            decreases pending@.len(),
        {
            let ghost k = orig.len() - pending@.len();
            proof {
                assert(orig.skip(k)[0] == orig[k]);
            }
            let mut b = pending.remove(0);
            assert(b == orig[k]);
            proof {
                assert(orig.skip(k).remove(0) =~= orig.skip(k + 1));
            }
            b.execution_view.mark_kernel_errored(&error_message);
            self.blocks.push(b);
        }
    }

    /// React to a document event: an edit re-validates every block's
    /// invalidation anchor against the new snapshot and evicts, in one
    /// batch, exactly the blocks whose anchor no longer resolves. Every
    /// other event leaves the session untouched.
    pub fn on_buffer_event(&mut self, event: &BufferEvent, snapshot: &Snapshot) -> (removed: Vec<
        u64,
    >)
        ensures
            *event is Edited ==> {
                &&& final(self).blocks@ == spec_kept_blocks(
                    old(self).blocks@,
                    spec_resolves(*snapshot),
                )
                &&& removed@ == spec_dropped_ids(old(self).blocks@, spec_resolves(*snapshot))
            },
            !(*event is Edited) ==> *final(self) == *old(self) && removed@ == Seq::<u64>::empty(),
            final(self).kernel == old(self).kernel,
            final(self).kernel_specification == old(self).kernel_specification,
            final(self).telemetry == old(self).telemetry,
            final(self).events == old(self).events,
            final(self).outbox == old(self).outbox,
            final(self).queued == old(self).queued,
            final(self).next_msg_id == old(self).next_msg_id,
            final(self).next_block_id == old(self).next_block_id,
            old(self).wf() ==> final(self).wf(),
    {
        match event {
            BufferEvent::Edited => {},
            _ => {
                return Vec::new();
            },
        }
        let ghost keep = spec_resolves(*snapshot);
        let ghost orig = self.blocks@;
        let mut removed: Vec<u64> = Vec::new();
        let mut pending: Vec<EditorBlock> = Vec::new();
        core::mem::swap(&mut pending, &mut self.blocks);
        while pending.len() > 0
            invariant
                keep == spec_resolves(*snapshot),
                spec_kept_blocks(orig, keep) == self.blocks@ + spec_kept_blocks(pending@, keep),
                spec_dropped_ids(orig, keep) == removed@ + spec_dropped_ids(pending@, keep),
                self.kernel == old(self).kernel,
                self.kernel_specification == old(self).kernel_specification,
                self.telemetry == old(self).telemetry,
                self.events == old(self).events,
                self.outbox == old(self).outbox,
                self.queued == old(self).queued,
                self.next_msg_id == old(self).next_msg_id,
                self.next_block_id == old(self).next_block_id,
            decreases pending@.len(),
        {
            let ghost before = pending@;
            let b = pending.remove(0);
            proof {
                assert(before.remove(0) =~= before.drop_first());
                assert(b == before.first());
            }
            proof {
                assert(keep(b) == snapshot.spec_anchor_valid(b.invalidation_anchor));
            }
            if snapshot.anchor_valid(&b.invalidation_anchor) {
                let ghost blocks_before = self.blocks@;
                self.blocks.push(b);
                proof {
                    assert(spec_kept_blocks(before, keep) == seq![b] + spec_kept_blocks(
                        before.drop_first(),
                        keep,
                    ));
                    assert(blocks_before + spec_kept_blocks(before, keep) =~= self.blocks@
                        + spec_kept_blocks(before.drop_first(), keep));
                }
            } else {
                let ghost removed_before = removed@;
                removed.push(b.block_id);
                proof {
                    assert(spec_dropped_ids(before, keep) == seq![b.block_id] + spec_dropped_ids(
                        before.drop_first(),
                        keep,
                    ));
                    assert(removed_before + spec_dropped_ids(before, keep) =~= removed@
                        + spec_dropped_ids(before.drop_first(), keep));
                }
            }
        }
        proof {
            assert(spec_kept_blocks(pending@, keep) =~= Seq::<EditorBlock>::empty());
            assert(spec_dropped_ids(pending@, keep) =~= Seq::<u64>::empty());
            assert(self.blocks@ + spec_kept_blocks(pending@, keep) =~= self.blocks@);
            assert(removed@ + spec_dropped_ids(pending@, keep) =~= removed@);
            if old(self).wf() {
                lemma_kept_blocks_wf(
                    orig,
                    keep,
                    old(self).next_msg_id,
                    old(self).next_block_id,
                );
            }
        }
        removed
    }

    /// Take delivery of the shared startup task's outcome. On success the
    /// kernel becomes live and every execute request queued while it was
    /// starting is handed to the transport, in the order it was queued
    /// and exactly once. On failure the launch error is recorded and the
    /// queued requests are dropped.
    pub fn on_startup_resolved(&mut self, outcome: Result<(), String>)
        ensures
            outcome is Ok ==> {
                &&& final(self).kernel == Kernel::RunningKernel(
                    RunningState {
                        execution_state: ExecutionState::Idle,
                        kernel_info: None::<KernelInfo>,
                    },
                )
                &&& final(self).telemetry@ == old(self).telemetry@.push(KernelStatus::Idle)
                &&& final(self).outbox@ == old(self).outbox@ + old(self).queued@
                &&& final(self).blocks == old(self).blocks
            },
            outcome matches Err(launch_error) ==> {
                &&& final(self).kernel == Kernel::ErroredLaunch(launch_error)
                &&& final(self).telemetry@ == old(self).telemetry@.push(KernelStatus::Error)
                &&& final(self).outbox == old(self).outbox
                &&& final(self).blocks@.len() == old(self).blocks@.len()
                &&& forall|i: int|
                    0 <= i < old(self).blocks@.len() ==> spec_same_block_except_view(
                        old(self).blocks@[i],
                        #[trigger] final(self).blocks@[i],
                    ) && spec_view_errored(
                        old(self).blocks@[i].execution_view,
                        final(self).blocks@[i].execution_view,
                        launch_error,
                    )
            },
            final(self).queued@ == Seq::<Message>::empty(),
            final(self).events == old(self).events,
            final(self).kernel_specification == old(self).kernel_specification,
            final(self).next_msg_id == old(self).next_msg_id,
            final(self).next_block_id == old(self).next_block_id,
            old(self).wf() ==> final(self).wf(),
    {
        match outcome {
            Ok(()) => {
                self.kernel(
                    Kernel::RunningKernel(
                        RunningState {
                            execution_state: ExecutionState::Idle,
                            kernel_info: None,
                        },
                    ),
                );
                let mut flushed: Vec<Message> = Vec::new();
                core::mem::swap(&mut flushed, &mut self.queued);
                self.outbox.append(&mut flushed);
            },
            Err(launch_error) => {
                self.kernel_errored(launch_error);
                self.queued.clear();
            },
        }
    }

    /// Submit `code` for execution from the anchored `anchor_range`.
    ///
    /// Empty code is a no-op. Otherwise the blocks whose code range
    /// overlaps the new one are evicted first — exactly those, and no
    /// others — then a fresh block is created below the range and keyed
    /// by the request's correlation id, and the request is dispatched by
    /// the kernel's state: sent at once when running, queued until the
    /// startup task resolves when starting, silently dropped (never
    /// queued) everywhere else. The caller applies the outcome: removes
    /// the evicted visual blocks, inserts a trailing line break when the
    /// code ended the document, and moves the cursor when asked.
    pub fn execute(
        &mut self,
        code: String,
        anchor_range: AnchorRange,
        next_cell: Option<Anchor>,
        move_down: bool,
        snapshot: &Snapshot,
    ) -> (outcome: ExecuteOutcome)
        requires
            old(self).wf(),
            old(self).next_msg_id < u64::MAX,
            old(self).next_block_id < u64::MAX,
            anchor_range.end.row < u64::MAX,
        ensures
            code@.len() == 0 ==> outcome is Skipped && *final(self) == *old(self),
            code@.len() > 0 ==> {
                &&& outcome matches ExecuteOutcome::Submitted {
                    msg_id,
                    block_id,
                    removed_block_ids,
                    inserted_newline,
                    cursor,
                    disposition,
                }
                &&& msg_id == old(self).next_msg_id
                &&& block_id == old(self).next_block_id
                &&& removed_block_ids@ == spec_dropped_ids(
                    old(self).blocks@,
                    spec_survives(anchor_range),
                )
                &&& inserted_newline == (anchor_range.end.row + 1 > snapshot.max_row)
                &&& cursor == spec_cursor_target(
                    move_down,
                    next_cell,
                    Anchor { row: (anchor_range.end.row + 1) as u64 },
                )
                &&& disposition == spec_dispatch(old(self).kernel)
            },
            code@.len() > 0 ==> {
                &&& final(self).blocks@.len() == spec_kept_blocks(
                    old(self).blocks@,
                    spec_survives(anchor_range),
                ).len() + 1
                &&& final(self).blocks@.drop_last() == spec_kept_blocks(
                    old(self).blocks@,
                    spec_survives(anchor_range),
                )
                &&& spec_is_new_block(final(self).blocks@.last(), *old(self), anchor_range)
                &&& final(self).blocks@ == spec_blocks_after_execute(
                    old(self).blocks@,
                    final(self).blocks@.last(),
                )
                &&& final(self).outbox@ == if old(self).kernel is RunningKernel {
                    old(self).outbox@.push(spec_execute_message(old(self).next_msg_id, code))
                } else {
                    old(self).outbox@
                }
                &&& final(self).queued@ == if old(self).kernel is StartingKernel {
                    old(self).queued@.push(spec_execute_message(old(self).next_msg_id, code))
                } else {
                    old(self).queued@
                }
                &&& final(self).next_msg_id == old(self).next_msg_id + 1
                &&& final(self).next_block_id == old(self).next_block_id + 1
            },
            final(self).kernel == old(self).kernel,
            final(self).kernel_specification == old(self).kernel_specification,
            final(self).telemetry == old(self).telemetry,
            final(self).events == old(self).events,
            final(self).wf(),
    {
        if code.as_str().is_empty() {
            return ExecuteOutcome::Skipped;
        }

        let msg_id = self.next_msg_id;
        self.next_msg_id = msg_id + 1;
        let block_id = self.next_block_id;
        self.next_block_id = block_id + 1;

        let ghost keep = spec_survives(anchor_range);
        let ghost orig = self.blocks@;
        let mut removed: Vec<u64> = Vec::new();
        let mut pending: Vec<EditorBlock> = Vec::new();
        core::mem::swap(&mut pending, &mut self.blocks);
        while pending.len() > 0
            invariant
                keep == spec_survives(anchor_range),
                spec_kept_blocks(orig, keep) == self.blocks@ + spec_kept_blocks(pending@, keep),
                spec_dropped_ids(orig, keep) == removed@ + spec_dropped_ids(pending@, keep),
                self.kernel == old(self).kernel,
                self.kernel_specification == old(self).kernel_specification,
                self.telemetry == old(self).telemetry,
                self.events == old(self).events,
                self.outbox == old(self).outbox,
                self.queued == old(self).queued,
                self.next_msg_id == old(self).next_msg_id + 1,
                self.next_block_id == old(self).next_block_id + 1,
            decreases pending@.len(),
        {
            let ghost before = pending@;
            let b = pending.remove(0);
            proof {
                assert(before.remove(0) =~= before.drop_first());
                assert(b == before.first());
                assert(keep(b) == !spec_ranges_overlap(anchor_range, b.code_range));
            }
            if ranges_overlap(&anchor_range, &b.code_range) {
                let ghost removed_before = removed@;
                removed.push(b.block_id);
                proof {
                    assert(spec_dropped_ids(before, keep) == seq![b.block_id] + spec_dropped_ids(
                        before.drop_first(),
                        keep,
                    ));
                    assert(removed_before + spec_dropped_ids(before, keep) =~= removed@
                        + spec_dropped_ids(before.drop_first(), keep));
                }
            } else {
                let ghost blocks_before = self.blocks@;
                self.blocks.push(b);
                proof {
                    assert(spec_kept_blocks(before, keep) == seq![b] + spec_kept_blocks(
                        before.drop_first(),
                        keep,
                    ));
                    assert(blocks_before + spec_kept_blocks(before, keep) =~= self.blocks@
                        + spec_kept_blocks(before.drop_first(), keep));
                }
            }
        }
        proof {
            assert(spec_kept_blocks(pending@, keep) =~= Seq::<EditorBlock>::empty());
            assert(spec_dropped_ids(pending@, keep) =~= Seq::<u64>::empty());
            assert(self.blocks@ + spec_kept_blocks(pending@, keep) =~= self.blocks@);
            assert(removed@ + spec_dropped_ids(pending@, keep) =~= removed@);
            lemma_kept_blocks_wf(orig, keep, old(self).next_msg_id, old(self).next_block_id);
        }

        let status = match &self.kernel {
            Kernel::Restarting => ExecutionStatus::Restarting,
            Kernel::RunningKernel(_) => ExecutionStatus::Queued,
            Kernel::StartingKernel => ExecutionStatus::ConnectingToKernel,
            Kernel::ErroredLaunch(error) => ExecutionStatus::KernelErrored(error.clone()),
            Kernel::ShuttingDown => ExecutionStatus::ShuttingDown,
            Kernel::Shutdown => ExecutionStatus::Shutdown,
        };

        let inserted_newline = anchor_range.end.row + 1 > snapshot.max_row;
        let invalidation_anchor = Anchor { row: anchor_range.end.row + 1 };
        let execution_view = ExecutionView::new(status);
        let ghost survivors = self.blocks@;
        self.blocks.push(
            EditorBlock {
                msg_id,
                code_range: anchor_range,
                invalidation_anchor,
                block_id,
                execution_view,
            },
        );
        proof {
            assert(self.blocks@.drop_last() =~= survivors);
        }

        let message = Message::request(msg_id, MessageContent::ExecuteRequest { code });
        let disposition = match &self.kernel {
            Kernel::RunningKernel(_) => {
                self.send(message);
                SendDisposition::SentNow
            },
            Kernel::StartingKernel => {
                self.queued.push(message);
                SendDisposition::QueuedUntilStart
            },
            _ => SendDisposition::Dropped,
        };

        let cursor = if move_down {
            match next_cell {
                Some(a) => Some(a),
                None => Some(invalidation_anchor),
            }
        } else {
            None
        };

        ExecuteOutcome::Submitted {
            msg_id,
            block_id,
            removed_block_ids: removed,
            inserted_newline,
            cursor,
            disposition,
        }
    }

    /// Route one inbound kernel message.
    ///
    /// A message without a parent-correlation id is unroutable and
    /// dropped. Session-global kinds are handled and routing stops:
    /// a status report updates the running kernel's execution-state field
    /// in place (never the lifecycle variant — while shut down it is a
    /// no-op) and re-reports telemetry; a kernel-info reply records the
    /// kernel's metadata; an update-display message is broadcast to every
    /// block, since a display update may target output shown anywhere.
    /// Every other kind goes to the block keyed by the parent id;
    /// messages for unknown or evicted correlation ids are dropped.
    pub fn route(&mut self, message: &Message)
        ensures
            message.parent_header is None ==> *final(self) == *old(self),
            message.content matches MessageContent::Status { execution_state }
                ==> message.parent_header is Some ==> {
                &&& final(self).kernel == old(self).kernel.spec_with_execution_state(
                    execution_state,
                )
                &&& final(self).telemetry@ == old(self).telemetry@.push(
                    old(self).kernel.spec_with_execution_state(execution_state).spec_status(),
                )
                &&& final(self).blocks == old(self).blocks
                &&& final(self).outbox == old(self).outbox
                &&& final(self).queued == old(self).queued
                &&& final(self).events == old(self).events
            },
            message.content matches MessageContent::KernelInfoReply { language }
                ==> message.parent_header is Some ==> {
                &&& final(self).kernel == old(self).kernel.spec_with_kernel_info(
                    KernelInfo { language },
                )
                &&& final(self).blocks == old(self).blocks
                &&& final(self).telemetry == old(self).telemetry
                &&& final(self).outbox == old(self).outbox
                &&& final(self).queued == old(self).queued
                &&& final(self).events == old(self).events
            },
            message.content matches MessageContent::UpdateDisplayData { display_id, data }
                ==> message.parent_header is Some ==> {
                &&& display_id is None ==> *final(self) == *old(self)
                &&& display_id matches Some(id) ==> {
                    &&& final(self).blocks@.len() == old(self).blocks@.len()
                    &&& forall|i: int|
                        0 <= i < old(self).blocks@.len() ==> spec_same_block_except_view(
                            old(self).blocks@[i],
                            #[trigger] final(self).blocks@[i],
                        ) && spec_display_updated(
                            old(self).blocks@[i].execution_view,
                            final(self).blocks@[i].execution_view,
                            id,
                            data,
                        )
                    &&& final(self).kernel == old(self).kernel
                    &&& final(self).telemetry == old(self).telemetry
                    &&& final(self).outbox == old(self).outbox
                    &&& final(self).queued == old(self).queued
                    &&& final(self).events == old(self).events
                }
            },
            message.parent_header matches Some(h) ==> spec_routes_to_block(message.content) ==> {
                &&& final(self).blocks@.len() == old(self).blocks@.len()
                &&& forall|i: int|
                    0 <= i < old(self).blocks@.len() ==> if old(self).blocks@[i].msg_id
                        == h.msg_id {
                        spec_same_block_except_view(
                            old(self).blocks@[i],
                            #[trigger] final(self).blocks@[i],
                        ) && spec_message_pushed(
                            old(self).blocks@[i].execution_view,
                            final(self).blocks@[i].execution_view,
                            message.content,
                        )
                    } else {
                        #[trigger] final(self).blocks@[i] == old(self).blocks@[i]
                    }
                &&& final(self).kernel == old(self).kernel
                &&& final(self).telemetry == old(self).telemetry
                &&& final(self).outbox == old(self).outbox
                &&& final(self).queued == old(self).queued
                &&& final(self).events == old(self).events
            },
            final(self).kernel_specification == old(self).kernel_specification,
            final(self).next_msg_id == old(self).next_msg_id,
            final(self).next_block_id == old(self).next_block_id,
            old(self).wf() ==> final(self).wf(),
    {
        let parent_id: u64 = match &message.parent_header {
            Some(h) => h.msg_id,
            None => {
                return;
            },
        };

        match &message.content {
            MessageContent::Status { execution_state } => {
                self.kernel.set_execution_state(*execution_state);
                let status = self.kernel.status();
                self.telemetry.push(status);
                return;
            },
            MessageContent::KernelInfoReply { language } => {
                self.kernel.set_kernel_info(KernelInfo { language: language.clone() });
                return;
            },
            MessageContent::UpdateDisplayData { display_id, data } => {
                let id: u64 = match display_id {
                    Some(i) => *i,
                    None => {
                        return;
                    },
                };
                let ghost orig = self.blocks@;
                let mut pending: Vec<EditorBlock> = Vec::new();
                core::mem::swap(&mut pending, &mut self.blocks);
                while pending.len() > 0
                    invariant
                        pending@.len() <= orig.len(),
                        self.blocks@.len() == orig.len() - pending@.len(),
                        pending@ == orig.skip(orig.len() - pending@.len()),
                        forall|i: int|
                            0 <= i < self.blocks@.len() ==> spec_same_block_except_view(
                                orig[i],
                                #[trigger] self.blocks@[i],
                            ) && spec_display_updated(
                                orig[i].execution_view,
                                self.blocks@[i].execution_view,
                                id,
                                *data,
                            ),
                        self.kernel == old(self).kernel,
                        self.kernel_specification == old(self).kernel_specification,
                        self.telemetry == old(self).telemetry,
                        self.events == old(self).events,
                        self.outbox == old(self).outbox,
                        self.queued == old(self).queued,
                        self.next_msg_id == old(self).next_msg_id,
                        self.next_block_id == old(self).next_block_id,
                    decreases pending@.len(),
                {
                    let ghost k = orig.len() - pending@.len();
                    proof {
                        assert(orig.skip(k)[0] == orig[k]);
                    }
                    let mut b = pending.remove(0);
                    assert(b == orig[k]);
                    proof {
                        assert(orig.skip(k).remove(0) =~= orig.skip(k + 1));
                    }
                    b.execution_view.update_display_data(id, data);
                    self.blocks.push(b);
                }
                return;
            },
            _ => {},
        }

        let ghost orig = self.blocks@;
        let mut pending: Vec<EditorBlock> = Vec::new();
        core::mem::swap(&mut pending, &mut self.blocks);
        while pending.len() > 0
            invariant
                pending@.len() <= orig.len(),
                self.blocks@.len() == orig.len() - pending@.len(),
                pending@ == orig.skip(orig.len() - pending@.len()),
                forall|i: int|
                    0 <= i < self.blocks@.len() ==> if orig[i].msg_id == parent_id {
                        spec_same_block_except_view(orig[i], #[trigger] self.blocks@[i])
                            && spec_message_pushed(
                            orig[i].execution_view,
                            self.blocks@[i].execution_view,
                            message.content,
                        )
                    } else {
                        #[trigger] self.blocks@[i] == orig[i]
                    },
                self.kernel == old(self).kernel,
                self.kernel_specification == old(self).kernel_specification,
                self.telemetry == old(self).telemetry,
                self.events == old(self).events,
                self.outbox == old(self).outbox,
                self.queued == old(self).queued,
                self.next_msg_id == old(self).next_msg_id,
                self.next_block_id == old(self).next_block_id,
            decreases pending@.len(),
        {
            let ghost k = orig.len() - pending@.len();
            proof {
                assert(orig.skip(k)[0] == orig[k]);
            }
            let mut b = pending.remove(0);
            assert(b == orig[k]);
            proof {
                assert(orig.skip(k).remove(0) =~= orig.skip(k + 1));
            }
            if b.msg_id == parent_id {
                b.handle_message(message);
            }
            self.blocks.push(b);
        }
    }

    /// Shut the kernel down. The state becomes `ShuttingDown` at once, so
    /// concurrent callers observe the transition. With a running kernel a
    /// graceful shutdown request is handed to the transport and the caller
    /// force-kills, waits out the grace period, then calls
    /// `finish_shutdown`; without one there is nothing to wait for, so the
    /// session clears every block and reaches `Shutdown` immediately. Both
    /// the graceful request and the forced kill are best-effort.
    pub fn shutdown(&mut self) -> (d: ShutdownDisposition)
        requires
            old(self).next_msg_id < u64::MAX,
        ensures
            old(self).kernel is RunningKernel ==> {
                &&& final(self).kernel is ShuttingDown
                &&& final(self).outbox@ == old(self).outbox@.push(
                    spec_shutdown_message(old(self).next_msg_id, false),
                )
                &&& final(self).next_msg_id == old(self).next_msg_id + 1
                &&& final(self).telemetry@ == old(self).telemetry@.push(
                    KernelStatus::ShuttingDown,
                )
                &&& final(self).events == old(self).events
                &&& final(self).blocks == old(self).blocks
                &&& d == (ShutdownDisposition::AwaitTermination { grace_secs: SHUTDOWN_GRACE_SECS })
            },
            !(old(self).kernel is RunningKernel) ==> {
                &&& final(self).kernel is Shutdown
                &&& final(self).outbox == old(self).outbox
                &&& final(self).next_msg_id == old(self).next_msg_id
                &&& final(self).telemetry@ == old(self).telemetry@.push(
                    KernelStatus::ShuttingDown,
                ).push(KernelStatus::Shutdown)
                &&& final(self).events@ == old(self).events@.push(SessionEvent::Shutdown)
                &&& final(self).blocks@ == Seq::<EditorBlock>::empty()
                &&& d matches ShutdownDisposition::Done { removed_block_ids }
                    && removed_block_ids@ == spec_block_ids(old(self).blocks@)
            },
            final(self).kernel_specification == old(self).kernel_specification,
            final(self).queued == old(self).queued,
            final(self).next_block_id == old(self).next_block_id,
            old(self).wf() ==> final(self).wf(),
    {
        let mut previous = Kernel::ShuttingDown;
        core::mem::swap(&mut previous, &mut self.kernel);
        self.telemetry.push(KernelStatus::ShuttingDown);
        match previous {
            Kernel::RunningKernel(_) => {
                let msg_id = self.next_msg_id;
                self.next_msg_id = msg_id + 1;
                let message = Message::request(
                    msg_id,
                    MessageContent::ShutdownRequest { restart: false },
                );
                self.outbox.push(message);
                ShutdownDisposition::AwaitTermination { grace_secs: SHUTDOWN_GRACE_SECS }
            },
            _ => {
                let removed = self.clear_outputs();
                self.kernel(Kernel::Shutdown);
                ShutdownDisposition::Done { removed_block_ids: removed }
            },
        }
    }

    /// Settle a shutdown once the grace period has elapsed. The forced
    /// kill's outcome is deliberately ignored — a failure is logged by the
    /// caller, never propagated — so the session always reaches
    /// `Shutdown`, with every block cleared, even when the kernel process
    /// could not be confirmed dead.
    pub fn finish_shutdown(&mut self, _kill_outcome: Result<(), String>) -> (removed: Vec<u64>)
        ensures
            removed@ == spec_block_ids(old(self).blocks@),
            final(self).blocks@ == Seq::<EditorBlock>::empty(),
            final(self).kernel is Shutdown,
            final(self).telemetry@ == old(self).telemetry@.push(KernelStatus::Shutdown),
            final(self).events@ == old(self).events@.push(SessionEvent::Shutdown),
            final(self).kernel_specification == old(self).kernel_specification,
            final(self).outbox == old(self).outbox,
            final(self).queued == old(self).queued,
            final(self).next_msg_id == old(self).next_msg_id,
            final(self).next_block_id == old(self).next_block_id,
            final(self).wf(),
    {
        let removed = self.clear_outputs();
        self.kernel(Kernel::Shutdown);
        removed
    }

    /// Restart the kernel. Calling this while a restart is already in
    /// flight is a no-op, so duplicate restarts collapse into one. With a
    /// running kernel a restart-flagged shutdown request is handed to the
    /// transport and the caller waits out the shorter grace period,
    /// force-kills, then calls `finish_restart`; otherwise outputs are
    /// cleared and a fresh launch begins at once.
    pub fn restart(&mut self) -> (d: RestartDisposition)
        requires
            old(self).next_msg_id < u64::MAX,
        ensures
            old(self).kernel is Restarting ==> *final(self) == *old(self)
                && d is AlreadyRestarting,
            old(self).kernel is RunningKernel ==> {
                &&& final(self).kernel is Restarting
                &&& final(self).outbox@ == old(self).outbox@.push(
                    spec_shutdown_message(old(self).next_msg_id, true),
                )
                &&& final(self).next_msg_id == old(self).next_msg_id + 1
                &&& final(self).telemetry@ == old(self).telemetry@.push(KernelStatus::Restarting)
                &&& final(self).blocks == old(self).blocks
                &&& d == (RestartDisposition::AwaitTermination { grace_secs: RESTART_GRACE_SECS })
            },
            !(old(self).kernel is Restarting) && !(old(self).kernel is RunningKernel) ==> {
                &&& final(self).kernel is StartingKernel
                &&& final(self).outbox == old(self).outbox
                &&& final(self).next_msg_id == old(self).next_msg_id
                &&& final(self).telemetry@ == old(self).telemetry@.push(
                    KernelStatus::Restarting,
                ).push(KernelStatus::Starting)
                &&& final(self).blocks@ == Seq::<EditorBlock>::empty()
                &&& d matches RestartDisposition::Restarted { removed_block_ids }
                    && removed_block_ids@ == spec_block_ids(old(self).blocks@)
            },
            final(self).events == old(self).events,
            final(self).kernel_specification == old(self).kernel_specification,
            final(self).queued == old(self).queued,
            final(self).next_block_id == old(self).next_block_id,
            old(self).wf() ==> final(self).wf(),
    {
        match &self.kernel {
            Kernel::Restarting => {
                return RestartDisposition::AlreadyRestarting;
            },
            _ => {},
        }
        let mut previous = Kernel::Restarting;
        core::mem::swap(&mut previous, &mut self.kernel);
        self.telemetry.push(KernelStatus::Restarting);
        match previous {
            Kernel::RunningKernel(_) => {
                let msg_id = self.next_msg_id;
                self.next_msg_id = msg_id + 1;
                let message = Message::request(
                    msg_id,
                    MessageContent::ShutdownRequest { restart: true },
                );
                self.outbox.push(message);
                RestartDisposition::AwaitTermination { grace_secs: RESTART_GRACE_SECS }
            },
            _ => {
                let removed = self.clear_outputs();
                self.start_kernel();
                RestartDisposition::Restarted { removed_block_ids: removed }
            },
        }
    }

    /// Settle a restart once the grace period has elapsed: outputs are
    /// cleared and a fresh launch begins. As with `finish_shutdown`, the
    /// forced kill's outcome is ignored so the restart always proceeds.
    pub fn finish_restart(&mut self, _kill_outcome: Result<(), String>) -> (removed: Vec<u64>)
        ensures
            removed@ == spec_block_ids(old(self).blocks@),
            final(self).blocks@ == Seq::<EditorBlock>::empty(),
            final(self).kernel is StartingKernel,
            final(self).telemetry@ == old(self).telemetry@.push(KernelStatus::Starting),
            final(self).events == old(self).events,
            final(self).kernel_specification == old(self).kernel_specification,
            final(self).outbox == old(self).outbox,
            final(self).queued == old(self).queued,
            final(self).next_msg_id == old(self).next_msg_id,
            final(self).next_block_id == old(self).next_block_id,
            final(self).wf(),
    {
        let removed = self.clear_outputs();
        self.start_kernel();
        removed
    }
}

} // verus!
