use repl_session::document::{Anchor, AnchorRange, Snapshot};
use repl_session::kernel::{Kernel, KernelStatus};
use repl_session::messages::{ExecutionState, Message, MessageContent, MessageHeader};
use repl_session::outputs::ExecutionStatus;
use repl_session::session::{
    ExecuteOutcome, KernelSpecification, RestartDisposition, SendDisposition, Session,
    SessionEvent, ShutdownDisposition,
};

fn spec() -> KernelSpecification {
    KernelSpecification {
        name: String::from("deno"),
        language: String::from("typescript"),
    }
}

fn anchor(row: u64) -> Anchor {
    Anchor { row }
}

fn range(start: u64, end: u64) -> AnchorRange {
    AnchorRange { start: anchor(start), end: anchor(end) }
}

fn snapshot(max_row: u64) -> Snapshot {
    Snapshot { version: 1, max_row, dropped_rows: Vec::new() }
}

fn running_session() -> Session {
    let mut session = Session::new(spec());
    session.on_startup_resolved(Ok(()));
    session
}

fn reply(parent: u64, content: MessageContent) -> Message {
    Message {
        header: MessageHeader { msg_id: 9000 + parent },
        parent_header: Some(MessageHeader { msg_id: parent }),
        content: content,
    }
}

#[test]
fn new_session_starts_kernel() {
    let session = Session::new(spec());
    assert!(matches!(session.kernel, Kernel::StartingKernel));
    assert_eq!(session.blocks.len(), 0);
    assert_eq!(session.telemetry, vec![KernelStatus::Starting]);
    assert!(session.outbox.is_empty());
}

#[test]
fn startup_success_makes_kernel_idle() {
    let session = running_session();
    match &session.kernel {
        Kernel::RunningKernel(running) => {
            assert_eq!(running.execution_state, ExecutionState::Idle);
            assert!(running.kernel_info.is_none());
        }
        other => panic!("expected a running kernel, got {:?}", kernel_name(other)),
    }
    assert_eq!(
        session.telemetry,
        vec![KernelStatus::Starting, KernelStatus::Idle]
    );
}

fn kernel_name(kernel: &Kernel) -> &'static str {
    match kernel {
        Kernel::StartingKernel => "StartingKernel",
        Kernel::RunningKernel(_) => "RunningKernel",
        Kernel::ErroredLaunch(_) => "ErroredLaunch",
        Kernel::ShuttingDown => "ShuttingDown",
        Kernel::Shutdown => "Shutdown",
        Kernel::Restarting => "Restarting",
    }
}

#[test]
fn startup_failure_records_error_and_marks_blocks() {
    let mut session = Session::new(spec());
    session.execute(String::from("1+1"), range(0, 0), None, false, &snapshot(5));
    session.on_startup_resolved(Err(String::from("no kernel binary")));
    match &session.kernel {
        Kernel::ErroredLaunch(message) => assert_eq!(message, "no kernel binary"),
        other => panic!("expected an errored launch, got {}", kernel_name(other)),
    }
    assert!(session.queued.is_empty());
    assert!(session.outbox.is_empty());
    match &session.blocks[0].execution_view.status {
        ExecutionStatus::KernelErrored(message) => assert_eq!(message, "no kernel binary"),
        _ => panic!("block should be marked errored"),
    }
}

// Each execute call with non-empty code and a fresh range adds exactly one
// block; an empty-code call adds none.
#[test]
fn nonoverlapping_executes_accumulate() {
    let mut session = running_session();
    session.execute(String::from("a"), range(0, 0), None, false, &snapshot(20));
    session.execute(String::from("b"), range(2, 3), None, false, &snapshot(20));
    session.execute(String::from("c"), range(5, 8), None, false, &snapshot(20));
    assert_eq!(session.blocks.len(), 3);
    let outcome = session.execute(String::new(), range(10, 11), None, false, &snapshot(20));
    assert!(matches!(outcome, ExecuteOutcome::Skipped));
    assert_eq!(session.blocks.len(), 3);
    assert_eq!(session.outbox.len(), 3);
}

// Re-executing a range evicts exactly the blocks it overlaps, no others.
#[test]
fn overlapping_execute_evicts_exactly_the_overlap() {
    let mut session = running_session();
    session.execute(String::from("a"), range(0, 1), None, false, &snapshot(20));
    session.execute(String::from("b"), range(5, 6), None, false, &snapshot(20));
    let first_block_id = session.blocks[0].block_id;
    let second_block_id = session.blocks[1].block_id;
    let outcome = session.execute(String::from("c"), range(1, 2), None, false, &snapshot(20));
    match outcome {
        ExecuteOutcome::Submitted { removed_block_ids, block_id, .. } => {
            assert_eq!(removed_block_ids, vec![first_block_id]);
            assert_eq!(session.blocks.len(), 2);
            assert_eq!(session.blocks[0].block_id, second_block_id);
            assert_eq!(session.blocks[1].block_id, block_id);
        }
        ExecuteOutcome::Skipped => panic!("non-empty code must submit"),
    }
}

// An edit that makes one block's invalidation anchor unresolvable removes
// exactly that block; the other survives.
#[test]
fn edit_invalidates_exactly_the_stale_block() {
    let mut session = running_session();
    session.execute(String::from("a"), range(0, 1), None, false, &snapshot(20));
    session.execute(String::from("b"), range(5, 6), None, false, &snapshot(20));
    let first_block_id = session.blocks[0].block_id;
    let second_block_id = session.blocks[1].block_id;
    // The first block's invalidation anchor sits one row past its code.
    assert_eq!(session.blocks[0].invalidation_anchor.row, 2);
    let edited = Snapshot { version: 2, max_row: 20, dropped_rows: vec![2] };
    let removed = session.on_buffer_event(
        &repl_session::session::BufferEvent::Edited,
        &edited,
    );
    assert_eq!(removed, vec![first_block_id]);
    assert_eq!(session.blocks.len(), 1);
    assert_eq!(session.blocks[0].block_id, second_block_id);
}

#[test]
fn non_edit_events_change_nothing() {
    let mut session = running_session();
    session.execute(String::from("a"), range(0, 1), None, false, &snapshot(20));
    let removed = session.on_buffer_event(
        &repl_session::session::BufferEvent::Saved,
        &Snapshot { version: 2, max_row: 0, dropped_rows: vec![2] },
    );
    assert!(removed.is_empty());
    assert_eq!(session.blocks.len(), 1);
}

// A busy status report changes the execution-state field, never the
// lifecycle variant; while shut down it is a no-op.
#[test]
fn status_busy_keeps_the_variant() {
    let mut session = running_session();
    session.route(&reply(42, MessageContent::Status {
        execution_state: ExecutionState::Busy,
    }));
    match &session.kernel {
        Kernel::RunningKernel(running) => {
            assert_eq!(running.execution_state, ExecutionState::Busy)
        }
        other => panic!("status must not change the variant, got {}", kernel_name(other)),
    }
    assert_eq!(*session.telemetry.last().unwrap(), KernelStatus::Busy);

    let mut shut = Session::new(spec());
    shut.shutdown();
    assert!(matches!(shut.kernel, Kernel::Shutdown));
    shut.route(&reply(42, MessageContent::Status {
        execution_state: ExecutionState::Busy,
    }));
    assert!(matches!(shut.kernel, Kernel::Shutdown));
}

#[test]
fn kernel_info_reply_records_metadata() {
    let mut session = running_session();
    session.route(&reply(1, MessageContent::KernelInfoReply {
        language: String::from("python"),
    }));
    match &session.kernel {
        Kernel::RunningKernel(running) => {
            assert_eq!(running.kernel_info.as_ref().unwrap().language, "python")
        }
        other => panic!("expected a running kernel, got {}", kernel_name(other)),
    }
}

// An update-display message updates every block showing that display id
// and no others.
#[test]
fn update_display_data_hits_every_showing_block() {
    let mut session = running_session();
    session.execute(String::from("a"), range(0, 0), None, false, &snapshot(20));
    session.execute(String::from("b"), range(3, 3), None, false, &snapshot(20));
    session.execute(String::from("c"), range(6, 6), None, false, &snapshot(20));
    let first = session.blocks[0].msg_id;
    let second = session.blocks[1].msg_id;
    let third = session.blocks[2].msg_id;
    session.route(&reply(first, MessageContent::DisplayData {
        display_id: Some(7),
        data: String::from("old"),
    }));
    session.route(&reply(second, MessageContent::DisplayData {
        display_id: Some(7),
        data: String::from("old"),
    }));
    session.route(&reply(third, MessageContent::DisplayData {
        display_id: Some(8),
        data: String::from("other"),
    }));
    // The update correlates with one request but must reach every block
    // showing display id 7.
    session.route(&reply(first, MessageContent::UpdateDisplayData {
        display_id: Some(7),
        data: String::from("new"),
    }));
    assert_eq!(session.blocks[0].execution_view.outputs[0].data, "new");
    assert_eq!(session.blocks[1].execution_view.outputs[0].data, "new");
    assert_eq!(session.blocks[2].execution_view.outputs[0].data, "other");
}

#[test]
fn unroutable_messages_are_dropped() {
    let mut session = running_session();
    session.execute(String::from("a"), range(0, 0), None, false, &snapshot(20));
    let no_parent = Message {
        header: MessageHeader { msg_id: 77 },
        parent_header: None,
        content: MessageContent::StreamOutput { text: String::from("noise") },
    };
    session.route(&no_parent);
    assert!(session.blocks[0].execution_view.outputs.is_empty());
    // A reply to an evicted or unknown correlation id is dropped too.
    session.route(&reply(123456, MessageContent::StreamOutput {
        text: String::from("stale"),
    }));
    assert!(session.blocks[0].execution_view.outputs.is_empty());
}

#[test]
fn execute_reply_finishes_the_block() {
    let mut session = running_session();
    session.execute(String::from("a"), range(0, 0), None, false, &snapshot(20));
    let id = session.blocks[0].msg_id;
    session.route(&reply(id, MessageContent::ExecuteReply));
    assert!(matches!(
        session.blocks[0].execution_view.status,
        ExecutionStatus::Finished
    ));
    // A later launch failure leaves the finished block alone.
    session.kernel_errored(String::from("gone"));
    assert!(matches!(
        session.blocks[0].execution_view.status,
        ExecutionStatus::Finished
    ));
}

// Scenario: execute while the kernel is still starting. The block shows
// the connecting status; once startup resolves, the queued request is
// sent exactly once, with the original code.
#[test]
fn queued_execute_sends_once_after_startup() {
    let mut session = Session::new(spec());
    let outcome = session.execute(String::from("1+1"), range(0, 0), None, false, &snapshot(5));
    match outcome {
        ExecuteOutcome::Submitted { disposition, .. } => {
            assert!(matches!(disposition, SendDisposition::QueuedUntilStart))
        }
        ExecuteOutcome::Skipped => panic!("non-empty code must submit"),
    }
    assert_eq!(session.blocks.len(), 1);
    assert!(matches!(
        session.blocks[0].execution_view.status,
        ExecutionStatus::ConnectingToKernel
    ));
    assert!(session.outbox.is_empty());
    assert_eq!(session.queued.len(), 1);

    session.on_startup_resolved(Ok(()));
    assert_eq!(session.outbox.len(), 1);
    assert!(session.queued.is_empty());
    let sent = &session.outbox[0];
    assert_eq!(sent.header.msg_id, session.blocks[0].msg_id);
    match &sent.content {
        MessageContent::ExecuteRequest { code } => assert_eq!(code, "1+1"),
        _ => panic!("the queued message must be the execute request"),
    }
}

// Execution while the kernel is gone drops the message instead of
// queueing it; the block still records the state it was submitted in.
#[test]
fn execute_without_kernel_drops_the_message() {
    let mut session = Session::new(spec());
    session.shutdown();
    let outcome = session.execute(String::from("1"), range(0, 0), None, false, &snapshot(5));
    match outcome {
        ExecuteOutcome::Submitted { disposition, .. } => {
            assert!(matches!(disposition, SendDisposition::Dropped))
        }
        ExecuteOutcome::Skipped => panic!("non-empty code must submit"),
    }
    assert!(session.outbox.is_empty());
    assert!(session.queued.is_empty());
    assert!(matches!(
        session.blocks[0].execution_view.status,
        ExecutionStatus::Shutdown
    ));
}

#[test]
fn execute_at_document_end_inserts_newline_and_moves_cursor() {
    let mut session = running_session();
    let outcome = session.execute(String::from("x"), range(4, 5), None, true, &snapshot(5));
    match outcome {
        ExecuteOutcome::Submitted { inserted_newline, cursor, .. } => {
            assert!(inserted_newline);
            assert_eq!(cursor, Some(Anchor { row: 6 }));
        }
        ExecuteOutcome::Skipped => panic!("non-empty code must submit"),
    }
    let outcome = session.execute(
        String::from("y"),
        range(0, 1),
        Some(Anchor { row: 3 }),
        true,
        &snapshot(6),
    );
    match outcome {
        ExecuteOutcome::Submitted { inserted_newline, cursor, .. } => {
            assert!(!inserted_newline);
            assert_eq!(cursor, Some(Anchor { row: 3 }));
        }
        ExecuteOutcome::Skipped => panic!("non-empty code must submit"),
    }
    let outcome = session.execute(String::from("z"), range(2, 2), None, false, &snapshot(6));
    match outcome {
        ExecuteOutcome::Submitted { cursor, .. } => assert_eq!(cursor, None),
        ExecuteOutcome::Skipped => panic!("non-empty code must submit"),
    }
}

#[test]
fn interrupt_only_reaches_a_running_kernel() {
    let mut session = running_session();
    session.interrupt();
    assert_eq!(session.outbox.len(), 1);
    assert!(matches!(
        session.outbox[0].content,
        MessageContent::InterruptRequest
    ));

    let mut starting = Session::new(spec());
    starting.interrupt();
    assert!(starting.outbox.is_empty());
    assert!(starting.queued.is_empty());
}

// Scenario: shutdown while running. The state flips to ShuttingDown
// synchronously; after the grace period the session reaches Shutdown with
// zero blocks, even when the forced kill reports failure.
#[test]
fn shutdown_reaches_shutdown_even_if_kill_fails() {
    let mut session = running_session();
    session.execute(String::from("a"), range(0, 0), None, false, &snapshot(5));
    let disposition = session.shutdown();
    assert!(matches!(session.kernel, Kernel::ShuttingDown));
    match disposition {
        ShutdownDisposition::AwaitTermination { grace_secs } => assert_eq!(grace_secs, 3),
        ShutdownDisposition::Done { .. } => panic!("a running kernel needs the grace period"),
    }
    match session.outbox.last().unwrap().content {
        MessageContent::ShutdownRequest { restart } => assert!(!restart),
        _ => panic!("shutdown must send a shutdown request"),
    }
    let removed = session.finish_shutdown(Err(String::from("kill failed")));
    assert_eq!(removed.len(), 1);
    assert!(matches!(session.kernel, Kernel::Shutdown));
    assert_eq!(session.blocks.len(), 0);
    assert!(matches!(session.events.last().unwrap(), SessionEvent::Shutdown));
}

#[test]
fn shutdown_without_transport_is_immediate_and_clears_blocks() {
    let mut session = Session::new(spec());
    session.execute(String::from("a"), range(0, 0), None, false, &snapshot(5));
    let block_id = session.blocks[0].block_id;
    let disposition = session.shutdown();
    match disposition {
        ShutdownDisposition::Done { removed_block_ids } => {
            assert_eq!(removed_block_ids, vec![block_id])
        }
        ShutdownDisposition::AwaitTermination { .. } => {
            panic!("without a transport there is nothing to wait for")
        }
    }
    assert!(matches!(session.kernel, Kernel::Shutdown));
    assert!(session.blocks.is_empty());
    assert!(matches!(session.events.last().unwrap(), SessionEvent::Shutdown));
    assert!(session.outbox.is_empty());
}

// Scenario: two restarts in quick succession. The second call lands while
// the state is Restarting and is a no-op: one restart sequence runs.
#[test]
fn double_restart_runs_one_sequence() {
    let mut session = running_session();
    let first = session.restart();
    match first {
        RestartDisposition::AwaitTermination { grace_secs } => assert_eq!(grace_secs, 1),
        _ => panic!("a running kernel restarts through the grace period"),
    }
    assert!(matches!(session.kernel, Kernel::Restarting));
    let requests = session.outbox.len();
    let telemetry_len = session.telemetry.len();

    let second = session.restart();
    assert!(matches!(second, RestartDisposition::AlreadyRestarting));
    assert!(matches!(session.kernel, Kernel::Restarting));
    assert_eq!(session.outbox.len(), requests);
    assert_eq!(session.telemetry.len(), telemetry_len);

    match session.outbox.last().unwrap().content {
        MessageContent::ShutdownRequest { restart } => assert!(restart),
        _ => panic!("restart must send a restart-flagged shutdown request"),
    }
    let removed = session.finish_restart(Ok(()));
    assert!(removed.is_empty());
    assert!(matches!(session.kernel, Kernel::StartingKernel));
}

#[test]
fn restart_without_transport_relaunches_at_once() {
    let mut session = Session::new(spec());
    session.execute(String::from("a"), range(0, 0), None, false, &snapshot(5));
    session.on_startup_resolved(Err(String::from("no kernel binary")));
    assert!(matches!(session.kernel, Kernel::ErroredLaunch(_)));
    assert_eq!(session.blocks.len(), 1);
    let disposition = session.restart();
    match disposition {
        RestartDisposition::Restarted { removed_block_ids } => {
            assert_eq!(removed_block_ids.len(), 1)
        }
        _ => panic!("without a transport the restart settles at once"),
    }
    assert!(matches!(session.kernel, Kernel::StartingKernel));
    assert_eq!(session.blocks.len(), 0);
}

// The close control removes exactly the clicked execution's block.
#[test]
fn close_block_removes_exactly_that_block() {
    let mut session = running_session();
    session.execute(String::from("a"), range(0, 0), None, false, &snapshot(9));
    session.execute(String::from("b"), range(2, 2), None, false, &snapshot(9));
    let first_msg = session.blocks[0].msg_id;
    let first_block = session.blocks[0].block_id;
    let second_block = session.blocks[1].block_id;
    let removed = session.close_block(first_msg);
    assert_eq!(removed, Some(first_block));
    assert_eq!(session.blocks.len(), 1);
    assert_eq!(session.blocks[0].block_id, second_block);
}

#[test]
fn closing_an_unknown_block_is_a_no_op() {
    let mut session = running_session();
    session.execute(String::from("a"), range(0, 0), None, false, &snapshot(9));
    let removed = session.close_block(123456);
    assert_eq!(removed, None);
    assert_eq!(session.blocks.len(), 1);
}

#[test]
fn clear_outputs_removes_every_block() {
    let mut session = running_session();
    session.execute(String::from("a"), range(0, 0), None, false, &snapshot(9));
    session.execute(String::from("b"), range(2, 2), None, false, &snapshot(9));
    let ids: Vec<u64> = session.blocks.iter().map(|b| b.block_id).collect();
    let removed = session.clear_outputs();
    assert_eq!(removed, ids);
    assert!(session.blocks.is_empty());
}

#[test]
fn status_text_follows_the_kernel_state() {
    let mut session = Session::new(spec());
    assert_eq!(session.kernel.status_text().as_deref(), Some("Starting"));
    session.on_startup_resolved(Ok(()));
    assert_eq!(session.kernel.status_text(), None);
    session.route(&reply(1, MessageContent::KernelInfoReply {
        language: String::from("python"),
    }));
    assert_eq!(session.kernel.status_text().as_deref(), Some("python"));
    session.kernel_errored(String::from("spawn failed"));
    assert_eq!(
        session.kernel.status_text().as_deref(),
        Some("Error: spawn failed")
    );
    session.shutdown();
    assert_eq!(session.kernel.status_text().as_deref(), Some("Shutdown"));
}

#[test]
fn kernel_setter_reports_telemetry_and_shutdown_event() {
    let mut session = Session::new(spec());
    session.kernel(Kernel::Restarting);
    assert_eq!(*session.telemetry.last().unwrap(), KernelStatus::Restarting);
    assert!(session.events.is_empty());
    session.kernel(Kernel::Shutdown);
    assert_eq!(*session.telemetry.last().unwrap(), KernelStatus::Shutdown);
    assert_eq!(session.events.len(), 1);
}
