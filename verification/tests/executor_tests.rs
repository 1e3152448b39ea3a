use workflow_engine::executor::data::{ExecutorId, ExecutorStatus};
use workflow_engine::executor::service::{claimed_run_action, status_channel_name, ClaimedRunAction};
use workflow_engine::executor::utilities::{
    ExecutorStatusUpdate, WorkflowRunCancelMessage, WorkflowRunScheduledMessage,
};
use workflow_engine::executor::worker::{
    close_signal, Executor, ExecutorNextOperation, FinishAction, UnknownRunAction,
};
use workflow_engine::error::Error;
use workflow_engine::workflow_run::data::{ExecutorWorkflowRun, WorkflowRunId, WorkflowRunStatus};
use workflow_engine::workflow_run::service::{cancel_channel_name, scheduled_channel_name};

fn run(id: i64, status: WorkflowRunStatus, is_valid: bool) -> ExecutorWorkflowRun {
    ExecutorWorkflowRun { workflow_run_id: WorkflowRunId(id), status, is_valid }
}

#[test]
fn status_update_payloads() {
    assert_eq!(ExecutorStatusUpdate::from_str("cancel").unwrap(), ExecutorStatusUpdate::Cancel);
    assert_eq!(ExecutorStatusUpdate::from_str("shutdown").unwrap(), ExecutorStatusUpdate::Shutdown);
    assert_eq!(ExecutorStatusUpdate::from_str("Test").unwrap(), ExecutorStatusUpdate::NoOp);
    assert_eq!(ExecutorStatusUpdate::from_str("").unwrap(), ExecutorStatusUpdate::NoOp);
    assert!(ExecutorStatusUpdate::Cancel.is_cancelled());
    assert!(!ExecutorStatusUpdate::Shutdown.is_cancelled());
    assert!(!ExecutorStatusUpdate::NoOp.is_cancelled());
}

#[test]
fn cancel_payloads() {
    assert_eq!(WorkflowRunCancelMessage::from_str("15").unwrap(), WorkflowRunCancelMessage(Some(WorkflowRunId(15))));
    assert_eq!(WorkflowRunCancelMessage::from_str("abc").unwrap(), WorkflowRunCancelMessage(None));
    assert_eq!(WorkflowRunCancelMessage::from_str("").unwrap(), WorkflowRunCancelMessage(None));
    assert!(WorkflowRunScheduledMessage::from_str("anything").is_ok());
}

#[test]
fn cancel_payload_written_from_an_id_reads_back() {
    let id = WorkflowRunId(-9_000_000_001);
    let payload = id.to_string();
    assert_eq!(WorkflowRunCancelMessage::from_str(&payload).unwrap(), WorkflowRunCancelMessage(Some(id)));
}

#[test]
fn channel_names() {
    let id = ExecutorId(42);
    assert_eq!(status_channel_name(&id), "exec_status_42");
    assert_eq!(scheduled_channel_name(&id), "wr_scheduled_42");
    assert_eq!(cancel_channel_name(&id), "wr_canceled_42");
    assert_eq!(id.to_string(), "42");
}

#[test]
fn executor_id_from_param() {
    assert_eq!(ExecutorId::from_param("7").unwrap(), ExecutorId(7));
    assert!(matches!(ExecutorId::from_param("x7"), Err(Error::ParseInt(_))));
}

#[test]
fn claimed_runs() {
    assert_eq!(claimed_run_action(true), ClaimedRunAction::Start);
    assert_eq!(claimed_run_action(false), ClaimedRunAction::Complete);
}

#[test]
fn status_at_the_top_of_the_loop() {
    assert_eq!(Executor::<u8>::status_signal(ExecutorStatus::Active), None);
    assert_eq!(Executor::<u8>::status_signal(ExecutorStatus::Canceled), Some(ExecutorStatusUpdate::Cancel));
    assert_eq!(Executor::<u8>::status_signal(ExecutorStatus::Shutdown), Some(ExecutorStatusUpdate::Shutdown));
    assert_eq!(Executor::<u8>::status_or_canceled(None), ExecutorStatus::Canceled);
    assert_eq!(Executor::<u8>::status_or_canceled(Some(ExecutorStatus::Active)), ExecutorStatus::Active);
}

#[test]
fn next_operations() {
    let mut executor: Executor<&str> = Executor::new(ExecutorId(1));
    assert_eq!(*executor.executor_id(), ExecutorId(1));
    assert!(!executor.is_listen_mode());
    assert_eq!(executor.apply_next_operation(ExecutorNextOperation::Listen), None);
    assert!(executor.is_listen_mode());
    assert_eq!(executor.apply_next_operation(ExecutorNextOperation::NextWorkflowRun(WorkflowRunId(5), "h5")), None);
    assert!(!executor.is_listen_mode());
    assert_eq!(executor.handle(&WorkflowRunId(5)), Some(&"h5"));
    assert_eq!(executor.apply_next_operation(ExecutorNextOperation::Listen), None);
    assert_eq!(executor.apply_next_operation(ExecutorNextOperation::Continue), None);
    assert!(!executor.is_listen_mode());
    assert_eq!(
        executor.apply_next_operation(ExecutorNextOperation::Break(ExecutorStatusUpdate::Cancel)),
        Some(ExecutorStatusUpdate::Cancel)
    );
    assert_eq!(executor.handle(&WorkflowRunId(5)), Some(&"h5"));
}

#[test]
fn notifications() {
    assert!(matches!(Executor::<u8>::handle_manual_shutdown(), ExecutorNextOperation::Break(ExecutorStatusUpdate::Shutdown)));
    assert!(matches!(Executor::<u8>::handle_executor_status_notification(ExecutorStatusUpdate::NoOp), ExecutorNextOperation::Continue));
    assert!(matches!(Executor::<u8>::handle_executor_status_notification(ExecutorStatusUpdate::Cancel), ExecutorNextOperation::Break(ExecutorStatusUpdate::Cancel)));
    assert!(matches!(Executor::<u8>::handle_executor_status_notification(ExecutorStatusUpdate::Shutdown), ExecutorNextOperation::Break(ExecutorStatusUpdate::Shutdown)));
    assert!(matches!(Executor::<u8>::handle_workflow_run_scheduled_notification(Ok(WorkflowRunScheduledMessage)), Ok(ExecutorNextOperation::Continue)));
    assert!(matches!(Executor::<u8>::handle_workflow_run_scheduled_notification(Err(Error::ExitedTask)), Err(Error::ExitedTask)));
}

#[test]
fn cancel_notification_takes_the_handle() {
    let mut executor: Executor<u32> = Executor::new(ExecutorId(1));
    executor.add_workflow_run_handle(WorkflowRunId(3), 30);
    assert_eq!(executor.take_cancelled_handle(WorkflowRunCancelMessage(None)), None);
    assert_eq!(executor.take_cancelled_handle(WorkflowRunCancelMessage(Some(WorkflowRunId(4)))), None);
    assert_eq!(executor.take_cancelled_handle(WorkflowRunCancelMessage(Some(WorkflowRunId(3)))), Some((WorkflowRunId(3), 30)));
    assert_eq!(executor.handle(&WorkflowRunId(3)), None);
}

#[test]
fn unknown_run_actions() {
    assert_eq!(Executor::<u8>::process_unknown_run_action(&run(1, WorkflowRunStatus::Running, false)), UnknownRunAction::Cancel(WorkflowRunId(1)));
    assert_eq!(Executor::<u8>::process_unknown_run_action(&run(2, WorkflowRunStatus::Running, true)), UnknownRunAction::Respawn(WorkflowRunId(2)));
    assert_eq!(Executor::<u8>::process_unknown_run_action(&run(3, WorkflowRunStatus::Paused, true)), UnknownRunAction::RestartAndSchedule(WorkflowRunId(3)));
}

#[test]
fn cleanup_plan_skips_runs_with_handles() {
    let mut executor: Executor<u32> = Executor::new(ExecutorId(1));
    executor.add_workflow_run_handle(WorkflowRunId(1), 10);
    executor.add_workflow_run_handle(WorkflowRunId(2), 20);
    executor.remove_handles(&vec![WorkflowRunId(2)]);
    assert_eq!(executor.handle(&WorkflowRunId(1)), Some(&10));
    assert_eq!(executor.handle(&WorkflowRunId(2)), None);
    let runs = vec![
        run(1, WorkflowRunStatus::Running, true),
        run(2, WorkflowRunStatus::Scheduled, true),
        run(3, WorkflowRunStatus::Running, true),
        run(3, WorkflowRunStatus::Running, true),
        run(4, WorkflowRunStatus::Running, false),
    ];
    assert_eq!(
        executor.unknown_runs(&runs),
        vec![
            UnknownRunAction::RestartAndSchedule(WorkflowRunId(2)),
            UnknownRunAction::Respawn(WorkflowRunId(3)),
            UnknownRunAction::Cancel(WorkflowRunId(4)),
        ]
    );
}

#[test]
fn shutdown_drains_every_handle() {
    let mut executor: Executor<u32> = Executor::new(ExecutorId(1));
    for i in 0..5 {
        executor.add_workflow_run_handle(WorkflowRunId(i), i as u32 * 10);
    }
    let mut ids = executor.handle_ids();
    ids.sort_by_key(|id| id.0);
    assert_eq!(ids, (0..5).map(WorkflowRunId).collect::<Vec<_>>());
    let mut drained = executor.drain_handles();
    drained.sort_by_key(|(id, _)| id.0);
    assert_eq!(drained, (0..5).map(|i| (WorkflowRunId(i), i as u32 * 10)).collect::<Vec<_>>());
    assert!(executor.handle_ids().is_empty());
    assert!(executor.drain_handles().is_empty());
}

#[test]
fn finishing_handles() {
    assert_eq!(Executor::<u8>::finish_handle_action(true, true), FinishAction::AlreadyFinished);
    assert_eq!(Executor::<u8>::finish_handle_action(true, false), FinishAction::AlreadyFinished);
    assert_eq!(Executor::<u8>::finish_handle_action(false, true), FinishAction::AbortThenMove);
    assert_eq!(Executor::<u8>::finish_handle_action(false, false), FinishAction::StartMove);
}

#[test]
fn loop_outcome_closes_the_executor() {
    let ended: Result<ExecutorStatusUpdate, Error> = Ok(ExecutorStatusUpdate::Shutdown);
    assert_eq!(close_signal(&ended), ExecutorStatusUpdate::Shutdown);
    let failed: Result<ExecutorStatusUpdate, Error> = Err(Error::ExitedTask);
    assert_eq!(close_signal(&failed), ExecutorStatusUpdate::Cancel);
}
