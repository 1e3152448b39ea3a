use workflow_engine::api::{deprecated_message, ApiFormatType, ApiResponse, Response};
use workflow_engine::db_build::{anonymous_block, relative_path_part, DbBuild, DbBuildEntry};
use workflow_engine::error::{require_record, Error};
use workflow_engine::workflow::data::{
    TaskId, TaskRequest, TaskRequestValidator, WorkflowId, WorkflowRequest,
    WorkflowRequestValidator,
};
use workflow_engine::workflow_run::data::{
    TaskQueueRecord, TaskQueueRequest, TaskResponse, TaskRule, TaskStatus, WorkflowRunId,
};
use workflow_engine::workflow_run::service::{
    append_task_rule_check, initialize_check, process_response, retry_task_check, task_queue_pk,
    ResponseAction, WorkerAction, WorkerPhase, WorkflowRunWorker,
};

fn task_request(name: &str, description: &str, url: &str) -> TaskRequest {
    TaskRequest { name: name.to_string(), description: description.to_string(), task_service_id: 1, url: url.to_string() }
}

fn record() -> TaskQueueRecord {
    TaskQueueRecord { workflow_run_id: WorkflowRunId(5), task_order: 2, task_id: TaskId(9), status: TaskStatus::Running, parameters: None, url: "http://t".to_string() }
}

#[test]
fn task_request_validation() {
    assert_eq!(TaskRequestValidator::validate(&task_request("a", "b", "c")), Ok(()));
    assert_eq!(TaskRequestValidator::validate(&task_request(" ", "", "")), Err("Request 'name' cannot be empty or whitespace"));
    assert_eq!(TaskRequestValidator::validate(&task_request("a", "\n", "")), Err("Request 'description' cannot be empty or whitespace"));
    assert_eq!(TaskRequestValidator::validate(&task_request("a", "b", "")), Err("Request 'url' cannot be empty or whitespace"));
}

#[test]
fn workflow_request_validation() {
    assert_eq!(WorkflowRequestValidator::validate(&WorkflowRequest { name: "w".to_string(), tasks: vec![] }), Ok(()));
    assert_eq!(WorkflowRequestValidator::validate(&WorkflowRequest { name: "  ".to_string(), tasks: vec![] }), Err("Request 'name' cannot be empty or whitespace"));
}

#[test]
fn ids() {
    assert_eq!(WorkflowId::from(3).to_string(), "3");
    assert_eq!(TaskId::from(-4).into_inner(), -4);
    assert_eq!(WorkflowRunId::from_str("77").unwrap(), WorkflowRunId(77));
    assert!(WorkflowRunId::from_str("7 7").is_err());
}

#[test]
fn deprecated_workflows_cannot_start_runs() {
    assert!(initialize_check(false, None).is_ok());
    assert!(matches!(initialize_check(true, Some(WorkflowId(4))), Err(Error::Generic(ref m))
        if m == &format!("Cannot initialize a workflow_run with a deprecated workflow. Consider using workflow_id = {:?}", Some(WorkflowId(4)))));
    assert!(matches!(initialize_check(true, None), Err(Error::Generic(ref m))
        if m == "Cannot initialize a workflow_run with a deprecated workflow. Consider using workflow_id = None"));
}

#[test]
fn task_queue_rules() {
    for status in [TaskStatus::Failed, TaskStatus::RuleBroken] {
        assert!(retry_task_check(status).is_ok());
    }
    for status in [TaskStatus::Waiting, TaskStatus::Running, TaskStatus::Complete, TaskStatus::Paused, TaskStatus::Canceled] {
        assert!(matches!(retry_task_check(status), Err(Error::Generic(ref m)) if m == "Cannot retry task. Status must be 'Failed' or 'Rule Broken'"));
    }
    assert!(append_task_rule_check(&TaskRule { name: "disk".to_string(), failed: false, message: None }).is_ok());
    assert!(matches!(append_task_rule_check(&TaskRule { name: " ".to_string(), failed: true, message: None }),
        Err(Error::Generic(ref m)) if m == "Task rule attribute 'name' cannot be empty or whitespace"));
    assert_eq!(task_queue_pk(&TaskQueueRequest { workflow_run_id: WorkflowRunId(5), task_order: -2 }), "5 + -2");
}

#[test]
fn task_responses() {
    let key = TaskQueueRequest { workflow_run_id: WorkflowRunId(5), task_order: 2 };
    assert!(matches!(process_response(TaskResponse::Progress(40), &record()), ResponseAction::SetProgress(k, 40) if k == key));
    assert!(matches!(process_response(TaskResponse::Rule(TaskRule { name: "r".to_string(), failed: true, message: None }), &record()),
        ResponseAction::AppendRule(k, ref rule) if k == key && rule.name == "r" && rule.failed));
    assert!(matches!(process_response(TaskResponse::Done { success: false, message: Some("m".to_string()) }, &record()),
        ResponseAction::Done(false, Some(ref m)) if m == "m"));
}

#[test]
fn worker_runs_tasks_until_none_is_left() {
    let mut worker = WorkflowRunWorker::new(WorkflowRunId(5));
    assert_eq!(worker.workflow_run_id(), WorkflowRunId(5));
    assert_eq!(worker.phase(), WorkerPhase::Fetching);
    let WorkerAction::RunTask(task) = worker.on_next_task(Some(record())) else { panic!() };
    assert_eq!(worker.phase(), WorkerPhase::Running);
    assert!(matches!(worker.on_task_result(task, Ok((true, None))), WorkerAction::CompleteTask { is_paused: true, message: None, .. }));
    assert_eq!(worker.phase(), WorkerPhase::Fetching);
    assert!(matches!(worker.on_next_task(None), WorkerAction::CompleteWorkflowRun));
    assert_eq!(worker.phase(), WorkerPhase::Done);
}

#[test]
fn worker_stops_after_a_failed_task() {
    let mut worker = WorkflowRunWorker::new(WorkflowRunId(5));
    let WorkerAction::RunTask(task) = worker.on_next_task(Some(record())) else { panic!() };
    assert!(matches!(worker.on_task_result(task, Err(Error::ExitedTask)), WorkerAction::FailTask { error: Error::ExitedTask, .. }));
    assert_eq!(worker.phase(), WorkerPhase::Done);
}

#[test]
fn api_responses() {
    assert_eq!(ApiFormatType::from_value("json"), ApiFormatType::Json);
    assert_eq!(ApiFormatType::from_value("msgpack"), ApiFormatType::MessagePack);
    assert_eq!(ApiFormatType::default(), ApiFormatType::MessagePack);
    assert!(matches!(ApiResponse::success(3, ApiFormatType::Json), ApiResponse::Json(Response::Success(3))));
    assert!(matches!(ApiResponse::<u8>::message("m".to_string(), ApiFormatType::MessagePack), ApiResponse::MessagePack(Response::Message(ref m)) if m == "m"));
    assert!(matches!(ApiResponse::<u8>::failure("f".to_string(), ApiFormatType::Json), ApiResponse::Json(Response::Error(ref m)) if m == "f"));
    assert!(matches!(ApiResponse::<u8>::error("e".to_string(), ApiFormatType::Json), ApiResponse::Json(Response::Error(ref m)) if m == "e"));
    assert!(matches!(ApiResponse::from_result(Ok(1), ApiFormatType::MessagePack), ApiResponse::MessagePack(Response::Success(1))));
    assert!(matches!(ApiResponse::<u8>::from_result(Err("x".to_string()), ApiFormatType::Json), ApiResponse::Json(Response::Error(ref m)) if m == "x"));
    assert_eq!(deprecated_message(WorkflowId(12)), "Successfully deprecated workflow_id = 12");
}

#[test]
fn missing_records() {
    assert_eq!(require_record(Some(4), "1".to_string()).unwrap(), 4);
    assert!(matches!(require_record::<u8>(None, "1".to_string()), Err(Error::MissingRecord { ref pk }) if pk == "1"));
}

fn build_entry(name: &str, deps: &[&str]) -> DbBuildEntry {
    DbBuildEntry { name: name.to_string(), dependencies: deps.iter().map(|d| d.to_string()).collect() }
}

#[test]
fn build_order_respects_dependencies() {
    let build = DbBuild {
        common_dependencies: vec![],
        entries: vec![
            build_entry("c.pgsql", &["a.pgsql", "b.pgsql"]),
            build_entry("a.pgsql", &[]),
            build_entry("b.pgsql", &["a.pgsql"]),
            build_entry("d.pgsql", &[]),
        ],
    };
    let mut order = build.entries_ordered();
    let mut names = vec![];
    while !order.is_blocked() {
        match order.next() {
            Some(entry) => names.push(entry.name.clone()),
            None => break,
        }
    }
    assert_eq!(names, vec!["a.pgsql", "b.pgsql", "c.pgsql", "d.pgsql"]);
}

#[test]
fn build_order_detects_unresolvable_dependencies() {
    let build = DbBuild { common_dependencies: vec![], entries: vec![build_entry("a", &[]), build_entry("b", &["z"])] };
    let mut order = build.entries_ordered();
    assert!(!order.is_blocked());
    assert_eq!(order.next().map(|e| e.name.as_str()), Some("a"));
    assert!(order.is_blocked());
    let empty = DbBuild { common_dependencies: vec![], entries: vec![] };
    let mut order = empty.entries_ordered();
    assert!(!order.is_blocked());
    assert!(order.next().is_none());
}

#[test]
fn dependencies_met() {
    let entry = build_entry("x", &["a", "b"]);
    assert!(!entry.dependencies_met(&vec!["a".to_string()]));
    assert!(entry.dependencies_met(&vec!["b".to_string(), "a".to_string()]));
    assert!(build_entry("y", &[]).dependencies_met(&vec![]));
}

#[test]
fn anonymous_blocks() {
    assert_eq!(anonymous_block("do $$ begin end $$;".to_string()), "do $$ begin end $$;");
    assert_eq!(anonymous_block("  begin\nperform 1;\nend;".to_string()), "do $body$\n  begin\nperform 1;\nend;\n$body$;");
    assert_eq!(anonymous_block("declare x int; begin end;".to_string()), "do $body$\ndeclare x int; begin end;\n$body$;");
    assert_eq!(anonymous_block("create table t();".to_string()), "do $body$\nbegin\ncreate table t();\nend;\n$body$;");
    assert_eq!(anonymous_block("doing();".to_string()), "do $body$\nbegin\ndoing();\nend;\n$body$;");
    assert_eq!(anonymous_block(" \n ".to_string()), " \n ");
}

#[test]
fn relative_paths() {
    assert_eq!(relative_path_part("/workflow-engine/database/build.json"), "workflow-engine/database/build.json");
    assert_eq!(relative_path_part("//a/b"), "a/b");
    assert_eq!(relative_path_part("a/b"), "a/b");
}

#[test]
fn build_order_gives_dependencies_first() {
    let build = DbBuild {
        common_dependencies: vec![],
        entries: vec![build_entry("a", &["b"]), build_entry("b", &[]), build_entry("c", &["a", "b"])],
    };
    let mut order = build.entries_ordered();
    let mut names = vec![];
    while !order.is_blocked() {
        match order.next() {
            Some(entry) => names.push(entry.name.as_str()),
            None => break,
        }
    }
    assert!(!order.is_blocked());
    assert_eq!(names, vec!["b", "a", "c"]);
}

#[test]
fn build_order_blocks_on_a_cycle() {
    let build = DbBuild {
        common_dependencies: vec![],
        entries: vec![build_entry("a", &["b"]), build_entry("b", &["a"]), build_entry("c", &[])],
    };
    let mut order = build.entries_ordered();
    assert_eq!(order.next().map(|e| e.name.as_str()), Some("c"));
    assert!(order.is_blocked());
}
