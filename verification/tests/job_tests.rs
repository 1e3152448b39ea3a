use workflow_engine::error::Error;
use workflow_engine::job::data::{
    Interval, IntervalField, IntervalFieldError, IntervalReader, JobId, JobMin, JobRequest,
    JobRequestValidator, JobType, JobTypeEnum, ScheduleEntry, TimeOfDay,
};
use workflow_engine::job::service::{
    complete_job_target, job_completion_message, job_completion_status, run_job_decision,
    TransactionEnd,
};
use workflow_engine::job_worker::{JobWorker, NextJobDecision, NotificationAction};
use workflow_engine::time::Timestamp;
use workflow_engine::workflow::data::WorkflowId;
use workflow_engine::workflow_run::data::{WorkflowRunId, WorkflowRunStatus};

fn at(secs: i64) -> Timestamp {
    Timestamp::new(secs, 0).unwrap()
}

fn entry(day: i16, secs: u32) -> ScheduleEntry {
    ScheduleEntry::new(day, TimeOfDay { secs, frac: 0 })
}

fn scheduled(maintainer: &str, entries: Vec<ScheduleEntry>) -> JobRequest {
    JobRequest::new(WorkflowId(1), maintainer.to_string(), JobType::Scheduled(entries), None)
}

#[test]
fn job_type_names() {
    assert_eq!(JobTypeEnum::from_str("scheduled").unwrap(), JobTypeEnum::Scheduled);
    assert_eq!(JobTypeEnum::from_str("interval").unwrap(), JobTypeEnum::Interval);
    match JobTypeEnum::from_str("weekly") {
        Err(Error::Generic(m)) => assert_eq!(m, "Parse JobTypeEnum from string. Expected `scheduled` or `interval` but got `weekly`"),
        other => panic!("{:?}", other),
    }
}

#[test]
fn job_id_text() {
    let id = JobId::from(12);
    assert_eq!(id.into_inner(), 12);
    assert_eq!(id.to_string(), "12");
    assert_eq!(JobId::from_param("12").unwrap(), id);
    assert!(JobId::from_param("").is_err());
}

#[test]
fn request_validation() {
    assert_eq!(JobRequestValidator::validate(&scheduled(" \t", vec![])), Err("Maintainer must not be empty or whitespace"));
    assert_eq!(JobRequestValidator::validate(&scheduled("a@b.c", vec![entry(1, 0), entry(7, 3600)])), Ok(()));
    assert_eq!(
        JobRequestValidator::validate(&scheduled("a@b.c", vec![])),
        Err("A scheduled job must have 1 or more schedule entries")
    );
    assert_eq!(
        JobRequestValidator::validate(&scheduled("a@b.c", vec![entry(1, 0), entry(8, 0)])),
        Err("All schedule entries must have a 'day_of_the_week' attribute between 1 and 7")
    );
    assert_eq!(
        JobRequestValidator::validate(&scheduled("a@b.c", vec![entry(0, 0)])),
        Err("All schedule entries must have a 'day_of_the_week' attribute between 1 and 7")
    );
    assert_eq!(
        JobRequestValidator::validate(&scheduled("a@b.c", vec![entry(2, 60), entry(3, 60), entry(2, 60), entry(9, 0)])),
        Err("Schedule Entry objects must not duplicate for a single job")
    );
    let interval = JobRequest::new(WorkflowId(1), "m".to_string(), JobType::Interval(Interval { months: 0, days: 1, microseconds: 0 }), Some(at(5)));
    assert_eq!(JobRequestValidator::validate(&interval), Ok(()));
}

#[test]
fn interval_reading() {
    let mut reader = IntervalReader::new();
    assert_eq!(reader.finish(), Err(IntervalFieldError::MissingField(IntervalField::Months)));
    assert!(reader.check_key(IntervalField::Months).is_ok());
    reader.set_months(2);
    assert_eq!(reader.check_key(IntervalField::Months), Err(IntervalFieldError::DuplicateField(IntervalField::Months)));
    assert_eq!(reader.finish(), Err(IntervalFieldError::MissingField(IntervalField::Days)));
    reader.set_days(3);
    let missing = reader.finish().unwrap_err();
    assert_eq!(missing, IntervalFieldError::MissingField(IntervalField::Microseconds));
    assert_eq!(missing.field_name(), "microseconds");
    reader.set_microseconds(4_000_000);
    assert_eq!(reader.finish(), Ok(Interval { months: 2, days: 3, microseconds: 4_000_000 }));
    assert_eq!(IntervalFieldError::DuplicateField(IntervalField::Days).field_name(), "days");
}

#[test]
fn notification_payloads() {
    assert_eq!(NotificationAction::from_str("").unwrap(), NotificationAction::LoadJobs);
    assert_eq!(NotificationAction::from_str("33").unwrap(), NotificationAction::CompleteJob(JobId(33)));
    match NotificationAction::from_str("done") {
        Err(Error::PayloadParseError(p)) => assert_eq!(p, "done"),
        other => panic!("{:?}", other),
    }
}

#[test]
fn load_jobs_queues_every_job() {
    let mut worker = JobWorker::new();
    assert_eq!(worker.next_job(), JobId(0));
    let jobs = vec![JobMin { job_id: JobId(4), next_run: at(100) }, JobMin { job_id: JobId(2), next_run: at(200) }];
    assert!(worker.load_jobs(&jobs).is_ok());
    assert_eq!(worker.next_job(), JobId(4));
    assert_eq!(worker.next_run_of(&JobId(4)), Some(at(100)));
    assert_eq!(worker.next_run_of(&JobId(2)), Some(at(200)));
    assert!(worker.is_queued(&JobId(2)));
    assert!(!worker.is_queued(&JobId(3)));
    assert!(worker.load_jobs(&vec![]).is_ok());
    assert_eq!(worker.next_job(), JobId(0));
    assert!(!worker.is_queued(&JobId(4)));
}

#[test]
fn load_jobs_refuses_a_repeated_job() {
    let mut worker = JobWorker::new();
    let jobs = vec![
        JobMin { job_id: JobId(1), next_run: at(10) },
        JobMin { job_id: JobId(2), next_run: at(20) },
        JobMin { job_id: JobId(1), next_run: at(30) },
        JobMin { job_id: JobId(5), next_run: at(40) },
    ];
    match worker.load_jobs(&jobs) {
        Err(Error::DuplicateJobId(id, runs)) => {
            assert_eq!(id, 1);
            assert_eq!(runs, [at(30), at(10)]);
        }
        other => panic!("{:?}", other),
    }
    assert_eq!(worker.next_job(), JobId(1));
    assert!(worker.is_queued(&JobId(2)));
    assert!(!worker.is_queued(&JobId(5)));
}

#[test]
fn waiting_for_the_next_job() {
    let mut worker = JobWorker::new();
    assert_eq!(worker.next_run_delay(&at(0)), None);
    assert_eq!(worker.next_job_decision(&at(0)), NextJobDecision::NotQueued(JobId(0)));
    worker.load_jobs(&vec![JobMin { job_id: JobId(9), next_run: Timestamp::new(100, 500_000_000).unwrap() }]).unwrap();
    assert_eq!(worker.next_run_delay(&at(90)), Some(10_500));
    assert_eq!(worker.next_run_delay(&at(200)), Some(0));
    assert_eq!(worker.next_job_decision(&at(100)), NextJobDecision::NotReady(JobId(9)));
    assert_eq!(worker.next_job_decision(&Timestamp::new(100, 500_000_000).unwrap()), NextJobDecision::Run(JobId(9)));
    assert_eq!(worker.next_job_decision(&at(101)), NextJobDecision::Run(JobId(9)));
}

#[test]
fn starting_a_job_run() {
    assert_eq!(run_job_decision(JobId(3), Some((WorkflowId(8), false))).unwrap(), WorkflowId(8));
    let paused = run_job_decision(JobId(3), Some((WorkflowId(8), true))).unwrap_err();
    assert_eq!(paused.end, TransactionEnd::Commit);
    assert!(matches!(paused.error, Error::Generic(ref m) if m == "Job, id = 3, is paused"));
    let missing = run_job_decision(JobId(-3), None).unwrap_err();
    assert_eq!(missing.end, TransactionEnd::Rollback);
    assert!(matches!(missing.error, Error::MissingRecord { ref pk } if pk == "-3"));
}

#[test]
fn completing_a_job_run() {
    assert_eq!(complete_job_target(JobId(1), Some(Some(WorkflowRunId(6)))).unwrap(), WorkflowRunId(6));
    assert!(matches!(complete_job_target(JobId(1), Some(None)), Err(Error::Generic(ref m)) if m == "Job must be active to finish"));
    assert!(matches!(complete_job_target(JobId(17), None), Err(Error::Generic(ref m)) if m == "No job for job_id = 17"));
    for status in [WorkflowRunStatus::Scheduled, WorkflowRunStatus::Running] {
        assert!(matches!(job_completion_status(Ok(status)), Err(Error::Generic(ref m)) if m == "Workflow must be done to complete job"));
    }
    assert_eq!(job_completion_status(Ok(WorkflowRunStatus::Complete)).unwrap(), true);
    assert_eq!(job_completion_status(Ok(WorkflowRunStatus::Failed)).unwrap(), false);
    assert_eq!(job_completion_status(Ok(WorkflowRunStatus::Canceled)).unwrap(), false);
    assert!(matches!(job_completion_status(Err(Error::ExitedTask)), Err(Error::ExitedTask)));
    assert!(job_completion_message(String::new()).is_ok());
    assert!(matches!(job_completion_message("late".to_string()), Err(Error::Generic(ref m)) if m == "late"));
}

#[test]
fn timestamps() {
    assert!(Timestamp::new(9_000_000_000_001, 0).is_none());
    assert!(Timestamp::new(0, 2_000_000_000).is_none());
    let t = Timestamp::new(-2, 999_999_999).unwrap();
    assert_eq!(t.timestamp_millis(), -1001);
    assert_eq!(t.secs(), -2);
    assert_eq!(t.nanos(), 999_999_999);
    assert!(at(1).is_after(&t));
    assert!(!t.is_after(&t));
}
