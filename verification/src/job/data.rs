//! Recurring jobs: their schedules, the requests that create them and their validation.

use vstd::prelude::*;
use vstd::string::StringExecFns;

use crate::error::Error;
use crate::executor::data::ExecutorId;
use crate::text::{blank, i64_to_string, int_text, is_blank, parse_i64, parse_i64_result, text_eq};
use crate::time::Timestamp;
use crate::workflow::data::WorkflowId;
use crate::workflow_run::data::{WorkflowRunId, WorkflowRunStatus};

verus! {

/// The `job_type` value of a job row; it says which of the schedule columns holds the job's
/// timing.
#[derive(PartialEq, Eq, Structural, Clone, Copy, Debug)]
pub enum JobTypeEnum {
    Scheduled,
    Interval,
}

impl JobTypeEnum {
    /// Reads `scheduled` or `interval`; any other text is refused with a message that quotes it.
    pub fn from_str(s: &str) -> (r: Result<Self, Error>)
        ensures
            s@ == "scheduled"@ ==> (r matches Ok(t) && t == JobTypeEnum::Scheduled),
            s@ == "interval"@ ==> (r matches Ok(t) && t == JobTypeEnum::Interval),
            s@ != "scheduled"@ && s@ != "interval"@ ==> (r matches Err(Error::Generic(m)) && m@
                == "Parse JobTypeEnum from string. Expected `scheduled` or `interval` but got `"@
                + s@ + "`"@),
    {
        proof {
            reveal_strlit("scheduled");
            reveal_strlit("interval");
            assert("scheduled"@.len() != "interval"@.len());
            assert("scheduled"@ != "interval"@);
        }
        if text_eq(s, "scheduled") {
            Ok(JobTypeEnum::Scheduled)
        } else if text_eq(s, "interval") {
            Ok(JobTypeEnum::Interval)
        } else {
            let mut message = "Parse JobTypeEnum from string. Expected `scheduled` or `interval` but got `".to_owned();
            message.append(s);
            message.append("`");
            Err(Error::Generic(message))
        }
    }
}

/// A time of day without time zone: seconds from midnight (below 86_400) and the fraction of the
/// second in nanoseconds (1_000_000_000 or more during a leap second).
#[derive(PartialEq, Eq, Structural, Clone, Copy, Hash, Debug)]
pub struct TimeOfDay {
    pub secs: u32,
    pub frac: u32,
}

/// One weekly run of a scheduled job: a day of the week (Monday = 1, Sunday = 7) and a time of
/// that day.
#[derive(PartialEq, Eq, Structural, Clone, Copy, Hash, Debug)]
pub struct ScheduleEntry {
    pub day_of_the_week: i16,
    pub time_of_day: TimeOfDay,
}

impl ScheduleEntry {
    /// A schedule entry for the day and time given.
    pub fn new(day_of_the_week: i16, time_of_day: TimeOfDay) -> (r: Self)
        ensures
            r.day_of_the_week == day_of_the_week,
            r.time_of_day == time_of_day,
    {
        ScheduleEntry { day_of_the_week, time_of_day }
    }
}

/// The fewest details of a queued job: its id and the time of its next run.
#[derive(PartialEq, Eq, Structural, Clone, Copy, Debug)]
pub struct JobMin {
    pub job_id: JobId,
    pub next_run: Timestamp,
}

/// A period between runs of an interval job, as Postgres `interval` holds it.
#[derive(PartialEq, Eq, Structural, Clone, Copy, Debug)]
pub struct Interval {
    pub months: i32,
    pub days: i32,
    pub microseconds: i64,
}

/// A field of a serialized [`Interval`].
#[derive(PartialEq, Eq, Structural, Clone, Copy, Debug)]
pub enum IntervalField {
    Months,
    Days,
    Microseconds,
}

/// Why a serialized interval could not be read: a field given twice, or a field missing.
#[derive(PartialEq, Eq, Structural, Clone, Copy, Debug)]
pub enum IntervalFieldError {
    DuplicateField(IntervalField),
    MissingField(IntervalField),
}

impl IntervalFieldError {
    /// The field name the error reports: `months`, `days` or `microseconds`.
    pub fn field_name(&self) -> (r: &'static str)
        ensures
            r@ == interval_field_name(
                match self {
                    IntervalFieldError::DuplicateField(f) => *f,
                    IntervalFieldError::MissingField(f) => *f,
                },
            ),
    {
        match self {
            IntervalFieldError::DuplicateField(f) => field_name(*f),
            IntervalFieldError::MissingField(f) => field_name(*f),
        }
    }
}

/// The name the interval reader reports for a field.
pub open spec fn interval_field_name(field: IntervalField) -> Seq<char> {
    match field {
        IntervalField::Months => "months"@,
        IntervalField::Days => "days"@,
        IntervalField::Microseconds => "microseconds"@,
    }
}

fn field_name(field: IntervalField) -> (r: &'static str)
    ensures
        r@ == interval_field_name(field),
{
    match field {
        IntervalField::Months => "months",
        IntervalField::Days => "days",
        IntervalField::Microseconds => "microseconds",
    }
}

/// The fields of an interval read so far from a serialized map, in the order the map gives its
/// keys. Each key is checked before its value is read.
#[derive(PartialEq, Eq, Structural, Clone, Copy, Debug)]
pub struct IntervalReader {
    pub months: Option<i32>,
    pub days: Option<i32>,
    pub microseconds: Option<i64>,
}

/// Whether the reader already holds a value for `field`.
pub open spec fn interval_field_seen(reader: IntervalReader, field: IntervalField) -> bool {
    match field {
        IntervalField::Months => reader.months is Some,
        IntervalField::Days => reader.days is Some,
        IntervalField::Microseconds => reader.microseconds is Some,
    }
}

/// What finishing a reader gives: the interval when every field was read, otherwise the first
/// missing field of months, days, microseconds.
pub open spec fn interval_reader_result(reader: IntervalReader) -> Result<Interval, IntervalFieldError> {
    match (reader.months, reader.days, reader.microseconds) {
        (Some(m), Some(d), Some(u)) => Ok(Interval { months: m, days: d, microseconds: u }),
        (None, _, _) => Err(IntervalFieldError::MissingField(IntervalField::Months)),
        (Some(_), None, _) => Err(IntervalFieldError::MissingField(IntervalField::Days)),
        (Some(_), Some(_), None) => Err(IntervalFieldError::MissingField(IntervalField::Microseconds)),
    }
}

impl IntervalReader {
    /// A reader that has read nothing.
    pub fn new() -> (r: Self)
        ensures
            r.months is None && r.days is None && r.microseconds is None,
    {
        IntervalReader { months: None, days: None, microseconds: None }
    }

    /// Checks the next key of the map: a field read before is a duplicate.
    pub fn check_key(&self, field: IntervalField) -> (r: Result<(), IntervalFieldError>)
        ensures
            r is Ok <==> !interval_field_seen(*self, field),
            r is Err ==> r == Err::<(), IntervalFieldError>(
                IntervalFieldError::DuplicateField(field),
            ),
    {
        let seen = match field {
            IntervalField::Months => self.months.is_some(),
            IntervalField::Days => self.days.is_some(),
            IntervalField::Microseconds => self.microseconds.is_some(),
        };
        if seen {
            Err(IntervalFieldError::DuplicateField(field))
        } else {
            Ok(())
        }
    }

    /// Records the months.
    pub fn set_months(&mut self, value: i32)
        ensures
            *final(self) == (IntervalReader { months: Some(value), ..*old(self) }),
    {
        self.months = Some(value);
    }

    /// Records the days.
    pub fn set_days(&mut self, value: i32)
        ensures
            *final(self) == (IntervalReader { days: Some(value), ..*old(self) }),
    {
        self.days = Some(value);
    }

    /// Records the microseconds.
    pub fn set_microseconds(&mut self, value: i64)
        ensures
            *final(self) == (IntervalReader { microseconds: Some(value), ..*old(self) }),
    {
        self.microseconds = Some(value);
    }

    /// The interval read, or the first missing field.
    pub fn finish(&self) -> (r: Result<Interval, IntervalFieldError>)
        ensures
            r == interval_reader_result(*self),
            r matches Ok(i) ==> self.months == Some(i.months) && self.days == Some(i.days)
                && self.microseconds == Some(i.microseconds),
            self.months is None ==> r == Err::<Interval, IntervalFieldError>(
                IntervalFieldError::MissingField(IntervalField::Months),
            ),
            self.months is Some && self.days is None ==> r == Err::<Interval, IntervalFieldError>(
                IntervalFieldError::MissingField(IntervalField::Days),
            ),
            self.months is Some && self.days is Some && self.microseconds is None ==> r == Err::<
                Interval,
                IntervalFieldError,
            >(IntervalFieldError::MissingField(IntervalField::Microseconds)),
            self.months is Some && self.days is Some && self.microseconds is Some ==> r is Ok,
    {
        match (self.months, self.days, self.microseconds) {
            (Some(m), Some(d), Some(u)) => Ok(Interval { months: m, days: d, microseconds: u }),
            (None, _, _) => Err(IntervalFieldError::MissingField(IntervalField::Months)),
            (Some(_), None, _) => Err(IntervalFieldError::MissingField(IntervalField::Days)),
            (Some(_), Some(_), None) => Err(
                IntervalFieldError::MissingField(IntervalField::Microseconds),
            ),
        }
    }
}

/// Reading back the fields of an interval in the order they are written (months, days,
/// microseconds) accepts every key and gives the same interval; a field given a second time is
/// refused.
pub proof fn lemma_interval_read_back(i: Interval)
    ensures
        ({
            let r0 = IntervalReader { months: None, days: None, microseconds: None };
            let r1 = IntervalReader { months: Some(i.months), ..r0 };
            let r2 = IntervalReader { days: Some(i.days), ..r1 };
            let r3 = IntervalReader { microseconds: Some(i.microseconds), ..r2 };
            &&& !interval_field_seen(r0, IntervalField::Months)
            &&& !interval_field_seen(r1, IntervalField::Days)
            &&& !interval_field_seen(r2, IntervalField::Microseconds)
            &&& interval_reader_result(r3) == Ok::<Interval, IntervalFieldError>(i)
            &&& interval_field_seen(r3, IntervalField::Months)
            &&& interval_field_seen(r3, IntervalField::Days)
            &&& interval_field_seen(r3, IntervalField::Microseconds)
        }),
{
}

/// How a job is timed: a weekly schedule of one or more entries, or a fixed interval between runs.
#[derive(Debug)]
pub enum JobType {
    Scheduled(Vec<ScheduleEntry>),
    Interval(Interval),
}

/// A job from `job.v_jobs`, with its workflow and its current workflow run, if any.
#[derive(Debug)]
pub struct Job {
    pub job_id: JobId,
    pub workflow_id: WorkflowId,
    pub workflow_name: String,
    pub job_type: JobType,
    pub maintainer: String,
    pub is_paused: bool,
    pub next_run: Timestamp,
    pub current_workflow_run_id: Option<WorkflowRunId>,
    pub workflow_run_status: Option<WorkflowRunStatus>,
    pub executor_id: Option<ExecutorId>,
    pub progress: Option<i16>,
}

/// Request to create a job: the workflow to run, the maintainer to mail on failure, the timing,
/// and optionally the first run (computed by the database when absent).
#[derive(Debug)]
pub struct JobRequest {
    pub workflow_id: WorkflowId,
    pub maintainer: String,
    pub job_type: JobType,
    pub next_run: Option<Timestamp>,
}

impl JobRequest {
    /// A request with the fields given.
    pub fn new(
        workflow_id: WorkflowId,
        maintainer: String,
        job_type: JobType,
        next_run: Option<Timestamp>,
    ) -> (r: Self)
        ensures
            r.workflow_id == workflow_id,
            r.maintainer == maintainer,
            r.job_type == job_type,
            r.next_run == next_run,
    {
        JobRequest { workflow_id, maintainer, job_type, next_run }
    }
}

/// Entry `i` of a schedule breaks a rule: its day is outside 1..=7, or it repeats an earlier
/// entry.
pub open spec fn schedule_entry_error(entries: Seq<ScheduleEntry>, i: int) -> Option<Seq<char>> {
    if entries[i].day_of_the_week > 7 || entries[i].day_of_the_week < 1 {
        Some("All schedule entries must have a 'day_of_the_week' attribute between 1 and 7"@)
    } else if exists|j: int| 0 <= j < i && entries[j] == entries[i] {
        Some("Schedule Entry objects must not duplicate for a single job"@)
    } else {
        None
    }
}

/// The message for the first of the first `n` schedule entries that breaks a rule, if any.
pub open spec fn schedule_error_upto(entries: Seq<ScheduleEntry>, n: int) -> Option<Seq<char>>
    decreases n,
{
    if n <= 0 {
        None
    } else {
        match schedule_error_upto(entries, n - 1) {
            Some(m) => Some(m),
            None => schedule_entry_error(entries, n - 1),
        }
    }
}

/// The message a job request is refused with, if any: a blank maintainer first, then a schedule
/// without entries (a scheduled job runs on one or more weekly entries), then the first schedule
/// entry that breaks a rule. Interval jobs have no entries to check.
pub open spec fn job_request_error(request: &JobRequest) -> Option<Seq<char>> {
    if blank(request.maintainer@) {
        Some("Maintainer must not be empty or whitespace"@)
    } else {
        match &request.job_type {
            JobType::Scheduled(entries) => if entries@.len() == 0 {
                Some("A scheduled job must have 1 or more schedule entries"@)
            } else {
                schedule_error_upto(entries@, entries@.len() as int)
            },
            JobType::Interval(_) => None,
        }
    }
}

/// Validation of a [`JobRequest`].
pub struct JobRequestValidator;

impl JobRequestValidator {
    /// Refuses a request with a blank maintainer, or a schedule that is empty, has a day outside
    /// 1..=7 or gives an entry twice; the first problem found is reported.
    pub fn validate(request: &JobRequest) -> (r: Result<(), &'static str>)
        ensures
            match r {
                Ok(()) => job_request_error(request) is None,
                Err(m) => job_request_error(request) == Some(m@),
            },
            blank(request.maintainer@) ==> (r matches Err(m) && m@
                == "Maintainer must not be empty or whitespace"@),
            r is Ok ==> !blank(request.maintainer@),
    {
        proof {
            lemma_job_request_valid(request);
        }
        if is_blank(request.maintainer.as_str()) {
            return Err("Maintainer must not be empty or whitespace");
        }
        let entries = match &request.job_type {
            JobType::Scheduled(entries) => entries,
            JobType::Interval(_) => {
                return Ok(());
            },
        };
        if entries.len() == 0 {
            return Err("A scheduled job must have 1 or more schedule entries");
        }
        let mut i: usize = 0;
        while i < entries.len()
            invariant
                0 <= i <= entries@.len(),
                request.job_type == JobType::Scheduled(*entries),
                !blank(request.maintainer@),
                entries@.len() > 0,
                schedule_error_upto(entries@, i as int) is None,
            decreases entries@.len() - i,
        {
            let entry = entries[i];
            if entry.day_of_the_week > 7 || entry.day_of_the_week < 1 {
                proof {
                    lemma_schedule_error_stays(entries@, i as int + 1, entries@.len() as int);
                }
                return Err(
                    "All schedule entries must have a 'day_of_the_week' attribute between 1 and 7",
                );
            }
            let mut j: usize = 0;
            while j < i
                invariant
                    0 <= j <= i < entries@.len(),
                    entry == entries@[i as int],
                    1 <= entry.day_of_the_week <= 7,
                    request.job_type == JobType::Scheduled(*entries),
                    !blank(request.maintainer@),
                    schedule_error_upto(entries@, i as int) is None,
                    forall|t: int| 0 <= t < j ==> entries@[t] != entries@[i as int],
                decreases i - j,
            {
                if entries[j] == entry {
                    proof {
                        assert(entries@[j as int] == entries@[i as int]);
                        assert(schedule_error_upto(entries@, i as int + 1) == schedule_entry_error(
                            entries@,
                            i as int,
                        ));
                        lemma_schedule_error_stays(entries@, i as int + 1, entries@.len() as int);
                    }
                    return Err("Schedule Entry objects must not duplicate for a single job");
                }
                j = j + 1;
            }
            i = i + 1;
        }
        Ok(())
    }
}

/// Reading an interval gives one only when all three fields were read, holding exactly the values
/// read; otherwise the first missing field is reported, in the order months, days,
/// microseconds. Nothing is ever filled in for a missing field.
pub proof fn lemma_interval_reader_result(reader: IntervalReader)
    ensures
        interval_reader_result(reader) matches Ok(i) ==> reader.months == Some(i.months)
            && reader.days == Some(i.days) && reader.microseconds == Some(i.microseconds),
        reader.months is Some && reader.days is Some && reader.microseconds is Some
            ==> interval_reader_result(reader) is Ok,
        reader.months is None ==> interval_reader_result(reader) == Err::<Interval, IntervalFieldError>(
            IntervalFieldError::MissingField(IntervalField::Months),
        ),
        reader.months is Some && reader.days is None ==> interval_reader_result(reader) == Err::<
            Interval,
            IntervalFieldError,
        >(IntervalFieldError::MissingField(IntervalField::Days)),
        reader.months is Some && reader.days is Some && reader.microseconds is None
            ==> interval_reader_result(reader) == Err::<Interval, IntervalFieldError>(
            IntervalFieldError::MissingField(IntervalField::Microseconds),
        ),
{
}

/// A job request is accepted exactly when its maintainer is not blank and, for a scheduled job,
/// the schedule has at least one entry, every day is between 1 and 7 and no entry is given
/// twice; interval jobs need only the maintainer. A blank maintainer is the reason given for
/// every request that has one, whatever its job type; an empty schedule is the reason given
/// when the maintainer is not blank.
pub proof fn lemma_job_request_valid(request: &JobRequest)
    ensures
        blank(request.maintainer@) ==> job_request_error(request) == Some(
            "Maintainer must not be empty or whitespace"@,
        ),
        !blank(request.maintainer@) ==> match &request.job_type {
            JobType::Scheduled(entries) => entries@.len() == 0 ==> job_request_error(request)
                == Some("A scheduled job must have 1 or more schedule entries"@),
            JobType::Interval(_) => job_request_error(request) is None,
        },
        job_request_error(request) is None <==> !blank(request.maintainer@) && match &request.job_type {
            JobType::Scheduled(entries) => entries@.len() > 0 && forall|i: int|
                0 <= i < entries@.len() ==> 1 <= (#[trigger] entries@[i]).day_of_the_week <= 7
                    && forall|j: int| 0 <= j < i ==> entries@[j] != entries@[i],
            JobType::Interval(_) => true,
        },
{
    match &request.job_type {
        JobType::Scheduled(entries) => {
            lemma_schedule_valid(entries@, entries@.len() as int);
        },
        JobType::Interval(_) => {},
    }
}

/// A schedule passes validation exactly when every day is between 1 and 7 and no entry is given
/// twice.
pub proof fn lemma_schedule_valid(entries: Seq<ScheduleEntry>, n: int)
    requires
        0 <= n <= entries.len(),
    ensures
        schedule_error_upto(entries, n) is None <==> forall|i: int|
            0 <= i < n ==> 1 <= (#[trigger] entries[i]).day_of_the_week <= 7 && forall|j: int|
                0 <= j < i ==> entries[j] != entries[i],
    decreases n,
{
    if n > 0 {
        lemma_schedule_valid(entries, n - 1);
        if schedule_error_upto(entries, n) is None {
            assert(schedule_entry_error(entries, n - 1) is None);
        } else {
            if schedule_error_upto(entries, n - 1) is None {
                assert(schedule_entry_error(entries, n - 1) is Some);
                let i = n - 1;
                if !(1 <= entries[i].day_of_the_week <= 7) {
                } else {
                    let j = choose|j: int| 0 <= j < i && entries[j] == entries[i];
                }
            }
        }
    }
}

proof fn lemma_schedule_error_stays(entries: Seq<ScheduleEntry>, n: int, m: int)
    requires
        0 <= n <= m,
    ensures
        schedule_error_upto(entries, n) is Some ==> schedule_error_upto(entries, m)
            == schedule_error_upto(entries, n),
    decreases m - n,
{
    if n < m {
        lemma_schedule_error_stays(entries, n, m - 1);
    }
}

/// Identifier of a job. Wraps the database's `bigint` key so that it is not mixed up with other
/// integers.
#[derive(Clone, Copy, PartialEq, Eq, Structural, Hash, Debug)]
pub struct JobId(pub i64);

impl From<i64> for JobId {
    fn from(value: i64) -> (r: Self) {
        JobId(value)
    }
}

impl vstd::std_specs::convert::FromSpecImpl<i64> for JobId {
    open spec fn obeys_from_spec() -> bool {
        true
    }

    open spec fn from_spec(v: i64) -> Self {
        JobId(v)
    }
}

impl JobId {
    /// The wrapped key.
    pub fn into_inner(self) -> (r: i64)
        ensures
            r == self.0,
    {
        self.0
    }

    /// The decimal text of the key, as the type's `Display` writes it.
    pub fn to_string(&self) -> (r: String)
        ensures
            r@ == int_text(self.0 as int),
    {
        i64_to_string(self.0)
    }

    /// Reads a job id from a path parameter: a decimal `i64`.
    pub fn from_param(s: &str) -> (r: Result<Self, Error>)
        ensures
            match parse_i64_result(s@) {
                Ok(v) => r matches Ok(id) && id.0 == v,
                Err(k) => r matches Err(Error::ParseInt(e)) && e == k,
            },
    {
        match parse_i64(s) {
            Ok(v) => Ok(Self(v)),
            Err(k) => Err(Error::ParseInt(k)),
        }
    }
}

} // verus!
