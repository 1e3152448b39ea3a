//! The decisions of the job worker: which job runs next, how long to wait for it, and how the
//! queue is reloaded. The surrounding program reads the queue, keeps the clock, waits, runs the
//! jobs and mails maintainers; it asks a [`JobWorker`] what to do at each step.

use std::collections::HashMap;

use vstd::prelude::*;

use crate::error::{duplicate_job_parts, Error};
use crate::job::data::{JobId, JobMin};
use crate::text::parse_i64_result;
use crate::time::Timestamp;

verus! {

broadcast use vstd::std_specs::hash::group_hash_axioms;

/// What a job notification asks of the worker: reload the queue (empty payload), or complete
/// the job whose id the payload holds.
#[derive(PartialEq, Eq, Structural, Clone, Copy, Debug)]
pub enum NotificationAction {
    LoadJobs,
    CompleteJob(JobId),
}

impl NotificationAction {
    /// Reads a job notification payload: empty means reload, a decimal `i64` means complete that
    /// job; anything else is refused with the payload.
    pub fn from_str(s: &str) -> (r: Result<Self, Error>)
        ensures
            s@.len() == 0 ==> r == Ok::<Self, Error>(NotificationAction::LoadJobs),
            s@.len() != 0 ==> match parse_i64_result(s@) {
                Ok(v) => r == Ok::<Self, Error>(NotificationAction::CompleteJob(JobId(v))),
                Err(_) => r matches Err(Error::PayloadParseError(p)) && p@ == s@,
            },
    {
        if s.is_empty() {
            return Ok(NotificationAction::LoadJobs);
        }
        match JobId::from_param(s) {
            Ok(job_id) => Ok(NotificationAction::CompleteJob(job_id)),
            Err(_) => Err(Error::PayloadParseError(s.to_owned())),
        }
    }
}

/// The next runs of a queue of jobs, by job id, for jobs given in that order (a later entry for
/// the same job replaces an earlier one).
pub open spec fn jobs_map(jobs: Seq<JobMin>) -> Map<i64, Timestamp>
    decreases jobs.len(),
{
    if jobs.len() == 0 {
        Map::empty()
    } else {
        jobs_map(jobs.drop_last()).insert(jobs.last().job_id.0, jobs.last().next_run)
    }
}

/// No job id occurs twice among the first `n` jobs.
pub open spec fn distinct_jobs(jobs: Seq<JobMin>, n: int) -> bool {
    forall|a: int, b: int| 0 <= a < b < n ==> jobs[a].job_id != jobs[b].job_id
}

/// The job queued first, or job 0 when the queue is empty.
pub open spec fn first_job(jobs: Seq<JobMin>) -> JobId {
    if jobs.len() > 0 {
        jobs[0].job_id
    } else {
        JobId(0)
    }
}

/// Milliseconds to wait from `now` until `next_run`, zero when it is already due.
pub open spec fn wait_millis(next_run: Timestamp, now: Timestamp) -> int {
    let d = next_run.millis() - now.millis();
    if d < 0 {
        0
    } else if d > i64::MAX {
        i64::MAX as int
    } else {
        d
    }
}

/// Loading a queue without repeated jobs queues exactly its jobs, each with its own next run.
pub proof fn lemma_jobs_map(jobs: Seq<JobMin>)
    requires
        distinct_jobs(jobs, jobs.len() as int),
    ensures
        forall|k: i64| #[trigger] jobs_map(jobs).contains_key(k) <==> exists|i: int|
            0 <= i < jobs.len() && jobs[i].job_id.0 == k,
        forall|i: int| 0 <= i < jobs.len() ==> jobs_map(jobs)[#[trigger] jobs[i].job_id.0] == jobs[i].next_run,
    decreases jobs.len(),
{
    if jobs.len() > 0 {
        let init = jobs.drop_last();
        assert(distinct_jobs(init, init.len() as int)) by {
            assert forall|a: int, b: int| 0 <= a < b < init.len() implies init[a].job_id != init[b].job_id by {
                assert(init[a] == jobs[a] && init[b] == jobs[b]);
            }
        }
        lemma_jobs_map(init);
        let last = jobs.last();
        assert forall|k: i64| #[trigger] jobs_map(jobs).contains_key(k) <==> exists|i: int|
            0 <= i < jobs.len() && jobs[i].job_id.0 == k by {
            assert(jobs_map(jobs) == jobs_map(init).insert(last.job_id.0, last.next_run));
            if k == last.job_id.0 {
                assert(jobs[jobs.len() - 1].job_id.0 == k);
            } else {
                if exists|i: int| 0 <= i < jobs.len() && jobs[i].job_id.0 == k {
                    let i = choose|i: int| 0 <= i < jobs.len() && jobs[i].job_id.0 == k;
                    assert(i < jobs.len() - 1);
                    assert(init[i] == jobs[i]);
                    assert(jobs_map(init).contains_key(k));
                }
                if jobs_map(init).contains_key(k) {
                    let i = choose|i: int| 0 <= i < init.len() && init[i].job_id.0 == k;
                    assert(jobs[i] == init[i]);
                }
            }
        }
        assert forall|i: int| 0 <= i < jobs.len() implies jobs_map(jobs)[#[trigger] jobs[i].job_id.0]
            == jobs[i].next_run by {
            if i < jobs.len() - 1 {
                assert(jobs[i].job_id != jobs[jobs.len() - 1].job_id);
                assert(init[i] == jobs[i]);
            }
        }
    }
}

/// What the worker does when the wait for the next job is over.
#[derive(PartialEq, Eq, Structural, Clone, Copy, Debug)]
pub enum NextJobDecision {
    /// The job is no longer queued: nothing to run.
    NotQueued(JobId),
    /// The job is not due yet: nothing to run.
    NotReady(JobId),
    /// Start a run of the job.
    Run(JobId),
}

/// The queue of jobs the worker waits on: each queued job's next run, and the job to run next.
pub struct JobWorker {
    jobs: HashMap<i64, Timestamp>,
    next_job: JobId,
}

impl JobWorker {
    /// The next runs of the queued jobs, by job id.
    pub closed spec fn jobs(&self) -> Map<i64, Timestamp> {
        self.jobs@
    }

    /// The job to run next.
    pub closed spec fn next(&self) -> JobId {
        self.next_job
    }

    /// A worker with an empty queue; job 0 is next.
    pub fn new() -> (r: Self)
        ensures
            r.jobs() == Map::<i64, Timestamp>::empty(),
            r.next() == JobId(0),
    {
        JobWorker { jobs: HashMap::new(), next_job: JobId(0) }
    }

    /// The job to run next.
    pub fn next_job(&self) -> (r: JobId)
        ensures
            r == self.next(),
    {
        self.next_job
    }

    /// The next run of `job_id`, if it is queued.
    pub fn next_run_of(&self, job_id: &JobId) -> (r: Option<Timestamp>)
        ensures
            match r {
                Some(t) => self.jobs().contains_key(job_id.0) && t == self.jobs()[job_id.0],
                None => !self.jobs().contains_key(job_id.0),
            },
    {
        match self.jobs.get(&job_id.0) {
            Some(t) => Some(*t),
            None => None,
        }
    }

    /// Replaces the queue with `jobs`, as read from the database in order of next run. The first
    /// job becomes next. A job listed twice is an error naming the job and both next runs (the
    /// later listing first); the jobs before it stay queued.
    pub fn load_jobs(&mut self, jobs: &Vec<JobMin>) -> (r: Result<(), Error>)
        ensures
            final(self).next() == first_job(jobs@),
            r is Ok <==> distinct_jobs(jobs@, jobs@.len() as int),
            r is Ok ==> final(self).jobs() == jobs_map(jobs@),
            r matches Err(e) ==> exists|i: int, j: int|
                0 <= j < i < jobs@.len() && distinct_jobs(jobs@, i) && jobs@[j].job_id
                    == jobs@[i].job_id && final(self).jobs() == jobs_map(jobs@.take(i))
                    && duplicate_job_parts(e) == Some(
                    (jobs@[i].job_id.0, jobs@[i].next_run, jobs@[j].next_run),
                ),
    {
        self.jobs.clear();
        self.next_job = if jobs.len() > 0 { jobs[0].job_id } else { JobId(0) };
        let mut i: usize = 0;
        proof {
            assert(jobs@.take(0) =~= Seq::<JobMin>::empty());
        }
        while i < jobs.len()
            invariant
                0 <= i <= jobs@.len(),
                self.next_job == first_job(jobs@),
                distinct_jobs(jobs@, i as int),
                self.jobs@ == jobs_map(jobs@.take(i as int)),
                forall|k: i64|
                    #[trigger] self.jobs@.contains_key(k) <==> exists|t: int|
                        0 <= t < i && jobs@[t].job_id.0 == k,
                forall|t: int| 0 <= t < i ==> self.jobs@[#[trigger] jobs@[t].job_id.0] == jobs@[t].next_run,
            decreases jobs@.len() - i,
        {
            let job = jobs[i];
            proof {
                assert(jobs@.take(i + 1).drop_last() =~= jobs@.take(i as int));
                assert(jobs@.take(i + 1).last() == job);
            }
            match self.jobs.get(&job.job_id.0) {
                Some(duplicate) => {
                    let earlier = *duplicate;
                    let runs = [job.next_run, earlier];
                    proof {
                        let j = choose|t: int| 0 <= t < i && jobs@[t].job_id.0 == job.job_id.0;
                        assert(jobs@[j].job_id == jobs@[i as int].job_id);
                        assert(!distinct_jobs(jobs@, jobs@.len() as int));
                        assert(earlier == jobs@[j].next_run);
                        assert(runs[0] == job.next_run && runs[1] == earlier);
                        let e = Error::DuplicateJobId(job.job_id.0, runs);
                        assert(duplicate_job_parts(e) == Some(
                            (jobs@[i as int].job_id.0, jobs@[i as int].next_run, jobs@[j].next_run),
                        ));
                    }
                    return Err(Error::DuplicateJobId(job.job_id.0, runs));
                },
                None => {},
            }
            self.jobs.insert(job.job_id.0, job.next_run);
            proof {
                assert forall|a: int, b: int| 0 <= a < b < i + 1 implies jobs@[a].job_id
                    != jobs@[b].job_id by {
                    if b == i {
                        if jobs@[a].job_id == jobs@[b].job_id {
                            assert(self.jobs@.contains_key(jobs@[a].job_id.0));
                        }
                    }
                }
                assert forall|k: i64| #[trigger] self.jobs@.contains_key(k) <==> exists|t: int|
                    0 <= t < i + 1 && jobs@[t].job_id.0 == k by {
                    if k == job.job_id.0 {
                        assert(jobs@[i as int].job_id.0 == k);
                    } else if exists|t: int| 0 <= t < i + 1 && jobs@[t].job_id.0 == k {
                        let t = choose|t: int| 0 <= t < i + 1 && jobs@[t].job_id.0 == k;
                        assert(t < i);
                    }
                }
                assert forall|t: int| 0 <= t < i + 1 implies self.jobs@[#[trigger] jobs@[t].job_id.0]
                    == jobs@[t].next_run by {
                    if t < i {
                        assert(jobs@[t].job_id != jobs@[i as int].job_id);
                    }
                }
            }
            i = i + 1;
        }
        proof {
            assert(jobs@.take(jobs@.len() as int) =~= jobs@);
        }
        Ok(())
    }

    /// How long to wait for the next job, in milliseconds, from `now`: zero when it is due,
    /// `None` when the next job is not queued (wait for a notification only).
    pub fn next_run_delay(&self, now: &Timestamp) -> (r: Option<u64>)
        ensures
            match r {
                None => !self.jobs().contains_key(self.next().0),
                Some(ms) => self.jobs().contains_key(self.next().0) && ms == wait_millis(
                    self.jobs()[self.next().0],
                    *now,
                ),
            },
    {
        match self.jobs.get(&self.next_job.0) {
            None => None,
            Some(next_run) => {
                let d: i128 = next_run.timestamp_millis() as i128 - now.timestamp_millis() as i128;
                let clamped: i128 = if d < 0 {
                    0
                } else if d > i64::MAX as i128 {
                    i64::MAX as i128
                } else {
                    d
                };
                Some(clamped as u64)
            },
        }
    }

    /// What to do when the wait is over at time `now`: skip a job that is no longer queued or
    /// not yet due, run it otherwise.
    pub fn next_job_decision(&self, now: &Timestamp) -> (r: NextJobDecision)
        ensures
            !self.jobs().contains_key(self.next().0) ==> r == NextJobDecision::NotQueued(self.next()),
            self.jobs().contains_key(self.next().0) && self.jobs()[self.next().0].after(*now) ==> r
                == NextJobDecision::NotReady(self.next()),
            self.jobs().contains_key(self.next().0) && !self.jobs()[self.next().0].after(*now) ==> r
                == NextJobDecision::Run(self.next()),
    {
        match self.jobs.get(&self.next_job.0) {
            None => NextJobDecision::NotQueued(self.next_job),
            Some(next_run) => {
                if next_run.is_after(now) {
                    NextJobDecision::NotReady(self.next_job)
                } else {
                    NextJobDecision::Run(self.next_job)
                }
            },
        }
    }

    /// Whether a job is queued; a completion notice for a job that is not is ignored.
    pub fn is_queued(&self, job_id: &JobId) -> (r: bool)
        ensures
            r == self.jobs().contains_key(job_id.0),
    {
        self.jobs.contains_key(&job_id.0)
    }
}

} // verus!
