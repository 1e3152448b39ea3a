//! The decisions of an executor's main loop. The surrounding program owns the database
//! listeners, the clock and the spawned tasks; it asks an [`Executor`] what to do with every
//! status it reads and every notification it receives, and the executor keeps the table of
//! workflow run handles it is responsible for.

use std::collections::HashMap;

use vstd::prelude::*;
use vstd::std_specs::iter::IteratorSpec;

use crate::error::Error;
use crate::executor::data::{ExecutorId, ExecutorStatus};
use crate::executor::utilities::{
    ExecutorStatusUpdate, WorkflowRunCancelMessage, WorkflowRunScheduledMessage,
};
use crate::workflow_run::data::{ExecutorWorkflowRun, WorkflowRunId, WorkflowRunStatus};

verus! {

broadcast use vstd::std_specs::hash::group_hash_axioms;

/// What the main loop does next, decided from whichever event came first.
///
/// `Continue` and `Break` follow a notification: go round the loop again, or leave it and close
/// the executor as the enclosed status update says (forced for a cancellation, graceful
/// otherwise). `NextWorkflowRun` carries a workflow run that was claimed and the handle of the
/// worker started for it. `Listen` means no workflow run is available: wait for notifications only.
pub enum ExecutorNextOperation<H> {
    Continue,
    Break(ExecutorStatusUpdate),
    NextWorkflowRun(WorkflowRunId, H),
    Listen,
}

/// What to do with a workflow run that the database says this executor owns but for which the
/// executor holds no handle.
#[derive(PartialEq, Eq, Structural, Clone, Copy, Debug)]
pub enum UnknownRunAction {
    /// The run is not valid: cancel it.
    Cancel(WorkflowRunId),
    /// The run is marked running: start a new worker for it and keep its handle.
    Respawn(WorkflowRunId),
    /// Restart the run, then schedule it again with this executor.
    RestartAndSchedule(WorkflowRunId),
}

/// The action for an owned workflow run without a handle: cancel an invalid run, start a worker
/// again for a running one, restart and reschedule any other.
pub open spec fn unknown_run_action(wr: ExecutorWorkflowRun) -> UnknownRunAction {
    if !wr.is_valid {
        UnknownRunAction::Cancel(wr.workflow_run_id)
    } else if wr.status == WorkflowRunStatus::Running {
        UnknownRunAction::Respawn(wr.workflow_run_id)
    } else {
        UnknownRunAction::RestartAndSchedule(wr.workflow_run_id)
    }
}

/// The actions taken, in order, for the owned runs `runs` when the runs whose ids are in `known`
/// have a handle. A respawned run gets a handle, so a later entry for the same run is skipped.
pub open spec fn unknown_runs_plan(known: Set<i64>, runs: Seq<ExecutorWorkflowRun>) -> Seq<
    UnknownRunAction,
>
    decreases runs.len(),
{
    if runs.len() == 0 {
        Seq::empty()
    } else {
        let wr = runs[0];
        let rest = runs.drop_first();
        if known.contains(wr.workflow_run_id.0) {
            unknown_runs_plan(known, rest)
        } else {
            let a = unknown_run_action(wr);
            let next_known = if a is Respawn {
                known.insert(wr.workflow_run_id.0)
            } else {
                known
            };
            seq![a] + unknown_runs_plan(next_known, rest)
        }
    }
}

/// How a worker's handle is finished when the executor shuts down.
#[derive(PartialEq, Eq, Structural, Clone, Copy, Debug)]
pub enum FinishAction {
    /// The worker had already finished: nothing to stop or move; the run is then cancelled.
    AlreadyFinished,
    /// Forced shutdown of a live worker: abort it, then start moving the run to another
    /// executor; once the worker is joined the move is completed.
    AbortThenMove,
    /// Graceful shutdown of a live worker: start moving the run to another executor; once the
    /// worker is joined the move is completed.
    StartMove,
}

/// How a handle is finished: nothing is done for a finished worker; the run of a live one is
/// moved to another executor, after aborting the worker when the executor is cancelled.
pub open spec fn finish_action(is_finished: bool, is_cancelled: bool) -> FinishAction {
    if is_finished {
        FinishAction::AlreadyFinished
    } else if is_cancelled {
        FinishAction::AbortThenMove
    } else {
        FinishAction::StartMove
    }
}

/// Whether the action moves the run to another executor.
pub open spec fn moves_run(a: FinishAction) -> bool {
    a != FinishAction::AlreadyFinished
}

/// Whether the action aborts the worker.
pub open spec fn aborts_worker(a: FinishAction) -> bool {
    a == FinishAction::AbortThenMove
}

/// At shutdown the run of every live worker is moved to another executor, whether the executor
/// is cancelled or shut down gracefully; a finished worker's run is not moved. A worker is
/// aborted exactly when it is live and the executor is cancelled.
pub proof fn lemma_shutdown_moves_live_runs(is_finished: bool, is_cancelled: bool)
    ensures
        moves_run(finish_action(is_finished, is_cancelled)) <==> !is_finished,
        aborts_worker(finish_action(is_finished, is_cancelled)) <==> !is_finished && is_cancelled,
{
}

/// The update the executor is closed with once its main loop has ended: the update that ended
/// the loop, or a cancellation when the loop stopped on an error. Either way the executor then
/// shuts its workers down and cleans up; after an error the shutdown is forced.
pub fn close_signal<E>(outcome: &Result<ExecutorStatusUpdate, E>) -> (r: ExecutorStatusUpdate)
    ensures
        match outcome {
            Ok(s) => r == *s,
            Err(_) => r == ExecutorStatusUpdate::Cancel,
        },
{
    match outcome {
        Ok(s) => *s,
        Err(_) => ExecutorStatusUpdate::Cancel,
    }
}

/// An owned run without a handle that is not valid is cancelled, whatever its status; only valid
/// runs are started again: a worker is respawned for a valid running run, any other valid run is
/// restarted and scheduled again. The action is always about that run.
pub proof fn lemma_unknown_run_action(wr: ExecutorWorkflowRun)
    ensures
        !wr.is_valid ==> unknown_run_action(wr) == UnknownRunAction::Cancel(wr.workflow_run_id),
        unknown_run_action(wr) is Cancel ==> !wr.is_valid,
        wr.is_valid && wr.status == WorkflowRunStatus::Running ==> unknown_run_action(wr)
            == UnknownRunAction::Respawn(wr.workflow_run_id),
        wr.is_valid && wr.status != WorkflowRunStatus::Running ==> unknown_run_action(wr)
            == UnknownRunAction::RestartAndSchedule(wr.workflow_run_id),
{
}

/// Every action planned for the owned workflow runs is about a run of the list that has no
/// handle, and is the action that run calls for: invalid runs are cancelled, valid running ones
/// get a worker again, the others are restarted and rescheduled.
pub proof fn lemma_unknown_runs_plan(known: Set<i64>, runs: Seq<ExecutorWorkflowRun>)
    ensures
        forall|k: int|
            0 <= k < unknown_runs_plan(known, runs).len() ==> exists|i: int|
                0 <= i < runs.len() && !known.contains(runs[i].workflow_run_id.0) && #[trigger] unknown_runs_plan(known, runs)[k]
                    == unknown_run_action(runs[i]),
        unknown_runs_plan(known, runs).len() <= runs.len(),
    decreases runs.len(),
{
    if runs.len() > 0 {
        let wr = runs[0];
        let rest = runs.drop_first();
        if known.contains(wr.workflow_run_id.0) {
            lemma_unknown_runs_plan(known, rest);
            assert forall|k: int| 0 <= k < unknown_runs_plan(known, runs).len() implies exists|i: int|
                0 <= i < runs.len() && !known.contains(runs[i].workflow_run_id.0) && #[trigger] unknown_runs_plan(known, runs)[k]
                    == unknown_run_action(runs[i]) by {
                let i = choose|i: int| 0 <= i < rest.len() && !known.contains(rest[i].workflow_run_id.0)
                    && unknown_runs_plan(known, rest)[k] == unknown_run_action(rest[i]);
                assert(runs[i + 1] == rest[i]);
            }
        } else {
            let a = unknown_run_action(wr);
            let next_known = if a is Respawn {
                known.insert(wr.workflow_run_id.0)
            } else {
                known
            };
            lemma_unknown_runs_plan(next_known, rest);
            let plan = unknown_runs_plan(known, runs);
            assert(plan == seq![a] + unknown_runs_plan(next_known, rest));
            assert forall|k: int| 0 <= k < plan.len() implies exists|i: int|
                0 <= i < runs.len() && !known.contains(runs[i].workflow_run_id.0) && #[trigger] plan[k]
                    == unknown_run_action(runs[i]) by {
                if k == 0 {
                    assert(plan[0] == unknown_run_action(runs[0]));
                } else {
                    assert(plan[k] == unknown_runs_plan(next_known, rest)[k - 1]);
                    let i = choose|i: int| 0 <= i < rest.len() && !next_known.contains(rest[i].workflow_run_id.0)
                        && unknown_runs_plan(next_known, rest)[k - 1] == unknown_run_action(rest[i]);
                    assert(runs[i + 1] == rest[i]);
                }
            }
        }
    }
}

/// The state of an executor's main loop: its id, whether it only listens for notifications,
/// and the handle of every workflow run worker it started, keyed by workflow run id.
pub struct Executor<H> {
    executor_id: ExecutorId,
    wr_handles: HashMap<i64, H>,
    is_listen_mode: bool,
}

impl<H> Executor<H> {
    /// The executor's id.
    pub closed spec fn id(&self) -> ExecutorId {
        self.executor_id
    }

    /// The worker handles held, keyed by workflow run id.
    pub closed spec fn handles(&self) -> Map<i64, H> {
        self.wr_handles@
    }

    /// Whether the loop waits for notifications only.
    pub closed spec fn listen_mode(&self) -> bool {
        self.is_listen_mode
    }

    /// A new executor registered under `executor_id`: no handles, active mode.
    pub fn new(executor_id: ExecutorId) -> (r: Self)
        ensures
            r.id() == executor_id,
            r.handles() == Map::<i64, H>::empty(),
            !r.listen_mode(),
    {
        Executor { executor_id, wr_handles: HashMap::new(), is_listen_mode: false }
    }

    /// The executor's id.
    pub fn executor_id(&self) -> (r: &ExecutorId)
        ensures
            *r == self.id(),
    {
        &self.executor_id
    }

    /// Whether the loop waits for notifications only.
    pub fn is_listen_mode(&self) -> (r: bool)
        ensures
            r == self.listen_mode(),
    {
        self.is_listen_mode
    }

    /// The handle held for `workflow_run_id`, if any.
    pub fn handle(&self, workflow_run_id: &WorkflowRunId) -> (r: Option<&H>)
        ensures
            match r {
                Some(h) => self.handles().contains_key(workflow_run_id.0) && *h == self.handles()[workflow_run_id.0],
                None => !self.handles().contains_key(workflow_run_id.0),
            },
    {
        self.wr_handles.get(&workflow_run_id.0)
    }

    /// The ids of the workflow runs that have a handle, each once, in the table's order.
    pub fn handle_ids(&self) -> (r: Vec<WorkflowRunId>)
        ensures
            r@.len() == self.handles().dom().len(),
            forall|i: int|
                0 <= i < r@.len() ==> self.handles().contains_key(#[trigger] r@[i].0),
            forall|k: i64|
                #[trigger] self.handles().contains_key(k) ==> exists|i: int|
                    0 <= i < r@.len() && r@[i].0 == k,
            forall|i: int, j: int| 0 <= i < j < r@.len() ==> r@[i] != r@[j],
    {
        let mut ids: Vec<WorkflowRunId> = Vec::new();
        let ghost s = vstd::std_specs::hash::spec_keys_iter(&self.wr_handles).remaining();
        for k in it: self.wr_handles.keys()
            invariant
                it.seq() == s,
                s == vstd::std_specs::hash::spec_keys_iter(&self.wr_handles).remaining(),
                ids@.len() == it.index(),
                forall|i: int| 0 <= i < it.index() ==> ids@[i].0 == *s[i],
        {
            ids.push(WorkflowRunId(*k));
        }
        proof {
            assert forall|i: int| 0 <= i < ids@.len() implies self.handles().contains_key(
                #[trigger] ids@[i].0,
            ) by {
                assert(s.unref()[i] == *s[i]);
                assert(s.unref().to_set().contains(s.unref()[i]));
            }
            assert forall|k: i64| #[trigger] self.handles().contains_key(k) implies exists|i: int|
                0 <= i < ids@.len() && ids@[i].0 == k by {
                assert(s.unref().to_set().contains(k));
                let i = choose|i: int| 0 <= i < s.unref().len() && s.unref()[i] == k;
                assert(ids@[i].0 == k);
            }
            assert forall|i: int, j: int| 0 <= i < j < ids@.len() implies ids@[i] != ids@[j] by {
                assert(s[i] != s[j]);
            }
        }
        ids
    }

    /// Keeps `handle` as the worker of `workflow_run_id`, replacing any handle held for it.
    pub fn add_workflow_run_handle(&mut self, workflow_run_id: WorkflowRunId, handle: H)
        ensures
            final(self).handles() == old(self).handles().insert(workflow_run_id.0, handle),
            final(self).id() == old(self).id(),
            final(self).listen_mode() == old(self).listen_mode(),
    {
        self.wr_handles.insert(workflow_run_id.0, handle);
    }

    /// The update that ends the loop for the status read at the top of each round: none while
    /// the executor is active, a cancellation or a shutdown otherwise.
    pub fn status_signal(status: ExecutorStatus) -> (r: Option<ExecutorStatusUpdate>)
        ensures
            r == match status {
                ExecutorStatus::Active => None::<ExecutorStatusUpdate>,
                ExecutorStatus::Canceled => Some(ExecutorStatusUpdate::Cancel),
                ExecutorStatus::Shutdown => Some(ExecutorStatusUpdate::Shutdown),
            },
    {
        match status {
            ExecutorStatus::Active => None,
            ExecutorStatus::Canceled => Some(ExecutorStatusUpdate::Cancel),
            ExecutorStatus::Shutdown => Some(ExecutorStatusUpdate::Shutdown),
        }
    }

    /// The status of an executor whose record is missing counts as cancelled.
    pub fn status_or_canceled(status: Option<ExecutorStatus>) -> (r: ExecutorStatus)
        ensures
            r == match status {
                Some(s) => s,
                None => ExecutorStatus::Canceled,
            },
    {
        match status {
            Some(s) => s,
            None => ExecutorStatus::Canceled,
        }
    }

    /// Applies the operation chosen for this round. Returns the update to close the executor with
    /// when the loop ends, `None` to go round again. Anything but `Listen` leaves listen mode; a
    /// claimed workflow run's handle is kept.
    pub fn apply_next_operation(&mut self, op: ExecutorNextOperation<H>) -> (r: Option<
        ExecutorStatusUpdate,
    >)
        ensures
            final(self).id() == old(self).id(),
            match op {
                ExecutorNextOperation::Continue => r is None && !final(self).listen_mode()
                    && final(self).handles() == old(self).handles(),
                ExecutorNextOperation::Break(s) => r == Some(s) && final(self).listen_mode()
                    == old(self).listen_mode() && final(self).handles() == old(self).handles(),
                ExecutorNextOperation::NextWorkflowRun(id, h) => r is None && !final(self).listen_mode() && final(self).handles() == old(self).handles().insert(id.0, h),
                ExecutorNextOperation::Listen => r is None && final(self).listen_mode()
                    && final(self).handles() == old(self).handles(),
            },
    {
        match op {
            ExecutorNextOperation::Continue => {
                self.is_listen_mode = false;
                None
            },
            ExecutorNextOperation::Break(signal) => Some(signal),
            ExecutorNextOperation::NextWorkflowRun(workflow_run_id, handle) => {
                self.is_listen_mode = false;
                self.add_workflow_run_handle(workflow_run_id, handle);
                None
            },
            ExecutorNextOperation::Listen => {
                self.is_listen_mode = true;
                None
            },
        }
    }

    /// A shutdown asked for by the user (ctrl+c) ends the loop gracefully.
    pub fn handle_manual_shutdown() -> (r: ExecutorNextOperation<H>)
        ensures
            r matches ExecutorNextOperation::Break(s) && s == ExecutorStatusUpdate::Shutdown,
    {
        ExecutorNextOperation::Break(ExecutorStatusUpdate::Shutdown)
    }

    /// A status notification ends the loop when it cancels or shuts down the executor.
    pub fn handle_executor_status_notification(status_update: ExecutorStatusUpdate) -> (r:
        ExecutorNextOperation<H>)
        ensures
            match status_update {
                ExecutorStatusUpdate::NoOp => r is Continue,
                _ => r matches ExecutorNextOperation::Break(s) && s == status_update,
            },
    {
        match status_update {
            ExecutorStatusUpdate::Cancel | ExecutorStatusUpdate::Shutdown => {
                ExecutorNextOperation::Break(status_update)
            },
            ExecutorStatusUpdate::NoOp => ExecutorNextOperation::Continue,
        }
    }

    /// A scheduled notification sends the loop round again (out of listen mode); a failure to
    /// receive it is passed on.
    pub fn handle_workflow_run_scheduled_notification(
        result: Result<WorkflowRunScheduledMessage, Error>,
    ) -> (r: Result<ExecutorNextOperation<H>, Error>)
        ensures
            result is Ok <==> r is Ok,
            r matches Ok(op) ==> op is Continue,
            r matches Err(e) ==> result == Err::<WorkflowRunScheduledMessage, Error>(e),
    {
        match result {
            Ok(_) => Ok(ExecutorNextOperation::Continue),
            Err(error) => Err(error),
        }
    }

    /// For a cancel notification, takes out the handle of the workflow run it names, if the
    /// executor holds one; the caller stops that worker, joins it and cancels the run. Either way
    /// the loop continues.
    pub fn take_cancelled_handle(&mut self, message: WorkflowRunCancelMessage) -> (r: Option<
        (WorkflowRunId, H),
    >)
        ensures
            final(self).id() == old(self).id(),
            final(self).listen_mode() == old(self).listen_mode(),
            match message.0 {
                None => r is None && final(self).handles() == old(self).handles(),
                Some(id) => if old(self).handles().contains_key(id.0) {
                    r == Some((id, old(self).handles()[id.0])) && final(self).handles() == old(self).handles().remove(id.0)
                } else {
                    r is None && final(self).handles() == old(self).handles()
                },
            },
    {
        let WorkflowRunCancelMessage(message_id) = message;
        match message_id {
            None => None,
            Some(workflow_run_id) => match self.wr_handles.remove(&workflow_run_id.0) {
                Some(handle) => Some((workflow_run_id, handle)),
                None => None,
            },
        }
    }

    /// The action for an owned workflow run that has no handle.
    pub fn process_unknown_run_action(workflow_run: &ExecutorWorkflowRun) -> (r: UnknownRunAction)
        ensures
            r == unknown_run_action(*workflow_run),
            !workflow_run.is_valid ==> r == UnknownRunAction::Cancel(workflow_run.workflow_run_id),
            workflow_run.is_valid && workflow_run.status == WorkflowRunStatus::Running ==> r
                == UnknownRunAction::Respawn(workflow_run.workflow_run_id),
            workflow_run.is_valid && workflow_run.status != WorkflowRunStatus::Running ==> r
                == UnknownRunAction::RestartAndSchedule(workflow_run.workflow_run_id),
    {
        proof {
            lemma_unknown_run_action(*workflow_run);
        }
        if !workflow_run.is_valid {
            UnknownRunAction::Cancel(workflow_run.workflow_run_id)
        } else if workflow_run.status == WorkflowRunStatus::Running {
            UnknownRunAction::Respawn(workflow_run.workflow_run_id)
        } else {
            UnknownRunAction::RestartAndSchedule(workflow_run.workflow_run_id)
        }
    }

    /// Drops the handles of the listed workflow runs (the workers found finished).
    pub fn remove_handles(&mut self, workflow_run_ids: &Vec<WorkflowRunId>)
        ensures
            final(self).id() == old(self).id(),
            final(self).listen_mode() == old(self).listen_mode(),
            forall|k: i64|
                #[trigger] final(self).handles().contains_key(k) <==> old(self).handles().contains_key(k) && !(exists|i: int|
                    0 <= i < workflow_run_ids@.len() && workflow_run_ids@[i].0 == k),
            forall|k: i64| #[trigger]
                final(self).handles().contains_key(k) ==> final(self).handles()[k] == old(self).handles()[k],
    {
        let mut i: usize = 0;
        while i < workflow_run_ids.len()
            invariant
                0 <= i <= workflow_run_ids@.len(),
                self.executor_id == old(self).executor_id,
                self.is_listen_mode == old(self).is_listen_mode,
                forall|k: i64|
                    #[trigger] self.wr_handles@.contains_key(k) <==> old(self).wr_handles@.contains_key(k) && !(exists|j: int|
                        0 <= j < i && workflow_run_ids@[j].0 == k),
                forall|k: i64| #[trigger]
                    self.wr_handles@.contains_key(k) ==> self.wr_handles@[k] == old(self).wr_handles@[k],
            decreases workflow_run_ids@.len() - i,
        {
            let id = workflow_run_ids[i].0;
            self.wr_handles.remove(&id);
            proof {
                assert forall|k: i64| #[trigger] self.wr_handles@.contains_key(k) <==> old(self).wr_handles@.contains_key(k) && !(exists|j: int|
                    0 <= j < i + 1 && workflow_run_ids@[j].0 == k) by {
                    if k == id {
                        assert(workflow_run_ids@[i as int].0 == k);
                    } else if exists|j: int| 0 <= j < i + 1 && workflow_run_ids@[j].0 == k {
                        let j = choose|j: int| 0 <= j < i + 1 && workflow_run_ids@[j].0 == k;
                        assert(j < i);
                    }
                }
            }
            i = i + 1;
        }
    }

    /// The actions for the owned workflow runs `runs` that have no handle, in order (see
    /// [`unknown_runs_plan`]). The caller carries them out, keeping the handle of each worker it
    /// starts again.
    pub fn unknown_runs(&self, runs: &Vec<ExecutorWorkflowRun>) -> (r: Vec<UnknownRunAction>)
        ensures
            r@ == unknown_runs_plan(self.handles().dom(), runs@),
    {
        let mut actions: Vec<UnknownRunAction> = Vec::new();
        let mut respawned: Vec<i64> = Vec::new();
        let ghost dom = self.wr_handles@.dom();
        let mut i: usize = 0;
        proof {
            assert(respawned@.to_set() =~= Set::<i64>::empty());
            assert(dom + respawned@.to_set() =~= dom);
            assert(runs@.skip(0) =~= runs@);
            assert(actions@ + unknown_runs_plan(dom, runs@) =~= unknown_runs_plan(dom, runs@));
        }
        while i < runs.len()
            invariant
                0 <= i <= runs@.len(),
                dom == self.wr_handles@.dom(),
                actions@ + unknown_runs_plan(dom + respawned@.to_set(), runs@.skip(i as int))
                    == unknown_runs_plan(dom, runs@),
            decreases runs@.len() - i,
        {
            let wr = runs[i];
            let ghost known = dom + respawned@.to_set();
            let ghost rest = runs@.skip(i as int);
            proof {
                assert(rest[0] == wr);
                assert(rest.drop_first() =~= runs@.skip(i + 1));
            }
            let id = wr.workflow_run_id.0;
            let mut is_known = self.wr_handles.contains_key(&id);
            let mut j: usize = 0;
            while j < respawned.len() && !is_known
                invariant
                    0 <= j <= respawned@.len(),
                    is_known == (dom.contains(id) || exists|t: int| 0 <= t < j && respawned@[t] == id),
                    dom == self.wr_handles@.dom(),
                decreases respawned@.len() - j,
            {
                if respawned[j] == id {
                    is_known = true;
                }
                j = j + 1;
            }
            proof {
                if known.contains(id) && !dom.contains(id) {
                    assert(respawned@.to_set().contains(id));
                    let t = choose|t: int| 0 <= t < respawned@.len() && respawned@[t] == id;
                    if !is_known {
                        assert(j == respawned@.len());
                    }
                }
                if is_known {
                    if !dom.contains(id) {
                        let t = choose|t: int| 0 <= t < j && respawned@[t] == id;
                        assert(respawned@.to_set().contains(respawned@[t]));
                    }
                }
                assert(is_known == known.contains(id));
            }
            if !is_known {
                let a = Self::process_unknown_run_action(&wr);
                let ghost old_actions = actions@;
                actions.push(a);
                match a {
                    UnknownRunAction::Respawn(_) => {
                        let ghost old_resp = respawned@;
                        respawned.push(id);
                        proof {
                            assert forall|x: i64| #[trigger] respawned@.to_set().contains(x) <==> old_resp.to_set().insert(id).contains(x) by {
                                if respawned@.to_set().contains(x) && x != id {
                                    let t = choose|t: int| 0 <= t < respawned@.len() && respawned@[t] == x;
                                    assert(old_resp[t] == x);
                                }
                                if old_resp.to_set().contains(x) {
                                    let t = choose|t: int| 0 <= t < old_resp.len() && old_resp[t] == x;
                                    assert(respawned@[t] == x);
                                }
                                if x == id {
                                    assert(respawned@[old_resp.len() as int] == x);
                                }
                            }
                            assert(respawned@.to_set() =~= old_resp.to_set().insert(id));
                            assert(dom + respawned@.to_set() =~= known.insert(id));
                        }
                    },
                    _ => {},
                }
                proof {
                    assert(actions@ =~= old_actions + seq![a]);
                    assert(old_actions + seq![a] + unknown_runs_plan(
                        dom + respawned@.to_set(),
                        runs@.skip(i + 1),
                    ) =~= old_actions + (seq![a] + unknown_runs_plan(
                        dom + respawned@.to_set(),
                        runs@.skip(i + 1),
                    )));
                }
            }
            i = i + 1;
        }
        proof {
            assert(runs@.skip(runs@.len() as int) =~= Seq::<ExecutorWorkflowRun>::empty());
            assert(actions@ + Seq::<UnknownRunAction>::empty() =~= actions@);
        }
        actions
    }

    /// How a worker's handle is finished at shutdown.
    pub fn finish_handle_action(is_finished: bool, is_cancelled: bool) -> (r: FinishAction)
        ensures
            r == finish_action(is_finished, is_cancelled),
    {
        if is_finished {
            FinishAction::AlreadyFinished
        } else if is_cancelled {
            FinishAction::AbortThenMove
        } else {
            FinishAction::StartMove
        }
    }

    /// Takes out every handle for shutdown: each workflow run once, with its handle, in the
    /// table's order. The table is left empty.
    pub fn drain_handles(&mut self) -> (r: Vec<(WorkflowRunId, H)>)
        ensures
            final(self).id() == old(self).id(),
            final(self).listen_mode() == old(self).listen_mode(),
            final(self).handles() == Map::<i64, H>::empty(),
            r@.len() == old(self).handles().dom().len(),
            forall|i: int|
                0 <= i < r@.len() ==> old(self).handles().contains_key(#[trigger] r@[i].0.0)
                    && old(self).handles()[r@[i].0.0] == r@[i].1,
            forall|k: i64|
                #[trigger] old(self).handles().contains_key(k) ==> exists|i: int|
                    0 <= i < r@.len() && r@[i].0.0 == k,
            forall|i: int, j: int| 0 <= i < j < r@.len() ==> r@[i].0 != r@[j].0,
    {
        let ids = self.handle_ids();
        let ghost start = self.wr_handles@;
        let mut drained: Vec<(WorkflowRunId, H)> = Vec::new();
        let mut i: usize = 0;
        while i < ids.len()
            invariant
                0 <= i <= ids@.len(),
                self.executor_id == old(self).executor_id,
                self.is_listen_mode == old(self).is_listen_mode,
                start == old(self).wr_handles@,
                ids@.len() == start.dom().len(),
                forall|t: int| 0 <= t < ids@.len() ==> start.contains_key(#[trigger] ids@[t].0),
                forall|k: i64|
                    #[trigger] start.contains_key(k) ==> exists|t: int|
                        0 <= t < ids@.len() && ids@[t].0 == k,
                forall|a: int, b: int| 0 <= a < b < ids@.len() ==> ids@[a] != ids@[b],
                drained@.len() == i,
                forall|t: int| 0 <= t < i ==> (#[trigger] drained@[t]).0 == ids@[t] && drained@[t].1
                    == start[ids@[t].0],
                forall|k: i64|
                    #[trigger] self.wr_handles@.contains_key(k) <==> start.contains_key(k) && !(
                    exists|t: int| 0 <= t < i && ids@[t].0 == k),
                forall|k: i64| #[trigger]
                    self.wr_handles@.contains_key(k) ==> self.wr_handles@[k] == start[k],
            decreases ids@.len() - i,
        {
            let id = ids[i];
            proof {
                assert forall|t: int| 0 <= t < i implies ids@[t].0 != id.0 by {
                    assert(ids@[t] != ids@[i as int]);
                }
                assert(self.wr_handles@.contains_key(id.0));
            }
            let removed = self.wr_handles.remove(&id.0);
            let handle = removed.unwrap();
            drained.push((id, handle));
            proof {
                assert forall|k: i64| #[trigger] self.wr_handles@.contains_key(k) <==> start.contains_key(
                    k,
                ) && !(exists|t: int| 0 <= t < i + 1 && ids@[t].0 == k) by {
                    if k == id.0 {
                        assert(ids@[i as int].0 == k);
                    } else if exists|t: int| 0 <= t < i + 1 && ids@[t].0 == k {
                        let t = choose|t: int| 0 <= t < i + 1 && ids@[t].0 == k;
                        assert(t < i);
                    }
                }
            }
            i = i + 1;
        }
        proof {
            assert forall|k: i64| !self.wr_handles@.contains_key(k) by {
                if start.contains_key(k) {
                    let t = choose|t: int| 0 <= t < ids@.len() && ids@[t].0 == k;
                }
            }
            assert(self.wr_handles@ =~= Map::<i64, H>::empty());
            assert forall|k: i64| #[trigger] start.contains_key(k) implies exists|t: int|
                0 <= t < drained@.len() && drained@[t].0.0 == k by {
                let t = choose|t: int| 0 <= t < ids@.len() && ids@[t].0 == k;
                assert(drained@[t].0.0 == k);
            }
            assert forall|a: int, b: int| 0 <= a < b < drained@.len() implies drained@[a].0
                != drained@[b].0 by {
                assert(drained@[a].0 == ids@[a]);
                assert(drained@[b].0 == ids@[b]);
            }
        }
        drained
    }
}

} // verus!
