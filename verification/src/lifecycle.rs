//! The task lifecycle: create the remote task, wait for a terminal
//! condition under a timeout, classify the result, and clean the remote
//! resource up — on every path.

use vstd::prelude::*;
use vstd::string::StringExecFns;

verus! {

/// The type of a reported remote condition, as the lifecycle reads it.
#[derive(Clone, Copy, PartialEq, Eq, Structural, Debug)]
pub enum ConditionKind {
    /// The remote platform reports the task complete.
    Complete,
    /// The remote platform reports the task failed.
    Failed,
    /// Any other condition type; the lifecycle ignores it.
    Other,
}

/// One reported condition of the remote task: its type and whether its
/// status reads true.
#[derive(Clone, Copy, PartialEq, Eq, Structural, Debug)]
pub struct RemoteCondition {
    pub kind: ConditionKind,
    pub is_true: bool,
}

/// The remote task's reported status: its conditions, if any were reported
/// yet, and its failure count, if one was reported.
#[derive(PartialEq, Debug)]
pub struct RemoteTaskStatus {
    pub conditions: Option<Vec<RemoteCondition>>,
    pub failed: Option<i32>,
}

/// A snapshot of the remote task as observed by one poll; the status block
/// may not have been populated yet.
#[derive(PartialEq, Debug)]
pub struct RemoteTask {
    pub status: Option<RemoteTaskStatus>,
}

/// The first condition of the given type, in reported order.
pub open spec fn first_of_kind(s: Seq<RemoteCondition>, kind: ConditionKind) -> Option<
    RemoteCondition,
>
    decreases s.len(),
{
    if s.len() == 0 {
        None
    } else if s[0].kind == kind {
        Some(s[0])
    } else {
        first_of_kind(s.skip(1), kind)
    }
}

/// Finds the first condition of the given type, in reported order.
pub fn find_condition(conds: &Vec<RemoteCondition>, kind: ConditionKind) -> (res: Option<
    RemoteCondition,
>)
    ensures
        res == first_of_kind(conds@, kind),
{
    let n = conds.len();
    let mut i: usize = 0;
    proof {
        assert(conds@.skip(0) =~= conds@);
    }
    while i < n
        invariant
            n == conds.len(),
            i <= n,
            first_of_kind(conds@, kind) == first_of_kind(conds@.skip(i as int), kind),
        decreases n - i,
    {
        if conds[i].kind == kind {
            proof {
                assert(conds@.skip(i as int)[0] == conds@[i as int]);
            }
            return Some(conds[i]);
        }
        proof {
            assert(conds@.skip(i as int)[0] == conds@[i as int]);
            assert(conds@.skip(i as int).skip(1) =~= conds@.skip(i as int + 1));
        }
        i += 1;
    }
    proof {
        assert(conds@.skip(n as int) =~= Seq::<RemoteCondition>::empty());
    }
    None
}

/// The observed snapshot reports a "complete" terminal condition: the first
/// condition of type complete, if any, reads true.
pub open spec fn complete_terminal(task: Option<RemoteTask>) -> bool {
    match task {
        Some(t) => match t.status {
            Some(st) => match st.conditions {
                Some(cs) => (first_of_kind(cs@, ConditionKind::Complete) matches Some(c)
                    && c.is_true),
                None => false,
            },
            None => false,
        },
        None => false,
    }
}

/// The observed snapshot's first "failed" condition, if any, reads true.
pub open spec fn failed_condition_true(task: Option<RemoteTask>) -> bool {
    match task {
        Some(t) => match t.status {
            Some(st) => match st.conditions {
                Some(cs) => (first_of_kind(cs@, ConditionKind::Failed) matches Some(c)
                    && c.is_true),
                None => false,
            },
            None => false,
        },
        None => false,
    }
}

/// The observed snapshot's terminal condition is a failure: the task is not
/// reported complete and its first "failed" condition reads true.
pub open spec fn failed_terminal(task: Option<RemoteTask>) -> bool {
    !complete_terminal(task) && failed_condition_true(task)
}

/// The wait step's exit test: a terminal condition of either kind is
/// reported — the first "complete" condition or the first "failed"
/// condition reads true.
pub open spec fn terminal_reached(task: Option<RemoteTask>) -> bool {
    complete_terminal(task) || failed_condition_true(task)
}

/// Decides whether the observed snapshot reports a terminal condition.
pub fn is_task_terminal(task: &Option<RemoteTask>) -> (res: bool)
    ensures
        res == terminal_reached(*task),
{
    match task {
        Some(t) => match &t.status {
            Some(st) => match &st.conditions {
                Some(cs) => {
                    let complete_true = match find_condition(cs, ConditionKind::Complete) {
                        Some(c) => c.is_true,
                        None => false,
                    };
                    let failed_true = match find_condition(cs, ConditionKind::Failed) {
                        Some(c) => c.is_true,
                        None => false,
                    };
                    complete_true || failed_true
                },
                None => false,
            },
            None => false,
        },
        None => false,
    }
}

/// The failure count the snapshot reports, zero if none was reported.
pub open spec fn reported_failures(task: Option<RemoteTask>) -> int {
    match task {
        Some(t) => match t.status {
            Some(st) => match st.failed {
                Some(f) => f as int,
                None => 0,
            },
            None => 0,
        },
        None => 0,
    }
}

/// The outcome of one lifecycle run.
#[derive(Clone, Copy, PartialEq, Eq, Structural, Debug)]
pub enum Outcome {
    /// The remote task completed without reported failures.
    Completed,
    /// The remote task failed, or reported a positive failure count.
    Failed,
    /// No terminal condition arrived before the wait bound.
    TimedOut,
}

/// The classification of a terminal snapshot: failed if the terminal
/// condition is "failed" or the reported failure count is positive;
/// completed otherwise.
pub open spec fn classify_spec(task: Option<RemoteTask>) -> Outcome {
    if failed_terminal(task) || reported_failures(task) > 0 {
        Outcome::Failed
    } else {
        Outcome::Completed
    }
}

/// Classifies a snapshot that reported a terminal condition.
pub fn classify(task: &Option<RemoteTask>) -> (res: Outcome)
    ensures
        res == classify_spec(*task),
{
    let failed_term = match task {
        Some(t) => match &t.status {
            Some(st) => match &st.conditions {
                Some(cs) => {
                    let complete_true = match find_condition(cs, ConditionKind::Complete) {
                        Some(c) => c.is_true,
                        None => false,
                    };
                    if complete_true {
                        false
                    } else {
                        match find_condition(cs, ConditionKind::Failed) {
                            Some(c) => c.is_true,
                            None => false,
                        }
                    }
                },
                None => false,
            },
            None => false,
        },
        None => false,
    };
    let failures = match task {
        Some(t) => match &t.status {
            Some(st) => match st.failed {
                Some(f) => f,
                None => 0,
            },
            None => 0,
        },
        None => 0,
    };
    if failed_term || failures > 0 {
        Outcome::Failed
    } else {
        Outcome::Completed
    }
}

/// The phase of one lifecycle run.
#[derive(Clone, Copy, PartialEq, Eq, Structural, Debug)]
pub enum Phase {
    /// The remote task creation is being submitted.
    Creating,
    /// Waiting for a terminal condition under the timeout.
    Waiting,
    /// The outcome is classified; the remote resource is being deleted.
    Cleanup(Outcome),
    /// The run is over and its outcome reported.
    Done(Outcome),
}

/// The state of one lifecycle run, driven by `step` from the events the
/// caller observes.
#[derive(Clone, Copy, PartialEq, Eq, Structural, Debug)]
pub struct LifecycleRun {
    pub phase: Phase,
    /// The remote create call succeeded, so a remote resource may exist.
    pub remote_created: bool,
    /// Deletion of the remote resource has been requested.
    pub delete_requested: bool,
}

/// An event the caller hands back to the state machine.
#[derive(PartialEq, Debug)]
pub enum LifecycleEvent {
    /// The remote create call was accepted.
    CreateSucceeded,
    /// The remote create call was rejected.
    CreateFailed,
    /// One poll of the remote task returned this snapshot.
    Observed(Option<RemoteTask>),
    /// The wait bound elapsed with no terminal condition.
    TimedOut,
    /// The delete call returned; whether it succeeded does not change the
    /// outcome (a failed delete is logged by the caller, nothing more).
    DeleteFinished(bool),
}

/// What the caller must do next.
#[derive(Clone, Copy, PartialEq, Eq, Structural, Debug)]
pub enum LifecycleAction {
    /// Submit the remote task creation.
    CreateTask,
    /// Poll the remote task's condition again.
    Poll,
    /// Delete the remote resource.
    DeleteTask,
    /// Feed the outcome back into the queue; the run is over.
    Report(Outcome),
    /// The event does not apply to the phase; nothing to do.
    Ignore,
}

/// The state a run starts in.
pub open spec fn initial_run() -> LifecycleRun {
    LifecycleRun { phase: Phase::Creating, remote_created: false, delete_requested: false }
}

/// The transition function of one lifecycle run. Every path into a
/// classified outcome requests deletion of the remote resource in the same
/// step: completion, failure, rejection at create, and timeout alike.
pub open spec fn step_spec(run: LifecycleRun, ev: LifecycleEvent) -> (LifecycleRun, LifecycleAction) {
    match (run.phase, ev) {
        (Phase::Creating, LifecycleEvent::CreateSucceeded) => (
            LifecycleRun {
                phase: Phase::Waiting,
                remote_created: true,
                delete_requested: run.delete_requested,
            },
            LifecycleAction::Poll,
        ),
        (Phase::Creating, LifecycleEvent::CreateFailed) => (
            LifecycleRun {
                phase: Phase::Cleanup(Outcome::Failed),
                remote_created: run.remote_created,
                delete_requested: true,
            },
            LifecycleAction::DeleteTask,
        ),
        (Phase::Waiting, LifecycleEvent::Observed(t)) => {
            if terminal_reached(t) {
                (
                    LifecycleRun {
                        phase: Phase::Cleanup(classify_spec(t)),
                        remote_created: run.remote_created,
                        delete_requested: true,
                    },
                    LifecycleAction::DeleteTask,
                )
            } else {
                (run, LifecycleAction::Poll)
            }
        },
        (Phase::Waiting, LifecycleEvent::TimedOut) => (
            LifecycleRun {
                phase: Phase::Cleanup(Outcome::TimedOut),
                remote_created: run.remote_created,
                delete_requested: true,
            },
            LifecycleAction::DeleteTask,
        ),
        (Phase::Cleanup(o), LifecycleEvent::DeleteFinished(_)) => (
            LifecycleRun {
                phase: Phase::Done(o),
                remote_created: run.remote_created,
                delete_requested: run.delete_requested,
            },
            LifecycleAction::Report(o),
        ),
        _ => (run, LifecycleAction::Ignore),
    }
}

/// Starts a lifecycle run: the caller must submit the remote creation.
pub fn start_run() -> (res: (LifecycleRun, LifecycleAction))
    ensures
        res.0 == initial_run(),
        res.1 == LifecycleAction::CreateTask,
{
    (
        LifecycleRun { phase: Phase::Creating, remote_created: false, delete_requested: false },
        LifecycleAction::CreateTask,
    )
}

/// Advances a lifecycle run by one observed event.
pub fn step(run: LifecycleRun, ev: LifecycleEvent) -> (res: (LifecycleRun, LifecycleAction))
    ensures
        res == step_spec(run, ev),
{
    match (run.phase, ev) {
        (Phase::Creating, LifecycleEvent::CreateSucceeded) => (
            LifecycleRun {
                phase: Phase::Waiting,
                remote_created: true,
                delete_requested: run.delete_requested,
            },
            LifecycleAction::Poll,
        ),
        (Phase::Creating, LifecycleEvent::CreateFailed) => (
            LifecycleRun {
                phase: Phase::Cleanup(Outcome::Failed),
                remote_created: run.remote_created,
                delete_requested: true,
            },
            LifecycleAction::DeleteTask,
        ),
        (Phase::Waiting, LifecycleEvent::Observed(t)) => {
            if is_task_terminal(&t) {
                let outcome = classify(&t);
                (
                    LifecycleRun {
                        phase: Phase::Cleanup(outcome),
                        remote_created: run.remote_created,
                        delete_requested: true,
                    },
                    LifecycleAction::DeleteTask,
                )
            } else {
                (run, LifecycleAction::Poll)
            }
        },
        (Phase::Waiting, LifecycleEvent::TimedOut) => (
            LifecycleRun {
                phase: Phase::Cleanup(Outcome::TimedOut),
                remote_created: run.remote_created,
                delete_requested: true,
            },
            LifecycleAction::DeleteTask,
        ),
        (Phase::Cleanup(o), LifecycleEvent::DeleteFinished(_)) => (
            LifecycleRun {
                phase: Phase::Done(o),
                remote_created: run.remote_created,
                delete_requested: run.delete_requested,
            },
            LifecycleAction::Report(o),
        ),
        (_, _) => (run, LifecycleAction::Ignore),
    }
}

/// The cleanup guarantee of a run state: once an outcome is classified
/// (cleanup under way or done), deletion of the remote resource has been
/// requested.
pub open spec fn run_inv(run: LifecycleRun) -> bool {
    (run.phase matches Phase::Cleanup(_) || run.phase matches Phase::Done(_))
        ==> run.delete_requested
}

/// No orphaned remote resource: a fresh run satisfies the cleanup
/// guarantee, every event preserves it, and a run that reaches `Done` —
/// whatever its outcome — has requested deletion of the remote resource.
pub proof fn lemma_no_orphan(run: LifecycleRun, ev: LifecycleEvent)
    ensures
        run_inv(initial_run()),
        run_inv(run) ==> run_inv(step_spec(run, ev).0),
        run_inv(run) && (step_spec(run, ev).0.phase matches Phase::Done(_)) ==> step_spec(
            run,
            ev,
        ).0.delete_requested,
{
}

/// The timeout path cleans up: from the waiting phase, the elapsed wait
/// bound classifies the run as timed out and requests deletion of the
/// remote resource in the same step.
pub proof fn lemma_timeout_cleans_up(run: LifecycleRun)
    requires
        run.phase == Phase::Waiting,
    ensures
        step_spec(run, LifecycleEvent::TimedOut).0.phase == Phase::Cleanup(Outcome::TimedOut),
        step_spec(run, LifecycleEvent::TimedOut).0.delete_requested,
        step_spec(run, LifecycleEvent::TimedOut).1 == LifecycleAction::DeleteTask,
{
}

/// The persisted text prefix of every remote task name.
pub open spec fn task_name_prefix() -> Seq<char> {
    "lifecycle_mgmt_"@
}

/// The remote task name derived from a record's UUID.
pub open spec fn task_name_spec(uuid: Seq<char>) -> Seq<char> {
    task_name_prefix() + uuid
}

/// The name of the remote task for a record, derived deterministically from
/// its UUID so the remote resource can be correlated back to the record.
pub fn task_name(uuid: &String) -> (res: String)
    ensures
        res@ == task_name_spec(uuid@),
{
    let prefix = "lifecycle_mgmt_".to_owned();
    prefix.concat(uuid.as_str())
}

/// The container image reference the remote task runs: the template's image
/// and tag joined in the usual image:tag form.
pub open spec fn image_ref_spec(image: Seq<char>, tag: Seq<char>) -> Seq<char> {
    image + ":"@ + tag
}

/// Joins a template's container image and tag into the image reference the
/// remote task specification carries.
pub fn image_ref(image: &String, tag: &String) -> (res: String)
    ensures
        res@ == image_ref_spec(image@, tag@),
{
    let with_sep = image.clone().concat(":");
    with_sep.concat(tag.as_str())
}

/// Distinct record UUIDs derive distinct remote task names.
pub proof fn lemma_task_name_injective(u1: Seq<char>, u2: Seq<char>)
    ensures
        task_name_spec(u1) == task_name_spec(u2) ==> u1 == u2,
{
    let p = task_name_prefix();
    if task_name_spec(u1) == task_name_spec(u2) {
        assert(task_name_spec(u1).len() == p.len() + u1.len());
        assert(task_name_spec(u2).len() == p.len() + u2.len());
        assert(u1.len() == u2.len());
        assert forall|i: int| 0 <= i < u1.len() implies u1[i] == u2[i] by {
            assert((p + u1)[p.len() + i] == u1[i]);
            assert((p + u2)[p.len() + i] == u2[i]);
        }
        assert(u1 =~= u2);
    }
}

} // verus!
