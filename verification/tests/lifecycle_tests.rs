use maintenance_queue::lifecycle::{
    classify, image_ref, is_task_terminal, start_run, step, task_name, ConditionKind,
    LifecycleAction, LifecycleEvent, Outcome, Phase, RemoteCondition, RemoteTask,
    RemoteTaskStatus,
};
use maintenance_queue::model::{Job, Maintenance};
use maintenance_queue::status::JobStatus;
use maintenance_queue::store::QueueStore;
use maintenance_queue::worker::{apply_outcome_at, report_for, Report, CONCURRENCY};

fn snapshot(conds: Vec<(ConditionKind, bool)>, failed: Option<i32>) -> Option<RemoteTask> {
    Some(RemoteTask {
        status: Some(RemoteTaskStatus {
            conditions: Some(
                conds
                    .into_iter()
                    .map(|(kind, is_true)| RemoteCondition { kind, is_true })
                    .collect(),
            ),
            failed,
        }),
    })
}

fn template(id: i32) -> Job {
    Job {
        id,
        name: "t1".to_string(),
        version: None,
        docker_image: "busybox".to_string(),
        docker_image_tag: "latest".to_string(),
    }
}

fn record(uuid: &str, job_id: i32, scheduled_for: i64) -> Maintenance {
    Maintenance {
        id: None,
        uuid: uuid.to_string(),
        name: None,
        created_at: 1_000,
        updated_at: None,
        failed_attempts: 0,
        status: JobStatus::NotQueued,
        scheduled_for: Some(scheduled_for),
        downtime_window_start: None,
        downtime_window_end: None,
        job_id,
    }
}

#[test]
fn terminal_detection_accepts_either_condition() {
    assert!(!is_task_terminal(&None));
    assert!(!is_task_terminal(&Some(RemoteTask { status: None })));
    assert!(is_task_terminal(&snapshot(vec![(ConditionKind::Complete, true)], None)));
    assert!(is_task_terminal(&snapshot(vec![(ConditionKind::Failed, true)], None)));
    assert!(!is_task_terminal(&snapshot(vec![(ConditionKind::Other, true)], None)));
    assert!(!is_task_terminal(&snapshot(vec![(ConditionKind::Complete, false)], None)));
    // A failed condition ends the wait even when an earlier complete
    // condition reads false.
    assert!(is_task_terminal(
        &snapshot(vec![(ConditionKind::Complete, false), (ConditionKind::Failed, true)], None)
    ));
    assert!(is_task_terminal(
        &snapshot(vec![(ConditionKind::Other, false), (ConditionKind::Failed, true)], None)
    ));
}

#[test]
fn failed_task_behind_false_complete_is_recorded_failed_not_timed_out() {
    let (run, _) = start_run();
    let (run, _) = step(run, LifecycleEvent::CreateSucceeded);
    let failed = snapshot(
        vec![(ConditionKind::Complete, false), (ConditionKind::Failed, true)],
        Some(1),
    );
    let (run, action) = step(run, LifecycleEvent::Observed(failed));
    assert_eq!(run.phase, Phase::Cleanup(Outcome::Failed));
    assert!(run.delete_requested);
    assert_eq!(action, LifecycleAction::DeleteTask);
}

#[test]
fn classification_follows_condition_and_failure_count() {
    let done = snapshot(vec![(ConditionKind::Complete, true)], Some(0));
    assert_eq!(classify(&done), Outcome::Completed);

    let done_no_count = snapshot(vec![(ConditionKind::Complete, true)], None);
    assert_eq!(classify(&done_no_count), Outcome::Completed);

    let failed_cond = snapshot(vec![(ConditionKind::Failed, true)], Some(0));
    assert_eq!(classify(&failed_cond), Outcome::Failed);

    // Completed terminal condition but a positive failure count.
    let flaky = snapshot(vec![(ConditionKind::Complete, true)], Some(2));
    assert_eq!(classify(&flaky), Outcome::Failed);
}

#[test]
fn successful_run_reports_finished() {
    let (run, action) = start_run();
    assert_eq!(action, LifecycleAction::CreateTask);
    assert_eq!(run.phase, Phase::Creating);
    assert!(!run.remote_created && !run.delete_requested);

    let (run, action) = step(run, LifecycleEvent::CreateSucceeded);
    assert_eq!(run.phase, Phase::Waiting);
    assert!(run.remote_created);
    assert_eq!(action, LifecycleAction::Poll);

    let pending = snapshot(vec![(ConditionKind::Other, true)], None);
    let (run, action) = step(run, LifecycleEvent::Observed(pending));
    assert_eq!(run.phase, Phase::Waiting);
    assert_eq!(action, LifecycleAction::Poll);

    let done = snapshot(vec![(ConditionKind::Complete, true)], Some(0));
    let (run, action) = step(run, LifecycleEvent::Observed(done));
    assert_eq!(run.phase, Phase::Cleanup(Outcome::Completed));
    assert!(run.delete_requested);
    assert_eq!(action, LifecycleAction::DeleteTask);

    let (run, action) = step(run, LifecycleEvent::DeleteFinished(true));
    assert_eq!(run.phase, Phase::Done(Outcome::Completed));
    assert!(run.delete_requested);
    assert_eq!(action, LifecycleAction::Report(Outcome::Completed));
    assert_eq!(report_for(Outcome::Completed), Report::Finish);
}

#[test]
fn timed_out_run_deletes_before_done_and_reports_failure() {
    let (run, _) = start_run();
    let (run, _) = step(run, LifecycleEvent::CreateSucceeded);

    let (run, action) = step(run, LifecycleEvent::TimedOut);
    assert_eq!(run.phase, Phase::Cleanup(Outcome::TimedOut));
    assert!(run.delete_requested);
    assert_eq!(action, LifecycleAction::DeleteTask);

    // A failing delete is logged only; the outcome stands.
    let (run, action) = step(run, LifecycleEvent::DeleteFinished(false));
    assert_eq!(run.phase, Phase::Done(Outcome::TimedOut));
    assert_eq!(action, LifecycleAction::Report(Outcome::TimedOut));
    assert_eq!(report_for(Outcome::TimedOut), Report::Fail);
}

#[test]
fn rejected_create_still_cleans_up_and_fails() {
    let (run, _) = start_run();
    let (run, action) = step(run, LifecycleEvent::CreateFailed);
    assert_eq!(run.phase, Phase::Cleanup(Outcome::Failed));
    assert!(run.delete_requested);
    assert_eq!(action, LifecycleAction::DeleteTask);

    let (run, action) = step(run, LifecycleEvent::DeleteFinished(true));
    assert_eq!(run.phase, Phase::Done(Outcome::Failed));
    assert_eq!(action, LifecycleAction::Report(Outcome::Failed));
}

#[test]
fn full_success_scenario_marks_record_finished() {
    let now: i64 = 10_000;
    let mut store = QueueStore::new();
    store.insert_job(template(1)).unwrap();
    store.push(record("u1", 1, now - 1)).unwrap();

    let claimed = store.pull_at(CONCURRENCY, now).unwrap();
    assert_eq!(claimed.len(), 1);
    let uuid = claimed[0].0.uuid.clone();

    let (run, _) = start_run();
    let (run, _) = step(run, LifecycleEvent::CreateSucceeded);
    let done = snapshot(vec![(ConditionKind::Complete, true)], Some(0));
    let (run, _) = step(run, LifecycleEvent::Observed(done));
    let (run, action) = step(run, LifecycleEvent::DeleteFinished(true));
    assert!(run.delete_requested);
    let outcome = match action {
        LifecycleAction::Report(o) => o,
        other => panic!("expected a report action, got {:?}", other),
    };

    apply_outcome_at(&mut store, &uuid, outcome, now + 7).unwrap();
    let records = store.all_records();
    assert_eq!(records[0].status, JobStatus::Finished);
    assert_eq!(records[0].failed_attempts, 0);
}

#[test]
fn full_timeout_scenario_counts_one_failure() {
    let now: i64 = 10_000;
    let mut store = QueueStore::new();
    store.insert_job(template(1)).unwrap();
    store.push(record("u1", 1, now - 1)).unwrap();
    store.pull_at(CONCURRENCY, now).unwrap();

    let (run, _) = start_run();
    let (run, _) = step(run, LifecycleEvent::CreateSucceeded);
    let (run, _) = step(run, LifecycleEvent::TimedOut);
    assert!(run.delete_requested);
    let (_, action) = step(run, LifecycleEvent::DeleteFinished(true));
    let outcome = match action {
        LifecycleAction::Report(o) => o,
        other => panic!("expected a report action, got {:?}", other),
    };
    assert_eq!(outcome, Outcome::TimedOut);

    apply_outcome_at(&mut store, &"u1".to_string(), outcome, now + 30).unwrap();
    let records = store.all_records();
    assert_eq!(records[0].status, JobStatus::Failed);
    assert_eq!(records[0].failed_attempts, 1);
}

#[test]
fn task_names_are_prefixed_and_distinct() {
    assert_eq!(task_name(&"abc".to_string()), "lifecycle_mgmt_abc");
    assert_eq!(task_name(&"".to_string()), "lifecycle_mgmt_");
    assert_ne!(task_name(&"a".to_string()), task_name(&"b".to_string()));
}

#[test]
fn image_reference_applies_the_tag() {
    assert_eq!(
        image_ref(&"busybox".to_string(), &"latest".to_string()),
        "busybox:latest"
    );
    assert_eq!(image_ref(&"alpine".to_string(), &"3".to_string()), "alpine:3");
}
