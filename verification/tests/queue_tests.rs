use maintenance_queue::model::{Job, Maintenance};
use maintenance_queue::status::JobStatus;
use maintenance_queue::store::QueueStore;

fn template(id: i32, name: &str, image: &str, tag: &str) -> Job {
    Job {
        id,
        name: name.to_string(),
        version: None,
        docker_image: image.to_string(),
        docker_image_tag: tag.to_string(),
    }
}

fn record(uuid: &str, job_id: i32, scheduled_for: Option<i64>) -> Maintenance {
    Maintenance {
        id: None,
        uuid: uuid.to_string(),
        name: None,
        created_at: 1_000,
        updated_at: None,
        failed_attempts: 0,
        status: JobStatus::NotQueued,
        scheduled_for,
        downtime_window_start: None,
        downtime_window_end: None,
        job_id,
    }
}

#[test]
fn claim_returns_due_record_once() {
    let now: i64 = 10_000;
    let mut store = QueueStore::new();
    store.insert_job(template(1, "t1", "busybox", "latest")).unwrap();
    store.push(record("u1", 1, Some(now - 1))).unwrap();

    let claimed = store.pull_at(50, now).unwrap();
    assert_eq!(claimed.len(), 1);
    assert_eq!(claimed[0].0.uuid, "u1");
    assert_eq!(claimed[0].0.status, JobStatus::Running);
    assert_eq!(claimed[0].1.docker_image, "busybox");
    assert_eq!(claimed[0].1.docker_image_tag, "latest");

    let records = store.all_records();
    assert_eq!(records.len(), 1);
    assert_eq!(records[0].status, JobStatus::Running);

    let second = store.pull_at(50, now).unwrap();
    assert!(second.is_empty());
}

#[test]
fn claim_skips_future_unscheduled_and_unresolved() {
    let now: i64 = 10_000;
    let mut store = QueueStore::new();
    store.insert_job(template(1, "t1", "busybox", "latest")).unwrap();
    store.push(record("future", 1, Some(now + 100))).unwrap();
    store.push(record("unscheduled", 1, None)).unwrap();
    store.push(record("orphan", 99, Some(now - 1))).unwrap();

    let claimed = store.pull_at(50, now).unwrap();
    assert!(claimed.is_empty());
    for r in store.all_records() {
        assert_eq!(r.status, JobStatus::Queued);
    }
}

#[test]
fn claim_respects_limit() {
    let now: i64 = 10_000;
    let mut store = QueueStore::new();
    store.insert_job(template(1, "t1", "busybox", "latest")).unwrap();
    store.push(record("a", 1, Some(now - 3))).unwrap();
    store.push(record("b", 1, Some(now - 2))).unwrap();
    store.push(record("c", 1, Some(now - 1))).unwrap();

    let claimed = store.pull_at(2, now).unwrap();
    assert_eq!(claimed.len(), 2);
    assert_eq!(claimed[0].0.uuid, "a");
    assert_eq!(claimed[1].0.uuid, "b");

    let records = store.all_records();
    assert_eq!(records[2].uuid, "c");
    assert_eq!(records[2].status, JobStatus::Queued);

    let rest = store.pull_at(2, now).unwrap();
    assert_eq!(rest.len(), 1);
    assert_eq!(rest[0].0.uuid, "c");
}

#[test]
fn enqueue_overwrites_same_uuid_and_resets_counter() {
    let now: i64 = 10_000;
    let mut store = QueueStore::new();
    store.insert_job(template(1, "t1", "busybox", "latest")).unwrap();
    store.push(record("u1", 1, Some(now - 1))).unwrap();

    store.pull_at(50, now).unwrap();
    store.fail_at(&"u1".to_string(), now).unwrap();
    let records = store.all_records();
    assert_eq!(records[0].failed_attempts, 1);
    assert_eq!(records[0].status, JobStatus::Failed);

    store.push(record("u1", 1, Some(now + 42))).unwrap();
    let records = store.all_records();
    assert_eq!(records.len(), 1);
    assert_eq!(records[0].scheduled_for, Some(now + 42));
    assert_eq!(records[0].failed_attempts, 0);
    assert_eq!(records[0].status, JobStatus::Queued);
}

#[test]
fn finish_marks_running_record_finished() {
    let now: i64 = 10_000;
    let mut store = QueueStore::new();
    store.insert_job(template(1, "t1", "busybox", "latest")).unwrap();
    store.push(record("u1", 1, Some(now - 1))).unwrap();
    store.pull_at(50, now).unwrap();

    store.finish_at(&"u1".to_string(), now + 5).unwrap();
    let records = store.all_records();
    assert_eq!(records[0].status, JobStatus::Finished);
    assert_eq!(records[0].failed_attempts, 0);
    assert_eq!(records[0].updated_at, Some(now + 5));
}

#[test]
fn finish_is_a_noop_when_not_running() {
    let now: i64 = 10_000;
    let mut store = QueueStore::new();
    store.insert_job(template(1, "t1", "busybox", "latest")).unwrap();
    store.push(record("u1", 1, Some(now - 1))).unwrap();

    store.finish_at(&"u1".to_string(), now).unwrap();
    assert_eq!(store.all_records()[0].status, JobStatus::Queued);

    store.finish_at(&"missing".to_string(), now).unwrap();
    assert_eq!(store.all_records().len(), 1);
}

#[test]
fn fail_counts_once_per_running_transition() {
    let now: i64 = 10_000;
    let mut store = QueueStore::new();
    store.insert_job(template(1, "t1", "busybox", "latest")).unwrap();
    store.push(record("u1", 1, Some(now - 1))).unwrap();
    store.pull_at(50, now).unwrap();

    store.fail_at(&"u1".to_string(), now).unwrap();
    assert_eq!(store.all_records()[0].failed_attempts, 1);
    assert_eq!(store.all_records()[0].status, JobStatus::Failed);

    store.fail_at(&"u1".to_string(), now).unwrap();
    assert_eq!(store.all_records()[0].failed_attempts, 1);
}

#[test]
fn finished_record_stays_finished() {
    let now: i64 = 10_000;
    let mut store = QueueStore::new();
    store.insert_job(template(1, "t1", "busybox", "latest")).unwrap();
    store.push(record("u1", 1, Some(now - 1))).unwrap();
    store.pull_at(50, now).unwrap();
    store.finish_at(&"u1".to_string(), now).unwrap();

    store.fail_at(&"u1".to_string(), now).unwrap();
    assert_eq!(store.all_records()[0].status, JobStatus::Finished);
    let claimed = store.pull_at(50, now).unwrap();
    assert!(claimed.is_empty());
    assert_eq!(store.all_records()[0].status, JobStatus::Finished);
}

#[test]
fn delete_missing_uuid_succeeds() {
    let mut store = QueueStore::new();
    assert!(store.delete_job("not-there".to_string()).is_ok());
    assert!(store.all_records().is_empty());
}

#[test]
fn delete_removes_exactly_the_named_record() {
    let now: i64 = 10_000;
    let mut store = QueueStore::new();
    store.insert_job(template(1, "t1", "busybox", "latest")).unwrap();
    store.push(record("u1", 1, Some(now))).unwrap();
    store.push(record("u2", 1, Some(now))).unwrap();

    store.delete_job("u1".to_string()).unwrap();
    let records = store.all_records();
    assert_eq!(records.len(), 1);
    assert_eq!(records[0].uuid, "u2");
}

#[test]
fn clear_empty_queue_succeeds() {
    let mut store = QueueStore::new();
    assert!(store.clear().is_ok());
    assert!(store.all_records().is_empty());
}

#[test]
fn clear_removes_all_records() {
    let now: i64 = 10_000;
    let mut store = QueueStore::new();
    store.insert_job(template(1, "t1", "busybox", "latest")).unwrap();
    store.push(record("u1", 1, Some(now))).unwrap();
    store.push(record("u2", 1, Some(now))).unwrap();
    store.clear().unwrap();
    assert!(store.all_records().is_empty());
}

#[test]
fn template_upsert_updates_on_same_key() {
    let mut store = QueueStore::new();
    store.insert_job(template(1, "t1", "busybox", "latest")).unwrap();
    let mut updated = template(1, "t1", "busybox", "latest");
    updated.version = Some("2".to_string());
    store.insert_job(updated).unwrap();

    let now: i64 = 10_000;
    store.push(record("u1", 1, Some(now - 1))).unwrap();
    let claimed = store.pull_at(50, now).unwrap();
    assert_eq!(claimed.len(), 1);
    assert_eq!(claimed[0].1.version, Some("2".to_string()));
}

#[test]
fn template_id_conflict_is_a_storage_error() {
    let mut store = QueueStore::new();
    store.insert_job(template(1, "t1", "busybox", "latest")).unwrap();
    let res = store.insert_job(template(1, "t2", "alpine", "3"));
    assert!(res.is_err());
}

#[test]
fn find_by_uuid_returns_the_stored_record() {
    let now: i64 = 10_000;
    let mut store = QueueStore::new();
    store.insert_job(template(1, "t1", "busybox", "latest")).unwrap();
    store.push(record("u1", 1, Some(now))).unwrap();

    let found = store.find_by_uuid(&"u1".to_string()).unwrap();
    assert_eq!(found.uuid, "u1");
    assert!(store.find_by_uuid(&"u2".to_string()).is_none());
}

#[test]
fn wall_clock_claim_report_and_delete() {
    let mut store = QueueStore::new();
    store.insert_job(template(1, "t1", "busybox", "latest")).unwrap();
    // Due since the epoch, so due at any wall-clock instant.
    store.push(record("u1", 1, Some(0))).unwrap();

    let claimed = store.pull(50).unwrap();
    assert_eq!(claimed.len(), 1);
    store.fail_job("u1".to_string()).unwrap();
    assert_eq!(store.all_records()[0].status, JobStatus::Failed);
    assert_eq!(store.all_records()[0].failed_attempts, 1);

    store.push(record("u1", 1, Some(0))).unwrap();
    let claimed = store.pull(50).unwrap();
    assert_eq!(claimed.len(), 1);
    store.finish_job("u1".to_string()).unwrap();
    assert_eq!(store.all_records()[0].status, JobStatus::Finished);

    store.delete_job("u1".to_string()).unwrap();
    assert!(store.all_records().is_empty());
}

#[test]
fn claim_caps_any_limit_at_one_hundred() {
    let now: i64 = 10_000;
    let mut store = QueueStore::new();
    store.insert_job(template(1, "t1", "busybox", "latest")).unwrap();
    for i in 0..120 {
        store.push(record(&format!("u{}", i), 1, Some(now - 1))).unwrap();
    }
    let claimed = store.pull_at(500, now).unwrap();
    assert_eq!(claimed.len(), 100);
    let rest = store.pull_at(500, now).unwrap();
    assert_eq!(rest.len(), 20);
}

#[test]
fn status_text_round_trip() {
    for st in [
        JobStatus::NotQueued,
        JobStatus::Queued,
        JobStatus::Running,
        JobStatus::Failed,
        JobStatus::Finished,
    ] {
        let text = st.text();
        assert_eq!(JobStatus::parse(&text), Ok(st));
    }
    assert_eq!(JobStatus::Queued.text(), "queued");
    assert_eq!(JobStatus::NotQueued.text(), "not_queued");
    assert!(JobStatus::parse("bogus").is_err());
}
