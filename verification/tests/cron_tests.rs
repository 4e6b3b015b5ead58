use jarvis::cron::{normalize_expression, CronError, CronTable};

fn now_secs() -> i64 {
    chrono::Utc::now().timestamp()
}

#[test]
fn add_job_accepts_five_field_expression() {
    let mut table = CronTable::new();
    let job = table.add_job(now_secs(), "job-1", "*/5 * * * *", "echo ok").unwrap();

    assert_eq!(job.expression, "*/5 * * * *");
    assert_eq!(job.command, "echo ok");
    assert!(job.next_run > now_secs() - 1);
}

#[test]
fn add_job_rejects_invalid_field_count() {
    let mut table = CronTable::new();
    let err = table.add_job(now_secs(), "job-1", "* * * *", "echo bad").unwrap_err();
    assert!(matches!(err, CronError::BadFieldCount(4)));
}

#[test]
fn add_list_remove_roundtrip() {
    let mut table = CronTable::new();

    let job = table.add_job(now_secs(), "job-rt", "*/10 * * * *", "echo roundtrip").unwrap();
    let listed = table.list_jobs();
    assert_eq!(listed.len(), 1);
    assert_eq!(listed[0].id, job.id);

    table.remove_job(&job.id).unwrap();
    assert!(table.list_jobs().is_empty());
}

#[test]
fn due_jobs_filters_by_timestamp() {
    let mut table = CronTable::new();
    let now = now_secs();

    let _job = table.add_job(now, "job-due", "* * * * *", "echo due").unwrap();

    let due_now = table.due_jobs(now);
    assert!(due_now.is_empty(), "new job should not be due immediately");

    let far_future = now + 365 * 24 * 3600;
    let due_future = table.due_jobs(far_future);
    assert_eq!(due_future.len(), 1, "job should be due in far future");
}

#[test]
fn reschedule_after_run_persists_last_status_and_last_run() {
    let mut table = CronTable::new();
    let now = now_secs();

    let job = table.add_job(now, "job-rs", "*/15 * * * *", "echo run").unwrap();
    table.reschedule_after_run(&job.id, false, "failed output", now).unwrap();

    let listed = table.list_jobs();
    let stored = listed.iter().find(|j| j.id == job.id).unwrap();
    assert_eq!(stored.last_status.as_deref(), Some("error"));
    assert!(stored.last_run.is_some());
    assert_eq!(stored.last_output.as_deref(), Some("failed output"));
}

#[test]
fn normalize_prepends_seconds_to_five_fields() {
    assert_eq!(normalize_expression("*/5 * * * *").unwrap(), "0 */5 * * * *");
    assert_eq!(normalize_expression("  0 9 * * 1  ").unwrap(), "0 0 9 * * 1");
}

#[test]
fn normalize_keeps_six_and_seven_fields() {
    assert_eq!(normalize_expression("30 */5 * * * *").unwrap(), "30 */5 * * * *");
    assert_eq!(normalize_expression("0 0 9 * * 1 2030").unwrap(), "0 0 9 * * 1 2030");
}

#[test]
fn normalize_reports_the_field_count() {
    assert!(matches!(normalize_expression("a b").unwrap_err(), CronError::BadFieldCount(2)));
    assert!(matches!(
        normalize_expression("1 2 3 4 5 6 7 8").unwrap_err(),
        CronError::BadFieldCount(8)
    ));
}

#[test]
fn add_rejects_duplicate_ids() {
    let mut table = CronTable::new();
    table.add_job(now_secs(), "same-id", "* * * * *", "echo one").unwrap();
    let err = table.add_job(now_secs(), "same-id", "* * * * *", "echo two").unwrap_err();
    assert!(matches!(err, CronError::DuplicateId));
}

#[test]
fn add_rejects_unparsable_expression() {
    let mut table = CronTable::new();
    let err = table.add_job(now_secs(), "bad", "61 25 * * *", "echo no").unwrap_err();
    assert!(matches!(err, CronError::Unschedulable));
}

#[test]
fn list_orders_by_next_run() {
    let mut table = CronTable::new();
    let now = now_secs();
    // A yearly job fires much later than an every-minute job.
    table.add_job(now, "rare", "0 0 1 1 *", "echo rare").unwrap();
    table.add_job(now, "often", "* * * * *", "echo often").unwrap();

    let listed = table.list_jobs();
    assert_eq!(listed.len(), 2);
    assert!(listed[0].next_run <= listed[1].next_run);
    assert_eq!(listed[0].id, "often");
}
