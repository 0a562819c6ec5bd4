use keephive::clock::LocalDateTime;
use keephive::config::{BackupJob, Schedule};
use keephive::scheduler::Scheduler;
use keephive::state::{BackupState, JobStatus};

fn create_test_job(id: &str) -> BackupJob {
    BackupJob {
        id: id.to_string(),
        source: format!("C:\\source_{}", id),
        target: format!("C:\\target_{}", id),
        schedule: Schedule::Interval { seconds: 3600 },
        description: String::new(),
    }
}

fn local(hour: u32, minute: u32) -> LocalDateTime {
    LocalDateTime { epoch_seconds: 1_700_000_000, weekday: 4, hour, minute, second: 0 }
}

#[test]
fn test_no_duplicate_jobs_succeeds() {
    let mut state = BackupState::new(100);
    let jobs = vec![create_test_job("job1"), create_test_job("job2"), create_test_job("job3")];
    let result = Scheduler::initialize_jobs(&mut state, &jobs, 200);
    assert!(result.is_ok(), "Valid jobs should initialize successfully");
}

#[test]
fn test_duplicate_job_ids_rejected() {
    let mut state = BackupState::new(100);
    let jobs = vec![create_test_job("job1"), create_test_job("job2"), create_test_job("job1")];
    let result = Scheduler::initialize_jobs(&mut state, &jobs, 200);
    assert!(result.is_err(), "Duplicate job IDs should be rejected");

    let error_msg = result.unwrap_err().message();
    assert!(error_msg.contains("Duplicate job IDs"), "Error should mention duplicates: {}", error_msg);
    assert!(error_msg.contains("job1"), "Error should mention the duplicate ID: {}", error_msg);
    assert!(error_msg.contains("positions"), "Error should show positions: {}", error_msg);
}

#[test]
fn test_multiple_duplicates_all_reported() {
    let mut state = BackupState::new(100);
    let jobs = vec![
        create_test_job("job1"),
        create_test_job("job2"),
        create_test_job("job1"),
        create_test_job("job3"),
        create_test_job("job2"),
    ];
    let result = Scheduler::initialize_jobs(&mut state, &jobs, 200);
    assert!(result.is_err(), "Multiple duplicates should be rejected");

    let error_msg = result.unwrap_err().message();
    assert!(error_msg.contains("job1"), "Should report job1 duplicate");
    assert!(error_msg.contains("job2"), "Should report job2 duplicate");
}

#[test]
fn test_triple_duplicate_reported() {
    let mut state = BackupState::new(100);
    let jobs = vec![
        create_test_job("duplicate"),
        create_test_job("duplicate"),
        create_test_job("duplicate"),
    ];
    let result = Scheduler::initialize_jobs(&mut state, &jobs, 200);
    assert!(result.is_err(), "Triple duplicate should be rejected");

    let error_msg = result.unwrap_err().message();
    let duplicate_count = error_msg.matches("duplicate").count();
    assert!(duplicate_count >= 2, "Should report multiple occurrences");
}

#[test]
fn test_empty_job_list_succeeds() {
    let mut state = BackupState::new(100);
    let jobs: Vec<BackupJob> = vec![];
    let result = Scheduler::initialize_jobs(&mut state, &jobs, 200);
    assert!(result.is_ok(), "Empty job list should be valid");
}

#[test]
fn test_single_job_succeeds() {
    let mut state = BackupState::new(100);
    let jobs = vec![create_test_job("only_job")];
    let result = Scheduler::initialize_jobs(&mut state, &jobs, 200);
    assert!(result.is_ok(), "Single job should initialize successfully");
}

#[test]
fn test_validate_no_duplicate_job_ids_directly() {
    let jobs = vec![create_test_job("job1"), create_test_job("job2")];
    let result = Scheduler::validate_no_duplicate_job_ids(&jobs);
    assert!(result.is_ok(), "No duplicates should pass validation");

    let jobs_with_dup = vec![create_test_job("job1"), create_test_job("job1")];
    let result = Scheduler::validate_no_duplicate_job_ids(&jobs_with_dup);
    assert!(result.is_err(), "Duplicates should fail validation");
}

#[test]
fn test_case_sensitive_job_ids() {
    let mut state = BackupState::new(100);
    let jobs = vec![create_test_job("JobOne"), create_test_job("jobone")];
    let result = Scheduler::initialize_jobs(&mut state, &jobs, 200);
    assert!(result.is_ok(), "Job IDs with different cases should be treated as different");
}

#[test]
fn test_whitespace_in_job_ids_matters() {
    let mut state = BackupState::new(100);
    let jobs = vec![create_test_job("job1"), create_test_job("job1 ")];
    let result = Scheduler::initialize_jobs(&mut state, &jobs, 200);
    assert!(result.is_ok(), "Job IDs with different whitespace should be treated as different");
}

#[test]
fn test_duplicate_detection_error_message_format() {
    let mut state = BackupState::new(100);
    let jobs = vec![
        create_test_job("my_backup_job"),
        create_test_job("another_job"),
        create_test_job("my_backup_job"),
    ];
    let result = Scheduler::initialize_jobs(&mut state, &jobs, 200);
    assert!(result.is_err());

    let error_msg = result.unwrap_err().message();
    assert!(error_msg.contains("Duplicate"), "Should mention 'Duplicate'");
    assert!(error_msg.contains("my_backup_job"), "Should mention the job ID");
    assert!(error_msg.contains("0"), "Should show first position");
    assert!(error_msg.contains("2"), "Should show duplicate position");
    assert!(error_msg.contains("unique ID"), "Should suggest using unique IDs");
}

#[test]
fn test_duplicate_error_message_exact() {
    let jobs = vec![create_test_job("a"), create_test_job("b"), create_test_job("a")];
    let err = Scheduler::validate_no_duplicate_job_ids(&jobs).unwrap_err();
    assert_eq!(
        err.message(),
        "Duplicate job IDs detected in configuration:\n  - Job ID 'a' appears at positions 0 and 2\n\nEach job must have a unique ID. Please fix the configuration."
    );
}

#[test]
fn test_scheduler_initialization_with_valid_jobs() {
    let mut state = BackupState::new(100);
    let jobs = vec![
        create_test_job("daily_backup"),
        create_test_job("weekly_backup"),
        create_test_job("monthly_backup"),
    ];
    Scheduler::initialize_jobs(&mut state, &jobs, 200).unwrap();

    assert_eq!(state.jobs.len(), 3, "Should have 3 jobs in state");
    assert!(state.get_job("daily_backup").is_some());
    assert!(state.get_job("weekly_backup").is_some());
    assert!(state.get_job("monthly_backup").is_some());
}

#[test]
fn test_duplicate_prevents_any_initialization() {
    let mut state = BackupState::new(100);
    let jobs = vec![
        create_test_job("job1"),
        create_test_job("job2"),
        create_test_job("job1"),
        create_test_job("job3"),
    ];
    let result = Scheduler::initialize_jobs(&mut state, &jobs, 200);
    assert!(result.is_err());
    assert_eq!(state.jobs.len(), 0, "No jobs should be initialized when duplicates are detected");
}

#[test]
fn test_get_ready_jobs() {
    let mut state = BackupState::new(100);
    let jobs = vec![create_test_job("a"), create_test_job("b"), create_test_job("c")];
    Scheduler::initialize_jobs(&mut state, &jobs, 200).unwrap();

    // no next_run stamps yet: every job is ready
    let ready = Scheduler::get_ready_jobs(&state, &jobs, 1_700_000_000);
    assert_eq!(ready.len(), 3);

    // a future stamp holds a job back; a past one releases it
    state.set_job_next_run("a", 1_700_000_100, 300);
    state.set_job_next_run("b", 1_699_999_000, 300);
    let ready = Scheduler::get_ready_jobs(&state, &jobs, 1_700_000_000);
    let ids: Vec<&str> = ready.iter().map(|j| j.id.as_str()).collect();
    assert_eq!(ids, vec!["b", "c"]);

    // a job with no record at all runs on first tick
    let more = vec![create_test_job("new_job")];
    let ready = Scheduler::get_ready_jobs(&state, &more, 1_700_000_000);
    assert_eq!(ready.len(), 1);
    assert_eq!(ready[0].id, "new_job");
}

#[test]
fn test_calculate_next_runs_skips_running() {
    let mut state = BackupState::new(100);
    let jobs = vec![create_test_job("idle_one"), create_test_job("busy_one")];
    Scheduler::initialize_jobs(&mut state, &jobs, 200).unwrap();

    let meta = keephive::state::BackupMetadata::new(
        "n".to_string(),
        "p".to_string(),
        1_700_000_000,
    );
    state.apply_job_running("busy_one", 1_700_000_000, "C:\\s", "C:\\t", meta);

    let now = local(1, 0);
    Scheduler::calculate_next_runs(&mut state, &jobs, &now);

    // the idle job got now + 3600 (interval, never run)... never run means zero wait
    let idle = state.get_job("idle_one").unwrap();
    assert_eq!(idle.next_run, Some(1_700_000_000));
    // the running job was skipped
    let busy = state.get_job("busy_one").unwrap();
    assert_eq!(busy.next_run, None);
}

#[test]
fn test_calculate_next_runs_uses_last_run() {
    let mut state = BackupState::new(100);
    let jobs = vec![create_test_job("j")];
    Scheduler::initialize_jobs(&mut state, &jobs, 200).unwrap();

    let mut meta = keephive::state::BackupMetadata::new(
        "n".to_string(),
        "p".to_string(),
        1_699_999_000,
    );
    meta.mark_complete(1_699_999_500);
    state.apply_job_running("j", 1_699_999_000, "C:\\s", "C:\\t", meta.clone());
    state.apply_job_success("j", 1_699_998_000, meta);

    let now = local(1, 0);
    Scheduler::calculate_next_runs(&mut state, &jobs, &now);
    // last run 2000 s ago, interval 3600: 1600 s to wait
    let j = state.get_job("j").unwrap();
    assert_eq!(j.next_run, Some(1_700_000_000 + 1600));
    assert_eq!(j.status, JobStatus::Idle);
}
