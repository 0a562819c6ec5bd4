use keephive::manager::temp_state_path;
use keephive::state::{BackupMetadata, BackupState, JobState, JobStatus, STATE_SCHEMA_VERSION};

fn fresh_state_with_jobs(n: usize) -> BackupState {
    let mut state = BackupState::new(1_000);
    for i in 0..n {
        let job = JobState::new(
            format!("job_{}", i),
            format!("C:\\source_{}", i),
            format!("C:\\target_{}", i),
        );
        state.upsert_job(job, 1_000);
    }
    state
}

#[test]
fn test_new_state_is_empty_and_versioned() {
    let state = BackupState::new(42);
    assert_eq!(state.version, STATE_SCHEMA_VERSION);
    assert_eq!(state.jobs.len(), 0);
    assert_eq!(state.last_updated, 42);
    assert!(state.check_wf());
}

#[test]
fn test_upsert_inserts_then_replaces() {
    let mut state = BackupState::new(0);
    state.upsert_job(JobState::new("a".into(), "s1".into(), "t1".into()), 10);
    assert_eq!(state.jobs.len(), 1);
    // same id: replaced, not duplicated
    state.upsert_job(JobState::new("a".into(), "s2".into(), "t2".into()), 20);
    assert_eq!(state.jobs.len(), 1);
    assert_eq!(state.get_job("a").unwrap().source, "s2");
    assert_eq!(state.last_updated, 20);
    // the document invariant holds: ids stay unique
    assert!(state.check_wf());
}

#[test]
fn test_repeated_updates_keep_ids_unique() {
    // ten jobs, five status round trips each; every job ends idle with a
    // last run, and the document never holds two records of one id
    let mut state = fresh_state_with_jobs(10);
    for round in 0..5 {
        for i in 0..10 {
            let id = format!("job_{}", i);
            let now = 2_000 + round * 100 + i as i64;
            let mut meta = BackupMetadata::new(format!("snap_{}", i), format!("p_{}", i), now);
            let started = state.apply_job_running(&id, now, "C:\\s", "C:\\t", meta.clone());
            assert!(started, "Job {} should exist", i);
            assert!(matches!(
                state.get_job(&id).unwrap().status,
                JobStatus::Running { .. }
            ));
            meta.mark_complete(now + 1);
            let finished = state.apply_job_success(&id, now + 1, meta);
            assert!(finished);
        }
        assert!(state.check_wf());
    }
    assert_eq!(state.jobs.len(), 10);
    for i in 0..10 {
        let job = state.get_job(&format!("job_{}", i)).unwrap();
        assert_eq!(job.status, JobStatus::Idle, "Job {} should be idle", i);
        assert!(job.last_run.is_some(), "Job {} should have last_run set", i);
        assert!(job.last_backup.is_some());
        assert!(job.active_backup.is_none());
    }
}

#[test]
fn test_update_nonexistent_job_leaves_state_unchanged() {
    let mut state = fresh_state_with_jobs(2);
    let before_updated = state.last_updated;
    let found = state.set_job_next_run("nonexistent", 5_000, 9_999);
    assert!(!found);
    assert_eq!(state.last_updated, before_updated);
    assert_eq!(state.jobs.len(), 2);
}

#[test]
fn test_failure_marks_job_and_clears_active() {
    let mut state = fresh_state_with_jobs(1);
    let meta = BackupMetadata::new("snap".into(), "p".into(), 2_000);
    state.apply_job_running("job_0", 2_000, "C:\\s", "C:\\t", meta);
    assert!(state.get_job("job_0").unwrap().active_backup.is_some());

    state.apply_job_failure("job_0", 2_100, "Backup cancelled".to_string());
    let job = state.get_job("job_0").unwrap();
    match &job.status {
        JobStatus::Failed { error, timestamp } => {
            assert_eq!(error, "Backup cancelled");
            assert_eq!(*timestamp, 2_100);
        }
        other => panic!("expected a failed status, got {:?}", other),
    }
    assert!(job.active_backup.is_none());
}

#[test]
fn test_reset_failed_jobs() {
    let mut state = fresh_state_with_jobs(3);
    let meta = BackupMetadata::new("snap".into(), "p".into(), 2_000);
    state.apply_job_running("job_1", 2_000, "s", "t", meta);
    state.apply_job_failure("job_0", 2_100, "boom".to_string());

    let changed = state.reset_failed_jobs(3_000);
    assert!(changed);
    assert_eq!(state.get_job("job_0").unwrap().status, JobStatus::Idle);
    // a running record is not touched by the failed-job reset
    assert!(matches!(
        state.get_job("job_1").unwrap().status,
        JobStatus::Running { .. }
    ));
    assert_eq!(state.get_job("job_2").unwrap().status, JobStatus::Idle);
    assert_eq!(state.last_updated, 3_000);

    // nothing failed any more: a second reset reports no change
    let changed_again = state.reset_failed_jobs(4_000);
    assert!(!changed_again);
    assert_eq!(state.last_updated, 3_000);
}

#[test]
fn test_metadata_completion_invariant() {
    let mut meta = BackupMetadata::new("name".into(), "path".into(), 50);
    assert!(!meta.is_complete);
    assert!(meta.completed_at.is_none());
    assert!(meta.check_wf());
    meta.mark_complete(80);
    assert!(meta.is_complete);
    assert_eq!(meta.completed_at, Some(80));
    assert!(meta.check_wf());
}

#[test]
fn test_check_wf_rejects_corrupt_documents() {
    // a duplicated id, as a corrupt state file could hold
    let mut state = BackupState::new(0);
    state.jobs.push(JobState::new("x".into(), "s".into(), "t".into()));
    state.jobs.push(JobState::new("x".into(), "s2".into(), "t2".into()));
    assert!(!state.check_wf());

    // a metadata record claiming completion without a stamp
    let mut state2 = BackupState::new(0);
    let mut job = JobState::new("y".into(), "s".into(), "t".into());
    let mut meta = BackupMetadata::new("n".into(), "p".into(), 0);
    meta.is_complete = true;
    job.last_backup = Some(meta);
    state2.jobs.push(job);
    assert!(!state2.check_wf());
}

#[test]
fn test_temp_state_path() {
    assert_eq!(temp_state_path(".keephive_state.json"), ".keephive_state.tmp");
    assert_eq!(temp_state_path("state.json"), "state.tmp");
    assert_eq!(temp_state_path("dir/state.json"), "dir/state.tmp");
    assert_eq!(temp_state_path("C:\\data\\state.json"), "C:\\data\\state.tmp");
    assert_eq!(temp_state_path("state"), "state.tmp");
    assert_eq!(temp_state_path(".hidden"), ".hidden.tmp");
    assert_eq!(temp_state_path("dir.d/state"), "dir.d/state.tmp");
}
