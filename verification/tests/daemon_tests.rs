use keephive::changes::ConfigChangeType;
use keephive::config::{BackupJob, LogRotation, Schedule, ServiceConfig};
use keephive::daemon::{jobs_to_start, plan_config_change};
use keephive::executor::JobExecutor;
use keephive::observability::{rotation_for, Rotation};
use keephive::platform::WindowsPathNormalizer;
use keephive::scheduler::Scheduler;
use keephive::watcher::{is_config_modified, FsEventInfo, FsEventKind};

fn job(id: &str, source: &str, schedule: Schedule) -> BackupJob {
    BackupJob {
        id: id.to_string(),
        source: source.to_string(),
        target: format!("D:\\backups\\{}", id),
        schedule,
        description: String::new(),
    }
}

fn config(jobs: Vec<BackupJob>, retention: usize) -> ServiceConfig {
    ServiceConfig {
        jobs,
        retention_count: retention,
        log_level: "info".to_string(),
        state_path: ".keephive_state.json".to_string(),
        log_directory: None,
        log_rotation: LogRotation::Daily,
    }
}

#[test]
fn test_detect_config_changes() {
    let old_jobs = vec![
        job("kept", "C:\\a", Schedule::Interval { seconds: 60 }),
        job("resched", "C:\\b", Schedule::Daily { hour: 1, minute: 0 }),
        job("moved", "C:\\c", Schedule::Interval { seconds: 60 }),
        job("gone", "C:\\d", Schedule::Interval { seconds: 60 }),
    ];
    let new_jobs = vec![
        job("kept", "C:\\a", Schedule::Interval { seconds: 60 }),
        job("resched", "C:\\b", Schedule::Daily { hour: 2, minute: 30 }),
        job("moved", "C:\\c2", Schedule::Interval { seconds: 60 }),
        job("fresh", "C:\\e", Schedule::Interval { seconds: 60 }),
    ];
    let changes = Scheduler::detect_config_changes(&old_jobs, &new_jobs);
    assert_eq!(changes.added.len(), 1);
    assert_eq!(changes.added[0].id, "fresh");
    assert_eq!(changes.removed, vec!["gone".to_string()]);
    assert_eq!(changes.modified.len(), 2);
    assert_eq!(changes.modified[0].job.id, "resched");
    assert_eq!(changes.modified[0].change_type, ConfigChangeType::ScheduleOnly);
    assert_eq!(changes.modified[1].job.id, "moved");
    assert_eq!(changes.modified[1].change_type, ConfigChangeType::PathChanged);
}

#[test]
fn test_detect_path_and_schedule_change() {
    let old_jobs = vec![job("j", "C:\\a", Schedule::Interval { seconds: 60 })];
    let new_jobs = vec![job("j", "C:\\b", Schedule::Interval { seconds: 120 })];
    let changes = Scheduler::detect_config_changes(&old_jobs, &new_jobs);
    assert_eq!(changes.modified.len(), 1);
    assert_eq!(changes.modified[0].change_type, ConfigChangeType::PathAndSchedule);
}

#[test]
fn test_schedule_only_change_does_not_cancel() {
    // the running job whose schedule alone changed must not be cancelled
    let old = config(
        vec![
            job("running_resched", "C:\\a", Schedule::Daily { hour: 1, minute: 0 }),
            job("running_moved", "C:\\b", Schedule::Interval { seconds: 60 }),
            job("running_gone", "C:\\c", Schedule::Interval { seconds: 60 }),
            job("idle_moved", "C:\\d", Schedule::Interval { seconds: 60 }),
        ],
        5,
    );
    let new = config(
        vec![
            job("running_resched", "C:\\a", Schedule::Daily { hour: 3, minute: 0 }),
            job("running_moved", "C:\\b2", Schedule::Interval { seconds: 60 }),
            job("idle_moved", "C:\\d2", Schedule::Interval { seconds: 60 }),
        ],
        5,
    );
    let running = vec![
        "running_resched".to_string(),
        "running_moved".to_string(),
        "running_gone".to_string(),
    ];
    let plan = plan_config_change(&old, &new, &running);

    assert_eq!(plan.cancel_removed, vec!["running_gone".to_string()]);
    let cancelled: Vec<&str> = plan.cancel_path_changed.iter().map(|j| j.id.as_str()).collect();
    assert_eq!(cancelled, vec!["running_moved"]);
    assert!(!cancelled.contains(&"running_resched"), "schedule-only change must not cancel");
    let updated: Vec<&str> = plan.update_paths.iter().map(|j| j.id.as_str()).collect();
    assert_eq!(updated, vec!["idle_moved"]);
}

#[test]
fn test_plan_reports_setting_changes() {
    let old = config(vec![], 5);
    let mut new = config(vec![], 7);
    new.log_level = "debug".to_string();
    new.log_directory = Some("C:\\logs".to_string());
    new.log_rotation = LogRotation::Hourly;
    new.state_path = "other.json".to_string();
    let plan = plan_config_change(&old, &new, &vec![]);
    assert!(plan.retention_changed);
    assert!(plan.log_level_changed);
    assert!(plan.log_directory_changed);
    assert!(plan.log_rotation_changed);
    assert!(plan.state_path_changed);
    assert_eq!(plan.rotation, Rotation::Hourly);

    let unchanged = plan_config_change(&old, &old.clone(), &vec![]);
    assert!(!unchanged.retention_changed);
    assert!(!unchanged.log_level_changed);
    assert!(!unchanged.log_directory_changed);
    assert!(!unchanged.log_rotation_changed);
    assert!(!unchanged.state_path_changed);
}

#[test]
fn test_jobs_to_start_skips_running_ids() {
    let ready = vec![
        job("a", "C:\\a", Schedule::Interval { seconds: 60 }),
        job("b", "C:\\b", Schedule::Interval { seconds: 60 }),
        job("c", "C:\\c", Schedule::Interval { seconds: 60 }),
    ];
    let running = vec!["b".to_string()];
    let started = jobs_to_start(&ready, &running);
    let ids: Vec<&str> = started.iter().map(|j| j.id.as_str()).collect();
    assert_eq!(ids, vec!["a", "c"]);
}

#[test]
fn test_rotation_mapping() {
    assert_eq!(rotation_for(&LogRotation::Daily), Rotation::Daily);
    assert_eq!(rotation_for(&LogRotation::Hourly), Rotation::Hourly);
    assert_eq!(rotation_for(&LogRotation::Never), Rotation::Never);
}

#[test]
fn test_executor_retention_settings() {
    let mut ex = JobExecutor::new();
    assert_eq!(ex.retention_count, 10);
    ex.set_retention_count(3);
    assert_eq!(ex.retention_count, 3);
    let ex2 = JobExecutor::with_retention_count(7);
    assert_eq!(ex2.retention_count, 7);
}

#[test]
fn test_is_config_modified() {
    let config_name = Some("keephive_config.json".to_string());
    let event = FsEventInfo {
        kind: FsEventKind::Modify,
        file_names: vec![Some("keephive_config.json".to_string())],
    };
    assert!(is_config_modified(&event, &config_name));

    // another file in the watched directory is ignored
    let other = FsEventInfo {
        kind: FsEventKind::Modify,
        file_names: vec![Some("notes.txt".to_string())],
    };
    assert!(!is_config_modified(&other, &config_name));

    // access events are ignored even on the right file
    let access = FsEventInfo {
        kind: FsEventKind::Other,
        file_names: vec![Some("keephive_config.json".to_string())],
    };
    assert!(!is_config_modified(&access, &config_name));

    // create and remove both count
    let create = FsEventInfo {
        kind: FsEventKind::Create,
        file_names: vec![Some("keephive_config.json".to_string())],
    };
    assert!(is_config_modified(&create, &config_name));
    let remove = FsEventInfo {
        kind: FsEventKind::Remove,
        file_names: vec![None, Some("keephive_config.json".to_string())],
    };
    assert!(is_config_modified(&remove, &config_name));
}

#[test]
fn test_normalize_nonexistent_returns_original() {
    let normalizer = WindowsPathNormalizer::new();
    let normalized = normalizer.normalize_resolved("C:\\this\\does\\not\\exist", None);
    assert_eq!(normalized, "C:\\this\\does\\not\\exist");
}

#[test]
fn test_normalize_already_has_prefix() {
    let normalizer = WindowsPathNormalizer::new();
    let with_prefix = "\\\\?\\C:\\test\\path";
    let normalized = normalizer.normalize_resolved(with_prefix, None);
    assert_eq!(normalized, with_prefix);
}

#[test]
fn test_normalize_short_path_uses_resolved() {
    let normalizer = WindowsPathNormalizer::new();
    let canonical = "C:\\real\\path".to_string();
    let normalized = normalizer.normalize_resolved("C:\\some\\..\\real\\path", Some(&canonical));
    assert_eq!(normalized, "C:\\real\\path");
}

#[test]
fn test_normalize_long_path_gets_prefix() {
    let normalizer = WindowsPathNormalizer::new();
    let long = format!("C:\\{}", "a".repeat(230));
    let normalized = normalizer.normalize_resolved("C:\\x", Some(&long));
    assert_eq!(normalized, format!("\\\\?\\{}", long));

    let unc = format!("\\\\server\\{}", "b".repeat(230));
    let normalized = normalizer.normalize_resolved("\\\\x", Some(&unc));
    assert_eq!(normalized, format!("\\\\?\\UNC{}", &unc[1..]));
}
