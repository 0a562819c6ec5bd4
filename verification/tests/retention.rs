use keephive::backup::{BackupEntry, BackupOrchestrator};
use keephive::clock::UtcTimestamp;
use keephive::recovery::RecoveryManager;

fn dir(name: &str, modified: i64) -> BackupEntry {
    BackupEntry { name: name.to_string(), modified, is_dir: true }
}

#[test]
fn test_retention_keeps_three_newest_of_six() {
    // six completed snapshots, a partial and a probe file in the target
    let entries = vec![
        dir("docs_2024-01-01_000000_000", 100),
        dir("docs_2024-01-02_000000_000", 200),
        dir("docs_2024-01-03_000000_000", 300),
        dir("docs_2024-01-04_000000_000", 400),
        dir("docs_2024-01-05_000000_000", 500),
        dir("docs_2024-01-06_000000_000", 600),
        dir("docs_2023-12-31_000000_000_PARTIAL", 700),
        BackupEntry { name: ".keephive_write_test".to_string(), modified: 800, is_dir: false },
    ];
    let removals = BackupOrchestrator::select_backups_to_remove(&entries, 3);
    assert_eq!(
        removals,
        vec![
            "docs_2024-01-01_000000_000".to_string(),
            "docs_2024-01-02_000000_000".to_string(),
            "docs_2024-01-03_000000_000".to_string(),
        ]
    );
}

#[test]
fn test_retention_under_count_removes_nothing() {
    let entries = vec![dir("a", 1), dir("b", 2)];
    assert!(BackupOrchestrator::select_backups_to_remove(&entries, 3).is_empty());
    assert!(BackupOrchestrator::select_backups_to_remove(&entries, 2).is_empty());
}

#[test]
fn test_retention_ignores_partials_and_keephive_files() {
    let entries = vec![
        dir("old_PARTIAL", 50),
        dir(".keephive_state.json", 60),
        dir("only_real_snapshot", 70),
    ];
    // the single real snapshot stays even with a retention bound of one
    assert!(BackupOrchestrator::select_backups_to_remove(&entries, 1).is_empty());
    // with a bound of zero it goes; the partial and the bookkeeping file stay
    let removals = BackupOrchestrator::select_backups_to_remove(&entries, 0);
    assert_eq!(removals, vec!["only_real_snapshot".to_string()]);
}

#[test]
fn test_retention_ties_keep_earlier_entries() {
    let entries = vec![dir("first", 100), dir("second", 100), dir("third", 100)];
    let removals = BackupOrchestrator::select_backups_to_remove(&entries, 2);
    assert_eq!(removals, vec!["third".to_string()]);
}

#[test]
fn test_retention_skips_plain_files() {
    let entries = vec![
        BackupEntry { name: "notes.txt".to_string(), modified: 900, is_dir: false },
        dir("snap", 100),
    ];
    assert!(BackupOrchestrator::select_backups_to_remove(&entries, 1).is_empty());
}

#[test]
fn test_detect_partial_backups() {
    let names = vec![
        "docs_2024-01-01_000000_000".to_string(),
        "docs_2024-01-02_000000_000_PARTIAL".to_string(),
        "other_PARTIAL".to_string(),
        ".keephive_state.json".to_string(),
    ];
    let partials = BackupOrchestrator::detect_partial_backups(&names);
    assert_eq!(
        partials,
        vec![
            "docs_2024-01-02_000000_000_PARTIAL".to_string(),
            "other_PARTIAL".to_string(),
        ]
    );

    let recovery = RecoveryManager::new();
    assert_eq!(recovery.recover_partial_backups(&names), partials);
}

#[test]
fn test_partial_backup_name() {
    assert_eq!(
        BackupOrchestrator::partial_backup_name("docs_2024-01-01_000000_000"),
        "docs_2024-01-01_000000_000_PARTIAL"
    );
    assert!(keephive::backup::is_partial_name("x_PARTIAL"));
    assert!(!keephive::backup::is_partial_name("x_PARTIAL_y"));
    assert!(!keephive::backup::is_partial_name("short"));
}

#[test]
fn test_generate_backup_name_format() {
    let ts = UtcTimestamp {
        year: 2024,
        month: 1,
        day: 15,
        hour: 2,
        minute: 0,
        second: 7,
        millisecond: 123,
        epoch_seconds: 1_705_284_007,
    };
    let name = BackupOrchestrator::generate_backup_name("Documents", &ts);
    assert_eq!(name, "Documents_2024-01-15_020007_123");

    // the sanitizer runs on the source basename
    let name = BackupOrchestrator::generate_backup_name("my<project>:test", &ts);
    assert_eq!(name, "my_project__test_2024-01-15_020007_123");

    // an empty basename falls back, and single-digit fields are padded
    let ts2 = UtcTimestamp {
        year: 987,
        month: 9,
        day: 3,
        hour: 23,
        minute: 59,
        second: 59,
        millisecond: 7,
        epoch_seconds: 0,
    };
    let name = BackupOrchestrator::generate_backup_name("..", &ts2);
    assert_eq!(name, "backup_0987-09-03_235959_007");
}

#[test]
fn test_sanitize_idempotence_on_ordinary_names() {
    // the idempotence law, run on concrete values
    for name in ["Documents", "CON.txt", "path/to/file", "...x...", "my name", "a..b"] {
        let once = BackupOrchestrator::sanitize_backup_name(name);
        let twice = BackupOrchestrator::sanitize_backup_name(&once);
        assert_eq!(once, twice, "sanitize should be idempotent on {:?}", name);
    }
}
