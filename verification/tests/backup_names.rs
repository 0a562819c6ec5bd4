use keephive::backup::BackupOrchestrator;
use keephive::clock::UtcTimestamp;

fn ts() -> UtcTimestamp {
    UtcTimestamp {
        year: 2024,
        month: 6,
        day: 30,
        hour: 14,
        minute: 5,
        second: 9,
        millisecond: 42,
        epoch_seconds: 1_719_756_309,
    }
}

#[test]
fn test_generate_backup_name_security() {
    // a traversal component as the source basename collapses to the fallback
    let backup_name = BackupOrchestrator::generate_backup_name("..", &ts());
    assert!(backup_name.starts_with("backup_"), "Should sanitize .. to 'backup': {}", backup_name);
    assert!(!backup_name.contains(".."), "Should not contain .. : {}", backup_name);
}

#[test]
fn test_generate_backup_name_with_special_chars() {
    let backup_name = BackupOrchestrator::generate_backup_name("my:folder*name", &ts());
    assert!(!backup_name.contains(':'), "Should not contain :");
    assert!(!backup_name.contains('*'), "Should not contain *");
    assert!(backup_name.contains('_'), "Should replace with _");
}

#[test]
fn test_backup_name_format() {
    let backup_name = BackupOrchestrator::generate_backup_name("Documents", &ts());
    let parts: Vec<&str> = backup_name.split('_').collect();
    assert!(parts.len() >= 4, "Should have at least 4 parts: {}", backup_name);
    assert!(parts[1].contains('-'), "Should have date with dashes");
    let millis_part = parts.last().unwrap();
    assert_eq!(millis_part.len(), 3, "Milliseconds should be 3 digits");
    assert!(millis_part.chars().all(|c| c.is_numeric()), "Milliseconds should be numeric");
}

#[test]
fn test_generate_backup_name_with_unicode() {
    let backup_name = BackupOrchestrator::generate_backup_name("\u{6587}\u{6863}", &ts());
    assert!(
        backup_name.starts_with("\u{6587}\u{6863}_"),
        "Should preserve unicode: {}",
        backup_name
    );
}

#[test]
fn test_backup_name_length() {
    let long_name = "a".repeat(300);
    let backup_name = BackupOrchestrator::generate_backup_name(&long_name, &ts());
    assert!(backup_name.len() <= 300);
    let parts: Vec<&str> = backup_name.split('_').collect();
    assert!(parts.len() >= 4);
}

#[test]
fn test_backup_name_fallback() {
    // a source with no usable basename falls back to 'backup'
    let backup_name = BackupOrchestrator::generate_backup_name("", &ts());
    assert!(backup_name.starts_with("backup_"), "Should use 'backup' fallback: {}", backup_name);
}

#[test]
fn test_backup_name_with_invalid_chars() {
    let backup_name = BackupOrchestrator::generate_backup_name("my<project>:test", &ts());
    assert!(
        backup_name.starts_with("my_project__test_"),
        "Should sanitize invalid chars: {}",
        backup_name
    );
    assert!(!backup_name.contains('<'));
    assert!(!backup_name.contains('>'));
    assert!(!backup_name.contains(':'));
}

#[test]
fn test_backup_name_with_path_traversal() {
    let backup_name = BackupOrchestrator::generate_backup_name("../../../etc/passwd", &ts());
    assert!(!backup_name.contains(".."));
    assert!(!backup_name.contains('/'));
    assert!(!backup_name.contains('\\'));
}
