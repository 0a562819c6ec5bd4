use keephive::backup::BackupOrchestrator;

#[test]
fn test_sanitize_backup_name_prevents_path_traversal() {
    let sanitized = BackupOrchestrator::sanitize_backup_name("..");
    assert_eq!(sanitized, "backup", "Should prevent .. traversal");

    let sanitized = BackupOrchestrator::sanitize_backup_name(".");
    assert_eq!(sanitized, "backup", "Should prevent . as name");
}

#[test]
fn test_sanitize_backup_name_removes_path_separators() {
    let sanitized = BackupOrchestrator::sanitize_backup_name("path/to/file");
    assert!(!sanitized.contains('/'), "Should remove forward slashes");
    assert_eq!(sanitized, "path_to_file");

    let sanitized = BackupOrchestrator::sanitize_backup_name("path\\to\\file");
    assert!(!sanitized.contains('\\'), "Should remove backslashes");
    assert_eq!(sanitized, "path_to_file");
}

#[test]
fn test_sanitize_backup_name_removes_invalid_chars() {
    let invalid_names = vec![
        ("file:name", "file_name"),
        ("file*name", "file_name"),
        ("file?name", "file_name"),
        ("file\"name", "file_name"),
        ("file<name", "file_name"),
        ("file>name", "file_name"),
        ("file|name", "file_name"),
    ];

    for (input, expected) in invalid_names {
        let sanitized = BackupOrchestrator::sanitize_backup_name(input);
        assert_eq!(sanitized, expected, "Failed for input: {}", input);
    }
}

#[test]
fn test_sanitize_backup_name_handles_empty_after_cleaning() {
    let sanitized = BackupOrchestrator::sanitize_backup_name("////");
    assert_eq!(sanitized, "backup", "Should return 'backup' for empty result");

    let sanitized = BackupOrchestrator::sanitize_backup_name("...");
    assert_eq!(sanitized, "backup", "Should return 'backup' for only dots");
}

#[test]
fn test_sanitize_backup_name_trims_dots() {
    let sanitized = BackupOrchestrator::sanitize_backup_name("...filename");
    assert_eq!(sanitized, "filename", "Should trim leading dots");

    let sanitized = BackupOrchestrator::sanitize_backup_name("filename...");
    assert_eq!(sanitized, "filename", "Should trim trailing dots");

    let sanitized = BackupOrchestrator::sanitize_backup_name("...filename...");
    assert_eq!(sanitized, "filename", "Should trim both sides");
}

#[test]
fn test_sanitize_backup_name_removes_control_chars() {
    let name_with_control = "file\x00name\x01test";
    let sanitized = BackupOrchestrator::sanitize_backup_name(name_with_control);
    assert_eq!(sanitized, "file_name_test", "Should remove control characters");
}

#[test]
fn test_sanitize_backup_name_preserves_valid_names() {
    let valid_names = vec!["Documents", "My_Folder", "backup-2024", "folder.name", "test123"];

    for name in valid_names {
        let sanitized = BackupOrchestrator::sanitize_backup_name(name);
        assert_eq!(sanitized, name, "Should preserve valid name: {}", name);
    }
}

#[test]
fn test_sanitize_windows_reserved_names() {
    assert_eq!(BackupOrchestrator::sanitize_backup_name("CON"), "_CON");
    assert_eq!(BackupOrchestrator::sanitize_backup_name("con"), "_con");
    assert_eq!(BackupOrchestrator::sanitize_backup_name("PRN"), "_PRN");
    assert_eq!(BackupOrchestrator::sanitize_backup_name("AUX"), "_AUX");
    assert_eq!(BackupOrchestrator::sanitize_backup_name("NUL"), "_NUL");

    assert_eq!(BackupOrchestrator::sanitize_backup_name("COM1"), "_COM1");
    assert_eq!(BackupOrchestrator::sanitize_backup_name("com5"), "_com5");

    assert_eq!(BackupOrchestrator::sanitize_backup_name("LPT1"), "_LPT1");
    assert_eq!(BackupOrchestrator::sanitize_backup_name("lpt9"), "_lpt9");
}

#[test]
fn test_sanitize_windows_reserved_with_extension() {
    assert_eq!(BackupOrchestrator::sanitize_backup_name("CON.txt"), "_CON.txt");
    assert_eq!(BackupOrchestrator::sanitize_backup_name("prn.log"), "_prn.log");
    assert_eq!(BackupOrchestrator::sanitize_backup_name("aux.dat"), "_aux.dat");
    assert_eq!(BackupOrchestrator::sanitize_backup_name("COM1.backup"), "_COM1.backup");
}

#[test]
fn test_sanitize_windows_reserved_partial_match() {
    assert_eq!(BackupOrchestrator::sanitize_backup_name("console"), "console");
    assert_eq!(BackupOrchestrator::sanitize_backup_name("printer"), "printer");
    assert_eq!(BackupOrchestrator::sanitize_backup_name("mycon"), "mycon");
    assert_eq!(BackupOrchestrator::sanitize_backup_name("aux_file"), "aux_file");
}

#[test]
fn test_sanitize_windows_reserved_case_insensitive() {
    assert_eq!(BackupOrchestrator::sanitize_backup_name("CoN"), "_CoN");
    assert_eq!(BackupOrchestrator::sanitize_backup_name("PrN"), "_PrN");
    assert_eq!(BackupOrchestrator::sanitize_backup_name("AuX"), "_AuX");
    assert_eq!(BackupOrchestrator::sanitize_backup_name("cOm1"), "_cOm1");
}

#[test]
fn test_sanitize_preserves_unicode_and_trims_dots() {
    assert_eq!(BackupOrchestrator::sanitize_backup_name("...\u{6587}\u{6863}..."), "\u{6587}\u{6863}");
}

#[test]
fn test_sanitize_trims_spaces_at_edges() {
    assert_eq!(BackupOrchestrator::sanitize_backup_name("  name  "), "name");
    assert_eq!(BackupOrchestrator::sanitize_backup_name("my name"), "my name");
}

#[test]
fn test_sanitize_truncates_to_255_chars() {
    let long = "a".repeat(300);
    let sanitized = BackupOrchestrator::sanitize_backup_name(&long);
    assert_eq!(sanitized.chars().count(), 255);
}

#[test]
fn test_is_reserved_name() {
    assert!(keephive::backup::is_reserved_name("CON"));
    assert!(keephive::backup::is_reserved_name("con.txt"));
    assert!(keephive::backup::is_reserved_name("lpt9"));
    assert!(keephive::backup::is_reserved_name("com0.dat"));
    assert!(!keephive::backup::is_reserved_name("console"));
    assert!(!keephive::backup::is_reserved_name("lpt"));
    assert!(!keephive::backup::is_reserved_name("com10"));
    assert!(!keephive::backup::is_reserved_name(""));
}
