use cellar::archive::ArchiveError;
use cellar::archive::ArchiveLimits;
use cellar::archive::EntryAction;
use cellar::archive::EntryKind;
use cellar::archive::ExtractionGuard;
use cellar::archive::check_entry_count;
use cellar::archive::entry_action;
use cellar::archive::validate_archive_path;

#[test]
fn test_validate_archive_path_normal() {
    let temp_dir = tempfile::TempDir::new().expect("Failed to create temp dir");
    let destination = temp_dir.path().to_string_lossy().to_string();

    let result = validate_archive_path("subdir/file.txt", &destination);
    assert!(result.is_ok());
    assert_eq!(result.unwrap(), format!("{}/subdir/file.txt", destination));
}

#[test]
fn test_validate_archive_path_traversal() {
    let temp_dir = tempfile::TempDir::new().expect("Failed to create temp dir");
    let destination = temp_dir.path().to_string_lossy().to_string();

    let result = validate_archive_path("../../../etc/passwd", &destination);
    assert!(result.is_err());
}

#[test]
fn test_validate_archive_path_absolute() {
    let temp_dir = tempfile::TempDir::new().expect("Failed to create temp dir");
    let destination = temp_dir.path().to_string_lossy().to_string();

    let result = validate_archive_path("/etc/passwd", &destination);
    assert!(result.is_err());
}

#[test]
fn test_validate_archive_path_suspicious_patterns() {
    let temp_dir = tempfile::TempDir::new().expect("Failed to create temp dir");
    let destination = temp_dir.path().to_string_lossy().to_string();

    let result = validate_archive_path("some/../file.txt", &destination);
    assert!(result.is_err());

    let result = validate_archive_path("file\0.txt", &destination);
    assert!(result.is_err());
}

#[test]
fn test_traversal_entry_rejected_with_exact_error() {
    // the scenario entry path: rejected outright, nothing joined
    assert_eq!(
        validate_archive_path("../../etc/passwd", "/store/proton/v1"),
        Err(ArchiveError::PathTraversal)
    );
    assert_eq!(
        validate_archive_path("/etc/passwd", "/store/proton/v1"),
        Err(ArchiveError::AbsolutePath)
    );
    assert_eq!(
        validate_archive_path("a..b/file", "/store/proton/v1"),
        Err(ArchiveError::SuspiciousPath)
    );
    assert_eq!(
        validate_archive_path("dir\\file", "/store/proton/v1"),
        Err(ArchiveError::SuspiciousPath)
    );
}

#[test]
fn test_normalization_drops_dot_components() {
    assert_eq!(
        validate_archive_path("./a//b/./c", "/dest").unwrap(),
        "/dest/a/b/c"
    );
    // an empty relative path resolves to the destination itself
    assert_eq!(validate_archive_path("", "/dest").unwrap(), "/dest");
    assert_eq!(validate_archive_path(".", "/dest").unwrap(), "/dest");
}

#[test]
fn test_entry_actions() {
    assert_eq!(entry_action(EntryKind::File), EntryAction::WriteFile);
    assert_eq!(entry_action(EntryKind::Directory), EntryAction::CreateDir);
    assert_eq!(entry_action(EntryKind::Symlink), EntryAction::Skip);
    assert_eq!(entry_action(EntryKind::Other), EntryAction::Skip);
}

#[test]
fn test_guard_file_count_bound() {
    let mut guard = ExtractionGuard::new(ArchiveLimits { max_files: 2, max_total_size: 1000 });
    assert!(guard.admit_entry(10).is_ok());
    assert!(guard.admit_entry(10).is_ok());
    // the third entry exceeds the bound: refused before, never after
    assert_eq!(guard.admit_entry(10), Err(ArchiveError::TooManyFiles));
    assert_eq!(guard.file_count, 2);
}

#[test]
fn test_guard_total_size_bound() {
    let mut guard = ExtractionGuard::new(ArchiveLimits { max_files: 10, max_total_size: 100 });
    assert!(guard.admit_entry(60).is_ok());
    assert_eq!(guard.admit_entry(50), Err(ArchiveError::ArchiveTooLarge));
}

#[test]
fn test_guard_size_accumulation_saturates() {
    // a crafted archive cannot wrap the size counter around
    let mut guard = ExtractionGuard::new(
        ArchiveLimits { max_files: 10, max_total_size: u64::MAX - 1 },
    );
    assert!(guard.admit_entry(u64::MAX - 5).is_ok());
    assert_eq!(guard.admit_entry(u64::MAX - 5), Err(ArchiveError::ArchiveTooLarge));
}

#[test]
fn test_entry_count_upfront_check() {
    assert!(check_entry_count(100, 100).is_ok());
    assert_eq!(check_entry_count(101, 100), Err(ArchiveError::TooManyFiles));
}
