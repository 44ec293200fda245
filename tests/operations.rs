use rstow::{AppError, ErrorPath, FSOperation};

fn p(s: &str) -> String {
    s.to_string()
}

#[test]
fn test_fsoperation_equals() {
    assert_eq!(FSOperation::Backup(p("/some/path")), FSOperation::Backup(p("/some/path")));
    assert_eq!(FSOperation::Delete(p("/some/path")), FSOperation::Delete(p("/some/path")));
    assert_eq!(
        FSOperation::Restore { backup: p("/some/path1"), target: p("/target/path1") },
        FSOperation::Restore { backup: p("/some/path1"), target: p("/target/path1") }
    );
    assert_eq!(
        FSOperation::CreateSymlink { source: p("/source/path1"), target: p("/target/path1") },
        FSOperation::CreateSymlink { source: p("/source/path1"), target: p("/target/path1") }
    );
}

#[test]
#[should_panic]
fn test_fsoperation_backup_not_equals() {
    assert_eq!(FSOperation::Backup(p("/some/path")), FSOperation::Backup(p("/other/path")))
}

#[test]
#[should_panic]
fn test_fsoperation_delete_not_equals() {
    assert_eq!(FSOperation::Delete(p("/some/path")), FSOperation::Delete(p("/other/path")))
}

#[test]
#[should_panic]
fn test_fsoperation_restore_not_equals() {
    assert_eq!(
        FSOperation::Restore { backup: p("/some/path1"), target: p("/target/path1") },
        FSOperation::Restore { backup: p("/some/path1"), target: p("/other/target/path1") }
    );
}

#[test]
#[should_panic]
fn test_fsoperation_symlink_not_equals() {
    assert_eq!(
        FSOperation::CreateSymlink { source: p("/some/path1"), target: p("/target/path1") },
        FSOperation::CreateSymlink { source: p("/different/source/path1"), target: p("/target/path1") }
    );
}

#[test]
fn test_fsoperation_clone() {
    let operation = FSOperation::Backup(p("/some/path"));
    assert_eq!(operation.clone(), operation);
}

#[test]
fn duplicate_is_equal() {
    let operation = FSOperation::Nothing { path: p("/t/a"), cause: p("why") };
    assert_eq!(operation.duplicate(), operation);
}

#[test]
fn describe_each_operation() {
    assert_eq!(FSOperation::Backup(p("/t/a")).describe(), "Backup path /t/a");
    assert_eq!(FSOperation::Delete(p("/t/a")).describe(), "Delete path /t/a");
    assert_eq!(FSOperation::CreateDirectory(p("/t/d")).describe(), "Create directory /t/d");
    assert_eq!(
        FSOperation::Restore { backup: p("/t/backup-a"), target: p("/t/a") }.describe(),
        "Restore path /t/backup-a as /t/a"
    );
    assert_eq!(
        FSOperation::CreateSymlink { source: p("/s/a"), target: p("/t/a") }.describe(),
        "Create symlink /s/a to /t/a"
    );
    assert_eq!(FSOperation::BreakDirectoryLink(p("/t/d")).describe(), "Break directory symlink /t/d");
    assert_eq!(
        FSOperation::Nothing { path: p("/t/a"), cause: p("Valid symbolic link") }.describe(),
        "Nothing on /t/a : Valid symbolic link"
    );
}

#[test]
fn error_messages() {
    let e = AppError::StowPathError {
        source: ErrorPath::new("/s/a"),
        target: ErrorPath::new("/t/a"),
        cause: p("because"),
    };
    assert_eq!(e.message(), "Unable to stow /s/a to /t/a cause : because");
    assert_eq!(AppError::IOError { msg: p("denied") }.message(), "An IO error append : denied");
    assert_eq!(AppError::ApplyError.message(), "Unable to apply stow because of previous errors");
}

#[test]
fn error_path_round_trip() {
    let e = ErrorPath::from(p("/t/a"));
    assert_eq!(e.as_str(), "/t/a");
    assert_eq!(e.display(), "/t/a");
    assert_eq!(ErrorPath::new("/s/b").display(), "/s/b");
}
