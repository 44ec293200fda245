use im::Vector;
use rstow::{unstow_path, FSOperation, PathState, TraversOperation};

const SOURCE: &str = "/tmp/rstow-tests/unstow/source";
const TARGET: &str = "/tmp/rstow-tests/unstow/target";

fn state(target_exists: bool, target_is_symlink: bool, valid_symlink: bool, backup_exists: bool) -> PathState {
    PathState { source_is_dir: false, target_exists, target_is_symlink, valid_symlink, backup_exists }
}

fn run(name: &str, st: PathState) -> (String, Vector<FSOperation>) {
    let source = format!("{}/{}", SOURCE, name);
    let target = format!("{}/{}", TARGET, name);
    let mut operations: Vector<FSOperation> = Vector::new();
    let result = unstow_path(&source, &target, &st, &mut operations);
    assert!(result.is_ok());
    assert_eq!(result.unwrap(), TraversOperation::Continue);
    (target, operations)
}

#[test]
fn test_valid_link_file() {
    let (target_file, operations) = run("file.txt", state(true, true, true, false));
    let mut iter = operations.iter();
    assert_eq!(iter.next().unwrap(), &FSOperation::Delete(target_file.clone()));
    assert_eq!(iter.next(), None);
}

#[test]
fn test_valid_link_file_with_backup() {
    let (target_file, operations) = run("file.txt", state(true, true, true, true));
    let backup_target_file = format!("{}/backup-file.txt", TARGET);
    let mut iter = operations.iter();
    assert_eq!(iter.next().unwrap(), &FSOperation::Delete(target_file.clone()));
    assert_eq!(
        iter.next().unwrap(),
        &FSOperation::Restore { backup: backup_target_file, target: target_file.clone() }
    );
    assert_eq!(iter.next(), None);
}

#[test]
fn test_unvalid_link_file() {
    let (target_file, operations) = run("file.txt", state(true, true, false, false));
    let mut iter = operations.iter();
    assert_eq!(
        iter.next().unwrap(),
        &FSOperation::Nothing { path: target_file.clone(), cause: "Target symlink invalid".to_owned() }
    );
    assert_eq!(iter.next(), None);
}

#[test]
fn test_valid_link_directory() {
    let (target_dir, operations) = run("subdir", state(true, true, true, false));
    let mut iter = operations.iter();
    assert_eq!(iter.next().unwrap(), &FSOperation::Delete(target_dir.clone()));
    assert_eq!(iter.next(), None);
}

#[test]
fn test_valid_link_directory_with_backup() {
    let (target_dir, operations) = run("subdir", state(true, true, true, true));
    let backup_target_dir = format!("{}/backup-subdir", TARGET);
    let mut iter = operations.iter();
    assert_eq!(iter.next().unwrap(), &FSOperation::Delete(target_dir.clone()));
    assert_eq!(
        iter.next().unwrap(),
        &FSOperation::Restore { backup: backup_target_dir, target: target_dir.clone() }
    );
    assert_eq!(iter.next(), None);
}

#[test]
fn test_unvalid_link_directory() {
    let (target_dir, operations) = run("subdir", state(true, true, false, false));
    let mut iter = operations.iter();
    assert_eq!(
        iter.next().unwrap(),
        &FSOperation::Nothing { path: target_dir.clone(), cause: "Target symlink invalid".to_owned() }
    );
    assert_eq!(iter.next(), None);
}

#[test]
fn unstow_missing_target() {
    let (target, operations) = run("file.txt", state(false, false, false, true));
    assert_eq!(operations.len(), 1);
    assert_eq!(operations[0], FSOperation::Nothing { path: target, cause: "Target not found".to_owned() });
}

#[test]
fn unstow_real_file() {
    let (target, operations) = run("file.txt", state(true, false, false, true));
    assert_eq!(operations.len(), 1);
    assert_eq!(operations[0], FSOperation::Nothing { path: target, cause: "Target not a symlink".to_owned() });
}
