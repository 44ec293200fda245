use rstow::{build_backup_path, join_path, path_has_file_name};

#[test]
fn backup_path_is_a_prefixed_sibling() {
    assert_eq!(build_backup_path("/home/user/a.txt"), "/home/user/backup-a.txt");
    assert_eq!(build_backup_path("/a.txt"), "/backup-a.txt");
    assert_eq!(build_backup_path("a.txt"), "backup-a.txt");
    assert_eq!(build_backup_path("/t/subdir"), "/t/backup-subdir");
}

#[test]
fn join_adds_one_separator() {
    assert_eq!(join_path("/t", "a.txt"), "/t/a.txt");
    assert_eq!(join_path("/t/", "a.txt"), "/t/a.txt");
    assert_eq!(join_path("", "a.txt"), "a.txt");
}

#[test]
fn file_name_detection() {
    assert!(path_has_file_name("/t/a.txt"));
    assert!(path_has_file_name("a"));
    assert!(path_has_file_name("/t/.rstow"));
    assert!(!path_has_file_name(""));
    assert!(!path_has_file_name("/"));
    assert!(!path_has_file_name("/t/"));
    assert!(!path_has_file_name("/t/."));
    assert!(!path_has_file_name("/t/.."));
    assert!(!path_has_file_name(".."));
}
