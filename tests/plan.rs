use im::Vector;
use rstow::{
    break_directory_link, dryrun_interpreter, dryrun_line, operations_to_apply, visit, visit_node,
    AppError, ErrorPath, FSOperation, PathState, SourceEntry, TraversOperation,
};

const S: &str = "/src";
const T: &str = "/dst";

fn st(source_is_dir: bool, target_exists: bool, target_is_symlink: bool, valid_symlink: bool, backup_exists: bool) -> PathState {
    PathState { source_is_dir, target_exists, target_is_symlink, valid_symlink, backup_exists }
}

fn entry(rel: &str, descendants: usize, state: PathState) -> SourceEntry {
    SourceEntry { source: format!("{}/{}", S, rel), target: format!("{}/{}", T, rel), descendants, state }
}

fn link(rel: &str) -> FSOperation {
    FSOperation::CreateSymlink { source: format!("{}/{}", S, rel), target: format!("{}/{}", T, rel) }
}

type Plan = Vector<Result<FSOperation, AppError>>;

fn ops_of(plan: &Plan) -> Vec<FSOperation> {
    plan.iter().map(|e| e.clone().unwrap()).collect()
}

fn fresh_tree() -> Vec<SourceEntry> {
    vec![
        entry("a.txt", 0, st(false, false, false, false, false)),
        entry("sub", 1, st(true, false, false, false, false)),
        entry("sub/b.txt", 0, st(false, false, false, false, false)),
    ]
}

#[test]
fn stow_empty_target_stops_at_directories() {
    let mut plan: Plan = Vector::new();
    visit(&fresh_tree(), false, false, false, &mut plan);
    assert_eq!(ops_of(&plan), vec![link("a.txt"), link("sub")]);
}

#[test]
fn stow_descends_into_existing_directory() {
    let entries = vec![
        entry("a.txt", 0, st(false, false, false, false, false)),
        entry("sub", 1, st(true, true, false, false, false)),
        entry("sub/b.txt", 0, st(false, false, false, false, false)),
    ];
    let mut plan: Plan = Vector::new();
    visit(&entries, false, false, false, &mut plan);
    assert_eq!(ops_of(&plan), vec![link("a.txt"), link("sub/b.txt")]);
}

#[test]
fn stow_errors_are_collected_and_walk_goes_on() {
    let entries = vec![
        entry("a.txt", 0, st(false, true, false, false, false)),
        entry("sub", 1, st(true, false, false, false, false)),
        entry("sub/b.txt", 0, st(false, false, false, false, false)),
    ];
    let mut plan: Plan = Vector::new();
    visit(&entries, false, false, false, &mut plan);
    assert_eq!(plan.len(), 2);
    assert!(plan[0].is_err());
    assert_eq!(plan[1].clone().unwrap(), link("sub"));
    assert!(operations_to_apply(&plan).is_err());
}

#[test]
fn stow_forced_backup_of_real_file() {
    let entries = vec![entry("a.txt", 0, st(false, true, false, false, false))];
    let mut plan: Plan = Vector::new();
    visit(&entries, true, true, false, &mut plan);
    assert_eq!(ops_of(&plan), vec![FSOperation::Backup(format!("{}/a.txt", T)), link("a.txt")]);
}

#[test]
fn restow_is_idempotent() {
    let entries = vec![
        entry("a.txt", 0, st(false, true, true, true, false)),
        entry("sub", 1, st(true, true, true, true, false)),
        entry("sub/b.txt", 0, st(false, true, false, false, false)),
    ];
    let mut plan: Plan = Vector::new();
    visit(&entries, false, false, false, &mut plan);
    let ops = ops_of(&plan);
    assert_eq!(ops.len(), 2);
    assert!(ops.iter().all(|op| matches!(op, FSOperation::Nothing { .. })));
}

#[test]
fn unstow_walk_visits_every_entry() {
    let entries = vec![
        entry("a.txt", 0, st(false, true, true, true, false)),
        entry("sub", 1, st(true, true, true, true, false)),
        entry("sub/b.txt", 0, st(false, true, false, false, false)),
    ];
    let mut plan: Plan = Vector::new();
    visit(&entries, false, false, true, &mut plan);
    assert_eq!(
        ops_of(&plan),
        vec![
            FSOperation::Delete(format!("{}/a.txt", T)),
            FSOperation::Delete(format!("{}/sub", T)),
            FSOperation::Nothing { path: format!("{}/sub/b.txt", T), cause: "Target not a symlink".to_string() },
        ]
    );
}

#[test]
fn stow_then_unstow_of_a_fresh_pair() {
    let mut plan: Plan = Vector::new();
    let next = visit_node("/src/a.txt", "/dst/a.txt", &st(false, false, false, false, false), false, false, false, &mut plan);
    assert_eq!(next, TraversOperation::Continue);
    assert_eq!(ops_of(&plan), vec![link("a.txt")]);
    let mut undo: Plan = Vector::new();
    visit_node("/src/a.txt", "/dst/a.txt", &st(false, true, true, true, false), false, false, true, &mut undo);
    assert_eq!(ops_of(&undo), vec![FSOperation::Delete("/dst/a.txt".to_string())]);
}

#[test]
fn visit_node_records_refusal_and_continues() {
    let mut plan: Plan = Vector::new();
    let next = visit_node("/src/sub", "/dst/sub", &st(true, true, true, false, false), false, false, false, &mut plan);
    assert_eq!(next, TraversOperation::Continue);
    assert_eq!(plan.len(), 1);
    assert!(plan[0].is_err());
}

#[test]
fn dryrun_lines() {
    let mut plan: Plan = Vector::new();
    plan.push_back(Ok(FSOperation::Nothing { path: "/dst/a".to_string(), cause: "Valid symbolic link".to_string() }));
    plan.push_back(Ok(FSOperation::Backup("/dst/b".to_string())));
    plan.push_back(Ok(FSOperation::Delete("/dst/c".to_string())));
    plan.push_back(Ok(FSOperation::Delete("/dst/d".to_string())));
    plan.push_back(Ok(FSOperation::Restore { backup: "/dst/backup-e".to_string(), target: "/dst/e".to_string() }));
    plan.push_back(Ok(FSOperation::CreateSymlink { source: "/src/f".to_string(), target: "/dst/f".to_string() }));
    plan.push_back(Ok(FSOperation::BreakDirectoryLink("/dst/g".to_string())));
    plan.push_back(Ok(FSOperation::CreateDirectory("/dst/h".to_string())));
    plan.push_back(Err(AppError::StowPathError {
        source: ErrorPath::new("/src/i"),
        target: ErrorPath::new("/dst/i"),
        cause: "busy".to_string(),
    }));
    let dirs = vec![false, false, false, true, false, false, false, false, false];
    let lines = dryrun_interpreter(&plan, &dirs);
    let expected: Vec<Result<String, String>> = vec![
        Ok("DRY-RUN : nothing to do on /dst/a (Valid symbolic link)".to_string()),
        Ok("DRY-RUN : backup /dst/b".to_string()),
        Ok("DRY-RUN : delete file /dst/c".to_string()),
        Ok("DRY-RUN : delete directory recursively /dst/d".to_string()),
        Ok("DRY-RUN : restore /dst/backup-e -> /dst/e".to_string()),
        Ok("DRY-RUN : create symbolic link /src/f -> /dst/f".to_string()),
        Ok("DRY-RUN : Break directory link /dst/g and rebuild children links".to_string()),
        Ok("DRY-RUN : create directory /dst/h".to_string()),
        Err("DRY-RUN : Error Unable to stow /src/i to /dst/i cause : busy".to_string()),
    ];
    assert_eq!(lines, expected);
    assert_eq!(dryrun_line(&plan[2], true), Ok("DRY-RUN : delete directory recursively /dst/c".to_string()));
    let short = dryrun_interpreter(&plan, &vec![false, false, false]);
    assert_eq!(short.len(), 9);
    assert_eq!(short[3], Ok("DRY-RUN : delete file /dst/d".to_string()));
}

#[test]
fn apply_refuses_a_plan_with_errors() {
    let mut plan: Plan = Vector::new();
    plan.push_back(Ok(FSOperation::Delete("/dst/a".to_string())));
    plan.push_back(Err(AppError::IOError { msg: "x".to_string() }));
    let r = operations_to_apply(&plan);
    assert!(matches!(r, Err(AppError::ApplyError)));
}

#[test]
fn apply_keeps_plan_order() {
    let mut plan: Plan = Vector::new();
    assert_eq!(operations_to_apply(&plan).unwrap(), Vec::<FSOperation>::new());
    plan.push_back(Ok(FSOperation::Backup("/dst/a".to_string())));
    plan.push_back(Ok(link("a")));
    assert_eq!(
        operations_to_apply(&plan).unwrap(),
        vec![FSOperation::Backup("/dst/a".to_string()), link("a")]
    );
}

#[test]
fn break_link_rebuilds_children() {
    let names = vec!["x".to_string(), "y".to_string()];
    let steps = break_directory_link("/dst/sub", "/other/sub", &names);
    assert_eq!(
        steps,
        vec![
            FSOperation::Delete("/dst/sub".to_string()),
            FSOperation::CreateDirectory("/dst/sub".to_string()),
            FSOperation::CreateSymlink { source: "/other/sub/x".to_string(), target: "/dst/sub/x".to_string() },
            FSOperation::CreateSymlink { source: "/other/sub/y".to_string(), target: "/dst/sub/y".to_string() },
        ]
    );
    assert_eq!(break_directory_link("/dst/e", "/other/e", &Vec::new()).len(), 2);
}
