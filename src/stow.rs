//! The stow direction of the decision engine.
use vstd::prelude::*;
use im::Vector;
use crate::errors::{AppError, AppErrorModel, ErrorPath};
use crate::operations::{FSOperation, OpModel, PathState, TraversOperation};
use crate::vector::{operation_items, push_operation};

verus! {

/// Stop at a directory, go on after a file.
pub open spec fn stop_if_directory(is_dir: bool) -> TraversOperation {
    if is_dir {
        TraversOperation::StopPathRun
    } else {
        TraversOperation::Continue
    }
}

/// Why a foreign symbolic link to a file is refused without force.
pub open spec fn foreign_file_link_cause() -> Seq<char> {
    "Target file already exist as a symlink somewhere else. Try with -f force flag to override symlink"@
}

/// Why a foreign symbolic link to a directory is refused without force.
pub open spec fn foreign_dir_link_cause() -> Seq<char> {
    "Target directory already exist as a symlink somewhere else. Not supported yet"@
}

/// Why an existing real file is refused without force.
pub open spec fn existing_file_cause() -> Seq<char> {
    "Target file already physically exist. Set -f flag to force override"@
}

/// The reason recorded when a valid link is already in place.
pub open spec fn valid_link_cause() -> Seq<char> {
    "Valid symbolic link"@
}

/// The decision table of the stow direction: the operations planned for one
/// pair and whether to descend, or the reason the pair cannot be stowed.
pub open spec fn stow_decision(
    source: Seq<char>,
    target: Seq<char>,
    st: PathState,
    force: bool,
    backup: bool,
) -> Result<(Seq<OpModel>, TraversOperation), AppErrorModel> {
    let link = OpModel::CreateSymlink { source, target };
    let refuse = |cause: Seq<char>| AppErrorModel::StowPath { source, target, cause };
    match (st.target_exists, st.target_is_symlink, st.source_is_dir, force) {
        (true, true, _, _) if st.valid_symlink => Ok(
            (
                seq![OpModel::Nothing { path: target, cause: valid_link_cause() }],
                stop_if_directory(st.source_is_dir),
            ),
        ),
        (true, true, true, true) => Ok(
            (seq![OpModel::BreakDirectoryLink(target)], TraversOperation::Continue),
        ),
        (true, true, true, false) => Err(refuse(foreign_dir_link_cause())),
        (true, true, false, true) => Ok(
            (seq![OpModel::Delete(target), link], TraversOperation::Continue),
        ),
        (true, true, false, false) => Err(refuse(foreign_file_link_cause())),
        (true, false, false, true) => Ok(
            (
                seq![if backup { OpModel::Backup(target) } else { OpModel::Delete(target) }, link],
                TraversOperation::Continue,
            ),
        ),
        (true, false, false, false) => Err(refuse(existing_file_cause())),
        (true, false, true, _) => Ok((seq![], TraversOperation::Continue)),
        (false, _, _, _) => Ok((seq![link], stop_if_directory(st.source_is_dir))),
    }
}

fn refusal(source_path: &str, target_path: &str, cause: &str) -> (r: AppError)
    ensures
        r@ == (AppErrorModel::StowPath { source: source_path@, target: target_path@, cause: cause@ }),
{
    AppError::StowPathError {
        source: ErrorPath::new(source_path),
        target: ErrorPath::new(target_path),
        cause: String::from_str(cause),
    }
}

/// Plans the stow of `source_path` at `target_path`, given what was observed
/// of the pair. The planned operations are appended to `operations`; on a
/// refusal nothing is appended and the error says why.
pub fn stow_path(
    source_path: &str,
    target_path: &str,
    state: &PathState,
    force: bool,
    backup: bool,
    operations: &mut Vector<FSOperation>,
) -> (r: Result<TraversOperation, AppError>)
    ensures
        match stow_decision(source_path@, target_path@, *state, force, backup) {
            Ok((ops, next)) => {
                &&& r == Ok::<TraversOperation, AppError>(next)
                &&& operation_items(*final(operations)) == operation_items(*old(operations)) + ops
            },
            Err(e) => {
                &&& r is Err
                &&& r->Err_0@ == e
                &&& operation_items(*final(operations)) == operation_items(*old(operations))
            },
        },
{
    let is_dir = state.source_is_dir;
    let stop_if_dir = if is_dir {
        TraversOperation::StopPathRun
    } else {
        TraversOperation::Continue
    };
    let ghost before = operation_items(*operations);
    match (state.target_exists, state.target_is_symlink, is_dir, force) {
        (true, true, _, _) if state.valid_symlink => {
            push_operation(
                operations,
                FSOperation::Nothing {
                    path: String::from_str(target_path),
                    cause: String::from_str("Valid symbolic link"),
                },
            );
            assert(operation_items(*operations) =~= before + seq![
                OpModel::Nothing { path: target_path@, cause: valid_link_cause() },
            ]);
            Ok(stop_if_dir)
        },
        (true, true, true, true) => {
            push_operation(operations, FSOperation::BreakDirectoryLink(String::from_str(target_path)));
            assert(operation_items(*operations) =~= before + seq![
                OpModel::BreakDirectoryLink(target_path@),
            ]);
            Ok(TraversOperation::Continue)
        },
        (true, true, true, false) => Err(
            refusal(
                source_path,
                target_path,
                "Target directory already exist as a symlink somewhere else. Not supported yet",
            ),
        ),
        (true, true, false, true) => {
            push_operation(operations, FSOperation::Delete(String::from_str(target_path)));
            push_operation(
                operations,
                FSOperation::CreateSymlink {
                    source: String::from_str(source_path),
                    target: String::from_str(target_path),
                },
            );
            assert(operation_items(*operations) =~= before + seq![
                OpModel::Delete(target_path@),
                OpModel::CreateSymlink { source: source_path@, target: target_path@ },
            ]);
            Ok(TraversOperation::Continue)
        },
        (true, true, false, false) => Err(
            refusal(
                source_path,
                target_path,
                "Target file already exist as a symlink somewhere else. Try with -f force flag to override symlink",
            ),
        ),
        (true, false, false, true) => {
            if backup {
                push_operation(operations, FSOperation::Backup(String::from_str(target_path)));
            } else {
                push_operation(operations, FSOperation::Delete(String::from_str(target_path)));
            }
            push_operation(
                operations,
                FSOperation::CreateSymlink {
                    source: String::from_str(source_path),
                    target: String::from_str(target_path),
                },
            );
            assert(operation_items(*operations) =~= before + seq![
                if backup { OpModel::Backup(target_path@) } else { OpModel::Delete(target_path@) },
                OpModel::CreateSymlink { source: source_path@, target: target_path@ },
            ]);
            Ok(TraversOperation::Continue)
        },
        (true, false, false, false) => Err(
            refusal(
                source_path,
                target_path,
                "Target file already physically exist. Set -f flag to force override",
            ),
        ),
        (true, false, true, _) => {
            assert(operation_items(*operations) =~= before + Seq::<OpModel>::empty());
            Ok(TraversOperation::Continue)
        },
        (false, _, _, _) => {
            push_operation(
                operations,
                FSOperation::CreateSymlink {
                    source: String::from_str(source_path),
                    target: String::from_str(target_path),
                },
            );
            assert(operation_items(*operations) =~= before + seq![
                OpModel::CreateSymlink { source: source_path@, target: target_path@ },
            ]);
            Ok(stop_if_dir)
        },
    }
}

} // verus!
