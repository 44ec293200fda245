//! The unstow direction of the decision engine.
use vstd::prelude::*;
use im::Vector;
use crate::errors::AppError;
use crate::fileutils::{backup_path_of, build_backup_path, has_file_name};
use crate::operations::{FSOperation, OpModel, PathState, TraversOperation};
use crate::vector::{operation_items, push_operation};

verus! {

/// Why nothing is done at a target that is not a link managed from the source.
pub open spec fn unmanaged_cause(st: PathState) -> Seq<char> {
    if !st.target_exists {
        "Target not found"@
    } else if !st.target_is_symlink {
        "Target not a symlink"@
    } else {
        "Target symlink invalid"@
    }
}

/// The target is a symbolic link that resolves to the source.
pub open spec fn is_managed_link(st: PathState) -> bool {
    st.target_exists && st.target_is_symlink && st.valid_symlink
}

/// The operations that unstow plans for one pair.
pub open spec fn unstow_decision(target: Seq<char>, st: PathState) -> Seq<OpModel> {
    if !is_managed_link(st) {
        seq![OpModel::Nothing { path: target, cause: unmanaged_cause(st) }]
    } else if st.backup_exists {
        seq![
            OpModel::Delete(target),
            OpModel::Restore { backup: backup_path_of(target), target },
        ]
    } else {
        seq![OpModel::Delete(target)]
    }
}

/// Plans the unstow of `target_path`, a link that stow may have made to
/// `source_path`, given what was observed of the pair. A managed link is
/// deleted, and a backup found beside it is put back; anything else is left
/// alone. Unstow never fails and always lets the walk go on.
pub fn unstow_path(
    source_path: &str,
    target_path: &str,
    state: &PathState,
    operations: &mut Vector<FSOperation>,
) -> (r: Result<TraversOperation, AppError>)
    requires
        has_file_name(target_path@),
    ensures
        r == Ok::<TraversOperation, AppError>(TraversOperation::Continue),
        operation_items(*final(operations)) == operation_items(*old(operations))
            + unstow_decision(target_path@, *state),
{
    let ghost before = operation_items(*operations);
    if !state.target_exists || !state.target_is_symlink || !state.valid_symlink {
        let cause = if !state.target_exists {
            "Target not found"
        } else if !state.target_is_symlink {
            "Target not a symlink"
        } else {
            "Target symlink invalid"
        };
        push_operation(
            operations,
            FSOperation::Nothing { path: String::from_str(target_path), cause: String::from_str(cause) },
        );
        assert(operation_items(*operations) =~= before + unstow_decision(target_path@, *state));
        return Ok(TraversOperation::Continue);
    }
    push_operation(operations, FSOperation::Delete(String::from_str(target_path)));
    if state.backup_exists {
        push_operation(
            operations,
            FSOperation::Restore {
                backup: build_backup_path(target_path),
                target: String::from_str(target_path),
            },
        );
    }
    assert(operation_items(*operations) =~= before + unstow_decision(target_path@, *state));
    Ok(TraversOperation::Continue)
}

} // verus!
