//! Planning engine for mirroring a source tree into a target tree with
//! symbolic links ("stow") and for undoing that mirroring ("unstow").
//!
//! The filesystem is only ever inspected by the caller: the library receives
//! what was observed as plain values, decides which operations are needed,
//! and returns an ordered plan. The plan is then either rendered as a dry-run
//! report or executed by the caller, one operation after the other.
mod errors;
mod fileutils;
mod interpreters;
mod laws;
mod operations;
mod stow;
mod unstow;
mod vector;
mod walk;

pub use errors::{error_message, AppError, AppErrorModel, ErrorPath};
pub use fileutils::{
    backup_path_of, build_backup_path, file_name, has_file_name, join_model, join_path,
    last_slash, parent_prefix, path_has_file_name,
};
pub use interpreters::{
    break_directory_link, break_link_steps, dryrun_entry, dryrun_interpreter, dryrun_line,
    dryrun_text, flag_at, has_error, operations_to_apply, plan_operations,
};
pub use laws::{
    apply_op, apply_ops, fresh_targets, lemma_backup_keeps_content, lemma_stow_idempotent,
    lemma_stow_missing_target, lemma_stow_real_directory, lemma_stow_real_file,
    lemma_stow_valid_link, lemma_tree_restow_idempotent,
    lemma_tree_round_trip, lemma_unstow_outcomes, observe, observed_in, path_exists, reobserve,
    stow_ops, Node,
};
pub use operations::{ops_model, FSOperation, OpModel, PathState, TraversOperation};
pub use stow::{
    existing_file_cause, foreign_dir_link_cause, foreign_file_link_cause, stop_if_directory,
    stow_decision, stow_path, valid_link_cause,
};
pub use unstow::{is_managed_link, unmanaged_cause, unstow_decision, unstow_path};
pub use vector::{entry_view, operation_items, plan_items};
pub use walk::{
    entries_model, lift_ops, next_index, node_plan, visit, visit_node, walk_plan, EntryModel,
    SourceEntry,
};
