use vstd::prelude::*;

verus! {

/// Whether the walk descends into the children of a path that was just planned.
#[derive(Debug, Clone, Copy, PartialEq, Eq, Structural)]
pub enum TraversOperation {
    /// Descend into this path's children if it is a directory.
    Continue,
    /// Do not descend: the path was handled as a whole.
    StopPathRun,
}

/// What was observed of one source/target pair before planning it.
#[derive(Debug, Clone, Copy, PartialEq, Eq, Structural)]
pub struct PathState {
    /// The source path is a directory.
    pub source_is_dir: bool,
    /// The target path exists (a symbolic link counts where its destination exists).
    pub target_exists: bool,
    /// The target path is itself a symbolic link.
    pub target_is_symlink: bool,
    /// The target is a symbolic link whose resolved destination is the source path.
    pub valid_symlink: bool,
    /// The backup path derived from the target exists.
    pub backup_exists: bool,
}

/// Mathematical model of an [`FSOperation`]: every path as a character sequence.
pub enum OpModel {
    Backup(Seq<char>),
    Restore { backup: Seq<char>, target: Seq<char> },
    CreateSymlink { source: Seq<char>, target: Seq<char> },
    CreateDirectory(Seq<char>),
    Delete(Seq<char>),
    BreakDirectoryLink(Seq<char>),
    Nothing { path: Seq<char>, cause: Seq<char> },
}

/// A planned filesystem action.
#[derive(Debug, PartialEq, Clone)]
pub enum FSOperation {
    /// Rename an existing real file aside before it is replaced.
    Backup(String),
    /// Rename a backed-up path back into place.
    Restore { backup: String, target: String },
    /// Create a symbolic link at `target` pointing at `source`.
    CreateSymlink { source: String, target: String },
    /// Create a real directory, with any missing parents.
    CreateDirectory(String),
    /// Remove a file, or a directory with all of its contents.
    Delete(String),
    /// Replace a directory symlink by a real directory whose children link to
    /// the children of the former link target.
    BreakDirectoryLink(String),
    /// Do nothing at `path`, for the reason given.
    Nothing { path: String, cause: String },
}

impl View for FSOperation {
    type V = OpModel;

    open spec fn view(&self) -> OpModel {
        match self {
            FSOperation::Backup(p) => OpModel::Backup(p@),
            FSOperation::Restore { backup, target } => OpModel::Restore {
                backup: backup@,
                target: target@,
            },
            FSOperation::CreateSymlink { source, target } => OpModel::CreateSymlink {
                source: source@,
                target: target@,
            },
            FSOperation::CreateDirectory(p) => OpModel::CreateDirectory(p@),
            FSOperation::Delete(p) => OpModel::Delete(p@),
            FSOperation::BreakDirectoryLink(p) => OpModel::BreakDirectoryLink(p@),
            FSOperation::Nothing { path, cause } => OpModel::Nothing { path: path@, cause: cause@ },
        }
    }
}

/// The models of a sequence of operations.
pub open spec fn ops_model(ops: Seq<FSOperation>) -> Seq<OpModel> {
    ops.map_values(|op: FSOperation| op@)
}

/// The one-line description of an operation.
pub open spec fn describe_model(op: OpModel) -> Seq<char> {
    match op {
        OpModel::Nothing { path, cause } => "Nothing on "@ + path + " : "@ + cause,
        OpModel::Backup(p) => "Backup path "@ + p,
        OpModel::Delete(p) => "Delete path "@ + p,
        OpModel::CreateDirectory(p) => "Create directory "@ + p,
        OpModel::Restore { backup, target } => "Restore path "@ + backup + " as "@ + target,
        OpModel::CreateSymlink { source, target } => "Create symlink "@ + source + " to "@
            + target,
        OpModel::BreakDirectoryLink(p) => "Break directory symlink "@ + p,
    }
}

impl FSOperation {
    /// A copy of the operation.
    pub fn duplicate(&self) -> (r: FSOperation)
        ensures
            r@ == self@,
    {
        match self {
            FSOperation::Backup(p) => FSOperation::Backup(p.clone()),
            FSOperation::Restore { backup, target } => FSOperation::Restore {
                backup: backup.clone(),
                target: target.clone(),
            },
            FSOperation::CreateSymlink { source, target } => FSOperation::CreateSymlink {
                source: source.clone(),
                target: target.clone(),
            },
            FSOperation::CreateDirectory(p) => FSOperation::CreateDirectory(p.clone()),
            FSOperation::Delete(p) => FSOperation::Delete(p.clone()),
            FSOperation::BreakDirectoryLink(p) => FSOperation::BreakDirectoryLink(p.clone()),
            FSOperation::Nothing { path, cause } => FSOperation::Nothing {
                path: path.clone(),
                cause: cause.clone(),
            },
        }
    }

    /// A one-line human-readable description of the operation.
    pub fn describe(&self) -> (r: String)
        ensures
            r@ == describe_model(self@),
    {
        match self {
            FSOperation::Nothing { path, cause } => String::from_str("Nothing on ").concat(
                path.as_str(),
            ).concat(" : ").concat(cause.as_str()),
            FSOperation::Backup(p) => String::from_str("Backup path ").concat(p.as_str()),
            FSOperation::Delete(p) => String::from_str("Delete path ").concat(p.as_str()),
            FSOperation::CreateDirectory(p) => String::from_str("Create directory ").concat(
                p.as_str(),
            ),
            FSOperation::Restore { backup, target } => String::from_str("Restore path ").concat(
                backup.as_str(),
            ).concat(" as ").concat(target.as_str()),
            FSOperation::CreateSymlink { source, target } => String::from_str(
                "Create symlink ",
            ).concat(source.as_str()).concat(" to ").concat(target.as_str()),
            FSOperation::BreakDirectoryLink(p) => String::from_str(
                "Break directory symlink ",
            ).concat(p.as_str()),
        }
    }
}

} // verus!
