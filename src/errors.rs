use vstd::prelude::*;

verus! {

/// A path carried by an error, kept for reporting.
#[derive(Debug, Clone)]
pub struct ErrorPath {
    pub path: String,
}

impl View for ErrorPath {
    type V = Seq<char>;

    open spec fn view(&self) -> Seq<char> {
        self.path@
    }
}

impl ErrorPath {
    /// Builds an error path from a borrowed path.
    pub fn new(path: &str) -> (r: ErrorPath)
        ensures
            r@ == path@,
    {
        ErrorPath { path: String::from_str(path) }
    }

    /// The path as a string slice.
    pub fn as_str(&self) -> (r: &str)
        ensures
            r@ == self@,
    {
        self.path.as_str()
    }

    /// Text shown for this path in messages: the path itself.
    pub fn display(&self) -> (r: String)
        ensures
            r@ == self@,
    {
        self.path.clone()
    }
}

impl From<String> for ErrorPath {
    fn from(path: String) -> (r: ErrorPath) {
        ErrorPath { path }
    }
}

impl vstd::std_specs::convert::FromSpecImpl<String> for ErrorPath {
    open spec fn obeys_from_spec() -> bool {
        true
    }

    open spec fn from_spec(v: String) -> ErrorPath {
        ErrorPath { path: v }
    }
}

/// Mathematical model of an [`AppError`].
pub enum AppErrorModel {
    StowPath { source: Seq<char>, target: Seq<char>, cause: Seq<char> },
    Io { msg: Seq<char> },
    Apply,
}

/// Failures of the engine.
#[derive(Debug, Clone)]
pub enum AppError {
    /// A target is in a state that cannot be reconciled safely.
    StowPathError { source: ErrorPath, target: ErrorPath, cause: String },
    /// A filesystem primitive failed while a plan was being executed.
    IOError { msg: String },
    /// A plan that holds errors was asked to be executed.
    ApplyError,
}

impl View for AppError {
    type V = AppErrorModel;

    open spec fn view(&self) -> AppErrorModel {
        match self {
            AppError::StowPathError { source, target, cause } => AppErrorModel::StowPath {
                source: source@,
                target: target@,
                cause: cause@,
            },
            AppError::IOError { msg } => AppErrorModel::Io { msg: msg@ },
            AppError::ApplyError => AppErrorModel::Apply,
        }
    }
}

/// The message that reports an error.
pub open spec fn error_message(e: AppErrorModel) -> Seq<char> {
    match e {
        AppErrorModel::StowPath { source, target, cause } => "Unable to stow "@ + source + " to "@
            + target + " cause : "@ + cause,
        AppErrorModel::Io { msg } => "An IO error append : "@ + msg,
        AppErrorModel::Apply => "Unable to apply stow because of previous errors"@,
    }
}

impl AppError {
    /// The message that reports this error.
    pub fn message(&self) -> (r: String)
        ensures
            r@ == error_message(self@),
    {
        match self {
            AppError::StowPathError { source, target, cause } => String::from_str(
                "Unable to stow ",
            ).concat(source.as_str()).concat(" to ").concat(target.as_str()).concat(
                " cause : ",
            ).concat(cause.as_str()),
            AppError::IOError { msg } => String::from_str("An IO error append : ").concat(
                msg.as_str(),
            ),
            AppError::ApplyError => String::from_str(
                "Unable to apply stow because of previous errors",
            ),
        }
    }
}

} // verus!
