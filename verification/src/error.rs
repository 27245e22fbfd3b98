use vstd::prelude::*;

verus! {

/// Everything that can go wrong in a run, each with a human-readable cause.
pub enum AppError {
    /// A file could not be opened or read.
    Io(String),
    /// Directory traversal failed below a root.
    WalkDir(String),
    /// An input path does not exist.
    NotFound(String),
    /// The run was misconfigured before it started.
    InvalidArgument(String),
}

impl AppError {
    /// The cause carried by this error, whatever its kind.
    pub open spec fn message_spec(&self) -> Seq<char> {
        match self {
            AppError::Io(m) => m@,
            AppError::WalkDir(m) => m@,
            AppError::NotFound(m) => m@,
            AppError::InvalidArgument(m) => m@,
        }
    }

    pub fn message(&self) -> (m: &String)
        ensures
            m@ == self.message_spec(),
    {
        match self {
            AppError::Io(m) => m,
            AppError::WalkDir(m) => m,
            AppError::NotFound(m) => m,
            AppError::InvalidArgument(m) => m,
        }
    }
}

} // verus!
