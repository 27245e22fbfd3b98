use vstd::prelude::*;

verus! {

/// One unit of work: hash the file named by the path it carries.
#[derive(Clone, Debug)]
pub enum Job {
    Hash(String),
}

impl Job {
    /// The identity of the file this job is about.
    pub open spec fn path_spec(&self) -> Seq<char> {
        match self {
            Job::Hash(p) => p@,
        }
    }
}

/// The lifecycle of one file's hashing work. The only valid order is
/// `Pending`, then `Working`, then exactly one of `Done` or `Error`;
/// `Done` and `Error` are terminal.
#[derive(Clone, Debug)]
pub enum JobStatus {
    Pending,
    Working,
    Done(String),
    Error(String),
}

/// The mathematical shape of a `JobStatus`: the payload strings as
/// character sequences.
#[verifier::ext_equal]
pub enum StatusView {
    Pending,
    Working,
    Done(Seq<char>),
    Error(Seq<char>),
}

impl StatusView {
    /// `Done` and `Error` are the terminal states: once reached, a record
    /// never leaves them.
    pub open spec fn is_terminal(self) -> bool {
        match self {
            StatusView::Done(_) => true,
            StatusView::Error(_) => true,
            _ => false,
        }
    }
}

impl View for JobStatus {
    type V = StatusView;

    open spec fn view(&self) -> StatusView {
        match self {
            JobStatus::Pending => StatusView::Pending,
            JobStatus::Working => StatusView::Working,
            JobStatus::Done(d) => StatusView::Done(d@),
            JobStatus::Error(e) => StatusView::Error(e@),
        }
    }
}

impl JobStatus {
    pub fn is_terminal(&self) -> (r: bool)
        ensures
            r == self@.is_terminal(),
    {
        match self {
            JobStatus::Done(_) => true,
            JobStatus::Error(_) => true,
            _ => false,
        }
    }
}

/// The consumer's record for one discovered file: its identity, the status
/// last applied, and when work on it was first seen to start and finish.
#[derive(Clone, Debug)]
pub struct FileRecord {
    pub path: String,
    pub status: JobStatus,
    pub started_at: Option<u64>,
    pub finished_at: Option<u64>,
}

/// The mathematical shape of a `FileRecord`.
#[verifier::ext_equal]
pub struct RecordView {
    pub path: Seq<char>,
    pub status: StatusView,
    pub started_at: Option<u64>,
    pub finished_at: Option<u64>,
}

impl View for FileRecord {
    type V = RecordView;

    open spec fn view(&self) -> RecordView {
        RecordView {
            path: self.path@,
            status: self.status@,
            started_at: self.started_at,
            finished_at: self.finished_at,
        }
    }
}

/// A freshly discovered file: `Pending`, with no timestamps yet.
pub open spec fn init_record(path: Seq<char>) -> RecordView {
    RecordView { path: path, status: StatusView::Pending, started_at: None, finished_at: None }
}

impl FileRecord {
    pub fn new(path: String) -> (record: FileRecord)
        ensures
            record@ == init_record(path@),
    {
        FileRecord { path, status: JobStatus::Pending, started_at: None, finished_at: None }
    }
}

} // verus!
