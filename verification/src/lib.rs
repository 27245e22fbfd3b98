pub mod cli;
pub mod digest;
pub mod error;
pub mod jobs;
pub mod ledger;
pub mod pool;
pub mod utils;

pub use cli::Cli;
pub use digest::DigestEngine;
pub use digest::digest_bytes;
pub use error::AppError;
pub use jobs::FileRecord;
pub use jobs::Job;
pub use jobs::JobStatus;
pub use jobs::RecordView;
pub use jobs::StatusView;
pub use ledger::Ledger;
pub use ledger::TickOutcome;
pub use pool::effective_worker_count;
pub use pool::make_jobs;
pub use pool::terminal_event;
pub use pool::working_event;
pub use utils::truncate_middle;
