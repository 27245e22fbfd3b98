use vstd::prelude::*;

use crate::jobs::Job;
use crate::jobs::JobStatus;
use crate::jobs::StatusView;

verus! {

/// Wrap each discovered path into exactly one job, in discovery order; this
/// fixed list is the whole job source for a run.
pub fn make_jobs(paths: &Vec<String>) -> (jobs: Vec<Job>)
    ensures
        jobs@.len() == paths@.len(),
        forall|i: int| 0 <= i < paths@.len() ==> jobs@[i].path_spec() == paths@[i]@,
{
    let mut jobs: Vec<Job> = Vec::new();
    let mut i: usize = 0;
    while i < paths.len()
        invariant
            i <= paths@.len(),
            jobs@.len() == i,
            forall|j: int| 0 <= j < i ==> jobs@[j].path_spec() == paths@[j]@,
        decreases paths@.len() - i,
    {
        jobs.push(Job::Hash(paths[i].clone()));
        i = i + 1;
    }
    jobs
}

/// The event a worker emits the moment it claims a job, before any byte is
/// read: this file is now being worked on.
pub fn working_event(job: &Job) -> (ev: (String, JobStatus))
    ensures
        ev.0@ == job.path_spec(),
        ev.1@ == StatusView::Working,
{
    match job {
        Job::Hash(p) => (p.clone(), JobStatus::Working),
    }
}

/// The single terminal event a worker emits for a job, decided by the
/// outcome of hashing it: the digest on success, the cause on failure.
pub fn terminal_event(job: Job, outcome: Result<String, String>) -> (ev: (String, JobStatus))
    ensures
        ev.0@ == job.path_spec(),
        match outcome {
            Ok(digest) => ev.1@ == StatusView::Done(digest@),
            Err(cause) => ev.1@ == StatusView::Error(cause@),
        },
{
    let Job::Hash(p) = job;
    match outcome {
        Ok(d) => (p, JobStatus::Done(d)),
        Err(e) => (p, JobStatus::Error(e)),
    }
}

/// How many workers actually run: the requested count clamped to the number
/// of jobs, and zero when there is nothing to do.
pub open spec fn effective_count_spec(threads: usize, job_count: usize) -> usize {
    if job_count == 0 {
        0
    } else if threads <= job_count {
        threads
    } else {
        job_count
    }
}

/// Clamp a requested worker count to the number of jobs. An empty job list
/// needs no workers at all; otherwise at least one worker runs.
pub fn effective_worker_count(threads: usize, job_count: usize) -> (count: usize)
    requires
        threads >= 1,
    ensures
        count == effective_count_spec(threads, job_count),
        count <= threads,
        count <= job_count,
        job_count >= 1 ==> count >= 1,
        job_count == 0 ==> count == 0,
{
    if job_count == 0 {
        0
    } else if threads <= job_count {
        threads
    } else {
        job_count
    }
}

} // verus!
