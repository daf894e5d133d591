//! Per-alias runtime records: status, retry counter and single-shot flags.

use vstd::prelude::*;

verus! {

/// Flags attached to a job by a stop request and read exactly once, by the
/// transition that handles the job's exit.
#[derive(Clone, Copy, Debug, PartialEq, Eq, Structural)]
pub struct JobFlags {
    /// Remove the service and the job record once the job has finished.
    pub remove_service: bool,
    /// Start the job again once it has finished.
    pub restart_job: bool,
}

impl JobFlags {
    /// Both flags cleared.
    pub fn default() -> (flags: JobFlags)
        ensures
            flags == (JobFlags { remove_service: false, restart_job: false }),
    {
        JobFlags { remove_service: false, restart_job: false }
    }

    /// Returns the current flags and resets them to the default in one step.
    pub fn consume(&mut self) -> (taken: JobFlags)
        ensures
            taken == *old(self),
            *final(self) == (JobFlags { remove_service: false, restart_job: false }),
    {
        let taken = *self;
        *self = JobFlags::default();
        taken
    }
}

/// Where a job stands in its lifecycle.
#[derive(Clone, Copy, Debug, PartialEq, Eq, Structural)]
pub enum JobStatus {
    /// The record exists, no process was spawned for it.
    Created,
    /// A process was spawned and its startup grace has not elapsed.
    Starting,
    /// The process runs; the flag says whether it counts as healthy.
    Running(bool),
    /// A stop or kill signal was sent and the exit is awaited.
    Stopping,
    /// The process exited with this code.
    Finished(i32),
    /// A deadline tripped.
    TimedOut,
}

impl JobStatus {
    /// A process is, or may still be, alive in this status.
    pub open spec fn is_active(self) -> bool {
        self is Starting || self is Running || self is Stopping || self is TimedOut
    }

    /// A stop request is accepted in this status.
    pub open spec fn is_stoppable(self) -> bool {
        self is Starting || self is Running
    }
}

/// The runtime record of one alias.
#[derive(Debug)]
pub struct Job {
    /// Current status.
    pub status: JobStatus,
    /// Timestamp of the last spawn, for reports.
    pub started: Option<String>,
    /// Number of restart attempts counted so far; it never goes down.
    pub retries: u8,
    /// Exit code of the previous lifetime, recorded when the job is asked to
    /// start or stop after it finished.
    pub last_exit_code: i32,
    /// Single-shot flags set by the last accepted stop request.
    pub flags: JobFlags,
}

impl Job {
    /// The record of a job that was never started.
    pub open spec fn fresh() -> Job {
        Job {
            status: JobStatus::Created,
            started: None,
            retries: 0,
            last_exit_code: 0,
            flags: JobFlags { remove_service: false, restart_job: false },
        }
    }

    /// A record in status `Created` with all counters at zero.
    pub fn new() -> (job: Job)
        ensures
            job == Job::fresh(),
    {
        Job {
            status: JobStatus::Created,
            started: None,
            retries: 0,
            last_exit_code: 0,
            flags: JobFlags::default(),
        }
    }

    /// A copy of the record.
    pub fn duplicate(&self) -> (job: Job)
        ensures
            job == *self,
    {
        let started = match &self.started {
            Some(stamp) => Some(stamp.clone()),
            None => None,
        };
        Job {
            status: self.status,
            started,
            retries: self.retries,
            last_exit_code: self.last_exit_code,
            flags: self.flags,
        }
    }
}

} // verus!
