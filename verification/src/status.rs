//! The status report of a job.

use vstd::prelude::*;
use vstd::string::StringExecFns;
use crate::io_router::{SNAPSHOT_LEN, last_bytes, tail};
use crate::jobs::JobStatus;
use crate::orchestrate::{ErrorView, Orchestrator, OrchestratorError, pids_of};
use crate::protocol::{lossy_text, utf8_lossy};
use crate::text::{decimal, push_decimal, push_signed, signed_decimal};
use crate::watcher::WatchedMap;

verus! {

/// The name of a status as reports show it.
pub open spec fn status_text(status: JobStatus) -> Seq<char> {
    match status {
        JobStatus::Created => "Created"@,
        JobStatus::Starting => "Starting"@,
        JobStatus::Running(healthy) => if healthy {
            "Running(true)"@
        } else {
            "Running(false)"@
        },
        JobStatus::Stopping => "Stopping"@,
        JobStatus::Finished(code) => "Finished("@ + signed_decimal(code as int) + ")"@,
        JobStatus::TimedOut => "TimedOut"@,
    }
}

impl JobStatus {
    /// The name of the status as reports show it.
    pub fn describe(&self) -> (text: String)
        ensures
            text@ == status_text(*self),
    {
        match self {
            JobStatus::Created => String::from_str("Created"),
            JobStatus::Starting => String::from_str("Starting"),
            JobStatus::Running(healthy) => if *healthy {
                String::from_str("Running(true)")
            } else {
                String::from_str("Running(false)")
            },
            JobStatus::Stopping => String::from_str("Stopping"),
            JobStatus::Finished(code) => {
                let mut text = String::from_str("Finished(");
                push_signed(&mut text, *code);
                text.append(")");
                text
            },
            JobStatus::TimedOut => String::from_str("TimedOut"),
        }
    }
}

/// The process ids in decimal, separated by a comma and a blank.
pub open spec fn pid_list(pids: Seq<u32>) -> Seq<char>
    decreases pids.len(),
{
    if pids.len() == 0 {
        Seq::empty()
    } else if pids.len() == 1 {
        decimal(pids[0] as nat)
    } else {
        pid_list(pids.drop_last()) + ", "@ + decimal(pids.last() as nat)
    }
}

/// Appends the process ids in decimal, separated by a comma and a blank.
fn push_pid_list(text: &mut String, pids: &Vec<u32>)
    ensures
        final(text)@ == old(text)@ + pid_list(pids@),
{
    let mut i: usize = 0;
    assert(pids@.take(0) =~= Seq::empty());
    assert(text@ =~= old(text)@ + pid_list(pids@.take(0)));
    while i < pids.len()
        invariant
            i <= pids.len(),
            text@ == old(text)@ + pid_list(pids@.take(i as int)),
        decreases pids.len() - i,
    {
        proof {
            assert(pids@.take(i + 1).drop_last() =~= pids@.take(i as int));
            assert(pids@.take(i + 1).last() == pids@[i as int]);
            assert(pids@.take(i + 1)[0] == pids@[0]);
        }
        let ghost before = text@;
        if i > 0 {
            text.append(", ");
        }
        push_decimal(text, pids[i] as u64);
        assert(text@ =~= old(text)@ + pid_list(pids@.take(i + 1)));
        i += 1;
    }
    assert(pids@.take(pids.len() as int) =~= pids@);
}

/// The status report of a job: its status and the time of its last spawn,
/// the ids of its processes, the file its definition came from, and the
/// end of what it wrote to standard output and to standard error.
pub open spec fn status_report(
    status: JobStatus,
    started: Option<String>,
    pids: Seq<u32>,
    file: Seq<char>,
    stdout: Seq<u8>,
    stderr: Seq<u8>,
) -> Seq<char> {
    "status: "@ + status_text(status) + " Since "@ + (match started {
        Some(stamp) => stamp@,
        None => "[]"@,
    }) + "\nPIDs: "@ + pid_list(pids) + "\nConfiguration: "@ + file + "\nStdout:\n\n"@
        + utf8_lossy(tail(stdout, SNAPSHOT_LEN as nat)) + "\n\nStderr:\n\n"@ + utf8_lossy(
        tail(stderr, SNAPSHOT_LEN as nat),
    )
}

/// Why no status is reported for `alias`, if none is.
pub open spec fn status_refusal(
    jobs: Map<Seq<char>, crate::jobs::Job>,
    services: Map<Seq<char>, crate::service::Service>,
    alias: Seq<char>,
) -> Option<ErrorView> {
    if !jobs.contains_key(alias) {
        Some(ErrorView::JobNotFound)
    } else if !services.contains_key(alias) {
        Some(ErrorView::ServiceNotFound)
    } else {
        None
    }
}

impl Orchestrator {
    /// The status report of the job filed under `alias`. `stdout` and
    /// `stderr` are what the I/O router retains of the job's output. Fails
    /// with `JobNotFound` for an alias without a job record and with
    /// `ServiceNotFound` for one that the registry does not hold.
    pub fn job_status(
        &self,
        watched: &WatchedMap,
        alias: &str,
        stdout: &Vec<u8>,
        stderr: &Vec<u8>,
    ) -> (report: Result<String, OrchestratorError>)
        ensures
            match report {
                Ok(text) => {
                    &&& status_refusal(self.jobs(), self.services(), alias@) is None
                    &&& text@ == status_report(
                        self.jobs()[alias@].status,
                        self.jobs()[alias@].started,
                        if watched.map().contains_key(alias@) {
                            pids_of(watched.map()[alias@]@)
                        } else {
                            Seq::empty()
                        },
                        self.services()[alias@].file@,
                        stdout@,
                        stderr@,
                    )
                },
                Err(e) => status_refusal(self.jobs(), self.services(), alias@) == Some(e@),
            },
    {
        let job = match self.job_record(alias) {
            Some(job) => job,
            None => {
                return Err(OrchestratorError::JobNotFound);
            },
        };
        let service = match self.get_services().get(alias) {
            Some(service) => service,
            None => {
                return Err(OrchestratorError::ServiceNotFound);
            },
        };
        let pids = match self.get_pid(watched, alias) {
            Ok(pids) => pids,
            Err(_) => Vec::new(),
        };
        let mut text = String::from_str("status: ");
        text.append(job.status.describe().as_str());
        text.append(" Since ");
        match &job.started {
            Some(stamp) => text.append(stamp.as_str()),
            None => text.append("[]"),
        }
        text.append("\nPIDs: ");
        push_pid_list(&mut text, &pids);
        text.append("\nConfiguration: ");
        text.append(service.file.as_str());
        text.append("\nStdout:\n\n");
        text.append(lossy_text(last_bytes(stdout, SNAPSHOT_LEN)).as_str());
        text.append("\n\nStderr:\n\n");
        text.append(lossy_text(last_bytes(stderr, SNAPSHOT_LEN)).as_str());
        Ok(text)
    }
}

} // verus!
