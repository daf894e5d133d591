//! The orchestrator: the job table and the service registry, and the rules
//! by which requests and lifecycle events move a job from state to state.
//!
//! Nothing here spawns, signals or talks to the I/O router. Each function
//! changes the tables and returns what is to be done outside, as plain
//! values; whoever runs the orchestrator carries that out.

use vstd::prelude::*;
use crate::jobs::{Job, JobFlags, JobStatus};
use crate::service::{
    ActionView, LoadError, Service, ServiceAction, Services, actions_view, definitions, leftovers,
    no_redefinition, reload_actions,
};
use crate::text_map::{TextMap, entries_map};
use crate::watcher::{WatchedJob, WatchedMap, WatchedTimeout};

verus! {

/// Why a request was not carried out.
#[derive(Debug)]
pub enum OrchestratorError {
    ServiceNotFound,
    ServiceUpdate,
    ServiceStopped,
    ServiceAlreadyStarted,
    ServiceAlreadyStopping,
    JobNotFound,
    JobHasNoIoHandle,
    /// The operating system refused; the text is its message.
    JobIoError(String),
    JobAlreadyAttached,
    InternalChannelSendError,
    InternalChannelReceiveError,
}

/// A refusal as plain mathematical values.
pub enum ErrorView {
    ServiceNotFound,
    ServiceUpdate,
    ServiceStopped,
    ServiceAlreadyStarted,
    ServiceAlreadyStopping,
    JobNotFound,
    JobHasNoIoHandle,
    JobIoError(Seq<char>),
    JobAlreadyAttached,
    InternalChannelSendError,
    InternalChannelReceiveError,
}

impl View for OrchestratorError {
    type V = ErrorView;

    open spec fn view(&self) -> ErrorView {
        match self {
            OrchestratorError::ServiceNotFound => ErrorView::ServiceNotFound,
            OrchestratorError::ServiceUpdate => ErrorView::ServiceUpdate,
            OrchestratorError::ServiceStopped => ErrorView::ServiceStopped,
            OrchestratorError::ServiceAlreadyStarted => ErrorView::ServiceAlreadyStarted,
            OrchestratorError::ServiceAlreadyStopping => ErrorView::ServiceAlreadyStopping,
            OrchestratorError::JobNotFound => ErrorView::JobNotFound,
            OrchestratorError::JobHasNoIoHandle => ErrorView::JobHasNoIoHandle,
            OrchestratorError::JobIoError(text) => ErrorView::JobIoError(text@),
            OrchestratorError::JobAlreadyAttached => ErrorView::JobAlreadyAttached,
            OrchestratorError::InternalChannelSendError => ErrorView::InternalChannelSendError,
            OrchestratorError::InternalChannelReceiveError => ErrorView::InternalChannelReceiveError,
        }
    }
}

/// Something to be done outside the orchestrator.
#[derive(Debug)]
pub enum Order {
    /// Tell the I/O router to stop forwarding the job's output.
    StopForwarding(String),
    /// Tell the I/O router to drop the job's pipes.
    RemoveIo(String),
    /// Send `signal` to the process `pid`.
    Signal { pid: u32, signal: i32 },
    /// Put a start request for the alias to the orchestrator.
    Start(String),
}

/// An order as plain mathematical values.
pub enum OrderView {
    StopForwarding(Seq<char>),
    RemoveIo(Seq<char>),
    Signal { pid: u32, signal: i32 },
    Start(Seq<char>),
}

impl View for Order {
    type V = OrderView;

    open spec fn view(&self) -> OrderView {
        match self {
            Order::StopForwarding(alias) => OrderView::StopForwarding(alias@),
            Order::RemoveIo(alias) => OrderView::RemoveIo(alias@),
            Order::Signal { pid, signal } => OrderView::Signal { pid: *pid, signal: *signal },
            Order::Start(alias) => OrderView::Start(alias@),
        }
    }
}

/// The view of each order of a list.
pub open spec fn orders_view(orders: Seq<Order>) -> Seq<OrderView> {
    Seq::new(orders.len(), |i: int| orders[i]@)
}

/// The watched processes of each alias as sequences.
pub open spec fn watched_view(watched: Map<Seq<char>, Vec<WatchedJob>>) -> Map<
    Seq<char>,
    Seq<WatchedJob>,
> {
    Map::new(|k: Seq<char>| watched.contains_key(k), |k: Seq<char>| watched[k]@)
}

/// The records with their last emitted status replaced by `status`.
pub open spec fn with_status(jobs: Seq<WatchedJob>, status: JobStatus) -> Seq<WatchedJob> {
    Seq::new(jobs.len(), |i: int| WatchedJob { previous_status: status, ..jobs[i] })
}

/// The records with their deadline replaced by `timeout`.
pub open spec fn with_timeout(jobs: Seq<WatchedJob>, timeout: WatchedTimeout) -> Seq<WatchedJob> {
    Seq::new(jobs.len(), |i: int| WatchedJob { timeout, ..jobs[i] })
}

/// The records with their deadline disarmed.
pub open spec fn disarmed(jobs: Seq<WatchedJob>) -> Seq<WatchedJob> {
    Seq::new(
        jobs.len(),
        |i: int|
            WatchedJob {
                timeout: WatchedTimeout { created_at: jobs[i].timeout.created_at, time: None },
                ..jobs[i]
            },
    )
}

/// The process ids of the records, in order.
pub open spec fn pids_of(jobs: Seq<WatchedJob>) -> Seq<u32> {
    Seq::new(jobs.len(), |i: int| jobs[i].pid)
}

/// One order to send `signal` to each of the records' processes, in order.
pub open spec fn signal_orders(jobs: Seq<WatchedJob>, signal: i32) -> Seq<OrderView> {
    Seq::new(jobs.len(), |i: int| OrderView::Signal { pid: jobs[i].pid, signal })
}

/// No job's retry counter is lower in `after` than it was in `before`.
pub open spec fn retries_kept(before: Map<Seq<char>, Job>, after: Map<Seq<char>, Job>) -> bool {
    forall|a: Seq<char>|
        before.contains_key(a) && after.contains_key(a) ==> before[a].retries <= (
        #[trigger] after[a]).retries
}

/// The retry counter after one more attempt: it stops at the largest value.
pub open spec fn bump(retries: u8) -> u8 {
    if retries < u8::MAX {
        (retries + 1) as u8
    } else {
        u8::MAX
    }
}

/// The record under which a start request finds the job: the one on file,
/// or a fresh one.
pub open spec fn job_or_fresh(jobs: Map<Seq<char>, Job>, alias: Seq<char>) -> Job {
    if jobs.contains_key(alias) {
        jobs[alias]
    } else {
        Job::fresh()
    }
}

/// The record with the exit code of a finished lifetime noted down.
pub open spec fn note_exit(job: Job) -> Job {
    match job.status {
        JobStatus::Finished(code) => Job { last_exit_code: code, ..job },
        _ => job,
    }
}

/// The job table after a start request for `alias`.
pub open spec fn jobs_after_start_request(jobs: Map<Seq<char>, Job>, alias: Seq<char>) -> Map<
    Seq<char>,
    Job,
> {
    jobs.insert(alias, note_exit(job_or_fresh(jobs, alias)))
}

/// Why a start request for `alias` is refused, if it is.
pub open spec fn start_refusal(
    jobs: Map<Seq<char>, Job>,
    services: Map<Seq<char>, Service>,
    alias: Seq<char>,
) -> Option<ErrorView> {
    if job_or_fresh(jobs, alias).status.is_active() {
        Some(ErrorView::ServiceAlreadyStarted)
    } else if !services.contains_key(alias) {
        Some(ErrorView::ServiceNotFound)
    } else {
        None
    }
}

/// The record of a job that was just spawned at the time `stamp`.
pub open spec fn started_job(job: Job, stamp: String) -> Job {
    Job { status: JobStatus::Starting, started: Some(stamp), ..job }
}

/// The record of the single process of a job spawned at `now` whose startup
/// grace lasts `start_time` seconds.
pub open spec fn spawned_process(pid: u32, start_time: u64, now: u64) -> WatchedJob {
    WatchedJob {
        pid,
        timeout: WatchedTimeout {
            created_at: now,
            time: Some(crate::watcher::millis_of(start_time)),
        },
        previous_status: JobStatus::Starting,
    }
}

/// The record of a job whose stop was accepted with the given flags.
pub open spec fn stopping_job(job: Job, remove_service: bool, restart_job: bool) -> Job {
    Job { status: JobStatus::Stopping, flags: JobFlags { remove_service, restart_job }, ..job }
}

/// The job table after a stop request for `alias`.
pub open spec fn jobs_after_stop_request(
    jobs: Map<Seq<char>, Job>,
    alias: Seq<char>,
    remove_service: bool,
    restart_job: bool,
) -> Map<Seq<char>, Job> {
    if !jobs.contains_key(alias) {
        jobs
    } else if jobs[alias].status.is_stoppable() {
        jobs.insert(alias, stopping_job(jobs[alias], remove_service, restart_job))
    } else {
        jobs.insert(alias, note_exit(jobs[alias]))
    }
}

/// Why a stop request for `alias` is refused, if it is. `watched` tells
/// whether a process is on record for the alias.
pub open spec fn stop_refusal(
    jobs: Map<Seq<char>, Job>,
    services: Map<Seq<char>, Service>,
    watched: bool,
    alias: Seq<char>,
) -> Option<ErrorView> {
    if !jobs.contains_key(alias) {
        Some(ErrorView::JobNotFound)
    } else {
        match jobs[alias].status {
            JobStatus::Starting | JobStatus::Running(_) => {
                if !services.contains_key(alias) {
                    Some(ErrorView::ServiceNotFound)
                } else if !watched {
                    Some(ErrorView::JobNotFound)
                } else {
                    None
                }
            },
            JobStatus::Stopping | JobStatus::TimedOut => Some(ErrorView::ServiceAlreadyStopping),
            JobStatus::Finished(_) | JobStatus::Created => Some(ErrorView::ServiceStopped),
        }
    }
}

/// What a stop request for `alias` returns: the refusal, or one order per
/// process on record to send the service's stop signal.
pub open spec fn stop_result(
    jobs: Map<Seq<char>, Job>,
    services: Map<Seq<char>, Service>,
    watched: Map<Seq<char>, Seq<WatchedJob>>,
    alias: Seq<char>,
) -> Result<Seq<OrderView>, ErrorView> {
    match stop_refusal(jobs, services, watched.contains_key(alias), alias) {
        Some(e) => Err(e),
        None => Ok(signal_orders(watched[alias], services[alias].stop_signal)),
    }
}

/// The record of live processes after a stop request for `alias` at `now`:
/// an accepted request arms the service's stop wait on each process.
pub open spec fn watched_after_stop(
    jobs: Map<Seq<char>, Job>,
    services: Map<Seq<char>, Service>,
    watched: Map<Seq<char>, Seq<WatchedJob>>,
    alias: Seq<char>,
    now: u64,
) -> Map<Seq<char>, Seq<WatchedJob>> {
    if stop_refusal(jobs, services, watched.contains_key(alias), alias) is None {
        watched.insert(
            alias,
            with_timeout(
                watched[alias],
                WatchedTimeout {
                    created_at: now,
                    time: Some(crate::watcher::millis_of(services[alias].stop_wait)),
                },
            ),
        )
    } else {
        watched
    }
}

/// A list of orders, or a refusal, as plain mathematical values.
pub open spec fn orders_outcome(outcome: Result<Vec<Order>, OrchestratorError>) -> Result<
    Seq<OrderView>,
    ErrorView,
> {
    match outcome {
        Ok(list) => Ok(orders_view(list@)),
        Err(e) => Err(e@),
    }
}

/// The job table after one request of a reload was carried out.
pub open spec fn jobs_after_reload_step(jobs: Map<Seq<char>, Job>, action: ActionView) -> Map<
    Seq<char>,
    Job,
> {
    match action {
        ActionView::Restart(alias) => jobs_after_stop_request(jobs, alias, true, true),
        ActionView::Stop(alias) => jobs_after_stop_request(jobs, alias, true, false),
        _ => jobs,
    }
}

/// The record of live processes after one request of a reload was carried
/// out at `now`.
pub open spec fn watched_after_reload_step(
    jobs: Map<Seq<char>, Job>,
    services: Map<Seq<char>, Service>,
    watched: Map<Seq<char>, Seq<WatchedJob>>,
    action: ActionView,
    now: u64,
) -> Map<Seq<char>, Seq<WatchedJob>> {
    match action {
        ActionView::Restart(alias) => watched_after_stop(jobs, services, watched, alias, now),
        ActionView::Stop(alias) => watched_after_stop(jobs, services, watched, alias, now),
        _ => watched,
    }
}

/// What carrying out one request of a reload returns. For a restart, a job
/// that has stopped already counts as success with nothing to deliver.
pub open spec fn reload_step_result(
    jobs: Map<Seq<char>, Job>,
    services: Map<Seq<char>, Service>,
    watched: Map<Seq<char>, Seq<WatchedJob>>,
    action: ActionView,
) -> Result<Seq<OrderView>, ErrorView> {
    match action {
        ActionView::Restart(alias) => match stop_result(jobs, services, watched, alias) {
            Err(ErrorView::ServiceStopped) => Ok(Seq::empty()),
            other => other,
        },
        ActionView::Stop(alias) => stop_result(jobs, services, watched, alias),
        _ => Ok(Seq::empty()),
    }
}

/// A copy of the records with the last emitted status replaced.
fn jobs_with_status(jobs: &Vec<WatchedJob>, status: JobStatus) -> (marked: Vec<WatchedJob>)
    ensures
        marked@ == with_status(jobs@, status),
{
    let mut marked: Vec<WatchedJob> = Vec::new();
    let mut i: usize = 0;
    while i < jobs.len()
        invariant
            i <= jobs.len(),
            marked@ == with_status(jobs@, status).take(i as int),
        decreases jobs.len() - i,
    {
        let job = jobs[i];
        marked.push(WatchedJob { pid: job.pid, timeout: job.timeout, previous_status: status });
        assert(marked@ =~= with_status(jobs@, status).take(i + 1));
        i += 1;
    }
    assert(marked@ =~= with_status(jobs@, status));
    marked
}

/// A copy of the records with the deadline replaced.
fn jobs_with_timeout(jobs: &Vec<WatchedJob>, timeout: WatchedTimeout) -> (armed: Vec<WatchedJob>)
    ensures
        armed@ == with_timeout(jobs@, timeout),
{
    let mut armed: Vec<WatchedJob> = Vec::new();
    let mut i: usize = 0;
    while i < jobs.len()
        invariant
            i <= jobs.len(),
            armed@ == with_timeout(jobs@, timeout).take(i as int),
        decreases jobs.len() - i,
    {
        let job = jobs[i];
        armed.push(WatchedJob { pid: job.pid, timeout, previous_status: job.previous_status });
        assert(armed@ =~= with_timeout(jobs@, timeout).take(i + 1));
        i += 1;
    }
    assert(armed@ =~= with_timeout(jobs@, timeout));
    armed
}

/// A copy of the records with the deadline disarmed.
fn jobs_disarmed(jobs: &Vec<WatchedJob>) -> (calm: Vec<WatchedJob>)
    ensures
        calm@ == disarmed(jobs@),
{
    let mut calm: Vec<WatchedJob> = Vec::new();
    let mut i: usize = 0;
    while i < jobs.len()
        invariant
            i <= jobs.len(),
            calm@ == disarmed(jobs@).take(i as int),
        decreases jobs.len() - i,
    {
        let mut job = jobs[i];
        job.timeout.remove();
        calm.push(job);
        assert(calm@ =~= disarmed(jobs@).take(i + 1));
        i += 1;
    }
    assert(calm@ =~= disarmed(jobs@));
    calm
}

/// The process ids of the records.
fn jobs_pids(jobs: &Vec<WatchedJob>) -> (pids: Vec<u32>)
    ensures
        pids@ == pids_of(jobs@),
{
    let mut pids: Vec<u32> = Vec::new();
    let mut i: usize = 0;
    while i < jobs.len()
        invariant
            i <= jobs.len(),
            pids@ == pids_of(jobs@).take(i as int),
        decreases jobs.len() - i,
    {
        pids.push(jobs[i].pid);
        assert(pids@ =~= pids_of(jobs@).take(i + 1));
        i += 1;
    }
    assert(pids@ =~= pids_of(jobs@));
    pids
}

/// One order per record to send `signal` to its process.
fn jobs_signals(jobs: &Vec<WatchedJob>, signal: i32) -> (orders: Vec<Order>)
    ensures
        orders_view(orders@) == signal_orders(jobs@, signal),
{
    let mut orders: Vec<Order> = Vec::new();
    let mut i: usize = 0;
    while i < jobs.len()
        invariant
            i <= jobs.len(),
            orders@.len() == i,
            orders_view(orders@) == signal_orders(jobs@, signal).take(i as int),
        decreases jobs.len() - i,
    {
        let ghost before = orders@;
        orders.push(Order::Signal { pid: jobs[i].pid, signal });
        assert forall|j: int| 0 <= j < i + 1 implies orders_view(orders@)[j] == signal_orders(
            jobs@,
            signal,
        )[j] by {
            if j < i {
                assert(orders@[j] == before[j]);
                assert(orders_view(before)[j] == signal_orders(jobs@, signal).take(i as int)[j]);
            }
        }
        assert(orders_view(orders@) =~= signal_orders(jobs@, signal).take(i + 1));
        i += 1;
    }
    assert(orders_view(orders@) =~= signal_orders(jobs@, signal));
    orders
}

/// The owner of the job table and the service registry.
pub struct Orchestrator {
    services: Services,
    jobs: TextMap<Job>,
}

impl Orchestrator {
    /// The job table as a map from alias to record.
    pub closed spec fn jobs(&self) -> Map<Seq<char>, Job> {
        self.jobs.map()
    }

    /// The service registry.
    pub closed spec fn registry(&self) -> Services {
        self.services
    }

    /// The registry as a map from alias to definition.
    pub open spec fn services(&self) -> Map<Seq<char>, Service> {
        self.registry().map()
    }

    /// An orchestrator over the given registry, with no job yet.
    pub fn new(services: Services) -> (orchestrator: Orchestrator)
        ensures
            orchestrator.registry() == services,
            orchestrator.jobs() == Map::<Seq<char>, Job>::empty(),
    {
        Orchestrator { services, jobs: TextMap::new() }
    }

    /// Files `job` under `alias`, replacing what was there.
    fn put_job(&mut self, alias: &str, job: Job)
        ensures
            final(self).jobs() == old(self).jobs().insert(alias@, job),
            final(self).registry() == old(self).registry(),
    {
        self.jobs.insert(alias.to_owned(), job);
    }

    /// The record of the job filed under `alias`, if there is one.
    pub fn job_record(&self, alias: &str) -> (job: Option<&Job>)
        ensures
            match job {
                Some(j) => self.jobs().contains_key(alias@) && *j == self.jobs()[alias@],
                None => !self.jobs().contains_key(alias@),
            },
    {
        self.jobs.get(alias)
    }

    /// Deletes the record of the job filed under `alias`.
    pub(crate) fn forget_job(&mut self, alias: &str)
        ensures
            final(self).jobs() == old(self).jobs().remove(alias@),
            final(self).registry() == old(self).registry(),
    {
        self.jobs.remove(alias);
    }

    /// Writes status, retry counter and flags of a verdict into the record
    /// of the job filed under `alias`, if there is one.
    pub(crate) fn apply_verdict(&mut self, alias: &str, v: crate::events::Verdict)
        ensures
            final(self).registry() == old(self).registry(),
            final(self).jobs() == (if old(self).jobs().contains_key(alias@) {
                old(self).jobs().insert(
                    alias@,
                    crate::events::job_after(old(self).jobs()[alias@], v),
                )
            } else {
                old(self).jobs()
            }),
    {
        match self.jobs.get(alias) {
            Some(job) => {
                let mut job = job.duplicate();
                job.status = v.status;
                job.retries = v.retries;
                job.flags = v.flags;
                self.put_job(alias, job);
            },
            None => {},
        }
    }

    /// The status of the job filed under `alias`, if there is one.
    pub fn get_job_status(&self, alias: &str) -> (status: Option<JobStatus>)
        ensures
            status == (if self.jobs().contains_key(alias@) {
                Some(self.jobs()[alias@].status)
            } else {
                None
            }),
    {
        match self.jobs.get(alias) {
            Some(job) => Some(job.status),
            None => None,
        }
    }

    /// Sets the status of the job filed under `alias`, if there is one.
    pub fn set_job_status(&mut self, alias: &str, status: JobStatus)
        ensures
            final(self).registry() == old(self).registry(),
            final(self).jobs() == (if old(self).jobs().contains_key(alias@) {
                old(self).jobs().insert(alias@, Job { status, ..old(self).jobs()[alias@] })
            } else {
                old(self).jobs()
            }),
            retries_kept(old(self).jobs(), final(self).jobs()),
    {
        match self.jobs.get(alias) {
            Some(job) => {
                let mut job = job.duplicate();
                job.status = status;
                self.put_job(alias, job);
            },
            None => {},
        }
    }

    /// Records `stamp` as the time of the last spawn of the job filed under
    /// `alias`, if there is one.
    pub fn set_job_timestamp(&mut self, alias: &str, stamp: String)
        ensures
            final(self).registry() == old(self).registry(),
            final(self).jobs() == (if old(self).jobs().contains_key(alias@) {
                old(self).jobs().insert(
                    alias@,
                    Job { started: Some(stamp), ..old(self).jobs()[alias@] },
                )
            } else {
                old(self).jobs()
            }),
            retries_kept(old(self).jobs(), final(self).jobs()),
    {
        match self.jobs.get(alias) {
            Some(job) => {
                let mut job = job.duplicate();
                job.started = Some(stamp);
                self.put_job(alias, job);
            },
            None => {},
        }
    }

    /// Reads the flags of the job filed under `alias` and resets them. For
    /// an unknown alias the default flags are returned.
    pub fn consume_job_flags(&mut self, alias: &str) -> (flags: JobFlags)
        ensures
            final(self).registry() == old(self).registry(),
            flags == (if old(self).jobs().contains_key(alias@) {
                old(self).jobs()[alias@].flags
            } else {
                JobFlags { remove_service: false, restart_job: false }
            }),
            final(self).jobs() == (if old(self).jobs().contains_key(alias@) {
                old(self).jobs().insert(
                    alias@,
                    Job {
                        flags: JobFlags { remove_service: false, restart_job: false },
                        ..old(self).jobs()[alias@]
                    },
                )
            } else {
                old(self).jobs()
            }),
            retries_kept(old(self).jobs(), final(self).jobs()),
    {
        match self.jobs.get(alias) {
            Some(job) => {
                let mut job = job.duplicate();
                let flags = job.flags.consume();
                self.put_job(alias, job);
                flags
            },
            None => JobFlags::default(),
        }
    }

    /// Counts one more restart attempt for the job filed under `alias` and
    /// returns the new count. The count stops at the largest value.
    pub fn inc_job_retries(&mut self, alias: &str) -> (retries: Option<u8>)
        ensures
            final(self).registry() == old(self).registry(),
            retries == (if old(self).jobs().contains_key(alias@) {
                Some(bump(old(self).jobs()[alias@].retries))
            } else {
                None
            }),
            final(self).jobs() == (if old(self).jobs().contains_key(alias@) {
                old(self).jobs().insert(
                    alias@,
                    Job {
                        retries: bump(old(self).jobs()[alias@].retries),
                        ..old(self).jobs()[alias@]
                    },
                )
            } else {
                old(self).jobs()
            }),
            retries_kept(old(self).jobs(), final(self).jobs()),
    {
        match self.jobs.get(alias) {
            Some(job) => {
                let mut job = job.duplicate();
                job.retries = if job.retries < u8::MAX {
                    job.retries + 1
                } else {
                    u8::MAX
                };
                let retries = job.retries;
                self.put_job(alias, job);
                Some(retries)
            },
            None => None,
        }
    }

    /// The service registry.
    pub fn get_services(&self) -> (services: &Services)
        ensures
            *services == self.registry(),
    {
        &self.services
    }

    /// Takes the definition filed under `alias` out of the registry.
    pub fn remove_service(&mut self, alias: &str) -> (service: Option<Service>)
        ensures
            final(self).jobs() == old(self).jobs(),
            final(self).services() == old(self).services().remove(alias@),
            final(self).registry().include_paths() == old(self).registry().include_paths(),
            match service {
                Some(s) => old(self).services().contains_key(alias@) && s == old(
                    self,
                ).services()[alias@],
                None => !old(self).services().contains_key(alias@),
            },
    {
        self.services.remove(alias)
    }

    /// Sets the last emitted status of every process on record for `alias`.
    /// Fails with `JobNotFound` if none is on record.
    pub fn set_watched_status(
        &self,
        watched: &mut WatchedMap,
        alias: &str,
        new_status: JobStatus,
    ) -> (done: Result<(), OrchestratorError>)
        ensures
            done is Ok <==> old(watched).map().contains_key(alias@),
            done matches Err(e) ==> e@ == ErrorView::JobNotFound,
            watched_view(final(watched).map()) == (if old(watched).map().contains_key(alias@) {
                watched_view(old(watched).map()).insert(
                    alias@,
                    with_status(old(watched).map()[alias@]@, new_status),
                )
            } else {
                watched_view(old(watched).map())
            }),
    {
        match watched.position(alias) {
            Some(i) => {
                let marked = jobs_with_status(watched.value_at(i), new_status);
                watched.set_at(i, marked);
                assert(watched_view(final(watched).map()) =~= watched_view(
                    old(watched).map(),
                ).insert(alias@, with_status(old(watched).map()[alias@]@, new_status)));
                Ok(())
            },
            None => Err(OrchestratorError::JobNotFound),
        }
    }

    /// The ids of the processes on record for `alias`. Fails with
    /// `JobNotFound` if none is on record.
    pub fn get_pid(&self, watched: &WatchedMap, alias: &str) -> (pids: Result<
        Vec<u32>,
        OrchestratorError,
    >)
        ensures
            match pids {
                Ok(list) => watched.map().contains_key(alias@) && list@ == pids_of(
                    watched.map()[alias@]@,
                ),
                Err(e) => !watched.map().contains_key(alias@) && e@ == ErrorView::JobNotFound,
            },
    {
        match watched.get(alias) {
            Some(jobs) => Ok(jobs_pids(jobs)),
            None => Err(OrchestratorError::JobNotFound),
        }
    }

    /// Takes the processes on record for `alias` off the record.
    pub fn remove_watched(&self, watched: &mut WatchedMap, alias: &str) -> (removed: Option<
        Vec<WatchedJob>,
    >)
        ensures
            final(watched).map() == old(watched).map().remove(alias@),
            match removed {
                Some(jobs) => old(watched).map().contains_key(alias@) && jobs == old(
                    watched,
                ).map()[alias@],
                None => !old(watched).map().contains_key(alias@),
            },
    {
        watched.remove(alias)
    }

    /// Disarms the deadline of every process on record for `alias`.
    pub fn remove_watched_timeout(&self, watched: &mut WatchedMap, alias: &str)
        ensures
            watched_view(final(watched).map()) == (if old(watched).map().contains_key(alias@) {
                watched_view(old(watched).map()).insert(
                    alias@,
                    disarmed(old(watched).map()[alias@]@),
                )
            } else {
                watched_view(old(watched).map())
            }),
    {
        match watched.position(alias) {
            Some(i) => {
                let calm = jobs_disarmed(watched.value_at(i));
                watched.set_at(i, calm);
                assert(watched_view(final(watched).map()) =~= watched_view(
                    old(watched).map(),
                ).insert(alias@, disarmed(old(watched).map()[alias@]@)));
            },
            None => {},
        }
    }

    /// Prepares the delivery of `signal` to every process on record for
    /// `alias`: arms a deadline of `timeout` milliseconds from `now` on each
    /// and returns one signal order per process. Fails with `JobNotFound`
    /// if none is on record.
    pub fn kill_job(
        &self,
        watched: &mut WatchedMap,
        alias: &str,
        signal: i32,
        timeout: u64,
        now: u64,
    ) -> (orders: Result<Vec<Order>, OrchestratorError>)
        ensures
            match orders {
                Ok(list) => {
                    &&& old(watched).map().contains_key(alias@)
                    &&& orders_view(list@) == signal_orders(old(watched).map()[alias@]@, signal)
                    &&& watched_view(final(watched).map()) == watched_view(
                        old(watched).map(),
                    ).insert(
                        alias@,
                        with_timeout(
                            old(watched).map()[alias@]@,
                            WatchedTimeout { created_at: now, time: Some(timeout) },
                        ),
                    )
                },
                Err(e) => {
                    &&& !old(watched).map().contains_key(alias@)
                    &&& e@ == ErrorView::JobNotFound
                    &&& final(watched).map() == old(watched).map()
                },
            },
    {
        match watched.position(alias) {
            Some(i) => {
                let jobs = watched.value_at(i);
                let orders = jobs_signals(jobs, signal);
                let armed = jobs_with_timeout(jobs, WatchedTimeout::new(Some(timeout), now));
                watched.set_at(i, armed);
                assert(watched_view(final(watched).map()) =~= watched_view(
                    old(watched).map(),
                ).insert(
                    alias@,
                    with_timeout(
                        old(watched).map()[alias@]@,
                        WatchedTimeout { created_at: now, time: Some(timeout) },
                    ),
                ));
                Ok(orders)
            },
            None => Err(OrchestratorError::JobNotFound),
        }
    }

    /// Decides on a request to start `alias`. A job record is created if
    /// there is none. The request is refused while the job is starting,
    /// running, stopping or timed out, and for an alias that the registry
    /// does not hold. Otherwise the definition to spawn is returned; the
    /// status changes only when the spawn is reported with `start_job`.
    pub fn start_request(&mut self, alias: &str) -> (launch: Result<Service, OrchestratorError>)
        ensures
            final(self).registry() == old(self).registry(),
            final(self).jobs() == jobs_after_start_request(old(self).jobs(), alias@),
            retries_kept(old(self).jobs(), final(self).jobs()),
            match launch {
                Ok(service) => start_refusal(old(self).jobs(), old(self).services(), alias@)
                    is None && service@ == old(self).services()[alias@]@,
                Err(e) => start_refusal(old(self).jobs(), old(self).services(), alias@) == Some(
                    e@,
                ),
            },
    {
        let mut job = match self.jobs.get(alias) {
            Some(job) => job.duplicate(),
            None => Job::new(),
        };
        let refused = match job.status {
            JobStatus::Starting | JobStatus::Running(_) | JobStatus::Stopping | JobStatus::TimedOut => true,
            JobStatus::Finished(exit_status) => {
                job.last_exit_code = exit_status;
                false
            },
            JobStatus::Created => false,
        };
        self.put_job(alias, job);
        if refused {
            return Err(OrchestratorError::ServiceAlreadyStarted);
        }
        match self.services.get(alias) {
            Some(service) => Ok(service.duplicate()),
            None => Err(OrchestratorError::ServiceNotFound),
        }
    }

    /// Records the spawn of a job: the process `pid` goes on record with the
    /// startup grace of `service` as its deadline, and the job, if there is
    /// a record of it, becomes `Starting` with `stamp` as its start time.
    /// Returns the processes that were still on record for the alias.
    pub fn start_job(
        &mut self,
        watched: &mut WatchedMap,
        service: &Service,
        pid: u32,
        now: u64,
        stamp: String,
    ) -> (stale: Option<Vec<WatchedJob>>)
        ensures
            final(self).registry() == old(self).registry(),
            final(self).jobs() == (if old(self).jobs().contains_key(service.alias@) {
                old(self).jobs().insert(
                    service.alias@,
                    started_job(old(self).jobs()[service.alias@], stamp),
                )
            } else {
                old(self).jobs()
            }),
            retries_kept(old(self).jobs(), final(self).jobs()),
            watched_view(final(watched).map()) == watched_view(old(watched).map()).insert(
                service.alias@,
                seq![spawned_process(pid, service.start_time, now)],
            ),
            match stale {
                Some(jobs) => old(watched).map().contains_key(service.alias@) && jobs == old(
                    watched,
                ).map()[service.alias@],
                None => !old(watched).map().contains_key(service.alias@),
            },
    {
        let mut processes: Vec<WatchedJob> = Vec::new();
        processes.push(
            WatchedJob {
                pid,
                previous_status: JobStatus::Starting,
                timeout: WatchedTimeout::new(
                    Some(crate::watcher::secs_to_millis(service.start_time)),
                    now,
                ),
            },
        );
        assert(processes@ =~= seq![spawned_process(pid, service.start_time, now)]);
        let stale = watched.insert(service.alias.clone(), processes);
        assert(watched_view(final(watched).map()) =~= watched_view(old(watched).map()).insert(
            service.alias@,
            seq![spawned_process(pid, service.start_time, now)],
        ));
        let alias = service.alias.as_str();
        self.set_job_status(alias, JobStatus::Starting);
        self.set_job_timestamp(alias, stamp);
        assert(final(self).jobs() =~= (if old(self).jobs().contains_key(service.alias@) {
            old(self).jobs().insert(
                service.alias@,
                started_job(old(self).jobs()[service.alias@], stamp),
            )
        } else {
            old(self).jobs()
        }));
        stale
    }

    /// Decides on a request to stop `alias`. Accepted only while the job is
    /// starting or running: the job becomes `Stopping`, the flags are set,
    /// the stop-wait deadline is armed on its processes, and one order per
    /// process to send the service's stop signal is returned.
    pub fn stop_request(
        &mut self,
        watched: &mut WatchedMap,
        alias: &str,
        remove_service: bool,
        restart_job: bool,
        now: u64,
    ) -> (orders: Result<Vec<Order>, OrchestratorError>)
        ensures
            final(self).registry() == old(self).registry(),
            final(self).jobs() == jobs_after_stop_request(
                old(self).jobs(),
                alias@,
                remove_service,
                restart_job,
            ),
            retries_kept(old(self).jobs(), final(self).jobs()),
            orders_outcome(orders) == stop_result(
                old(self).jobs(),
                old(self).services(),
                watched_view(old(watched).map()),
                alias@,
            ),
            watched_view(final(watched).map()) == watched_after_stop(
                old(self).jobs(),
                old(self).services(),
                watched_view(old(watched).map()),
                alias@,
                now,
            ),
    {
        let mut job = match self.jobs.get(alias) {
            Some(job) => job.duplicate(),
            None => {
                return Err(OrchestratorError::JobNotFound);
            },
        };
        match job.status {
            JobStatus::Starting | JobStatus::Running(_) => {},
            JobStatus::Stopping | JobStatus::TimedOut => {
                assert(final(self).jobs() =~= jobs_after_stop_request(
                    old(self).jobs(),
                    alias@,
                    remove_service,
                    restart_job,
                ));
                return Err(OrchestratorError::ServiceAlreadyStopping);
            },
            JobStatus::Finished(exit_status) => {
                job.last_exit_code = exit_status;
                self.put_job(alias, job);
                return Err(OrchestratorError::ServiceStopped);
            },
            JobStatus::Created => {
                assert(final(self).jobs() =~= jobs_after_stop_request(
                    old(self).jobs(),
                    alias@,
                    remove_service,
                    restart_job,
                ));
                return Err(OrchestratorError::ServiceStopped);
            },
        }
        job.status = JobStatus::Stopping;
        job.flags = JobFlags { remove_service, restart_job };
        self.put_job(alias, job);
        let (signal, wait) = match self.services.get(alias) {
            Some(service) => (service.stop_signal, crate::watcher::secs_to_millis(service.stop_wait)),
            None => {
                return Err(OrchestratorError::ServiceNotFound);
            },
        };
        self.kill_job(watched, alias, signal, wait, now)
    }

    /// Replaces the registry by the definitions `loaded` and returns the
    /// requests that the change raises. Fails with `ServiceUpdate`, and
    /// changes nothing, if two definitions carry the same alias.
    pub fn reload(&mut self, loaded: Vec<Service>) -> (actions: Result<
        Vec<ServiceAction>,
        OrchestratorError,
    >)
        ensures
            final(self).jobs() == old(self).jobs(),
            final(self).registry().include_paths() == old(self).registry().include_paths(),
            match actions {
                Ok(up) => {
                    &&& no_redefinition(loaded@)
                    &&& actions_view(up@) == reload_actions(
                        old(self).registry().entries(),
                        definitions(loaded@),
                    )
                    &&& final(self).registry().entries() == definitions(loaded@) + leftovers(
                        old(self).registry().entries(),
                        entries_map(definitions(loaded@)),
                    )
                },
                Err(e) => {
                    &&& !no_redefinition(loaded@)
                    &&& e@ == ErrorView::ServiceUpdate
                    &&& final(self).registry().entries() == old(self).registry().entries()
                },
            },
    {
        match self.services.update(loaded) {
            Ok(up) => Ok(up),
            Err(LoadError::AliasRedefined { alias: _, first: _, second: _ }) => {
                Err(OrchestratorError::ServiceUpdate)
            },
        }
    }

    /// Carries out one request that a reload raised. A restart stops the
    /// job for good and asks for its removal and a new start; that the job
    /// has stopped already counts as success. A stop stops the job and asks
    /// for its removal. Any other request changes nothing. The orders to
    /// deliver are returned. The first request that fails ends the reload.
    pub fn reload_step(
        &mut self,
        watched: &mut WatchedMap,
        action: &ServiceAction,
        now: u64,
    ) -> (orders: Result<Vec<Order>, OrchestratorError>)
        ensures
            final(self).registry() == old(self).registry(),
            retries_kept(old(self).jobs(), final(self).jobs()),
            final(self).jobs() == jobs_after_reload_step(old(self).jobs(), action@),
            watched_view(final(watched).map()) == watched_after_reload_step(
                old(self).jobs(),
                old(self).services(),
                watched_view(old(watched).map()),
                action@,
                now,
            ),
            orders_outcome(orders) == reload_step_result(
                old(self).jobs(),
                old(self).services(),
                watched_view(old(watched).map()),
                action@,
            ),
    {
        match action {
            ServiceAction::Restart(alias) => {
                match self.stop_request(watched, alias.as_str(), true, true, now) {
                    Ok(orders) => Ok(orders),
                    Err(OrchestratorError::ServiceStopped) => {
                        let none: Vec<Order> = Vec::new();
                        assert(orders_view(none@) =~= Seq::empty());
                        Ok(none)
                    },
                    Err(e) => Err(e),
                }
            },
            ServiceAction::Stop(alias) => self.stop_request(
                watched,
                alias.as_str(),
                true,
                false,
                now,
            ),
            _ => {
                let none: Vec<Order> = Vec::new();
                assert(orders_view(none@) =~= Seq::empty());
                assert(watched_view(watched.map()) =~= watched_view(old(watched).map()));
                Ok(none)
            },
        }
    }
}

} // verus!
