//! The watcher's rules: deadlines, exit probes and edge detection.
//!
//! The watcher owns no process handle here. Whoever runs it reads the clock,
//! probes each child without blocking, and hands both in as plain values.

use vstd::prelude::*;
use crate::jobs::JobStatus;
use crate::text_map::TextMap;

verus! {

/// A lifecycle event of one job, as delivered to the orchestrator.
#[derive(Debug)]
pub struct JobEvent {
    pub alias: String,
    pub status: JobStatus,
}

impl View for JobEvent {
    type V = (Seq<char>, JobStatus);

    open spec fn view(&self) -> (Seq<char>, JobStatus) {
        (self.alias@, self.status)
    }
}

/// A deadline: an instant of arming and a duration, both in milliseconds of
/// one monotonic clock. Without a duration the deadline never expires.
#[derive(Clone, Copy, Debug, PartialEq, Eq, Structural)]
pub struct WatchedTimeout {
    pub created_at: u64,
    pub time: Option<u64>,
}

impl WatchedTimeout {
    /// Milliseconds between the arming and `now`; zero if `now` lies before.
    pub open spec fn elapsed(self, now: u64) -> int {
        if now >= self.created_at {
            now - self.created_at
        } else {
            0
        }
    }

    /// The deadline has a duration and that much time has passed at `now`.
    pub open spec fn expired(self, now: u64) -> bool {
        self.time matches Some(t) && self.elapsed(now) >= t
    }

    /// Whether the deadline has expired at `now`.
    pub fn has_timed_out(&self, now: u64) -> (timed_out: bool)
        ensures
            timed_out == self.expired(now),
    {
        match self.time {
            Some(t) => {
                let elapsed: u64 = if now >= self.created_at {
                    now - self.created_at
                } else {
                    0
                };
                elapsed >= t
            },
            None => false,
        }
    }

    /// A deadline armed at `now` that expires after `time`, if given.
    pub fn new(time: Option<u64>, now: u64) -> (timeout: WatchedTimeout)
        ensures
            timeout == (WatchedTimeout { created_at: now, time }),
    {
        WatchedTimeout { created_at: now, time }
    }

    /// Disarms the deadline: it never expires afterwards.
    pub fn remove(&mut self)
        ensures
            *final(self) == (WatchedTimeout { created_at: old(self).created_at, time: None }),
    {
        self.time = None
    }
}

/// Milliseconds in the given number of seconds, capped at the largest value.
pub open spec fn millis_of(secs: u64) -> u64 {
    if secs * 1000 <= u64::MAX {
        (secs * 1000) as u64
    } else {
        u64::MAX
    }
}

/// Converts seconds to milliseconds, capped at the largest value.
pub fn secs_to_millis(secs: u64) -> (ms: u64)
    ensures
        ms == millis_of(secs),
{
    if secs <= u64::MAX / 1000 {
        secs * 1000
    } else {
        u64::MAX
    }
}

/// What a non-blocking wait on a child reported.
#[derive(Clone, Copy, Debug, PartialEq, Eq, Structural)]
pub enum Probe {
    /// The child was reaped, with its exit code if the system gave one.
    Exited(Option<i32>),
    /// The child still runs.
    Alive,
    /// The wait itself failed.
    Failed,
}

/// The status that a probe stands for.
pub open spec fn probe_status(probe: Probe) -> JobStatus {
    match probe {
        Probe::Exited(Some(code)) => JobStatus::Finished(code),
        Probe::Exited(None) => JobStatus::Finished(0),
        Probe::Alive => JobStatus::Running(true),
        Probe::Failed => JobStatus::TimedOut,
    }
}

/// Maps the outcome of a non-blocking wait to a job status: a reaped child
/// is finished with its code, or with 0 if there is none; a running child is
/// running; a failed wait counts as a timeout.
pub fn exit_status_to_job_status(status: Probe) -> (job_status: JobStatus)
    ensures
        job_status == probe_status(status),
{
    match status {
        Probe::Exited(Some(code)) => JobStatus::Finished(code),
        Probe::Exited(None) => JobStatus::Finished(0),
        Probe::Alive => JobStatus::Running(true),
        Probe::Failed => JobStatus::TimedOut,
    }
}

/// The record of one live process.
#[derive(Clone, Copy, Debug, PartialEq, Eq, Structural)]
pub struct WatchedJob {
    /// Process id of the child.
    pub pid: u32,
    /// The deadline currently armed for it.
    pub timeout: WatchedTimeout,
    /// The last status emitted for it.
    pub previous_status: JobStatus,
}

/// One watcher tick on one process: the record afterwards and the status to
/// emit, if any. An expired deadline is reported once and suppresses the
/// probe; otherwise the probed status is reported when it differs from the
/// last one emitted.
pub open spec fn tick_job(w: WatchedJob, now: u64, probe: Probe) -> (WatchedJob, Option<JobStatus>) {
    if w.timeout.expired(now) {
        if w.previous_status != JobStatus::TimedOut {
            (WatchedJob { previous_status: JobStatus::TimedOut, ..w }, Some(JobStatus::TimedOut))
        } else {
            (w, None)
        }
    } else {
        let status = probe_status(probe);
        if status != w.previous_status {
            (WatchedJob { previous_status: status, ..w }, Some(status))
        } else {
            (w, None)
        }
    }
}

impl WatchedJob {
    /// Runs one watcher tick on this process and returns the status to emit.
    pub fn tick(&mut self, now: u64, probe: Probe) -> (emit: Option<JobStatus>)
        ensures
            (*final(self), emit) == tick_job(*old(self), now, probe),
    {
        if self.timeout.has_timed_out(now) {
            if self.previous_status != JobStatus::TimedOut {
                self.previous_status = JobStatus::TimedOut;
                return Some(JobStatus::TimedOut);
            }
            return None;
        }
        let status = exit_status_to_job_status(probe);
        if status != self.previous_status {
            self.previous_status = status;
            return Some(status);
        }
        None
    }
}

/// The live processes of every alias, shared between the watcher and the
/// orchestrator.
pub type WatchedMap = TextMap<Vec<WatchedJob>>;

/// The probe taken of the process `pid`: the first one listed for it. A
/// process that was not probed counts as one whose probe failed.
pub open spec fn probe_for(probes: Seq<(u32, Probe)>, pid: u32) -> Probe
    decreases probes.len(),
{
    if probes.len() == 0 {
        Probe::Failed
    } else if probes[0].0 == pid {
        probes[0].1
    } else {
        probe_for(probes.drop_first(), pid)
    }
}

/// Looks up the probe taken of the process `pid`.
pub fn find_probe(probes: &Vec<(u32, Probe)>, pid: u32) -> (probe: Probe)
    ensures
        probe == probe_for(probes@, pid),
{
    let mut i: usize = 0;
    assert(probes@.skip(0) =~= probes@);
    while i < probes.len()
        invariant
            i <= probes.len(),
            probe_for(probes@, pid) == probe_for(probes@.skip(i as int), pid),
        decreases probes.len() - i,
    {
        if probes[i].0 == pid {
            assert(probes@.skip(i as int)[0] == probes@[i as int]);
            return probes[i].1;
        }
        proof {
            assert(probes@.skip(i as int)[0] == probes@[i as int]);
            assert(probes@.skip(i as int).drop_first() =~= probes@.skip(i + 1));
        }
        i += 1;
    }
    assert(probes@.skip(i as int).len() == 0);
    Probe::Failed
}

/// The statuses in a list of optional statuses, in order.
pub open spec fn present(statuses: Seq<Option<JobStatus>>) -> Seq<JobStatus>
    decreases statuses.len(),
{
    if statuses.len() == 0 {
        Seq::empty()
    } else {
        match statuses.last() {
            Some(status) => present(statuses.drop_last()).push(status),
            None => present(statuses.drop_last()),
        }
    }
}

/// The records of one alias after a tick at `now` with the given probes.
pub open spec fn ticked(jobs: Seq<WatchedJob>, now: u64, probes: Seq<(u32, Probe)>) -> Seq<
    WatchedJob,
> {
    Seq::new(jobs.len(), |i: int| tick_job(jobs[i], now, probe_for(probes, jobs[i].pid)).0)
}

/// The statuses that a tick at `now` emits for the records of one alias.
pub open spec fn emitted(jobs: Seq<WatchedJob>, now: u64, probes: Seq<(u32, Probe)>) -> Seq<
    JobStatus,
> {
    present(Seq::new(jobs.len(), |i: int| tick_job(jobs[i], now, probe_for(probes, jobs[i].pid)).1))
}

/// The statuses as events of `alias`.
pub open spec fn tagged(alias: Seq<char>, statuses: Seq<JobStatus>) -> Seq<(Seq<char>, JobStatus)> {
    Seq::new(statuses.len(), |i: int| (alias, statuses[i]))
}

/// The events that a tick at `now` emits for all entries, in order.
pub open spec fn events_of(
    entries: Seq<(String, Vec<WatchedJob>)>,
    now: u64,
    probes: Seq<(u32, Probe)>,
) -> Seq<(Seq<char>, JobStatus)>
    decreases entries.len(),
{
    if entries.len() == 0 {
        Seq::empty()
    } else {
        events_of(entries.drop_last(), now, probes) + tagged(
            entries.last().0@,
            emitted(entries.last().1@, now, probes),
        )
    }
}

/// The view of each event of a list.
pub open spec fn events_view(events: Seq<JobEvent>) -> Seq<(Seq<char>, JobStatus)> {
    Seq::new(events.len(), |i: int| events[i]@)
}

/// Runs one watcher tick on the processes of one alias: updates the records
/// and appends the events to emit.
fn tick_alias(
    alias: &String,
    jobs: &Vec<WatchedJob>,
    probes: &Vec<(u32, Probe)>,
    now: u64,
    events: &mut Vec<JobEvent>,
) -> (after: Vec<WatchedJob>)
    ensures
        after@ == ticked(jobs@, now, probes@),
        events_view(final(events)@) == events_view(old(events)@) + tagged(
            alias@,
            emitted(jobs@, now, probes@),
        ),
{
    let mut after: Vec<WatchedJob> = Vec::new();
    let ghost results = Seq::new(
        jobs@.len(),
        |i: int| tick_job(jobs@[i], now, probe_for(probes@, jobs@[i].pid)).1,
    );
    let mut i: usize = 0;
    while i < jobs.len()
        invariant
            i <= jobs.len(),
            results == Seq::new(
                jobs@.len(),
                |i: int| tick_job(jobs@[i], now, probe_for(probes@, jobs@[i].pid)).1,
            ),
            after@ == ticked(jobs@, now, probes@).take(i as int),
            events_view(events@) == events_view(old(events)@) + tagged(
                alias@,
                present(results.take(i as int)),
            ),
        decreases jobs.len() - i,
    {
        let mut job = jobs[i];
        let emit = job.tick(now, find_probe(probes, job.pid));
        after.push(job);
        let ghost before = events@;
        proof {
            assert(after@ =~= ticked(jobs@, now, probes@).take(i + 1));
            assert(results.take(i + 1).drop_last() =~= results.take(i as int));
            assert(results.take(i + 1).last() == emit);
        }
        match emit {
            Some(status) => {
                events.push(JobEvent { alias: alias.clone(), status });
                proof {
                    assert(events_view(events@) =~= events_view(before).push((alias@, status)));
                    assert(tagged(alias@, present(results.take(i + 1))) =~= tagged(
                        alias@,
                        present(results.take(i as int)),
                    ).push((alias@, status)));
                }
            },
            None => {},
        }
        i += 1;
    }
    proof {
        assert(results.take(jobs@.len() as int) =~= results);
        assert(after@ =~= ticked(jobs@, now, probes@));
    }
    after
}

/// Runs one watcher tick at `now` on every process on record. `probes`
/// holds, by process id, what a non-blocking wait on each child reported.
/// The records are updated in place and the events to emit are returned,
/// alias by alias in the order of the record.
pub fn watch(watched_jobs: &mut WatchedMap, probes: &Vec<(u32, Probe)>, now: u64) -> (events: Vec<
    JobEvent,
>)
    ensures
        final(watched_jobs).entries().len() == old(watched_jobs).entries().len(),
        forall|i: int|
            0 <= i < old(watched_jobs).entries().len() ==> {
                &&& (#[trigger] final(watched_jobs).entries()[i]).0 == old(
                    watched_jobs,
                ).entries()[i].0
                &&& final(watched_jobs).entries()[i].1@ == ticked(
                    old(watched_jobs).entries()[i].1@,
                    now,
                    probes@,
                )
            },
        events_view(events@) == events_of(old(watched_jobs).entries(), now, probes@),
{
    let mut events: Vec<JobEvent> = Vec::new();
    let ghost start = watched_jobs.entries();
    let mut i: usize = 0;
    assert(events_view(events@) =~= events_of(start.take(0), now, probes@));
    while i < watched_jobs.len()
        invariant
            i <= start.len(),
            watched_jobs.entries().len() == start.len(),
            forall|j: int|
                0 <= j < i ==> {
                    &&& (#[trigger] watched_jobs.entries()[j]).0 == start[j].0
                    &&& watched_jobs.entries()[j].1@ == ticked(start[j].1@, now, probes@)
                },
            forall|j: int| i <= j < start.len() ==> #[trigger] watched_jobs.entries()[j] == start[j],
            events_view(events@) == events_of(start.take(i as int), now, probes@),
        decreases start.len() - i,
    {
        let after = tick_alias(
            watched_jobs.alias_at(i),
            watched_jobs.value_at(i),
            probes,
            now,
            &mut events,
        );
        watched_jobs.set_at(i, after);
        proof {
            assert(start.take(i + 1).drop_last() =~= start.take(i as int));
            assert(start.take(i + 1).last() == start[i as int]);
        }
        i += 1;
    }
    proof {
        assert(start.take(start.len() as int) =~= start);
    }
    events
}

/// A watcher's ticks on one process: at each step the clock reading and the
/// probe. Returns the record after the last step and all statuses emitted.
pub open spec fn run_ticks(w: WatchedJob, steps: Seq<(u64, Probe)>) -> (WatchedJob, Seq<JobStatus>)
    decreases steps.len(),
{
    if steps.len() == 0 {
        (w, Seq::empty())
    } else {
        let (before, emitted) = run_ticks(w, steps.drop_last());
        let (after, emit) = tick_job(before, steps.last().0, steps.last().1);
        match emit {
            Some(status) => (after, emitted.push(status)),
            None => (after, emitted),
        }
    }
}

/// How many of the statuses are `Finished`.
pub open spec fn finished_count(statuses: Seq<JobStatus>) -> nat
    decreases statuses.len(),
{
    if statuses.len() == 0 {
        0
    } else if statuses.last() is Finished {
        finished_count(statuses.drop_last()) + 1
    } else {
        finished_count(statuses.drop_last())
    }
}

/// The clock never goes back, and once a probe has reaped the child every
/// later probe reports the same exit.
pub open spec fn steady(steps: Seq<(u64, Probe)>) -> bool {
    &&& forall|i: int, j: int| 0 <= i <= j < steps.len() ==> steps[i].0 <= steps[j].0
    &&& forall|i: int, j: int|
        0 <= i <= j < steps.len() && steps[i].1 is Exited ==> steps[j].1 == steps[i].1
}

/// At some step the child is probed before the deadline and found reaped.
pub open spec fn exit_seen(w: WatchedJob, steps: Seq<(u64, Probe)>) -> bool {
    exists|i: int| 0 <= i < steps.len() && !w.timeout.expired(steps[i].0) && #[trigger] steps[i].1 is Exited
}

/// What holds of a run after every step: the deadline is the one the run
/// began with; at most one `Finished` was emitted; and once it was, either
/// the record holds the exit that every later probe reports, or the deadline
/// has expired for good.
spec fn run_invariant(w: WatchedJob, steps: Seq<(u64, Probe)>) -> bool {
    let (after, emitted) = run_ticks(w, steps);
    &&& after.timeout == w.timeout
    &&& after.pid == w.pid
    &&& finished_count(emitted) <= 1
    &&& after.previous_status is Finished ==> finished_count(emitted) == 1 || w.previous_status is Finished
    &&& finished_count(emitted) == 1 ==> {
        ||| (after.previous_status is Finished && exists|i: int|
            0 <= i < steps.len() && #[trigger] probe_status(steps[i].1) == after.previous_status
                && steps[i].1 is Exited)
        ||| (steps.len() > 0 && w.timeout.expired(steps.last().0))
    }
    &&& exit_seen(w, steps) ==> finished_count(emitted) == 1 || w.previous_status is Finished
}

/// The invariant holds after every steady run that begins with a process
/// that is not yet finished.
proof fn lemma_run_invariant(w: WatchedJob, steps: Seq<(u64, Probe)>)
    requires
        steady(steps),
        !(w.previous_status is Finished),
    ensures
        run_invariant(w, steps),
    decreases steps.len(),
{
    if steps.len() == 0 {
    } else {
        let prefix = steps.drop_last();
        assert(steady(prefix)) by {
            assert forall|i: int, j: int| 0 <= i <= j < prefix.len() implies prefix[i].0
                <= prefix[j].0 by {
                assert(steps[i].0 <= steps[j].0);
            }
            assert forall|i: int, j: int|
                0 <= i <= j < prefix.len() && prefix[i].1 is Exited implies prefix[j].1
                == prefix[i].1 by {
                assert(steps[j].1 == steps[i].1);
            }
        }
        lemma_run_invariant(w, prefix);
        let (before, emitted) = run_ticks(w, prefix);
        let last = steps.last();
        let n = steps.len() - 1;
        let (after, emit) = tick_job(before, last.0, last.1);
        assert(steps[n] == last);
        if finished_count(emitted) == 1 {
            if before.previous_status is Finished && exists|i: int|
                0 <= i < prefix.len() && #[trigger] probe_status(prefix[i].1)
                    == before.previous_status && prefix[i].1 is Exited {
                let i = choose|i: int|
                    0 <= i < prefix.len() && #[trigger] probe_status(prefix[i].1)
                        == before.previous_status && prefix[i].1 is Exited;
                assert(steps[i] == prefix[i]);
                assert(steps[n].1 == steps[i].1);
                assert(probe_status(steps[i].1) == before.previous_status);
            } else {
                let m = prefix.len() - 1;
                assert(prefix[m] == steps[m]);
                assert(steps[m].0 <= steps[n].0);
                assert(w.timeout.expired(last.0));
            }
        }
        if exit_seen(w, steps) && !exit_seen(w, prefix) {
            let i = choose|i: int|
                0 <= i < steps.len() && !w.timeout.expired(steps[i].0) && #[trigger] steps[i].1 is Exited;
            if i < n {
                assert(prefix[i] == steps[i]);
                assert(false);
            }
        }
        if exit_seen(w, prefix) {
            let i = choose|i: int|
                0 <= i < prefix.len() && !w.timeout.expired(prefix[i].0) && #[trigger] prefix[i].1 is Exited;
            assert(steps[i] == prefix[i]);
        }
        match emit {
            Some(status) => {
                assert(emitted.push(status).drop_last() =~= emitted);
                if status is Finished {
                    assert(probe_status(steps[n].1) == after.previous_status);
                }
            },
            None => {},
        }
    }
}

/// A process that is watched from its spawn on, by a steady run of ticks
/// that nobody interferes with, is reported finished at most once; and
/// exactly once if a probe before the deadline finds it reaped.
pub proof fn lemma_finished_once(w: WatchedJob, steps: Seq<(u64, Probe)>)
    requires
        steady(steps),
        !(w.previous_status is Finished),
    ensures
        finished_count(run_ticks(w, steps).1) <= 1,
        exit_seen(w, steps) ==> finished_count(run_ticks(w, steps).1) == 1,
{
    lemma_run_invariant(w, steps);
}

} // verus!
