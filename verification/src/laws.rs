//! What holds of the rules taken together.

use vstd::prelude::*;
use crate::dispatch::{MessageView, message_jobs, message_services, message_watched};
use crate::events::{event_jobs, event_services, known};
use crate::jobs::{Job, JobStatus};
use crate::orchestrate::{
    job_or_fresh, jobs_after_start_request, jobs_after_stop_request, retries_kept,
    start_refusal, started_job, stop_refusal, stop_result,
};
use crate::service::{
    ActionView, Service, leftovers, lemma_leftovers_from_old, reload_actions, restarts, stops,
};
use crate::status::status_refusal;
use crate::text_map::{distinct_aliases, entries_map, has_alias, lemma_entry_in_map};
use crate::watcher::WatchedJob;

verus! {

/// No message lowers the retry counter of a job that stays on record.
pub proof fn lemma_retries_never_decrease(
    jobs: Map<Seq<char>, Job>,
    services: Map<Seq<char>, Service>,
    message: MessageView,
)
    ensures
        retries_kept(jobs, message_jobs(jobs, services, message)),
{
}

/// When a job that was stopped with the flag `remove_service` finishes, its
/// service leaves the registry and its record leaves the job table.
pub proof fn lemma_finished_removes_service(
    jobs: Map<Seq<char>, Job>,
    services: Map<Seq<char>, Service>,
    alias: Seq<char>,
    code: i32,
)
    requires
        known(jobs, services, alias),
        jobs[alias].status == JobStatus::Stopping,
        jobs[alias].flags.remove_service,
    ensures
        !event_services(jobs, services, (alias, JobStatus::Finished(code))).contains_key(alias),
        !event_jobs(jobs, services, (alias, JobStatus::Finished(code))).contains_key(alias),
{
}

/// No message to the orchestrator puts a service into the registry: an
/// alias that the registry does not hold stays out until a reload.
pub proof fn lemma_only_reload_adds_service(
    jobs: Map<Seq<char>, Job>,
    services: Map<Seq<char>, Service>,
    message: MessageView,
    alias: Seq<char>,
)
    requires
        !services.contains_key(alias),
    ensures
        !message_services(jobs, services, message).contains_key(alias),
{
}

/// The tables after a run of messages, each with the clock reading at which
/// it is taken.
pub open spec fn run_messages(
    jobs: Map<Seq<char>, Job>,
    services: Map<Seq<char>, Service>,
    watched: Map<Seq<char>, Seq<WatchedJob>>,
    messages: Seq<(MessageView, u64)>,
) -> (Map<Seq<char>, Job>, Map<Seq<char>, Service>, Map<Seq<char>, Seq<WatchedJob>>)
    decreases messages.len(),
{
    if messages.len() == 0 {
        (jobs, services, watched)
    } else {
        let (j, s, w) = run_messages(jobs, services, watched, messages.drop_last());
        let (message, now) = messages.last();
        (
            message_jobs(j, s, message),
            message_services(j, s, message),
            message_watched(j, s, w, message, now),
        )
    }
}

/// Whatever messages the orchestrator takes, an alias that the registry
/// does not hold stays out of it, and so every request to start or stop
/// its job and every request for its status is refused afterwards.
pub proof fn lemma_removed_service_stays_refused(
    jobs: Map<Seq<char>, Job>,
    services: Map<Seq<char>, Service>,
    watched: Map<Seq<char>, Seq<WatchedJob>>,
    messages: Seq<(MessageView, u64)>,
    alias: Seq<char>,
)
    requires
        !services.contains_key(alias),
    ensures
        ({
            let (j, s, w) = run_messages(jobs, services, watched, messages);
            &&& !s.contains_key(alias)
            &&& start_refusal(j, s, alias) is Some
            &&& stop_result(j, s, w, alias) is Err
            &&& status_refusal(j, s, alias) is Some
        }),
    decreases messages.len(),
{
    if messages.len() > 0 {
        lemma_removed_service_stays_refused(jobs, services, watched, messages.drop_last(), alias);
    }
}

/// Every process on record belongs to a job on record, and no alias has
/// more than one process on record.
pub open spec fn watched_in_order(
    jobs: Map<Seq<char>, Job>,
    watched: Map<Seq<char>, Seq<WatchedJob>>,
) -> bool {
    forall|a: Seq<char>| #[trigger]
        watched.contains_key(a) ==> jobs.contains_key(a) && watched[a].len() <= 1
}

/// No message breaks the order of the record of live processes.
pub proof fn lemma_watched_stay_in_order(
    jobs: Map<Seq<char>, Job>,
    services: Map<Seq<char>, Service>,
    watched: Map<Seq<char>, Seq<WatchedJob>>,
    message: MessageView,
    now: u64,
)
    requires
        watched_in_order(jobs, watched),
    ensures
        watched_in_order(
            message_jobs(jobs, services, message),
            message_watched(jobs, services, watched, message, now),
        ),
{
    let j = message_jobs(jobs, services, message);
    let w = message_watched(jobs, services, watched, message, now);
    assert forall|a: Seq<char>| #[trigger] w.contains_key(a) implies j.contains_key(a) && w[a].len()
        <= 1 by {
        assert(watched.contains_key(a));
    }
}

/// Recording a spawn keeps the order of the record of live processes,
/// provided the job is on record, as it is after a start request.
pub proof fn lemma_spawn_keeps_order(
    jobs: Map<Seq<char>, Job>,
    watched: Map<Seq<char>, Seq<WatchedJob>>,
    alias: Seq<char>,
    process: WatchedJob,
    stamp: String,
)
    requires
        watched_in_order(jobs, watched),
        jobs.contains_key(alias),
    ensures
        watched_in_order(
            jobs.insert(alias, started_job(jobs[alias], stamp)),
            watched.insert(alias, seq![process]),
        ),
{
    let j = jobs.insert(alias, started_job(jobs[alias], stamp));
    let w = watched.insert(alias, seq![process]);
    assert forall|a: Seq<char>| #[trigger] w.contains_key(a) implies j.contains_key(a) && w[a].len()
        <= 1 by {
        if a != alias {
            assert(watched.contains_key(a));
        }
    }
}

/// For an alias that the registry does not hold, every request to start or
/// stop the job and every request for its status is refused.
pub proof fn lemma_removed_service_is_refused(
    jobs: Map<Seq<char>, Job>,
    services: Map<Seq<char>, Service>,
    watched: Map<Seq<char>, Seq<WatchedJob>>,
    alias: Seq<char>,
)
    requires
        !services.contains_key(alias),
    ensures
        start_refusal(jobs, services, alias) is Some,
        stop_result(jobs, services, watched, alias) is Err,
        status_refusal(jobs, services, alias) is Some,
{
}

/// A job that is started, stopped in whatever status it has reached, seen
/// to finish and started again is starting once more, with the retry
/// counter it had before and the time of the second spawn.
pub proof fn lemma_start_stop_start(
    jobs: Map<Seq<char>, Job>,
    services: Map<Seq<char>, Service>,
    alias: Seq<char>,
    first_stamp: String,
    reached: JobStatus,
    code: i32,
    second_stamp: String,
)
    requires
        start_refusal(jobs, services, alias) is None,
        reached.is_stoppable(),
    ensures
        ({
            let asked = jobs_after_start_request(jobs, alias);
            let spawned = asked.insert(alias, started_job(asked[alias], first_stamp));
            let running = spawned.insert(alias, Job { status: reached, ..spawned[alias] });
            let stopping = jobs_after_stop_request(running, alias, false, false);
            let finished = event_jobs(stopping, services, (alias, JobStatus::Finished(code)));
            let asked_again = jobs_after_start_request(finished, alias);
            let again = asked_again.insert(alias, started_job(asked_again[alias], second_stamp));
            &&& stop_refusal(running, services, true, alias) is None
            &&& finished[alias].status == JobStatus::Finished(code)
            &&& start_refusal(finished, services, alias) is None
            &&& again[alias].status == JobStatus::Starting
            &&& again[alias].retries == job_or_fresh(jobs, alias).retries
            &&& again[alias].started == Some(second_stamp)
            &&& again[alias].last_exit_code == code
        }),
{
}

/// Each restart that a reload raises is for an entry of `new` whose alias
/// `old` holds with a different definition.
proof fn lemma_restart_cause(
    new: Seq<(String, Service)>,
    old: Map<Seq<char>, Service>,
    k: int,
)
    requires
        0 <= k < restarts(new, old).len(),
    ensures
        exists|j: int|
            0 <= j < new.len() && restarts(new, old)[k] == ActionView::Restart(
                (#[trigger] new[j]).0@,
            ) && old.contains_key(new[j].0@) && old[new[j].0@]@ != new[j].1@,
    decreases new.len(),
{
    let rest = restarts(new.drop_last(), old);
    if k < rest.len() {
        lemma_restart_cause(new.drop_last(), old, k);
        let j = choose|j: int|
            0 <= j < new.drop_last().len() && rest[k] == ActionView::Restart(
                (#[trigger] new.drop_last()[j]).0@,
            ) && old.contains_key(new.drop_last()[j].0@) && old[new.drop_last()[j].0@]@
                != new.drop_last()[j].1@;
        assert(new[j] == new.drop_last()[j]);
    } else {
        assert(new[new.len() - 1] == new.last());
    }
}

/// An entry of `old` whose alias `new` does not hold is among the
/// leftovers.
proof fn lemma_absent_is_leftover(
    old: Seq<(String, Service)>,
    new: Map<Seq<char>, Service>,
    j: int,
)
    requires
        0 <= j < old.len(),
        !new.contains_key(old[j].0@),
    ensures
        exists|k: int| 0 <= k < leftovers(old, new).len() && #[trigger] leftovers(old, new)[k] == old[j],
    decreases old.len(),
{
    let rest = leftovers(old.drop_last(), new);
    if j < old.len() - 1 {
        lemma_absent_is_leftover(old.drop_last(), new, j);
        let k = choose|k: int| 0 <= k < rest.len() && #[trigger] rest[k] == old.drop_last()[j];
        assert(leftovers(old, new)[k] == old[j]);
    } else {
        assert(leftovers(old, new)[rest.len() as int] == old[j]);
    }
}

/// A reload raises restarts and stops only: it never starts a job.
pub proof fn lemma_reload_starts_nothing(
    old: Seq<(String, Service)>,
    new: Seq<(String, Service)>,
    k: int,
)
    requires
        0 <= k < reload_actions(old, new).len(),
    ensures
        reload_actions(old, new)[k] is Restart || reload_actions(old, new)[k] is Stop,
{
    let r = restarts(new, entries_map(old));
    if k < r.len() {
        lemma_restart_cause(new, entries_map(old), k);
    }
}

/// A reload of definitions that are those of the registry, alias by alias,
/// raises no request.
pub proof fn lemma_reload_unchanged(old: Seq<(String, Service)>, new: Seq<(String, Service)>)
    requires
        distinct_aliases(old),
        distinct_aliases(new),
        forall|a: Seq<char>| entries_map(old).contains_key(a) <==> entries_map(new).contains_key(a),
        forall|a: Seq<char>|
            entries_map(new).contains_key(a) ==> entries_map(new)[a]@ == entries_map(old)[a]@,
    ensures
        reload_actions(old, new).len() == 0,
{
    let r = restarts(new, entries_map(old));
    if r.len() > 0 {
        lemma_restart_cause(new, entries_map(old), 0);
        let j = choose|j: int|
            0 <= j < new.len() && r[0] == ActionView::Restart((#[trigger] new[j]).0@)
                && entries_map(old).contains_key(new[j].0@) && entries_map(old)[new[j].0@]@
                != new[j].1@;
        lemma_entry_in_map(new, j);
        assert(false);
    }
    let l = leftovers(old, entries_map(new));
    if l.len() > 0 {
        lemma_leftovers_from_old(old, entries_map(new), 0);
        let j = choose|j: int| 0 <= j < old.len() && #[trigger] old[j] == l[0];
        lemma_entry_in_map(old, j);
        assert(false);
    }
    assert(stops(old, entries_map(new)).len() == 0);
}

/// The alias that a request is about, if it is about one.
pub open spec fn action_alias(action: ActionView) -> Option<Seq<char>> {
    match action {
        ActionView::Start(alias) => Some(alias),
        ActionView::Restart(alias) => Some(alias),
        ActionView::Stop(alias) => Some(alias),
        ActionView::Status(alias) => Some(alias),
        ActionView::Attach(alias) => Some(alias),
        ActionView::Detach(alias) => Some(alias),
        ActionView::Input(alias, _) => Some(alias),
        _ => None,
    }
}

/// A reload in which a service has disappeared raises a stop for it.
pub proof fn lemma_reload_stops_removed(
    old: Seq<(String, Service)>,
    new: Seq<(String, Service)>,
    alias: Seq<char>,
)
    requires
        distinct_aliases(old),
        entries_map(old).contains_key(alias),
        !entries_map(new).contains_key(alias),
    ensures
        exists|k: int|
            0 <= k < reload_actions(old, new).len() && #[trigger] reload_actions(old, new)[k]
                == ActionView::Stop(alias),
{
    assert(has_alias(old, alias));
    let j = choose|j: int| 0 <= j < old.len() && #[trigger] old[j].0@ == alias;
    lemma_absent_is_leftover(old, entries_map(new), j);
    let l = leftovers(old, entries_map(new));
    let k = choose|k: int| 0 <= k < l.len() && #[trigger] l[k] == old[j];
    let r = restarts(new, entries_map(old));
    assert(stops(old, entries_map(new))[k] == ActionView::Stop(alias));
    assert(reload_actions(old, new)[r.len() + k] == ActionView::Stop(alias));
}

/// A reload raises no request for a service that it brings back as the
/// registry holds it, nor for one that is new to the registry.
pub proof fn lemma_reload_spares_same_or_new(
    old: Seq<(String, Service)>,
    new: Seq<(String, Service)>,
    alias: Seq<char>,
    k: int,
)
    requires
        distinct_aliases(new),
        entries_map(new).contains_key(alias),
        entries_map(old).contains_key(alias) ==> entries_map(old)[alias]@ == entries_map(
            new,
        )[alias]@,
        0 <= k < reload_actions(old, new).len(),
    ensures
        action_alias(reload_actions(old, new)[k]) != Some(alias),
{
    let r = restarts(new, entries_map(old));
    if k < r.len() {
        lemma_restart_cause(new, entries_map(old), k);
        let j = choose|j: int|
            0 <= j < new.len() && r[k] == ActionView::Restart((#[trigger] new[j]).0@)
                && entries_map(old).contains_key(new[j].0@) && entries_map(old)[new[j].0@]@
                != new[j].1@;
        lemma_entry_in_map(new, j);
    } else {
        lemma_leftovers_from_old(old, entries_map(new), k - r.len());
    }
}

} // verus!
