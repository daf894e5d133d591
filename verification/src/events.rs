//! How a lifecycle event moves a job: the rule, and its application to the
//! job table, the registry and the record of live processes.

use vstd::prelude::*;
use crate::jobs::{Job, JobFlags, JobStatus};
use crate::orchestrate::{
    Orchestrator, Order, OrderView, bump, disarmed, orders_view, retries_kept, signal_orders,
    watched_view, with_status, with_timeout,
};
use crate::service::{RestartOptions, Service};
use crate::signal::{kill_signal, sigkill};
use crate::watcher::{JobEvent, WatchedJob, WatchedMap, WatchedTimeout, millis_of, secs_to_millis};

verus! {

/// What an event asks to be done to the record of the job's live processes.
#[derive(Clone, Copy, Debug, PartialEq, Eq, Structural)]
pub enum WatchUpdate {
    /// Nothing.
    Keep,
    /// The process is gone: take it off the record and drop its pipes.
    Forget,
    /// Set the last emitted status to `Running(false)`, so that the end of
    /// the startup grace is seen as a change.
    MarkRunning,
    /// Disarm the deadline, so that it is not reported again.
    Disarm,
    /// Kill the process and arm a fresh stop-wait deadline.
    Escalate,
}

/// What an event means for a job.
#[derive(Clone, Copy, Debug, PartialEq, Eq, Structural)]
pub struct Verdict {
    /// The status the job takes.
    pub status: JobStatus,
    /// The retry counter afterwards.
    pub retries: u8,
    /// The single-shot flags afterwards.
    pub flags: JobFlags,
    /// Whether the service and the job record are deleted.
    pub remove: bool,
    /// Whether the job is to be started again.
    pub restart: bool,
    /// What happens to the record of live processes.
    pub watch: WatchUpdate,
}

/// The verdict that changes nothing but the status.
pub open spec fn only_status(job: Job, status: JobStatus) -> Verdict {
    Verdict {
        status,
        retries: job.retries,
        flags: job.flags,
        remove: false,
        restart: false,
        watch: WatchUpdate::Keep,
    }
}

/// The verdict on an exit with `code` that no stop request asked for: the
/// restart policy decides. An attempt is counted before it is compared with
/// the ceiling, and an expected exit code under `OnError` counts no attempt.
pub open spec fn exit_verdict(job: Job, service: Service, code: i32) -> Verdict {
    let stay = Verdict {
        status: JobStatus::Finished(code),
        retries: job.retries,
        flags: job.flags,
        remove: false,
        restart: false,
        watch: WatchUpdate::Forget,
    };
    let retry = |max: u8|
        Verdict { retries: bump(job.retries), restart: bump(job.retries) < max, ..stay };
    match service.restart {
        RestartOptions::Never => stay,
        RestartOptions::Always(max) => retry(max),
        RestartOptions::OnError(max) => if service.exit_codes@.contains(code) {
            stay
        } else {
            retry(max)
        },
    }
}

/// The verdict on the event `event` for a job with record `job` and
/// definition `service`.
pub open spec fn verdict(job: Job, service: Service, event: JobStatus) -> Verdict {
    match event {
        JobStatus::Created | JobStatus::Starting | JobStatus::Stopping => only_status(job, event),
        JobStatus::Running(_) => match job.status {
            JobStatus::Created | JobStatus::Finished(_) | JobStatus::Running(_) => only_status(
                job,
                event,
            ),
            JobStatus::Stopping => only_status(job, JobStatus::Stopping),
            JobStatus::Starting => Verdict {
                watch: WatchUpdate::MarkRunning,
                ..only_status(job, JobStatus::Running(false))
            },
            JobStatus::TimedOut => only_status(job, JobStatus::Running(true)),
        },
        JobStatus::Finished(code) => if job.status == JobStatus::Stopping {
            Verdict {
                status: event,
                retries: job.retries,
                flags: JobFlags { remove_service: false, restart_job: false },
                remove: job.flags.remove_service,
                restart: job.flags.restart_job,
                watch: WatchUpdate::Forget,
            }
        } else {
            exit_verdict(job, service, code)
        },
        JobStatus::TimedOut => match job.status {
            JobStatus::Running(_) | JobStatus::Starting => Verdict {
                watch: WatchUpdate::Disarm,
                ..only_status(job, JobStatus::Running(true))
            },
            JobStatus::TimedOut | JobStatus::Stopping => Verdict {
                watch: WatchUpdate::Escalate,
                ..only_status(job, JobStatus::Stopping)
            },
            _ => only_status(job, JobStatus::TimedOut),
        },
    }
}

/// Computes the verdict on an event.
pub fn decide(job: &Job, service: &Service, event: JobStatus) -> (v: Verdict)
    ensures
        v == verdict(*job, *service, event),
{
    let keep = Verdict {
        status: event,
        retries: job.retries,
        flags: job.flags,
        remove: false,
        restart: false,
        watch: WatchUpdate::Keep,
    };
    match event {
        JobStatus::Created | JobStatus::Starting | JobStatus::Stopping => keep,
        JobStatus::Running(_) => match job.status {
            JobStatus::Created | JobStatus::Finished(_) | JobStatus::Running(_) => keep,
            JobStatus::Stopping => Verdict { status: JobStatus::Stopping, ..keep },
            JobStatus::Starting => Verdict {
                status: JobStatus::Running(false),
                watch: WatchUpdate::MarkRunning,
                ..keep
            },
            JobStatus::TimedOut => Verdict { status: JobStatus::Running(true), ..keep },
        },
        JobStatus::Finished(code) => {
            let gone = Verdict { watch: WatchUpdate::Forget, ..keep };
            if job.status == JobStatus::Stopping {
                return Verdict {
                    flags: JobFlags::default(),
                    remove: job.flags.remove_service,
                    restart: job.flags.restart_job,
                    ..gone
                };
            }
            let counted: u8 = if job.retries < u8::MAX {
                job.retries + 1
            } else {
                u8::MAX
            };
            match service.restart {
                RestartOptions::Never => gone,
                RestartOptions::Always(max) => Verdict {
                    retries: counted,
                    restart: counted < max,
                    ..gone
                },
                RestartOptions::OnError(max) => {
                    if service.validate_exit_code(code) {
                        gone
                    } else {
                        Verdict { retries: counted, restart: counted < max, ..gone }
                    }
                },
            }
        },
        JobStatus::TimedOut => match job.status {
            JobStatus::Running(_) | JobStatus::Starting => Verdict {
                status: JobStatus::Running(true),
                watch: WatchUpdate::Disarm,
                ..keep
            },
            JobStatus::TimedOut | JobStatus::Stopping => Verdict {
                status: JobStatus::Stopping,
                watch: WatchUpdate::Escalate,
                ..keep
            },
            _ => keep,
        },
    }
}

/// The record of a job after a verdict was applied to it.
pub open spec fn job_after(job: Job, v: Verdict) -> Job {
    Job { status: v.status, retries: v.retries, flags: v.flags, ..job }
}

/// The job table after a verdict on `alias` was applied.
pub open spec fn jobs_after_event(jobs: Map<Seq<char>, Job>, alias: Seq<char>, v: Verdict) -> Map<
    Seq<char>,
    Job,
> {
    if v.remove {
        jobs.remove(alias)
    } else {
        jobs.insert(alias, job_after(jobs[alias], v))
    }
}

/// The registry after a verdict on `alias` was applied.
pub open spec fn services_after_event(
    services: Map<Seq<char>, Service>,
    alias: Seq<char>,
    v: Verdict,
) -> Map<Seq<char>, Service> {
    if v.remove {
        services.remove(alias)
    } else {
        services
    }
}

/// The record of live processes after the update `watch` for `alias`, at
/// `now`, with a stop wait of `stop_wait` seconds.
pub open spec fn watched_after_event(
    watched: Map<Seq<char>, Seq<WatchedJob>>,
    alias: Seq<char>,
    watch: WatchUpdate,
    stop_wait: u64,
    now: u64,
) -> Map<Seq<char>, Seq<WatchedJob>> {
    match watch {
        WatchUpdate::Keep => watched,
        WatchUpdate::Forget => watched.remove(alias),
        _ => if watched.contains_key(alias) {
            watched.insert(
                alias,
                match watch {
                    WatchUpdate::MarkRunning => with_status(
                        watched[alias],
                        JobStatus::Running(false),
                    ),
                    WatchUpdate::Disarm => disarmed(watched[alias]),
                    _ => with_timeout(
                        watched[alias],
                        WatchedTimeout { created_at: now, time: Some(millis_of(stop_wait)) },
                    ),
                },
            )
        } else {
            watched
        },
    }
}

/// The orders that follow from a verdict on `alias`: after an exit, the
/// router stops forwarding and drops the pipes, and a start is asked for if
/// the job is to run again; on escalation each process on record is killed.
pub open spec fn orders_after_event(
    watched: Map<Seq<char>, Seq<WatchedJob>>,
    alias: Seq<char>,
    v: Verdict,
) -> Seq<OrderView> {
    match v.watch {
        WatchUpdate::Forget => {
            let cleanup = seq![OrderView::StopForwarding(alias), OrderView::RemoveIo(alias)];
            if v.restart {
                cleanup.push(OrderView::Start(alias))
            } else {
                cleanup
            }
        },
        WatchUpdate::Escalate => if watched.contains_key(alias) {
            signal_orders(watched[alias], kill_signal())
        } else {
            Seq::empty()
        },
        _ => Seq::empty(),
    }
}

/// Whether an event for `alias` is taken up: both the registry and the job
/// table must know the alias.
pub open spec fn known(
    jobs: Map<Seq<char>, Job>,
    services: Map<Seq<char>, Service>,
    alias: Seq<char>,
) -> bool {
    services.contains_key(alias) && jobs.contains_key(alias)
}

/// The job table after an event.
pub open spec fn event_jobs(
    jobs: Map<Seq<char>, Job>,
    services: Map<Seq<char>, Service>,
    event: (Seq<char>, JobStatus),
) -> Map<Seq<char>, Job> {
    if known(jobs, services, event.0) {
        jobs_after_event(jobs, event.0, verdict(jobs[event.0], services[event.0], event.1))
    } else {
        jobs
    }
}

/// The registry after an event.
pub open spec fn event_services(
    jobs: Map<Seq<char>, Job>,
    services: Map<Seq<char>, Service>,
    event: (Seq<char>, JobStatus),
) -> Map<Seq<char>, Service> {
    if known(jobs, services, event.0) {
        services_after_event(
            services,
            event.0,
            verdict(jobs[event.0], services[event.0], event.1),
        )
    } else {
        services
    }
}

/// The record of live processes after an event at `now`.
pub open spec fn event_watched(
    jobs: Map<Seq<char>, Job>,
    services: Map<Seq<char>, Service>,
    watched: Map<Seq<char>, Seq<WatchedJob>>,
    event: (Seq<char>, JobStatus),
    now: u64,
) -> Map<Seq<char>, Seq<WatchedJob>> {
    if known(jobs, services, event.0) {
        watched_after_event(
            watched,
            event.0,
            verdict(jobs[event.0], services[event.0], event.1).watch,
            services[event.0].stop_wait,
            now,
        )
    } else {
        watched
    }
}

/// The orders that follow from an event.
pub open spec fn event_orders(
    jobs: Map<Seq<char>, Job>,
    services: Map<Seq<char>, Service>,
    watched: Map<Seq<char>, Seq<WatchedJob>>,
    event: (Seq<char>, JobStatus),
) -> Seq<OrderView> {
    if known(jobs, services, event.0) {
        orders_after_event(watched, event.0, verdict(jobs[event.0], services[event.0], event.1))
    } else {
        Seq::empty()
    }
}

impl Orchestrator {
    /// Whether the registry and the job table both know `alias`.
    pub open spec fn knows(&self, alias: Seq<char>) -> bool {
        known(self.jobs(), self.services(), alias)
    }

    /// Applies a lifecycle event. An event for an alias that the registry or
    /// the job table does not know changes nothing. For a known alias the
    /// verdict on the event is applied to the job table, the registry and
    /// the record of live processes, and the orders that follow from it are
    /// returned.
    pub fn manage_event(&mut self, watched: &mut WatchedMap, event: JobEvent, now: u64) -> (orders:
        Vec<Order>)
        ensures
            final(self).registry().include_paths() == old(self).registry().include_paths(),
            retries_kept(old(self).jobs(), final(self).jobs()),
            final(self).jobs() == event_jobs(old(self).jobs(), old(self).services(), event@),
            final(self).services() == event_services(
                old(self).jobs(),
                old(self).services(),
                event@,
            ),
            watched_view(final(watched).map()) == event_watched(
                old(self).jobs(),
                old(self).services(),
                watched_view(old(watched).map()),
                event@,
                now,
            ),
            orders_view(orders@) == event_orders(
                old(self).jobs(),
                old(self).services(),
                watched_view(old(watched).map()),
                event@,
            ),
    {
        let alias = event.alias.as_str();
        let mut orders: Vec<Order> = Vec::new();
        let (v, stop_wait) = match self.get_services().get(alias) {
            Some(service) => match self.job_record(alias) {
                Some(job) => (decide(job, service, event.status), service.stop_wait),
                None => {
                    assert(orders_view(orders@) =~= Seq::empty());
                    assert(watched_view(watched.map()) =~= watched_view(old(watched).map()));
                    return orders;
                },
            },
            None => {
                assert(orders_view(orders@) =~= Seq::empty());
                assert(watched_view(watched.map()) =~= watched_view(old(watched).map()));
                return orders;
            },
        };
        match v.watch {
            WatchUpdate::Keep => {
                assert(watched_view(watched.map()) =~= watched_view(old(watched).map()));
            },
            WatchUpdate::Forget => {
                orders.push(Order::StopForwarding(event.alias.clone()));
                orders.push(Order::RemoveIo(event.alias.clone()));
                self.remove_watched(watched, alias);
                assert(watched_view(watched.map()) =~= watched_view(old(watched).map()).remove(
                    alias@,
                ));
                if v.restart {
                    orders.push(Order::Start(event.alias.clone()));
                }
                assert(orders_view(orders@) =~= orders_after_event(
                    watched_view(old(watched).map()),
                    alias@,
                    v,
                ));
            },
            WatchUpdate::MarkRunning => {
                let _ = self.set_watched_status(watched, alias, JobStatus::Running(false));
            },
            WatchUpdate::Disarm => {
                self.remove_watched_timeout(watched, alias);
            },
            WatchUpdate::Escalate => {
                match self.kill_job(watched, alias, sigkill(), secs_to_millis(stop_wait), now) {
                    Ok(signals) => {
                        orders = signals;
                    },
                    Err(_) => {
                        assert(watched_view(watched.map()) =~= watched_view(old(watched).map()));
                    },
                }
            },
        }
        if v.remove {
            self.remove_service(alias);
            self.forget_job(alias);
        } else {
            self.apply_verdict(alias, v);
        }
        assert(orders_view(orders@) =~= orders_after_event(
            watched_view(old(watched).map()),
            alias@,
            v,
        ));
        orders
    }
}

} // verus!
