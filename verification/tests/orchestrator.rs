use taskmeister::dispatch::{OrchestratorMsg, OrchestratorRequest, Plan, CLI_HELP};
use taskmeister::jobs::{JobFlags, JobStatus};
use taskmeister::orchestrate::{Orchestrator, Order};
use taskmeister::protocol::ResponsePart;
use taskmeister::service::{RestartOptions, Service, ServiceAction, Services};
use taskmeister::text_map::TextMap;
use taskmeister::watcher::{JobEvent, Probe, WatchedJob, WatchedMap, WatchedTimeout, watch};

fn service(alias: &str, cmd: &str, restart: RestartOptions) -> Service {
    Service {
        file: format!("/etc/services/{alias}.toml"),
        alias: alias.to_string(),
        cmd: cmd.to_string(),
        numprocs: 1,
        restart,
        start_time: 1,
        stop_signal: 15,
        stop_wait: 5,
        exit_codes: vec![0],
        stdout: "null".to_string(),
        stdin: "null".to_string(),
        stderr: "null".to_string(),
        env: vec![],
        working_dir: "/".to_string(),
        umask: 0,
    }
}

fn orchestrator(services: Vec<Service>) -> (Orchestrator, WatchedMap) {
    (Orchestrator::new(Services::new(vec![], services).unwrap()), TextMap::new())
}

fn event(alias: &str, status: JobStatus) -> JobEvent {
    JobEvent { alias: alias.to_string(), status }
}

fn shown(orders: &[Order]) -> Vec<String> {
    orders.iter().map(|o| format!("{o:?}")).collect()
}

/// Starts `alias` as the server does: request, spawn, record.
fn start(o: &mut Orchestrator, w: &mut WatchedMap, alias: &str, pid: u32, now: u64) {
    let definition = o.start_request(alias).unwrap();
    let stale = o.start_job(w, &definition, pid, now, format!("[stamp {now}]"));
    assert!(stale.is_none());
}

#[test]
fn happy_path_start_and_stop() {
    let (mut o, mut w) = orchestrator(vec![service("echo", "/bin/sleep 60", RestartOptions::Never)]);
    assert_eq!(o.get_job_status("echo"), None);
    let definition = o.start_request("echo").unwrap();
    assert_eq!(definition.cmd, "/bin/sleep 60");
    assert_eq!(o.get_job_status("echo"), Some(JobStatus::Created));
    assert!(o.start_job(&mut w, &definition, 100, 0, "[now]".to_string()).is_none());
    assert_eq!(o.get_job_status("echo"), Some(JobStatus::Starting));
    assert_eq!(o.job_record("echo").unwrap().started.as_deref(), Some("[now]"));
    assert_eq!(
        w.get("echo").unwrap(),
        &vec![WatchedJob {
            pid: 100,
            previous_status: JobStatus::Starting,
            timeout: WatchedTimeout { created_at: 0, time: Some(1000) },
        }]
    );

    // First tick: the child runs.
    let events = watch(&mut w, &vec![(100, Probe::Alive)], 100);
    assert_eq!(events.len(), 1);
    for e in events {
        assert_eq!(e.status, JobStatus::Running(true));
        assert!(o.manage_event(&mut w, e, 100).is_empty());
    }
    assert_eq!(o.get_job_status("echo"), Some(JobStatus::Running(false)));
    assert_eq!(w.get("echo").unwrap()[0].previous_status, JobStatus::Running(false));

    // The startup grace ends: the job is healthy and the deadline is gone.
    let events = watch(&mut w, &vec![(100, Probe::Alive)], 1000);
    assert_eq!(events.len(), 1);
    for e in events {
        assert_eq!(e.status, JobStatus::TimedOut);
        assert!(o.manage_event(&mut w, e, 1000).is_empty());
    }
    assert_eq!(o.get_job_status("echo"), Some(JobStatus::Running(true)));
    assert_eq!(w.get("echo").unwrap()[0].timeout.time, None);

    // The watcher sees the child run and reports it once more, as a change.
    let events = watch(&mut w, &vec![(100, Probe::Alive)], 1100);
    for e in events {
        assert!(o.manage_event(&mut w, e, 1100).is_empty());
    }
    assert_eq!(o.get_job_status("echo"), Some(JobStatus::Running(true)));
    assert!(watch(&mut w, &vec![(100, Probe::Alive)], 1200).is_empty());

    // Stop: the stop signal goes out and the stop wait is armed.
    let orders = o.stop_request(&mut w, "echo", false, false, 2000).unwrap();
    assert_eq!(shown(&orders), vec!["Signal { pid: 100, signal: 15 }".to_string()]);
    assert_eq!(o.get_job_status("echo"), Some(JobStatus::Stopping));
    assert_eq!(
        w.get("echo").unwrap()[0].timeout,
        WatchedTimeout { created_at: 2000, time: Some(5000) }
    );

    // The child exits on the signal.
    let events = watch(&mut w, &vec![(100, Probe::Exited(Some(143)))], 2100);
    assert_eq!(events.len(), 1);
    for e in events {
        let orders = o.manage_event(&mut w, e, 2100);
        assert_eq!(
            shown(&orders),
            vec!["StopForwarding(\"echo\")".to_string(), "RemoveIo(\"echo\")".to_string()]
        );
    }
    assert_eq!(o.get_job_status("echo"), Some(JobStatus::Finished(143)));
    assert!(w.get("echo").is_none());
    assert_eq!(o.job_record("echo").unwrap().retries, 0);
}

#[test]
fn start_is_refused_while_the_job_is_active() {
    let (mut o, mut w) = orchestrator(vec![service("a", "/bin/a", RestartOptions::Never)]);
    start(&mut o, &mut w, "a", 1, 0);
    for status in [
        JobStatus::Starting,
        JobStatus::Running(false),
        JobStatus::Running(true),
        JobStatus::Stopping,
        JobStatus::TimedOut,
    ] {
        o.set_job_status("a", status);
        assert_eq!(o.start_request("a").unwrap_err().message(), "Service already started");
        assert_eq!(o.get_job_status("a"), Some(status));
    }
}

#[test]
fn start_of_unknown_service_is_refused_and_leaves_a_created_job() {
    let (mut o, _) = orchestrator(vec![]);
    assert_eq!(o.start_request("ghost").unwrap_err().message(), "Service not found");
    assert_eq!(o.get_job_status("ghost"), Some(JobStatus::Created));
}

#[test]
fn start_after_finish_notes_the_exit_code() {
    let (mut o, mut w) = orchestrator(vec![service("a", "/bin/a", RestartOptions::Never)]);
    start(&mut o, &mut w, "a", 1, 0);
    o.manage_event(&mut w, event("a", JobStatus::Finished(7)), 10);
    assert_eq!(o.job_record("a").unwrap().last_exit_code, 0);
    o.start_request("a").unwrap();
    assert_eq!(o.job_record("a").unwrap().last_exit_code, 7);
    assert_eq!(o.get_job_status("a"), Some(JobStatus::Finished(7)));
}

#[test]
fn stop_refusals() {
    let (mut o, mut w) = orchestrator(vec![service("a", "/bin/a", RestartOptions::Never)]);
    assert_eq!(
        o.stop_request(&mut w, "a", false, false, 0).unwrap_err().message(),
        "Job not found"
    );
    o.start_request("a").unwrap();
    assert_eq!(
        o.stop_request(&mut w, "a", false, false, 0).unwrap_err().message(),
        "Stopping service"
    );
    o.set_job_status("a", JobStatus::Finished(3));
    assert_eq!(
        o.stop_request(&mut w, "a", false, false, 0).unwrap_err().message(),
        "Stopping service"
    );
    assert_eq!(o.job_record("a").unwrap().last_exit_code, 3);
    for status in [JobStatus::Stopping, JobStatus::TimedOut] {
        o.set_job_status("a", status);
        assert_eq!(
            o.stop_request(&mut w, "a", false, false, 0).unwrap_err().message(),
            "Service already stopped"
        );
    }
    // Running, but no process on record.
    o.set_job_status("a", JobStatus::Running(true));
    assert_eq!(
        o.stop_request(&mut w, "a", true, true, 0).unwrap_err().message(),
        "Job not found"
    );
    assert_eq!(o.get_job_status("a"), Some(JobStatus::Stopping));
    assert_eq!(
        o.job_record("a").unwrap().flags,
        JobFlags { remove_service: true, restart_job: true }
    );
}

#[test]
fn restart_always_stops_at_the_retry_ceiling() {
    let (mut o, mut w) = orchestrator(vec![service("crash", "/bin/false", RestartOptions::Always(3))]);
    start(&mut o, &mut w, "crash", 1, 0);
    let mut finished = 0;
    let mut pid = 1;
    loop {
        let orders = o.manage_event(&mut w, event("crash", JobStatus::Finished(1)), 10);
        finished += 1;
        assert!(w.get("crash").is_none());
        if shown(&orders).contains(&"Start(\"crash\")".to_string()) {
            pid += 1;
            start(&mut o, &mut w, "crash", pid, 10);
        } else {
            break;
        }
    }
    // Three attempts are counted; the third reaches the ceiling of 3.
    assert_eq!(finished, 3);
    assert_eq!(o.get_job_status("crash"), Some(JobStatus::Finished(1)));
    assert_eq!(o.job_record("crash").unwrap().retries, 3);
}

#[test]
fn restart_ceiling_of_zero_never_restarts() {
    let (mut o, mut w) = orchestrator(vec![service("crash", "/bin/false", RestartOptions::Always(0))]);
    start(&mut o, &mut w, "crash", 1, 0);
    let orders = o.manage_event(&mut w, event("crash", JobStatus::Finished(1)), 10);
    assert_eq!(orders.len(), 2);
    assert_eq!(o.job_record("crash").unwrap().retries, 1);
}

#[test]
fn retries_stop_at_the_largest_count() {
    let (mut o, mut w) = orchestrator(vec![service("crash", "/bin/false", RestartOptions::Always(255))]);
    start(&mut o, &mut w, "crash", 1, 0);
    for _ in 0..300 {
        o.manage_event(&mut w, event("crash", JobStatus::Finished(1)), 10);
        o.set_job_status("crash", JobStatus::Running(true));
    }
    assert_eq!(o.job_record("crash").unwrap().retries, 255);
    assert_eq!(o.inc_job_retries("crash"), Some(255));
    assert_eq!(o.inc_job_retries("nobody"), None);
}

#[test]
fn on_error_with_expected_code_does_not_restart() {
    let mut definition = service("ok_exit", "/bin/true", RestartOptions::OnError(5));
    definition.exit_codes = vec![0];
    let (mut o, mut w) = orchestrator(vec![definition]);
    start(&mut o, &mut w, "ok_exit", 1, 0);
    let orders = o.manage_event(&mut w, event("ok_exit", JobStatus::Finished(0)), 10);
    assert_eq!(
        shown(&orders),
        vec!["StopForwarding(\"ok_exit\")".to_string(), "RemoveIo(\"ok_exit\")".to_string()]
    );
    assert_eq!(o.get_job_status("ok_exit"), Some(JobStatus::Finished(0)));
    assert_eq!(o.job_record("ok_exit").unwrap().retries, 0);
}

#[test]
fn on_error_with_unexpected_code_restarts_up_to_the_ceiling() {
    let (mut o, mut w) = orchestrator(vec![service("bad", "/bin/false", RestartOptions::OnError(2))]);
    start(&mut o, &mut w, "bad", 1, 0);
    let orders = o.manage_event(&mut w, event("bad", JobStatus::Finished(1)), 10);
    assert_eq!(shown(&orders).last().unwrap(), "Start(\"bad\")");
    assert_eq!(o.job_record("bad").unwrap().retries, 1);
    start(&mut o, &mut w, "bad", 2, 10);
    let orders = o.manage_event(&mut w, event("bad", JobStatus::Finished(1)), 20);
    assert_eq!(orders.len(), 2);
    assert_eq!(o.job_record("bad").unwrap().retries, 2);
}

#[test]
fn escalation_on_stop_timeout() {
    let mut definition = service("stubborn", "/bin/stubborn", RestartOptions::Never);
    definition.stop_wait = 2;
    let (mut o, mut w) = orchestrator(vec![definition]);
    start(&mut o, &mut w, "stubborn", 42, 0);
    o.manage_event(&mut w, event("stubborn", JobStatus::Running(true)), 100);
    let orders = o.stop_request(&mut w, "stubborn", false, false, 1000).unwrap();
    assert_eq!(shown(&orders), vec!["Signal { pid: 42, signal: 15 }".to_string()]);
    assert_eq!(o.get_job_status("stubborn"), Some(JobStatus::Stopping));

    // The child ignores the signal and is seen running; the job keeps stopping.
    let events = watch(&mut w, &vec![(42, Probe::Alive)], 2900);
    assert_eq!(events.len(), 1);
    for e in events {
        assert_eq!(e.status, JobStatus::Running(true));
        assert!(o.manage_event(&mut w, e, 2900).is_empty());
    }
    assert_eq!(o.get_job_status("stubborn"), Some(JobStatus::Stopping));
    assert!(watch(&mut w, &vec![(42, Probe::Alive)], 2950).is_empty());
    // The stop wait runs out.
    let events = watch(&mut w, &vec![(42, Probe::Alive)], 3000);
    assert_eq!(events.len(), 1);
    for e in events {
        assert_eq!(e.status, JobStatus::TimedOut);
        let orders = o.manage_event(&mut w, e, 3000);
        assert_eq!(shown(&orders), vec!["Signal { pid: 42, signal: 9 }".to_string()]);
    }
    assert_eq!(o.get_job_status("stubborn"), Some(JobStatus::Stopping));
    assert_eq!(
        w.get("stubborn").unwrap()[0].timeout,
        WatchedTimeout { created_at: 3000, time: Some(2000) }
    );

    // Killed: the watcher reports the exit.
    let events = watch(&mut w, &vec![(42, Probe::Exited(Some(9)))], 3100);
    assert_eq!(events.len(), 1);
    for e in events {
        assert_eq!(e.status, JobStatus::Finished(9));
        o.manage_event(&mut w, e, 3100);
    }
    assert_eq!(o.get_job_status("stubborn"), Some(JobStatus::Finished(9)));
    assert!(w.get("stubborn").is_none());
}

#[test]
fn events_pass_through_as_the_table_says() {
    let (mut o, mut w) = orchestrator(vec![service("a", "/bin/a", RestartOptions::Never)]);
    o.start_request("a").unwrap();
    let cases = [
        (JobStatus::Created, JobStatus::Starting, JobStatus::Starting),
        (JobStatus::Running(true), JobStatus::Stopping, JobStatus::Stopping),
        (JobStatus::Running(true), JobStatus::Created, JobStatus::Created),
        (JobStatus::Created, JobStatus::Running(true), JobStatus::Running(true)),
        (JobStatus::Finished(0), JobStatus::Running(false), JobStatus::Running(false)),
        (JobStatus::Running(false), JobStatus::Running(true), JobStatus::Running(true)),
        (JobStatus::Stopping, JobStatus::Running(true), JobStatus::Stopping),
        (JobStatus::Starting, JobStatus::Running(true), JobStatus::Running(false)),
        (JobStatus::TimedOut, JobStatus::Running(false), JobStatus::Running(true)),
        (JobStatus::Starting, JobStatus::TimedOut, JobStatus::Running(true)),
        (JobStatus::Running(false), JobStatus::TimedOut, JobStatus::Running(true)),
        (JobStatus::TimedOut, JobStatus::TimedOut, JobStatus::Stopping),
        (JobStatus::Stopping, JobStatus::TimedOut, JobStatus::Stopping),
        (JobStatus::Created, JobStatus::TimedOut, JobStatus::TimedOut),
        (JobStatus::Finished(1), JobStatus::TimedOut, JobStatus::TimedOut),
        (JobStatus::Running(true), JobStatus::Finished(4), JobStatus::Finished(4)),
    ];
    for (before, happened, after) in cases {
        o.set_job_status("a", before);
        o.manage_event(&mut w, event("a", happened), 0);
        assert_eq!(o.get_job_status("a"), Some(after), "{before:?} then {happened:?}");
    }
}

#[test]
fn event_for_unknown_alias_changes_nothing() {
    let (mut o, mut w) = orchestrator(vec![service("a", "/bin/a", RestartOptions::Never)]);
    // Known to the registry, but no job yet.
    assert!(o.manage_event(&mut w, event("a", JobStatus::Finished(0)), 0).is_empty());
    assert_eq!(o.get_job_status("a"), None);
    // A job, but no service.
    let _ = o.start_request("ghost");
    assert!(o.manage_event(&mut w, event("ghost", JobStatus::Running(true)), 0).is_empty());
    assert_eq!(o.get_job_status("ghost"), Some(JobStatus::Created));
}

#[test]
fn flags_are_consumed_by_the_finish() {
    let (mut o, mut w) = orchestrator(vec![service("a", "/bin/a", RestartOptions::Always(9))]);
    start(&mut o, &mut w, "a", 1, 0);
    o.stop_request(&mut w, "a", false, true, 10).unwrap();
    assert_eq!(
        o.job_record("a").unwrap().flags,
        JobFlags { remove_service: false, restart_job: true }
    );
    let orders = o.manage_event(&mut w, event("a", JobStatus::Finished(0)), 20);
    assert_eq!(
        shown(&orders),
        vec![
            "StopForwarding(\"a\")".to_string(),
            "RemoveIo(\"a\")".to_string(),
            "Start(\"a\")".to_string()
        ]
    );
    assert_eq!(o.job_record("a").unwrap().flags, JobFlags::default());
    // A stop counts no retry, whatever the policy.
    assert_eq!(o.job_record("a").unwrap().retries, 0);
    assert_eq!(o.consume_job_flags("a"), JobFlags::default());
    assert_eq!(o.consume_job_flags("nobody"), JobFlags::default());
}

#[test]
fn removed_service_refuses_requests_until_reloaded() {
    let (mut o, mut w) = orchestrator(vec![service("a", "/bin/a", RestartOptions::Never)]);
    start(&mut o, &mut w, "a", 1, 0);
    o.stop_request(&mut w, "a", true, false, 10).unwrap();
    o.manage_event(&mut w, event("a", JobStatus::Finished(0)), 20);
    assert!(o.get_services().get("a").is_none());
    assert_eq!(o.get_job_status("a"), None);
    assert_eq!(
        o.job_status(&w, "a", &vec![], &vec![]).unwrap_err().message(),
        "Job not found"
    );
    assert_eq!(
        o.stop_request(&mut w, "a", false, false, 30).unwrap_err().message(),
        "Job not found"
    );
    assert_eq!(o.start_request("a").unwrap_err().message(), "Service not found");
    assert_eq!(
        o.job_status(&w, "a", &vec![], &vec![]).unwrap_err().message(),
        "Service not found"
    );
    assert_eq!(
        o.stop_request(&mut w, "a", false, false, 30).unwrap_err().message(),
        "Stopping service"
    );
    // A reload brings the service back; it can be started again.
    let actions = o.reload(vec![service("a", "/bin/a", RestartOptions::Never)]).unwrap();
    assert!(actions.is_empty());
    assert!(o.start_request("a").is_ok());
}

#[test]
fn start_stop_start_keeps_retries_and_refreshes_the_stamp() {
    let (mut o, mut w) = orchestrator(vec![service("a", "/bin/a", RestartOptions::Always(5))]);
    start(&mut o, &mut w, "a", 1, 0);
    o.manage_event(&mut w, event("a", JobStatus::Finished(1)), 5);
    assert_eq!(o.job_record("a").unwrap().retries, 1);
    start(&mut o, &mut w, "a", 2, 10);
    assert_eq!(o.job_record("a").unwrap().started.as_deref(), Some("[stamp 10]"));
    o.stop_request(&mut w, "a", false, false, 20).unwrap();
    o.manage_event(&mut w, event("a", JobStatus::Finished(0)), 30);
    start(&mut o, &mut w, "a", 3, 40);
    let job = o.job_record("a").unwrap();
    assert_eq!(job.status, JobStatus::Starting);
    assert_eq!(job.retries, 1);
    assert_eq!(job.started.as_deref(), Some("[stamp 40]"));
    assert_eq!(w.get("a").unwrap()[0].pid, 3);
}

#[test]
fn reload_with_modified_definition_restarts_the_job() {
    let (mut o, mut w) = orchestrator(vec![service("svc", "/bin/sleep 100", RestartOptions::Never)]);
    start(&mut o, &mut w, "svc", 1, 0);
    o.manage_event(&mut w, event("svc", JobStatus::Running(true)), 10);
    let actions = o.reload(vec![service("svc", "/bin/sleep 200", RestartOptions::Never)]).unwrap();
    assert_eq!(actions.len(), 1);
    assert!(matches!(&actions[0], ServiceAction::Restart(alias) if alias == "svc"));
    let orders = o.reload_step(&mut w, &actions[0], 20).unwrap();
    assert_eq!(shown(&orders), vec!["Signal { pid: 1, signal: 15 }".to_string()]);
    assert_eq!(
        o.job_record("svc").unwrap().flags,
        JobFlags { remove_service: true, restart_job: true }
    );
    let orders = o.manage_event(&mut w, event("svc", JobStatus::Finished(143)), 30);
    assert_eq!(
        shown(&orders),
        vec![
            "StopForwarding(\"svc\")".to_string(),
            "RemoveIo(\"svc\")".to_string(),
            "Start(\"svc\")".to_string()
        ]
    );
    // The finish deleted the service and the job record, as the flag asked,
    // so the start that was ordered finds no service.
    assert!(o.get_services().get("svc").is_none());
    assert_eq!(o.get_job_status("svc"), None);
    assert_eq!(o.start_request("svc").unwrap_err().message(), "Service not found");
    assert_eq!(o.get_job_status("svc"), Some(JobStatus::Created));
}

#[test]
fn reload_step_counts_a_stopped_job_as_restarted() {
    let (mut o, mut w) = orchestrator(vec![service("a", "/bin/a", RestartOptions::Never)]);
    o.start_request("a").unwrap();
    let restart = ServiceAction::Restart("a".to_string());
    assert!(o.reload_step(&mut w, &restart, 0).unwrap().is_empty());
    let stop = ServiceAction::Stop("a".to_string());
    assert_eq!(o.reload_step(&mut w, &stop, 0).unwrap_err().message(), "Stopping service");
    let unknown = ServiceAction::Restart("ghost".to_string());
    assert_eq!(o.reload_step(&mut w, &unknown, 0).unwrap_err().message(), "Job not found");
    assert!(o.reload_step(&mut w, &ServiceAction::Help, 0).unwrap().is_empty());
}

#[test]
fn reload_with_redefined_alias_fails() {
    let (mut o, _) = orchestrator(vec![service("a", "/bin/a", RestartOptions::Never)]);
    let outcome = o.reload(vec![
        service("b", "/bin/b", RestartOptions::Never),
        service("b", "/bin/b", RestartOptions::Never),
    ]);
    assert_eq!(outcome.unwrap_err().message(), "While updating services");
    assert!(o.get_services().get("a").is_some());
    assert!(o.get_services().get("b").is_none());
}

#[test]
fn watched_records_can_be_read_and_changed() {
    let (mut o, mut w) = orchestrator(vec![service("a", "/bin/a", RestartOptions::Never)]);
    assert_eq!(o.get_pid(&w, "a").unwrap_err().message(), "Job not found");
    assert_eq!(
        o.set_watched_status(&mut w, "a", JobStatus::Stopping).unwrap_err().message(),
        "Job not found"
    );
    assert_eq!(o.kill_job(&mut w, "a", 9, 10, 0).unwrap_err().message(), "Job not found");
    o.remove_watched_timeout(&mut w, "a");
    assert!(o.remove_watched(&mut w, "a").is_none());
    start(&mut o, &mut w, "a", 77, 0);
    assert_eq!(o.get_pid(&w, "a").unwrap(), vec![77]);
    o.set_watched_status(&mut w, "a", JobStatus::Running(false)).unwrap();
    assert_eq!(w.get("a").unwrap()[0].previous_status, JobStatus::Running(false));
    let orders = o.kill_job(&mut w, "a", 3, 250, 40).unwrap();
    assert_eq!(shown(&orders), vec!["Signal { pid: 77, signal: 3 }".to_string()]);
    assert_eq!(
        w.get("a").unwrap()[0].timeout,
        WatchedTimeout { created_at: 40, time: Some(250) }
    );
    o.remove_watched_timeout(&mut w, "a");
    assert_eq!(w.get("a").unwrap()[0].timeout, WatchedTimeout { created_at: 40, time: None });
    let removed = o.remove_watched(&mut w, "a").unwrap();
    assert_eq!(removed.len(), 1);
    assert!(w.get("a").is_none());
    o.set_job_timestamp("a", "[later]".to_string());
    assert_eq!(o.job_record("a").unwrap().started.as_deref(), Some("[later]"));
    assert!(o.remove_service("a").is_some());
    assert!(o.remove_service("a").is_none());
}

fn request(action: ServiceAction) -> OrchestratorMsg {
    OrchestratorMsg::Request(OrchestratorRequest { action, ticket: 1 })
}

fn reply_text(plan: Plan) -> String {
    match plan {
        Plan::Reply(part) => format!("{part:?}"),
        other => panic!("expected a reply, got {other:?}"),
    }
}

#[test]
fn orchestrate_dispatches_requests() {
    let (mut o, mut w) = orchestrator(vec![
        service("a", "/bin/a", RestartOptions::Never),
        service("b", "/bin/b", RestartOptions::Never),
    ]);
    match o.orchestrate(&mut w, request(ServiceAction::Start("a".to_string())), 0) {
        Plan::Spawn(definition) => {
            assert_eq!(definition.cmd, "/bin/a");
            o.start_job(&mut w, &definition, 5, 0, "[t]".to_string());
        }
        other => panic!("unexpected plan {other:?}"),
    }
    assert_eq!(
        reply_text(o.orchestrate(&mut w, request(ServiceAction::Start("a".to_string())), 1)),
        "Error(\"Service already started\")"
    );
    assert_eq!(
        reply_text(o.orchestrate(&mut w, request(ServiceAction::Start("zz".to_string())), 1)),
        "Error(\"Service not found\")"
    );
    match o.orchestrate(&mut w, request(ServiceAction::Restart("a".to_string())), 2) {
        Plan::Deliver(orders) => {
            assert_eq!(shown(&orders), vec!["Signal { pid: 5, signal: 15 }".to_string()])
        }
        other => panic!("unexpected plan {other:?}"),
    }
    assert_eq!(
        o.job_record("a").unwrap().flags,
        JobFlags { remove_service: false, restart_job: true }
    );
    assert_eq!(
        reply_text(o.orchestrate(&mut w, request(ServiceAction::Stop("a".to_string())), 3)),
        "Error(\"Service already stopped\")"
    );
    match o.orchestrate(&mut w, OrchestratorMsg::Event(event("a", JobStatus::Finished(0))), 4) {
        Plan::Perform(orders) => assert_eq!(orders.len(), 3),
        other => panic!("unexpected plan {other:?}"),
    }
    // Restarting a job that has stopped already counts as done.
    assert_eq!(
        reply_text(o.orchestrate(&mut w, request(ServiceAction::Restart("a".to_string())), 5)),
        "Info(\"OK\")"
    );
    assert_eq!(
        reply_text(o.orchestrate(&mut w, request(ServiceAction::Stop("a".to_string())), 5)),
        "Error(\"Stopping service\")"
    );
    assert_eq!(
        reply_text(o.orchestrate(&mut w, request(ServiceAction::Stop("b".to_string())), 5)),
        "Error(\"Job not found\")"
    );
    assert_eq!(
        reply_text(o.orchestrate(&mut w, request(ServiceAction::List), 6)),
        "Info(\"a\\nb\")"
    );
    match o.orchestrate(&mut w, request(ServiceAction::Help), 6) {
        Plan::Reply(ResponsePart::Info(text)) => assert_eq!(text, CLI_HELP),
        other => panic!("unexpected plan {other:?}"),
    }
    assert!(matches!(
        o.orchestrate(&mut w, request(ServiceAction::Status("a".to_string())), 6),
        Plan::Report(alias) if alias == "a"
    ));
    assert!(matches!(
        o.orchestrate(&mut w, request(ServiceAction::Attach("a".to_string())), 6),
        Plan::Attach(alias) if alias == "a"
    ));
    assert!(matches!(
        o.orchestrate(&mut w, request(ServiceAction::Detach("a".to_string())), 6),
        Plan::Detach(alias) if alias == "a"
    ));
    assert!(matches!(
        o.orchestrate(&mut w, request(ServiceAction::Input("a".to_string(), vec![1, 2])), 6),
        Plan::Input(alias, bytes) if alias == "a" && bytes == vec![1, 2]
    ));
    assert!(matches!(o.orchestrate(&mut w, request(ServiceAction::Reload), 6), Plan::Reload));
    assert!(matches!(
        o.orchestrate(&mut w, request(ServiceAction::StopServer), 6),
        Plan::StopServer
    ));
}
