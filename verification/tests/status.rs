use taskmeister::jobs::JobStatus;
use taskmeister::orchestrate::Orchestrator;
use taskmeister::service::{RestartOptions, Service, Services};
use taskmeister::io_router::{last_bytes, SNAPSHOT_LEN};
use taskmeister::text_map::TextMap;
use taskmeister::watcher::{WatchedJob, WatchedMap, WatchedTimeout};

fn service(alias: &str) -> Service {
    Service {
        file: format!("/etc/services/{alias}.toml"),
        alias: alias.to_string(),
        cmd: "/bin/sleep 60".to_string(),
        numprocs: 1,
        restart: RestartOptions::Never,
        start_time: 1,
        stop_signal: 15,
        stop_wait: 5,
        exit_codes: vec![0],
        stdout: "null".to_string(),
        stdin: "null".to_string(),
        stderr: "null".to_string(),
        env: vec![],
        working_dir: "/".to_string(),
        umask: 0,
    }
}

#[test]
fn statuses_are_described_as_debug_prints_them() {
    for status in [
        JobStatus::Created,
        JobStatus::Starting,
        JobStatus::Running(true),
        JobStatus::Running(false),
        JobStatus::Stopping,
        JobStatus::Finished(0),
        JobStatus::Finished(143),
        JobStatus::Finished(-1),
        JobStatus::Finished(i32::MAX),
        JobStatus::Finished(i32::MIN),
        JobStatus::TimedOut,
    ] {
        assert_eq!(status.describe(), format!("{status:?}"));
    }
}

#[test]
fn last_bytes_keeps_the_end() {
    assert_eq!(SNAPSHOT_LEN, 512);
    let bytes: Vec<u8> = (0..10).collect();
    assert_eq!(last_bytes(&bytes, 3), &[7, 8, 9]);
    assert_eq!(last_bytes(&bytes, 10), &bytes[..]);
    assert_eq!(last_bytes(&bytes, 11), &bytes[..]);
    assert_eq!(last_bytes(&bytes, 0), &[] as &[u8]);
    assert_eq!(last_bytes(&vec![], 5), &[] as &[u8]);
}

#[test]
fn report_of_a_running_job() {
    let mut o = Orchestrator::new(Services::new(vec![], vec![service("web")]).unwrap());
    let mut w: WatchedMap = TextMap::new();
    let definition = o.start_request("web").unwrap();
    o.start_job(&mut w, &definition, 4321, 0, "[1/1/1970 0:0:0 UTC]".to_string());
    let report = o.job_status(&w, "web", &b"hello\n".to_vec(), &b"warn\n".to_vec()).unwrap();
    assert_eq!(
        report,
        "status: Starting Since [1/1/1970 0:0:0 UTC]\nPIDs: 4321\nConfiguration: /etc/services/web.toml\nStdout:\n\nhello\n\n\nStderr:\n\nwarn\n"
    );
}

#[test]
fn report_of_a_job_that_never_ran() {
    let mut o = Orchestrator::new(Services::new(vec![], vec![service("web")]).unwrap());
    let w: WatchedMap = TextMap::new();
    o.start_request("web").unwrap();
    let report = o.job_status(&w, "web", &vec![], &vec![]).unwrap();
    assert_eq!(
        report,
        "status: Created Since []\nPIDs: \nConfiguration: /etc/services/web.toml\nStdout:\n\n\n\nStderr:\n\n"
    );
}

#[test]
fn report_lists_all_processes_and_shows_the_last_bytes_only() {
    let mut o = Orchestrator::new(Services::new(vec![], vec![service("web")]).unwrap());
    let mut w: WatchedMap = TextMap::new();
    o.start_request("web").unwrap();
    o.set_job_status("web", JobStatus::Finished(-3));
    let timeout = WatchedTimeout::new(None, 0);
    w.insert(
        "web".to_string(),
        vec![
            WatchedJob { pid: 1, timeout, previous_status: JobStatus::Starting },
            WatchedJob { pid: 20, timeout, previous_status: JobStatus::Starting },
            WatchedJob { pid: 300, timeout, previous_status: JobStatus::Starting },
        ],
    );
    let mut stdout = vec![b'x'; 100];
    stdout.extend(vec![b'y'; 512]);
    let mut stderr = vec![b'e'; 511];
    stderr.push(0xff);
    let report = o.job_status(&w, "web", &stdout, &stderr).unwrap();
    let expected = format!(
        "status: Finished(-3) Since []\nPIDs: 1, 20, 300\nConfiguration: /etc/services/web.toml\nStdout:\n\n{}\n\nStderr:\n\n{}\u{fffd}",
        "y".repeat(512),
        "e".repeat(511)
    );
    assert_eq!(report, expected);
}

#[test]
fn report_is_refused_for_unknown_job_or_service() {
    let mut o = Orchestrator::new(Services::new(vec![], vec![service("web")]).unwrap());
    let w: WatchedMap = TextMap::new();
    assert_eq!(o.job_status(&w, "web", &vec![], &vec![]).unwrap_err().message(), "Job not found");
    let _ = o.start_request("ghost");
    assert_eq!(
        o.job_status(&w, "ghost", &vec![], &vec![]).unwrap_err().message(),
        "Service not found"
    );
}
