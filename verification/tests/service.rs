use taskmeister::service::{RestartOptions, Service};

fn sample(alias: &str) -> Service {
    Service {
        file: format!("/etc/services/{alias}.toml"),
        alias: alias.to_string(),
        cmd: "/bin/sleep 60".to_string(),
        numprocs: 1,
        restart: RestartOptions::Never,
        start_time: 1,
        stop_signal: 15,
        stop_wait: 5,
        exit_codes: vec![0],
        stdout: "null".to_string(),
        stdin: "null".to_string(),
        stderr: "null".to_string(),
        env: vec![("HOME".to_string(), "/root".to_string())],
        working_dir: "/".to_string(),
        umask: 0o22,
    }
}

#[test]
fn default_restart_option_is_never() {
    assert_eq!(RestartOptions::default(), RestartOptions::Never);
}

#[test]
fn validate_exit_code_finds_listed_codes_only() {
    let mut service = sample("a");
    service.exit_codes = vec![0, 2, -1];
    assert!(service.validate_exit_code(0));
    assert!(service.validate_exit_code(2));
    assert!(service.validate_exit_code(-1));
    assert!(!service.validate_exit_code(1));
    service.exit_codes = vec![];
    assert!(!service.validate_exit_code(0));
}

#[test]
fn same_as_compares_every_field() {
    let a = sample("a");
    assert!(a.same_as(&sample("a")));
    assert!(a.same_as(&a.duplicate()));
    let mut b = sample("a");
    b.cmd = "/bin/sleep 61".to_string();
    assert!(!a.same_as(&b));
    let mut c = sample("a");
    c.file = "/elsewhere/a.toml".to_string();
    assert!(!a.same_as(&c));
    let mut d = sample("a");
    d.env = vec![("HOME".to_string(), "/home".to_string())];
    assert!(!a.same_as(&d));
    let mut e = sample("a");
    e.exit_codes = vec![0, 1];
    assert!(!a.same_as(&e));
    let mut f = sample("a");
    f.restart = RestartOptions::Always(3);
    assert!(!a.same_as(&f));
    let mut g = sample("a");
    g.env = vec![];
    assert!(!a.same_as(&g));
}

#[test]
fn start_splits_command_line_at_ascii_blanks() {
    let mut service = sample("a");
    service.cmd = "  /bin/echo \t hello   world\n".to_string();
    let launch = service.start().unwrap();
    assert_eq!(launch.program, "/bin/echo");
    assert_eq!(launch.args, vec!["hello".to_string(), "world".to_string()]);
    service.cmd = "/bin/true".to_string();
    let launch = service.start().unwrap();
    assert_eq!(launch.program, "/bin/true");
    assert!(launch.args.is_empty());
}

#[test]
fn start_keeps_non_ascii_blanks_inside_words() {
    let mut service = sample("a");
    service.cmd = "/bin/echo a\u{a0}b".to_string();
    let launch = service.start().unwrap();
    assert_eq!(launch.args, vec!["a\u{a0}b".to_string()]);
}

#[test]
fn start_without_command_is_an_io_error() {
    let mut service = sample("a");
    service.cmd = "   ".to_string();
    let error = service.start().unwrap_err();
    assert_eq!(error.message(), "Job I/O error: No command provided!");
}
