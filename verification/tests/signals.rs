use taskmeister::signal::{parse_signal, sigkill, signal_from_str, Signal};

#[test]
fn portable_names_give_their_numbers() {
    assert_eq!(signal_from_str("HUP"), Some(1));
    assert_eq!(signal_from_str("INT"), Some(2));
    assert_eq!(signal_from_str("QUIT"), Some(3));
    assert_eq!(signal_from_str("ILL"), Some(4));
    assert_eq!(signal_from_str("FPE"), Some(8));
    assert_eq!(signal_from_str("KILL"), Some(9));
    assert_eq!(signal_from_str("SEGV"), Some(11));
    assert_eq!(signal_from_str("ALRM"), Some(14));
    assert_eq!(signal_from_str("TERM"), Some(15));
}

#[test]
fn every_name_gives_the_platform_number() {
    let table = [
        ("HUP", libc::SIGHUP),
        ("INT", libc::SIGINT),
        ("QUIT", libc::SIGQUIT),
        ("ILL", libc::SIGILL),
        ("TRAP", libc::SIGTRAP),
        ("ABRT", libc::SIGABRT),
        ("BUS", libc::SIGBUS),
        ("FPE", libc::SIGFPE),
        ("KILL", libc::SIGKILL),
        ("USR1", libc::SIGUSR1),
        ("SEGV", libc::SIGSEGV),
        ("USR2", libc::SIGUSR2),
        ("PIPE", libc::SIGPIPE),
        ("ALRM", libc::SIGALRM),
        ("TERM", libc::SIGTERM),
        ("CHLD", libc::SIGCHLD),
        ("CONT", libc::SIGCONT),
        ("STOP", libc::SIGSTOP),
        ("TSTP", libc::SIGTSTP),
        ("TTIN", libc::SIGTTIN),
        ("TTOU", libc::SIGTTOU),
    ];
    for (name, number) in table {
        assert_eq!(signal_from_str(name), Some(number), "{name}");
        assert_eq!(signal_from_str(&format!("SIG{name}")), Some(number), "SIG{name}");
    }
}

#[test]
fn case_prefix_and_blanks_do_not_count() {
    assert_eq!(signal_from_str("term"), Some(15));
    assert_eq!(signal_from_str("SigTerm"), Some(15));
    assert_eq!(signal_from_str("  sigkill\n"), Some(9));
    assert_eq!(signal_from_str("\u{2003}hup\u{a0}"), Some(1));
    assert_eq!(parse_signal(" usr1 "), Some(Signal::Usr1));
    assert_eq!(parse_signal("sigstop"), Some(Signal::Stop));
}

#[test]
fn unknown_names_give_nothing() {
    assert_eq!(signal_from_str(""), None);
    assert_eq!(signal_from_str("SIG"), None);
    assert_eq!(signal_from_str("TERMX"), None);
    assert_eq!(signal_from_str("TER M"), None);
    assert_eq!(signal_from_str("15"), None);
    assert_eq!(signal_from_str("SIGSIGTERM"), None);
    assert_eq!(signal_from_str("KIL"), None);
}

#[test]
fn kill_signal_is_nine() {
    assert_eq!(sigkill(), 9);
    assert_eq!(sigkill(), libc::SIGKILL);
    assert_eq!(Signal::Kill.number(), libc::SIGKILL);
    assert_eq!(Signal::Usr2.number(), libc::SIGUSR2);
}
