use taskmeister::dispatch::{AttachEvent, Attachment, AttachStep};
use taskmeister::orchestrate::{Orchestrator, OrchestratorError};
use taskmeister::protocol::{command_to_action, process_request, Admission, Request, ResponsePart};
use taskmeister::service::{ServiceAction, Services};

fn request(command: &str, args: &[&str], stream: Option<Vec<u8>>) -> Request {
    Request {
        command: command.to_string(),
        flags: vec![],
        args: args.iter().map(|a| a.to_string()).collect(),
        stream,
    }
}

fn resolved(command: &str, args: &[&str]) -> String {
    format!("{:?}", command_to_action(request(command, args, None)))
}

#[test]
fn every_command_has_a_long_and_a_short_form() {
    let table = [
        ("start", "st", "Some(Start(\"web\"))"),
        ("stop", "sp", "Some(Stop(\"web\"))"),
        ("restart", "rs", "Some(Restart(\"web\"))"),
        ("status", "stat", "Some(Status(\"web\"))"),
        ("attach", "at", "Some(Attach(\"web\"))"),
        ("detach", "dt", "Some(Detach(\"web\"))"),
        ("reload", "rl", "Some(Reload)"),
        ("list", "ls", "Some(List)"),
        ("help", "?", "Some(Help)"),
    ];
    for (long, short, expected) in table {
        assert_eq!(resolved(long, &["web"]), expected, "{long}");
        assert_eq!(resolved(short, &["web", "other"]), expected, "{short}");
    }
    assert_eq!(resolved("stop_server", &[]), "Some(StopServer)");
}

#[test]
fn missing_argument_gives_the_empty_alias() {
    assert_eq!(resolved("start", &[]), "Some(Start(\"\"))");
}

#[test]
fn unknown_commands_resolve_to_nothing() {
    for command in ["", "START", "star", "starts", "stream", "quit", " st"] {
        assert_eq!(resolved(command, &["web"]), "None", "{command:?}");
    }
}

#[test]
fn stream_bytes_override_the_command() {
    for command in ["", "start", "nonsense"] {
        let action = command_to_action(request(command, &["web"], Some(vec![104, 105])));
        assert_eq!(format!("{action:?}"), "Some(Input(\"web\", [104, 105]))");
    }
}

#[test]
fn gateway_rejects_unknown_command_with_single_error() {
    match process_request(request("bogus", &[], None)) {
        Admission::Reject(parts) => {
            assert_eq!(format!("{parts:?}"), "[Error(\"Command not found\")]");
        }
        other => panic!("unexpected admission {other:?}"),
    }
}

#[test]
fn gateway_streams_attach_and_collects_the_rest() {
    assert!(matches!(
        process_request(request("attach", &["web"], None)),
        Admission::Stream(ServiceAction::Attach(alias)) if alias == "web"
    ));
    assert!(matches!(
        process_request(request("start", &["web"], None)),
        Admission::Collect(ServiceAction::Start(alias)) if alias == "web"
    ));
    assert!(matches!(
        process_request(request("at", &["web"], Some(vec![1]))),
        Admission::Collect(ServiceAction::Input(alias, bytes)) if alias == "web" && bytes == vec![1]
    ));
}

#[test]
fn error_messages() {
    let table = [
        (OrchestratorError::ServiceNotFound, "Service not found"),
        (OrchestratorError::ServiceUpdate, "While updating services"),
        (OrchestratorError::ServiceStopped, "Stopping service"),
        (OrchestratorError::ServiceAlreadyStarted, "Service already started"),
        (OrchestratorError::ServiceAlreadyStopping, "Service already stopped"),
        (OrchestratorError::JobNotFound, "Job not found"),
        (
            OrchestratorError::JobHasNoIoHandle,
            "Job has no handle for either stdin/stdout/stderr",
        ),
        (
            OrchestratorError::JobIoError("No such file or directory (os error 2)".to_string()),
            "Job I/O error: No such file or directory (os error 2)",
        ),
        (OrchestratorError::JobAlreadyAttached, "JobAlreadyAttached"),
        (OrchestratorError::InternalChannelSendError, "Internal channel send error"),
        (OrchestratorError::InternalChannelReceiveError, "Internal channel receive error"),
    ];
    for (error, message) in table {
        assert_eq!(error.message(), message);
    }
}

#[test]
fn parts_show_as_text() {
    assert_eq!(ResponsePart::Info("all good".to_string()).to_text(), "all good");
    assert_eq!(ResponsePart::Error("bad".to_string()).to_text(), "Error: bad");
    assert_eq!(ResponsePart::Stream(b"line\n".to_vec()).to_text(), "line\n");
    assert_eq!(ResponsePart::Stream("h\u{e9}".as_bytes().to_vec()).to_text(), "h\u{e9}");
}

#[test]
fn streamed_bytes_that_are_no_text_show_replacement_characters() {
    let part = ResponsePart::Stream(vec![b'a', 0xff, b'b', 0xc3]);
    assert_eq!(part.to_text(), "a\u{fffd}b\u{fffd}");
    assert_eq!(ResponsePart::Stream(vec![]).to_text(), "");
}

#[test]
fn outcomes_become_parts() {
    assert_eq!(format!("{:?}", ResponsePart::ok()), "Info(\"OK\")");
    assert_eq!(format!("{:?}", ResponsePart::from_done(Ok(()))), "Info(\"OK\")");
    assert_eq!(
        format!("{:?}", ResponsePart::from_done(Err(OrchestratorError::JobNotFound))),
        "Error(\"Job not found\")"
    );
    assert_eq!(
        format!("{:?}", ResponsePart::from_text(Ok("report".to_string()))),
        "Info(\"report\")"
    );
    assert_eq!(
        format!("{:?}", ResponsePart::from_text(Err(OrchestratorError::ServiceNotFound))),
        "Error(\"Service not found\")"
    );
    assert_eq!(format!("{:?}", ResponsePart::from_stream(Ok(vec![7]))), "Stream([7])");
    assert_eq!(
        format!("{:?}", ResponsePart::from_stream(Err(OrchestratorError::ServiceStopped))),
        "Error(\"Stopping service\")"
    );
}

fn attachment(alias: &str) -> Attachment {
    Orchestrator::new(Services::new(vec![], vec![]).unwrap()).attach_job(alias)
}

fn shown(step: &AttachStep) -> String {
    format!("{:?} {}", step.part, step.stop_forwarding)
}

#[test]
fn attachment_streams_until_the_output_ends() {
    let mut a = attachment("counter");
    assert_eq!(a.job(), "counter");
    assert!(a.streaming());
    assert_eq!(shown(&a.step(AttachEvent::Data(vec![49, 10]))), "Some(Stream([49, 10])) false");
    assert_eq!(shown(&a.step(AttachEvent::Data(vec![50, 10]))), "Some(Stream([50, 10])) false");
    assert!(a.streaming());
    assert_eq!(shown(&a.step(AttachEvent::Closed)), "Some(Info(\"OK\")) true");
    assert!(!a.streaming());
    // Nothing is sent once forwarding was stopped.
    assert_eq!(shown(&a.step(AttachEvent::Data(vec![51]))), "None false");
    assert_eq!(shown(&a.step(AttachEvent::Closed)), "None false");
}

#[test]
fn refused_attachment_reports_the_refusal() {
    let mut a = attachment("counter");
    assert_eq!(
        shown(&a.step(AttachEvent::Refused(OrchestratorError::JobAlreadyAttached))),
        "Some(Error(\"JobAlreadyAttached\")) false"
    );
    assert!(!a.streaming());
    let mut b = attachment("ghost");
    assert_eq!(
        shown(&b.step(AttachEvent::Refused(OrchestratorError::JobNotFound))),
        "Some(Error(\"Job not found\")) false"
    );
}

#[test]
fn attachment_ends_when_the_client_is_gone() {
    let mut a = attachment("counter");
    assert_eq!(
        shown(&a.step(AttachEvent::PeerGone("sending on a closed channel".to_string()))),
        "Some(Error(\"sending on a closed channel\")) true"
    );
    assert!(!a.streaming());
}
