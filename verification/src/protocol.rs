//! The wire protocol's values: requests, response parts, and how a request
//! resolves to an action of the orchestrator.

use vstd::prelude::*;
use vstd::string::StringExecFns;
use crate::orchestrate::{ErrorView, OrchestratorError};
use crate::service::{ActionView, ServiceAction};
use crate::text::same_text;

verus! {

/// A request as the client sends it.
#[derive(Debug)]
pub struct Request {
    pub command: String,
    pub flags: Vec<String>,
    pub args: Vec<String>,
    pub stream: Option<Vec<u8>>,
}

/// One part of a response.
#[derive(Debug)]
pub enum ResponsePart {
    Error(String),
    Info(String),
    Stream(Vec<u8>),
}

/// A response: the parts in the order they were produced.
pub type Response = Vec<ResponsePart>;

/// A response part as plain mathematical values.
pub enum PartView {
    Error(Seq<char>),
    Info(Seq<char>),
    Stream(Seq<u8>),
}

impl View for ResponsePart {
    type V = PartView;

    open spec fn view(&self) -> PartView {
        match self {
            ResponsePart::Error(message) => PartView::Error(message@),
            ResponsePart::Info(message) => PartView::Info(message@),
            ResponsePart::Stream(bytes) => PartView::Stream(bytes@),
        }
    }
}

/// The view of each part of a response.
pub open spec fn parts_view(parts: Seq<ResponsePart>) -> Seq<PartView> {
    Seq::new(parts.len(), |i: int| parts[i]@)
}

/// The text that `String::from_utf8_lossy` makes of a byte sequence: the
/// decoded characters, with each invalid sequence replaced by U+FFFD.
pub uninterp spec fn utf8_lossy(bytes: Seq<u8>) -> Seq<char>;

/// Calls `String::from_utf8_lossy` and copies the result into a `String`.
/// The result is a function of the bytes alone; the contract gives it its
/// name and claims nothing else of it.
#[verifier::external_body]
pub(crate) fn lossy_text(bytes: &[u8]) -> (text: String)
    ensures
        text@ == utf8_lossy(bytes@),
{
    String::from_utf8_lossy(bytes).into_owned()
}

/// The message that an error shows to the client.
pub open spec fn error_text(error: ErrorView) -> Seq<char> {
    match error {
        ErrorView::ServiceNotFound => "Service not found"@,
        ErrorView::ServiceUpdate => "While updating services"@,
        ErrorView::ServiceStopped => "Stopping service"@,
        ErrorView::ServiceAlreadyStarted => "Service already started"@,
        ErrorView::ServiceAlreadyStopping => "Service already stopped"@,
        ErrorView::JobNotFound => "Job not found"@,
        ErrorView::JobHasNoIoHandle => "Job has no handle for either stdin/stdout/stderr"@,
        ErrorView::JobIoError(text) => "Job I/O error: "@ + text,
        ErrorView::JobAlreadyAttached => "JobAlreadyAttached"@,
        ErrorView::InternalChannelSendError => "Internal channel send error"@,
        ErrorView::InternalChannelReceiveError => "Internal channel receive error"@,
    }
}

impl OrchestratorError {
    /// The message that the error shows to the client.
    pub fn message(&self) -> (text: String)
        ensures
            text@ == error_text(self@),
    {
        match self {
            OrchestratorError::ServiceNotFound => String::from_str("Service not found"),
            OrchestratorError::ServiceUpdate => String::from_str("While updating services"),
            OrchestratorError::ServiceStopped => String::from_str("Stopping service"),
            OrchestratorError::ServiceAlreadyStarted => String::from_str("Service already started"),
            OrchestratorError::ServiceAlreadyStopping => String::from_str(
                "Service already stopped",
            ),
            OrchestratorError::JobNotFound => String::from_str("Job not found"),
            OrchestratorError::JobHasNoIoHandle => String::from_str(
                "Job has no handle for either stdin/stdout/stderr",
            ),
            OrchestratorError::JobIoError(text) => {
                let mut message = String::from_str("Job I/O error: ");
                message.append(text.as_str());
                message
            },
            OrchestratorError::JobAlreadyAttached => String::from_str("JobAlreadyAttached"),
            OrchestratorError::InternalChannelSendError => String::from_str(
                "Internal channel send error",
            ),
            OrchestratorError::InternalChannelReceiveError => String::from_str(
                "Internal channel receive error",
            ),
        }
    }
}

/// What a response part shows on the client's terminal.
pub open spec fn part_text(part: PartView) -> Seq<char> {
    match part {
        PartView::Info(message) => message,
        PartView::Error(message) => "Error: "@ + message,
        PartView::Stream(bytes) => utf8_lossy(bytes),
    }
}

impl ResponsePart {
    /// What the part shows on the client's terminal: an information as it
    /// is, an error behind `Error: `, streamed bytes as text.
    pub fn to_text(&self) -> (text: String)
        ensures
            text@ == part_text(self@),
    {
        match self {
            ResponsePart::Info(message) => message.clone(),
            ResponsePart::Error(message) => {
                let mut text = String::from_str("Error: ");
                text.append(message.as_str());
                text
            },
            ResponsePart::Stream(bytes) => lossy_text(bytes.as_slice()),
        }
    }

    /// The part that acknowledges success.
    pub fn ok() -> (part: ResponsePart)
        ensures
            part@ == PartView::Info("OK"@),
    {
        ResponsePart::Info(String::from_str("OK"))
    }

    /// The part that reports the outcome of a request without a result:
    /// `OK`, or the error's message.
    pub fn from_done(outcome: Result<(), OrchestratorError>) -> (part: ResponsePart)
        ensures
            part@ == (match outcome {
                Ok(_) => PartView::Info("OK"@),
                Err(e) => PartView::Error(error_text(e@)),
            }),
    {
        match outcome {
            Ok(_) => ResponsePart::ok(),
            Err(e) => ResponsePart::Error(e.message()),
        }
    }

    /// The part that reports the outcome of a request for a text: the text,
    /// or the error's message.
    pub fn from_text(outcome: Result<String, OrchestratorError>) -> (part: ResponsePart)
        ensures
            part@ == (match outcome {
                Ok(text) => PartView::Info(text@),
                Err(e) => PartView::Error(error_text(e@)),
            }),
    {
        match outcome {
            Ok(text) => ResponsePart::Info(text),
            Err(e) => ResponsePart::Error(e.message()),
        }
    }

    /// The part that reports the outcome of a request for bytes: the bytes
    /// as a stream, or the error's message.
    pub fn from_stream(outcome: Result<Vec<u8>, OrchestratorError>) -> (part: ResponsePart)
        ensures
            part@ == (match outcome {
                Ok(bytes) => PartView::Stream(bytes@),
                Err(e) => PartView::Error(error_text(e@)),
            }),
    {
        match outcome {
            Ok(bytes) => ResponsePart::Stream(bytes),
            Err(e) => ResponsePart::Error(e.message()),
        }
    }
}

/// The action that a command names for `alias`. Each command has a long
/// and a short form.
pub open spec fn named_action(command: Seq<char>, alias: Seq<char>) -> Option<ActionView> {
    if command == "start"@ || command == "st"@ {
        Some(ActionView::Start(alias))
    } else if command == "stop"@ || command == "sp"@ {
        Some(ActionView::Stop(alias))
    } else if command == "restart"@ || command == "rs"@ {
        Some(ActionView::Restart(alias))
    } else if command == "status"@ || command == "stat"@ {
        Some(ActionView::Status(alias))
    } else if command == "attach"@ || command == "at"@ {
        Some(ActionView::Attach(alias))
    } else if command == "detach"@ || command == "dt"@ {
        Some(ActionView::Detach(alias))
    } else if command == "reload"@ || command == "rl"@ {
        Some(ActionView::Reload)
    } else if command == "list"@ || command == "ls"@ {
        Some(ActionView::List)
    } else if command == "help"@ || command == "?"@ {
        Some(ActionView::Help)
    } else if command == "stop_server"@ {
        Some(ActionView::StopServer)
    } else {
        None
    }
}

/// The alias that a request is about: its first argument, or the empty
/// text if it has none.
pub open spec fn request_alias(args: Seq<String>) -> Seq<char> {
    if args.len() > 0 {
        args[0]@
    } else {
        Seq::empty()
    }
}

/// The action that a request resolves to. Bytes in `stream` are input for
/// the job, whatever the command says.
pub open spec fn request_action(
    command: Seq<char>,
    args: Seq<String>,
    stream: Option<Vec<u8>>,
) -> Option<ActionView> {
    match stream {
        Some(bytes) => Some(ActionView::Input(request_alias(args), bytes@)),
        None => named_action(command, request_alias(args)),
    }
}

/// Resolves a request to an action, or to `None` for an unknown command.
pub fn command_to_action(req: Request) -> (action: Option<ServiceAction>)
    ensures
        match action {
            Some(a) => request_action(req.command@, req.args@, req.stream) == Some(a@),
            None => request_action(req.command@, req.args@, req.stream) is None,
        },
{
    let alias = if req.args.len() > 0 {
        req.args[0].clone()
    } else {
        String::new()
    };
    match req.stream {
        Some(bytes) => {
            return Some(ServiceAction::Input(alias, bytes));
        },
        None => {},
    }
    let command = req.command.as_str();
    if same_text(command, "start") || same_text(command, "st") {
        Some(ServiceAction::Start(alias))
    } else if same_text(command, "stop") || same_text(command, "sp") {
        Some(ServiceAction::Stop(alias))
    } else if same_text(command, "restart") || same_text(command, "rs") {
        Some(ServiceAction::Restart(alias))
    } else if same_text(command, "status") || same_text(command, "stat") {
        Some(ServiceAction::Status(alias))
    } else if same_text(command, "attach") || same_text(command, "at") {
        Some(ServiceAction::Attach(alias))
    } else if same_text(command, "detach") || same_text(command, "dt") {
        Some(ServiceAction::Detach(alias))
    } else if same_text(command, "reload") || same_text(command, "rl") {
        Some(ServiceAction::Reload)
    } else if same_text(command, "list") || same_text(command, "ls") {
        Some(ServiceAction::List)
    } else if same_text(command, "help") || same_text(command, "?") {
        Some(ServiceAction::Help)
    } else if same_text(command, "stop_server") {
        Some(ServiceAction::StopServer)
    } else {
        None
    }
}

/// What the gateway does with a request.
#[derive(Debug)]
pub enum Admission {
    /// Answer at once with this response.
    Reject(Vec<ResponsePart>),
    /// Post the action to the orchestrator and collect the parts of its
    /// reply into one response.
    Collect(ServiceAction),
    /// Post the action to the orchestrator and send each part of its reply
    /// as a response of its own.
    Stream(ServiceAction),
}

/// Decides what the gateway does with a request: an unknown command is
/// answered with the single error `Command not found`; an attach streams
/// its reply part by part; every other action is answered by one response.
pub fn process_request(req: Request) -> (admission: Admission)
    ensures
        match admission {
            Admission::Reject(parts) => request_action(req.command@, req.args@, req.stream)
                is None && parts_view(parts@) == seq![PartView::Error("Command not found"@)],
            Admission::Collect(a) => request_action(req.command@, req.args@, req.stream) == Some(
                a@,
            ) && !(a is Attach),
            Admission::Stream(a) => request_action(req.command@, req.args@, req.stream) == Some(
                a@,
            ) && a is Attach,
        },
{
    match command_to_action(req) {
        Some(action) => match action {
            ServiceAction::Attach(alias) => Admission::Stream(ServiceAction::Attach(alias)),
            other => Admission::Collect(other),
        },
        None => {
            let mut parts: Vec<ResponsePart> = Vec::new();
            parts.push(ResponsePart::Error(String::from_str("Command not found")));
            assert(parts_view(parts@) =~= seq![PartView::Error("Command not found"@)]);
            Admission::Reject(parts)
        },
    }
}

} // verus!
