//! The orchestrator's inbox: what each message leads to.

use vstd::prelude::*;
use vstd::string::StringExecFns;
use crate::events::{event_jobs, event_orders, event_services, event_watched};
use crate::jobs::{Job, JobStatus};
use crate::orchestrate::{
    ErrorView, Orchestrator, OrchestratorError, Order, OrderView, jobs_after_start_request,
    jobs_after_stop_request, orders_view, retries_kept, start_refusal, stop_result,
    watched_after_stop, watched_view,
};
use crate::protocol::{PartView, ResponsePart, error_text};
use crate::service::{ActionView, Service, ServiceAction, ServiceView};
use crate::watcher::{JobEvent, WatchedJob, WatchedMap};

verus! {

/// The text that the help command answers with.
pub const CLI_HELP: &'static str =
    "Commands:\n\tstart [st]\tStart a service\n\tstop [sp]\tStop a job\n\trestart [rs]\tRestart a job\n\tstatus [stat]\tShow the current status of a job\n\tattach [at]\tAttach the job to the current client\n\tdetach [dt]\tDetach the job from every client\n\treload [rl]\tReload the configuration for the services\n\tlist [ls]\tList the known services\n\thelp [?]\tShow this help\n\tstop_server\tStop the server\n";

/// A client's request as it is posted to the orchestrator.
#[derive(Debug)]
pub struct OrchestratorRequest {
    /// What the client asks for.
    pub action: ServiceAction,
    /// The number under which the gateway keeps the request's reply channel.
    pub ticket: u64,
}

/// A message in the orchestrator's inbox.
#[derive(Debug)]
pub enum OrchestratorMsg {
    Request(OrchestratorRequest),
    Event(JobEvent),
}

/// A message as plain mathematical values.
pub enum MessageView {
    Request(ActionView),
    Event((Seq<char>, JobStatus)),
}

impl View for OrchestratorMsg {
    type V = MessageView;

    open spec fn view(&self) -> MessageView {
        match self {
            OrchestratorMsg::Request(request) => MessageView::Request(request.action@),
            OrchestratorMsg::Event(event) => MessageView::Event(event@),
        }
    }
}

/// What is to be done outside the orchestrator after a message. Where a
/// plan for a request holds several steps, the first that fails ends it and
/// its error is the reply; if none fails the reply is `OK`.
#[derive(Debug)]
pub enum Plan {
    /// Send this part as the reply.
    Reply(ResponsePart),
    /// Spawn the service, pass its pipes to the I/O router, and record the
    /// spawn with `start_job`.
    Spawn(Service),
    /// Carry out the orders, in order.
    Deliver(Vec<Order>),
    /// Ask the I/O router for what it retains of the job's output and reply
    /// with the report of `job_status`.
    Report(String),
    /// Attach the client to the job's output.
    Attach(String),
    /// Detach the forwarder of the job.
    Detach(String),
    /// Write the bytes to the job's standard input.
    Input(String, Vec<u8>),
    /// Load the definitions from disk and go on with `reload`.
    Reload,
    /// End the server.
    StopServer,
    /// Carry out the orders that an event raised; nobody awaits a reply.
    Perform(Vec<Order>),
}

/// A plan as plain mathematical values.
pub enum PlanView {
    Reply(PartView),
    Spawn(ServiceView),
    Deliver(Seq<OrderView>),
    Report(Seq<char>),
    Attach(Seq<char>),
    Detach(Seq<char>),
    Input(Seq<char>, Seq<u8>),
    Reload,
    StopServer,
    Perform(Seq<OrderView>),
}

impl View for Plan {
    type V = PlanView;

    open spec fn view(&self) -> PlanView {
        match self {
            Plan::Reply(part) => PlanView::Reply(part@),
            Plan::Spawn(service) => PlanView::Spawn(service@),
            Plan::Deliver(orders) => PlanView::Deliver(orders_view(orders@)),
            Plan::Report(alias) => PlanView::Report(alias@),
            Plan::Attach(alias) => PlanView::Attach(alias@),
            Plan::Detach(alias) => PlanView::Detach(alias@),
            Plan::Input(alias, bytes) => PlanView::Input(alias@, bytes@),
            Plan::Reload => PlanView::Reload,
            Plan::StopServer => PlanView::StopServer,
            Plan::Perform(orders) => PlanView::Perform(orders_view(orders@)),
        }
    }
}

/// The names, one per line.
pub open spec fn lines(names: Seq<Seq<char>>) -> Seq<char>
    decreases names.len(),
{
    if names.len() == 0 {
        Seq::empty()
    } else if names.len() == 1 {
        names[0]
    } else {
        lines(names.drop_last()) + "\n"@ + names.last()
    }
}

/// The aliases of the entries, in order.
pub open spec fn entry_aliases(entries: Seq<(String, Service)>) -> Seq<Seq<char>> {
    Seq::new(entries.len(), |i: int| entries[i].0@)
}

/// The job table after a message.
pub open spec fn message_jobs(
    jobs: Map<Seq<char>, Job>,
    services: Map<Seq<char>, Service>,
    message: MessageView,
) -> Map<Seq<char>, Job> {
    match message {
        MessageView::Request(ActionView::Start(alias)) => jobs_after_start_request(jobs, alias),
        MessageView::Request(ActionView::Restart(alias)) => jobs_after_stop_request(
            jobs,
            alias,
            false,
            true,
        ),
        MessageView::Request(ActionView::Stop(alias)) => jobs_after_stop_request(
            jobs,
            alias,
            false,
            false,
        ),
        MessageView::Request(_) => jobs,
        MessageView::Event(event) => event_jobs(jobs, services, event),
    }
}

/// The registry after a message.
pub open spec fn message_services(
    jobs: Map<Seq<char>, Job>,
    services: Map<Seq<char>, Service>,
    message: MessageView,
) -> Map<Seq<char>, Service> {
    match message {
        MessageView::Request(_) => services,
        MessageView::Event(event) => event_services(jobs, services, event),
    }
}

/// The record of live processes after a message at `now`.
pub open spec fn message_watched(
    jobs: Map<Seq<char>, Job>,
    services: Map<Seq<char>, Service>,
    watched: Map<Seq<char>, Seq<WatchedJob>>,
    message: MessageView,
    now: u64,
) -> Map<Seq<char>, Seq<WatchedJob>> {
    match message {
        MessageView::Request(ActionView::Restart(alias)) => watched_after_stop(
            jobs,
            services,
            watched,
            alias,
            now,
        ),
        MessageView::Request(ActionView::Stop(alias)) => watched_after_stop(
            jobs,
            services,
            watched,
            alias,
            now,
        ),
        MessageView::Request(_) => watched,
        MessageView::Event(event) => event_watched(jobs, services, watched, event, now),
    }
}

/// The reply that reports a refusal.
pub open spec fn refusal_reply(e: ErrorView) -> PlanView {
    PlanView::Reply(PartView::Error(error_text(e)))
}

/// The plan that follows from a message. A start that is accepted leads
/// to a spawn; a stop or restart that is accepted leads to the delivery of
/// the stop signal; a restart of a job that has stopped already is answered
/// with `OK`; every refusal is answered with its message.
pub open spec fn message_plan(
    jobs: Map<Seq<char>, Job>,
    services: Map<Seq<char>, Service>,
    entries: Seq<(String, Service)>,
    watched: Map<Seq<char>, Seq<WatchedJob>>,
    message: MessageView,
) -> PlanView {
    match message {
        MessageView::Request(action) => match action {
            ActionView::Start(alias) => match start_refusal(jobs, services, alias) {
                None => PlanView::Spawn(services[alias]@),
                Some(e) => refusal_reply(e),
            },
            ActionView::Restart(alias) => match stop_result(jobs, services, watched, alias) {
                Ok(orders) => PlanView::Deliver(orders),
                Err(ErrorView::ServiceStopped) => PlanView::Reply(PartView::Info("OK"@)),
                Err(e) => refusal_reply(e),
            },
            ActionView::Stop(alias) => match stop_result(jobs, services, watched, alias) {
                Ok(orders) => PlanView::Deliver(orders),
                Err(e) => refusal_reply(e),
            },
            ActionView::Status(alias) => PlanView::Report(alias),
            ActionView::Attach(alias) => PlanView::Attach(alias),
            ActionView::Detach(alias) => PlanView::Detach(alias),
            ActionView::Input(alias, bytes) => PlanView::Input(alias, bytes),
            ActionView::Reload => PlanView::Reload,
            ActionView::List => PlanView::Reply(PartView::Info(lines(entry_aliases(entries)))),
            ActionView::Help => PlanView::Reply(PartView::Info(CLI_HELP@)),
            ActionView::StopServer => PlanView::StopServer,
        },
        MessageView::Event(event) => PlanView::Perform(
            event_orders(jobs, services, watched, event),
        ),
    }
}

/// The texts, one per line.
fn join_lines(names: &Vec<String>) -> (text: String)
    ensures
        text@ == lines(crate::text::texts_view(names@)),
{
    let mut text = String::new();
    let ghost all = crate::text::texts_view(names@);
    let mut i: usize = 0;
    assert(all.take(0) =~= Seq::empty());
    while i < names.len()
        invariant
            i <= names.len(),
            all == crate::text::texts_view(names@),
            text@ == lines(all.take(i as int)),
        decreases names.len() - i,
    {
        proof {
            assert(all.take(i + 1).drop_last() =~= all.take(i as int));
            assert(all.take(i + 1).last() == names@[i as int]@);
            assert(all.take(i + 1)[0] == all[0]);
        }
        if i > 0 {
            text.append("\n");
        }
        text.append(names[i].as_str());
        assert(text@ =~= lines(all.take(i + 1)));
        i += 1;
    }
    assert(all.take(names.len() as int) =~= all);
    text
}

impl Orchestrator {
    /// Takes one message from the inbox: changes the tables as the message
    /// asks and returns what is to be done outside.
    pub fn orchestrate(&mut self, watched: &mut WatchedMap, message: OrchestratorMsg, now: u64) -> (plan:
        Plan)
        ensures
            final(self).registry().include_paths() == old(self).registry().include_paths(),
            retries_kept(old(self).jobs(), final(self).jobs()),
            final(self).jobs() == message_jobs(old(self).jobs(), old(self).services(), message@),
            final(self).services() == message_services(
                old(self).jobs(),
                old(self).services(),
                message@,
            ),
            watched_view(final(watched).map()) == message_watched(
                old(self).jobs(),
                old(self).services(),
                watched_view(old(watched).map()),
                message@,
                now,
            ),
            plan@ == message_plan(
                old(self).jobs(),
                old(self).services(),
                old(self).registry().entries(),
                watched_view(old(watched).map()),
                message@,
            ),
    {
        match message {
            OrchestratorMsg::Event(event) => Plan::Perform(self.manage_event(watched, event, now)),
            OrchestratorMsg::Request(request) => match request.action {
                ServiceAction::Start(alias) => match self.start_request(alias.as_str()) {
                    Ok(service) => Plan::Spawn(service),
                    Err(e) => Plan::Reply(ResponsePart::Error(e.message())),
                },
                ServiceAction::Restart(alias) => {
                    match self.stop_request(watched, alias.as_str(), false, true, now) {
                        Ok(orders) => Plan::Deliver(orders),
                        Err(OrchestratorError::ServiceStopped) => Plan::Reply(ResponsePart::ok()),
                        Err(e) => Plan::Reply(ResponsePart::Error(e.message())),
                    }
                },
                ServiceAction::Stop(alias) => {
                    match self.stop_request(watched, alias.as_str(), false, false, now) {
                        Ok(orders) => Plan::Deliver(orders),
                        Err(e) => Plan::Reply(ResponsePart::Error(e.message())),
                    }
                },
                ServiceAction::Status(alias) => Plan::Report(alias),
                ServiceAction::Attach(alias) => Plan::Attach(alias),
                ServiceAction::Detach(alias) => Plan::Detach(alias),
                ServiceAction::Input(alias, bytes) => Plan::Input(alias, bytes),
                ServiceAction::Reload => Plan::Reload,
                ServiceAction::List => {
                    let names = self.get_services().aliases();
                    assert(crate::text::texts_view(names@) =~= entry_aliases(
                        old(self).registry().entries(),
                    ));
                    Plan::Reply(ResponsePart::Info(join_lines(&names)))
                },
                ServiceAction::Help => Plan::Reply(ResponsePart::Info(String::from_str(CLI_HELP))),
                ServiceAction::StopServer => Plan::StopServer,
            },
        }
    }
}

/// What happened on an attachment.
#[derive(Debug)]
pub enum AttachEvent {
    /// The I/O router refused to attach the forwarder.
    Refused(OrchestratorError),
    /// Bytes of the job's output arrived.
    Data(Vec<u8>),
    /// The job's output ended.
    Closed,
    /// The client's reply channel failed; the text is the failure.
    PeerGone(String),
}

/// An attachment event as plain mathematical values.
pub enum AttachEventView {
    Refused(ErrorView),
    Data(Seq<u8>),
    Closed,
    PeerGone(Seq<char>),
}

impl View for AttachEvent {
    type V = AttachEventView;

    open spec fn view(&self) -> AttachEventView {
        match self {
            AttachEvent::Refused(e) => AttachEventView::Refused(e@),
            AttachEvent::Data(bytes) => AttachEventView::Data(bytes@),
            AttachEvent::Closed => AttachEventView::Closed,
            AttachEvent::PeerGone(text) => AttachEventView::PeerGone(text@),
        }
    }
}

/// What follows from an attachment event.
#[derive(Debug)]
pub struct AttachStep {
    /// The part to send to the client, if any.
    pub part: Option<ResponsePart>,
    /// Whether the I/O router is to be told to stop forwarding.
    pub stop_forwarding: bool,
}

/// The part that an event leads to on an open attachment.
pub open spec fn attach_part(event: AttachEventView) -> PartView {
    match event {
        AttachEventView::Refused(e) => PartView::Error(error_text(e)),
        AttachEventView::Data(bytes) => PartView::Stream(bytes),
        AttachEventView::Closed => PartView::Info("OK"@),
        AttachEventView::PeerGone(text) => PartView::Error(text),
    }
}

/// One client's attachment to the output of one job.
pub struct Attachment {
    alias: String,
    open: bool,
}

impl Attachment {
    /// The alias of the job.
    pub closed spec fn alias(&self) -> Seq<char> {
        self.alias@
    }

    /// Whether the attachment still streams.
    pub closed spec fn is_open(&self) -> bool {
        self.open
    }

    /// Whether the attachment still streams.
    pub fn streaming(&self) -> (open: bool)
        ensures
            open == self.is_open(),
    {
        self.open
    }

    /// The job that the attachment is to.
    pub fn job(&self) -> (alias: &String)
        ensures
            alias@ == self.alias(),
    {
        &self.alias
    }

    /// Takes in one event. On an open attachment, bytes become a streamed
    /// part and the attachment stays open; every other event closes it: a
    /// refusal with its error, the end of the output with `OK`, a failure
    /// of the client's channel with its text. When an attachment that was
    /// made is closed, the router is told to stop forwarding. On a closed
    /// attachment nothing is sent any more.
    pub fn step(&mut self, event: AttachEvent) -> (step: AttachStep)
        ensures
            final(self).alias() == old(self).alias(),
            final(self).is_open() == (old(self).is_open() && event is Data),
            match step.part {
                Some(part) => old(self).is_open() && part@ == attach_part(event@),
                None => !old(self).is_open(),
            },
            step.stop_forwarding == (old(self).is_open() && (event is Closed || event
                is PeerGone)),
    {
        if !self.open {
            return AttachStep { part: None, stop_forwarding: false };
        }
        match event {
            AttachEvent::Refused(e) => {
                self.open = false;
                AttachStep { part: Some(ResponsePart::Error(e.message())), stop_forwarding: false }
            },
            AttachEvent::Data(bytes) => AttachStep {
                part: Some(ResponsePart::Stream(bytes)),
                stop_forwarding: false,
            },
            AttachEvent::Closed => {
                self.open = false;
                AttachStep { part: Some(ResponsePart::ok()), stop_forwarding: true }
            },
            AttachEvent::PeerGone(text) => {
                self.open = false;
                AttachStep { part: Some(ResponsePart::Error(text)), stop_forwarding: true }
            },
        }
    }
}

impl Orchestrator {
    /// Opens the attachment of a client to the output of the job `alias`.
    /// The I/O router is to be asked to start forwarding; its refusal, the
    /// bytes it forwards and the end of the stream are then fed to the
    /// attachment, which says what the client receives.
    pub fn attach_job(&self, alias: &str) -> (attachment: Attachment)
        ensures
            attachment.alias() == alias@,
            attachment.is_open(),
    {
        Attachment { alias: alias.to_owned(), open: true }
    }
}

} // verus!
