//! The client-facing side of the gateway.
//!
//! A session serves one client after the other: it accepts a connection,
//! reads the request, decides what the client asked for, has a target
//! fetched through the coordinator and writes the reply. Like the engine it
//! owns no transport: it hands out one `ClientAction` at a time and takes
//! the outcome as a `ClientEvent`.
use crate::extract::{blank_line, extract, extracted};
use crate::format::{
    format_error, format_success, framed_error, framed_success, lemma_reply_has_status_line,
    status_line,
};
use crate::message::{ProxyRequest, ProxyResult, RequestView, ResultView};
use crate::parser::{parse_request, parsed};
use crate::search::{contains, has_prefix, occurs};
use crate::text::{payload_as_str, payload_bytes, push_bytes, utf8_text, Payload};
use vstd::prelude::*;
use vstd::slice::slice_subrange;
use vstd::string::StringSliceAdditionalSpecFns;
use vstd::utf8::valid_utf8;

verus! {

/// The most bytes of a request that are read.
pub const REQUEST_CAPACITY: usize = 1024;

/// The message for a request that is not text.
pub open spec fn not_text_message() -> Seq<u8> {
    "Invalid UTF-8".spec_bytes()
}

/// The message for a request of the proxy form without a usable target.
pub open spec fn bad_target_message() -> Seq<u8> {
    "Invalid URL format. Use /proxy?url=http://example.com".spec_bytes()
}

/// The message for a fetch that brought no content.
pub open spec fn no_content_message() -> Seq<u8> {
    "No HTML content found in response".spec_bytes()
}

/// What has been read is a whole request: the buffer is full, or the blank
/// line that ends a request header has been read.
pub open spec fn is_complete(received: Seq<u8>) -> bool {
    received.len() >= REQUEST_CAPACITY || occurs(received, blank_line())
}

/// Whether what has been read is a whole request.
pub fn request_complete(received: &[u8]) -> (complete: bool)
    ensures
        complete == is_complete(received@),
{
    received.len() >= REQUEST_CAPACITY || contains(received, "\r\n\r\n".as_bytes())
}

/// What is to be done with a request.
pub enum Routing {
    /// Nothing was read: the connection is given up without a reply.
    Ignore,
    /// The request is turned down with this reply.
    Reply(Payload),
    /// This target is to be fetched.
    Forward(ProxyRequest),
}

/// What a `Routing` holds.
pub enum RoutingView {
    Ignore,
    Reply(Seq<u8>),
    Forward(RequestView),
}

impl View for Routing {
    type V = RoutingView;

    open spec fn view(&self) -> RoutingView {
        match self {
            Routing::Ignore => RoutingView::Ignore,
            Routing::Reply(page) => RoutingView::Reply(payload_bytes(page)),
            Routing::Forward(request) => RoutingView::Forward(request@),
        }
    }
}

/// What is to be done with the request bytes `raw`: nothing where there are
/// none, an error page where they are not text or ask for no usable target,
/// and a fetch of the target otherwise.
pub open spec fn routed(raw: Seq<u8>) -> RoutingView {
    if raw.len() == 0 {
        RoutingView::Ignore
    } else if !valid_utf8(raw) {
        RoutingView::Reply(framed_error(not_text_message()))
    } else {
        match parsed(raw) {
            Some(request) => RoutingView::Forward(request),
            None => RoutingView::Reply(framed_error(bad_target_message())),
        }
    }
}

/// Decides what is to be done with the request bytes `raw`.
pub fn route(raw: &[u8]) -> (routing: Routing)
    ensures
        routing@ == routed(raw@),
{
    if raw.len() == 0 {
        return Routing::Ignore;
    }
    match utf8_text(raw) {
        None => Routing::Reply(format_error("Invalid UTF-8")),
        Some(text) => match parse_request(text) {
            Some(request) => Routing::Forward(request),
            None => Routing::Reply(
                format_error("Invalid URL format. Use /proxy?url=http://example.com"),
            ),
        },
    }
}

/// The reply to a client for the result of its fetch: the content that is
/// recovered from the transcript of a fetch that succeeded, an error page
/// where no content is recovered, and an error page with the diagnostic of
/// a fetch that failed.
pub open spec fn reply_for(result: ResultView) -> Seq<u8> {
    if result.succeeded {
        if extracted(result.payload).len() > 0 {
            framed_success(extracted(result.payload))
        } else {
            framed_error(no_content_message())
        }
    } else {
        framed_error(result.payload)
    }
}

/// Makes up the reply to a client for the result of its fetch.
pub fn respond(result: &ProxyResult) -> (reply: Payload)
    ensures
        payload_bytes(&reply) == reply_for(result@),
{
    if result.succeeded() {
        let content = extract(result.payload());
        let text = payload_as_str(&content);
        if text.len() > 0 {
            format_success(text)
        } else {
            format_error("No HTML content found in response")
        }
    } else {
        format_error(result.payload())
    }
}

/// The timing of the client-facing side.
#[derive(Clone, Copy, Debug, PartialEq, Eq, Structural)]
pub struct ServerPolicy {
    /// The port on which clients are accepted.
    pub port: u16,
    /// Pause before the first client is accepted, in milliseconds.
    pub startup_ms: u32,
    /// The time after which an idle connection is given up, in milliseconds.
    pub idle_timeout_ms: u32,
    /// Pause after a connection was closed, in milliseconds.
    pub linger_ms: u32,
}

/// The timing that the gateway uses unless it is told otherwise: port 80,
/// a second before the first client, connections that may idle for half a
/// minute, and a tenth of a second between clients.
pub open spec fn standard_server_policy() -> ServerPolicy {
    ServerPolicy { port: 80, startup_ms: 1000, idle_timeout_ms: 30000, linger_ms: 100 }
}

impl ServerPolicy {
    /// The timing that the gateway uses unless it is told otherwise.
    pub fn standard() -> (policy: ServerPolicy)
        ensures
            policy == standard_server_policy(),
    {
        ServerPolicy { port: 80, startup_ms: 1000, idle_timeout_ms: 30000, linger_ms: 100 }
    }
}

/// Where a session stands: the action that was handed out last.
#[derive(Clone, Copy, Debug, PartialEq, Eq, Structural)]
pub enum Stage {
    /// Pausing before the first client.
    Starting,
    /// Waiting for a client to connect.
    Accepting,
    /// Reading the request.
    Reading,
    /// Waiting for the result of the fetch.
    Waiting,
    /// Writing the reply.
    Writing,
    /// Closing the connection.
    Closing,
    /// Pausing before the next client.
    Lingering,
}

/// An outcome that the caller reports to the session.
pub enum ClientEvent<'a> {
    /// The action that was asked for succeeded: the pause is over, a client
    /// has connected, the reply was written, the connection is closed.
    Done,
    /// The action that was asked for failed.
    Failed,
    /// The read that was asked for brought these bytes; none at the end of
    /// the stream.
    Data(&'a [u8]),
    /// The fetch that was asked for has this result.
    Fetched(ProxyResult),
}

/// What a `ClientEvent` holds.
pub enum ClientEventView {
    Done,
    Failed,
    Data(Seq<u8>),
    Fetched(ResultView),
}

impl<'a> View for ClientEvent<'a> {
    type V = ClientEventView;

    open spec fn view(&self) -> ClientEventView {
        match self {
            ClientEvent::Done => ClientEventView::Done,
            ClientEvent::Failed => ClientEventView::Failed,
            ClientEvent::Data(chunk) => ClientEventView::Data(chunk@),
            ClientEvent::Fetched(result) => ClientEventView::Fetched(result@),
        }
    }
}

/// What the session asks its caller to do.
pub enum ClientAction {
    /// Pause for `ms` milliseconds, then report `Done`.
    Sleep { ms: u32 },
    /// Take a fresh connection that gives up after `idle_timeout_ms`
    /// milliseconds without traffic, wait on `port` for a client and report
    /// `Done` or `Failed`.
    Accept { port: u16, idle_timeout_ms: u32 },
    /// Read at most `capacity` bytes from the client and report `Data` or
    /// `Failed`.
    Read { capacity: usize },
    /// Have this target fetched and report the result as `Fetched`.
    Submit(ProxyRequest),
    /// Go on waiting for the result of the fetch.
    Await,
    /// Write all of this reply to the client and report `Done` or `Failed`.
    Write(Payload),
    /// Close the connection and report `Done`.
    Close,
}

/// What a `ClientAction` holds.
pub enum ClientActionView {
    Sleep { ms: u32 },
    Accept { port: u16, idle_timeout_ms: u32 },
    Read { capacity: usize },
    Submit(RequestView),
    Await,
    Write(Seq<u8>),
    Close,
}

impl View for ClientAction {
    type V = ClientActionView;

    open spec fn view(&self) -> ClientActionView {
        match self {
            ClientAction::Sleep { ms } => ClientActionView::Sleep { ms: *ms },
            ClientAction::Accept { port, idle_timeout_ms } => ClientActionView::Accept {
                port: *port,
                idle_timeout_ms: *idle_timeout_ms,
            },
            ClientAction::Read { capacity } => ClientActionView::Read { capacity: *capacity },
            ClientAction::Submit(request) => ClientActionView::Submit(request@),
            ClientAction::Await => ClientActionView::Await,
            ClientAction::Write(reply) => ClientActionView::Write(payload_bytes(reply)),
            ClientAction::Close => ClientActionView::Close,
        }
    }
}

/// What a `Session` holds.
pub struct SessionView {
    pub stage: Stage,
    pub policy: ServerPolicy,
    /// What has been read of the request of the current client.
    pub received: Seq<u8>,
}

/// The room that is left for a request of which `received` has been read.
pub open spec fn room(received: Seq<u8>) -> int {
    if received.len() < REQUEST_CAPACITY {
        REQUEST_CAPACITY - received.len()
    } else {
        0
    }
}

/// What has been read of a request after `chunk` arrived: bytes for which
/// there is no room are left out.
pub open spec fn absorbed(received: Seq<u8>, chunk: Seq<u8>) -> Seq<u8> {
    if chunk.len() <= room(received) {
        received + chunk
    } else {
        received + chunk.subrange(0, room(received))
    }
}

/// Waits for the next client.
pub open spec fn to_accept(policy: ServerPolicy) -> (Stage, ClientActionView) {
    (
        Stage::Accepting,
        ClientActionView::Accept { port: policy.port, idle_timeout_ms: policy.idle_timeout_ms },
    )
}

/// Acts on the request that has been read.
pub open spec fn dispatch(policy: ServerPolicy, received: Seq<u8>) -> (Stage, ClientActionView) {
    match routed(received) {
        RoutingView::Ignore => to_accept(policy),
        RoutingView::Reply(page) => (Stage::Writing, ClientActionView::Write(page)),
        RoutingView::Forward(request) => (Stage::Waiting, ClientActionView::Submit(request)),
    }
}

/// One step of a session: the state and the action that follow `session`
/// on `event`.
pub open spec fn session_next(session: SessionView, event: ClientEventView) -> (
    SessionView,
    ClientActionView,
) {
    let policy = session.policy;
    match session.stage {
        Stage::Starting | Stage::Lingering => (
            SessionView { stage: to_accept(policy).0, ..session },
            to_accept(policy).1,
        ),
        Stage::Accepting => if event is Done {
            (
                SessionView { stage: Stage::Reading, received: Seq::<u8>::empty(), ..session },
                ClientActionView::Read { capacity: REQUEST_CAPACITY },
            )
        } else {
            (session, to_accept(policy).1)
        },
        Stage::Reading => {
            let received = match event {
                ClientEventView::Data(chunk) => absorbed(session.received, chunk),
                _ => session.received,
            };
            let more = event matches ClientEventView::Data(chunk) && chunk.len() > 0
                && !is_complete(received);
            if more {
                (
                    SessionView { received, ..session },
                    ClientActionView::Read { capacity: room(received) as usize },
                )
            } else {
                (
                    SessionView { stage: dispatch(policy, received).0, received, ..session },
                    dispatch(policy, received).1,
                )
            }
        },
        Stage::Waiting => match event {
            ClientEventView::Fetched(result) => (
                SessionView { stage: Stage::Writing, ..session },
                ClientActionView::Write(reply_for(result)),
            ),
            _ => (session, ClientActionView::Await),
        },
        Stage::Writing => (SessionView { stage: Stage::Closing, ..session }, ClientActionView::Close),
        Stage::Closing => if policy.linger_ms > 0 {
            (
                SessionView { stage: Stage::Lingering, ..session },
                ClientActionView::Sleep { ms: policy.linger_ms },
            )
        } else {
            (SessionView { stage: to_accept(policy).0, ..session }, to_accept(policy).1)
        },
    }
}

/// The state and the first action of a session with `policy`.
pub open spec fn session_start(policy: ServerPolicy) -> (SessionView, ClientActionView) {
    if policy.startup_ms > 0 {
        (
            SessionView { stage: Stage::Starting, policy, received: Seq::<u8>::empty() },
            ClientActionView::Sleep { ms: policy.startup_ms },
        )
    } else {
        (
            SessionView { stage: to_accept(policy).0, policy, received: Seq::<u8>::empty() },
            to_accept(policy).1,
        )
    }
}

/// The client-facing side of the gateway, serving one client at a time.
pub struct Session {
    stage: Stage,
    policy: ServerPolicy,
    received: Vec<u8>,
}

impl View for Session {
    type V = SessionView;

    closed spec fn view(&self) -> SessionView {
        SessionView { stage: self.stage, policy: self.policy, received: self.received@ }
    }
}

impl Session {
    /// A session with `policy` and its first action.
    pub fn start(policy: ServerPolicy) -> (r: (Session, ClientAction))
        ensures
            (r.0@, r.1@) == session_start(policy),
    {
        if policy.startup_ms > 0 {
            (
                Session { stage: Stage::Starting, policy, received: Vec::new() },
                ClientAction::Sleep { ms: policy.startup_ms },
            )
        } else {
            (
                Session { stage: Stage::Accepting, policy, received: Vec::new() },
                ClientAction::Accept {
                    port: policy.port,
                    idle_timeout_ms: policy.idle_timeout_ms,
                },
            )
        }
    }

    /// Where the session stands.
    pub fn stage(&self) -> (stage: Stage)
        ensures
            stage == self@.stage,
    {
        self.stage
    }

    /// Takes `event` as the outcome of the action that was handed out last
    /// and returns the next action.
    pub fn step(&mut self, event: ClientEvent) -> (action: ClientAction)
        ensures
            (final(self)@, action@) == session_next(old(self)@, event@),
    {
        match self.stage {
            Stage::Starting | Stage::Lingering => self.accept_next(),
            Stage::Accepting => match event {
                ClientEvent::Done => {
                    self.stage = Stage::Reading;
                    self.received = Vec::new();
                    ClientAction::Read { capacity: REQUEST_CAPACITY }
                },
                _ => self.accept_next(),
            },
            Stage::Reading => {
                let mut more = false;
                match event {
                    ClientEvent::Data(chunk) => {
                        self.absorb(chunk);
                        more = chunk.len() > 0 && !request_complete(self.received.as_slice());
                    },
                    _ => {},
                }
                if more {
                    ClientAction::Read { capacity: REQUEST_CAPACITY - self.received.len() }
                } else {
                    match route(self.received.as_slice()) {
                        Routing::Ignore => self.accept_next(),
                        Routing::Reply(page) => {
                            self.stage = Stage::Writing;
                            ClientAction::Write(page)
                        },
                        Routing::Forward(request) => {
                            self.stage = Stage::Waiting;
                            ClientAction::Submit(request)
                        },
                    }
                }
            },
            Stage::Waiting => match event {
                ClientEvent::Fetched(result) => {
                    self.stage = Stage::Writing;
                    ClientAction::Write(respond(&result))
                },
                _ => ClientAction::Await,
            },
            Stage::Writing => {
                self.stage = Stage::Closing;
                ClientAction::Close
            },
            Stage::Closing => if self.policy.linger_ms > 0 {
                self.stage = Stage::Lingering;
                ClientAction::Sleep { ms: self.policy.linger_ms }
            } else {
                self.accept_next()
            },
        }
    }

    /// Goes on to wait for the next client.
    fn accept_next(&mut self) -> (action: ClientAction)
        ensures
            final(self).stage == Stage::Accepting,
            final(self).policy == old(self).policy,
            final(self).received == old(self).received,
            action@ == to_accept(old(self).policy).1,
    {
        self.stage = Stage::Accepting;
        ClientAction::Accept {
            port: self.policy.port,
            idle_timeout_ms: self.policy.idle_timeout_ms,
        }
    }

    /// Stores the bytes of `chunk` for which there is room.
    fn absorb(&mut self, chunk: &[u8])
        ensures
            final(self).stage == old(self).stage,
            final(self).policy == old(self).policy,
            final(self).received@ == absorbed(old(self).received@, chunk@),
    {
        let held = self.received.len();
        let room = if held < REQUEST_CAPACITY {
            REQUEST_CAPACITY - held
        } else {
            0
        };
        if chunk.len() <= room {
            push_bytes(&mut self.received, chunk);
        } else {
            push_bytes(&mut self.received, slice_subrange(chunk, 0, room));
        }
    }
}

/// Every reply to a client is a response with status 200: the reply for a
/// result, whether the fetch succeeded or not, and the reply that turns a
/// request down.
pub proof fn lemma_every_reply_is_ok(result: ResultView, raw: Seq<u8>)
    ensures
        has_prefix(reply_for(result), status_line()),
        routed(raw) matches RoutingView::Reply(page) ==> has_prefix(page, status_line()),
{
    lemma_reply_has_status_line(extracted(result.payload));
    lemma_reply_has_status_line(no_content_message());
    lemma_reply_has_status_line(result.payload);
    lemma_reply_has_status_line(not_text_message());
    lemma_reply_has_status_line(bad_target_message());
}

/// A request that is not text, or that asks for no usable target, never
/// reaches the engine: a session has a target fetched only at the end of
/// reading, and then the request that was read is text and the target is
/// the one that it asks for.
pub proof fn lemma_only_parsed_targets_are_fetched(session: SessionView, event: ClientEventView)
    requires
        session_next(session, event).1 is Submit,
    ensures
        ({
            let (after, action) = session_next(session, event);
            &&& session.stage is Reading
            &&& after.stage is Waiting
            &&& after.received.len() > 0
            &&& valid_utf8(after.received)
            &&& parsed(after.received) == Some(action->Submit_0)
        }),
{
}

} // verus!
