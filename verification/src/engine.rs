//! The modem session engine.
//!
//! The engine turns one request into one result by driving the modem through
//! a fixed dialogue: bring the modem up once, then for every request drain
//! stale input, open a connection, wait for the send prompt, send the
//! request, wait for the send acknowledgement, collect the response and
//! close. It owns no transport. It hands out one `Action` at a time; the
//! caller performs it on the serial line and reports the outcome as an
//! `Event`, on which the engine decides the next action.
use crate::decimal::{
    decimal_digits, lemma_decimal_len, lemma_decimal_len_of_usize, power_of_ten, push_decimal,
};
use crate::message::{Diagnostic, ProxyRequest, ProxyResult, RequestView, ResultView};
use crate::search::{contains, occurs};
use crate::text::{
    appended, bounded, command_as_str, command_bytes, command_new, command_push_str,
    payload_as_str, payload_bytes, payload_new, payload_push_str, short_as_str, short_bytes,
    short_new, short_push_str, upstream_as_str, upstream_bytes, upstream_new, upstream_push_str,
    utf8_text, AnnounceText, CommandText, Payload, UpstreamText,
};
use vstd::prelude::*;
use vstd::string::StringSliceAdditionalSpecFns;
use vstd::utf8::valid_utf8;

verus! {

/// Bounds of a step that polls the modem for a token.
#[derive(Clone, Copy, Debug, PartialEq, Eq, Structural)]
pub struct RetryPolicy {
    /// The number of reads after which the step gives up.
    pub max_attempts: u32,
    /// The time that one read may take, in milliseconds.
    pub timeout_ms: u32,
    /// The pause that belongs to each attempt, in milliseconds. No pause is
    /// taken where it is 0.
    pub delay_ms: u32,
}

/// Bounds of the step that collects the response.
#[derive(Clone, Copy, Debug, PartialEq, Eq, Structural)]
pub struct CollectPolicy {
    /// The number of reads after which the response is taken as it is.
    pub max_reads: u32,
    /// The time that one read may take, in milliseconds.
    pub timeout_ms: u32,
    /// The response counts as finished once more than this many reads in a
    /// row brought nothing while something has been collected.
    pub quiet_reads: u32,
}

/// The timing of the whole dialogue. A settle time of 0 is not waited for.
#[derive(Clone, Copy, Debug, PartialEq, Eq, Structural)]
pub struct EnginePolicy {
    /// Pause before the first bring-up command.
    pub boot_settle_ms: u32,
    /// Pause between a bring-up command and the read of its reply.
    pub probe_pause_ms: u32,
    /// The time that the read of a bring-up reply may take.
    pub probe_timeout_ms: u32,
    /// Pause before stale input is drained.
    pub drain_settle_ms: u32,
    /// The time that one drain read may take.
    pub drain_timeout_ms: u32,
    /// Waiting for the open acknowledgement; the pause precedes each read.
    pub open: RetryPolicy,
    /// Pause after the connection is open.
    pub connect_settle_ms: u32,
    /// Waiting for the send prompt; the pause precedes each read.
    pub prompt: RetryPolicy,
    /// Pause after the request was sent.
    pub send_settle_ms: u32,
    /// Waiting for the send acknowledgement; the pause follows each read
    /// that did not bring it.
    pub confirm: RetryPolicy,
    /// Collecting the response.
    pub collect: CollectPolicy,
    /// Pause after the close command.
    pub close_settle_ms: u32,
}

/// The number of bring-up commands.
pub const BRINGUP_COMMANDS: usize = 8;

/// The most bytes asked for in a read while a token is awaited.
pub const TOKEN_READ: usize = 256;

/// The most bytes asked for in a read of a bring-up reply or of the
/// response.
pub const BULK_READ: usize = 512;

/// Where the dialogue stands: the action that was handed out last, whose
/// outcome the engine is waiting for.
#[derive(Clone, Copy, Debug, PartialEq, Eq, Structural)]
pub enum Phase {
    /// Pausing before the first bring-up command.
    BootSettle,
    /// Writing bring-up command `index`.
    BootWrite { index: usize },
    /// Pausing before the reply to bring-up command `index` is read.
    BootPause { index: usize },
    /// Reading the reply to bring-up command `index`.
    BootRead { index: usize },
    /// Pausing after bring-up command `index`.
    BootRest { index: usize },
    /// No request is being served.
    Ready,
    /// Pausing before the drain.
    DrainSettle,
    /// Reading stale input away.
    Draining,
    /// Writing the open command.
    OpenWrite,
    /// Pausing before a read for the open acknowledgement; `left` reads are
    /// left, this one included.
    OpenPause { left: u32 },
    /// Reading for the open acknowledgement.
    OpenRead { left: u32 },
    /// Pausing after the connection was opened.
    ConnectSettle,
    /// Writing the command that announces the length of the request.
    PromptWrite,
    /// Pausing before a read for the send prompt.
    PromptPause { left: u32 },
    /// Reading for the send prompt.
    PromptRead { left: u32 },
    /// Writing the close command after the prompt stayed away.
    AbortClose,
    /// Writing the request.
    SendWrite,
    /// Pausing after the request was written.
    SendSettle,
    /// Reading for the send acknowledgement.
    ConfirmRead { left: u32 },
    /// Pausing after a read that did not bring the send acknowledgement;
    /// `left` reads are left.
    ConfirmPause { left: u32 },
    /// Reading the response; `quiet` reads in a row brought nothing.
    Collect { left: u32, quiet: u32 },
    /// Writing the close command.
    CloseWrite,
    /// Pausing after the close command.
    CloseSettle,
}

/// How a reported event arrived.
#[derive(Clone, Copy, Debug, PartialEq, Eq, Structural)]
pub enum Arrival {
    /// A write or a pause came to its end.
    Completed,
    /// A read brought bytes that are text.
    Text,
    /// A read brought bytes that are not valid UTF-8.
    Garbled,
    /// A read failed.
    Failed,
    /// A read timed out.
    Silent,
}

/// What an event means to the phase that waited for it.
#[derive(Clone, Copy, Debug, PartialEq, Eq, Structural)]
pub struct Observation {
    pub arrival: Arrival,
    /// The event brought text that holds the token that the phase awaits.
    pub token: bool,
    /// The event brought text to the collecting phase, and the transcript now
    /// holds a terminal marker.
    pub marker: bool,
    /// The phase is collecting and the transcript is not empty.
    pub holding: bool,
}

/// What the engine decides to do next, before the bytes of the action are
/// made up.
#[derive(Clone, Copy, Debug, PartialEq, Eq, Structural)]
pub enum Command {
    WriteBringup { index: usize },
    WriteOpen,
    WriteSendLength,
    WritePayload,
    WriteClose,
    Read { timeout_ms: u32, capacity: usize },
    Sleep { ms: u32 },
    AwaitRequest,
    Fail(Diagnostic),
    Deliver,
}

/// An outcome that the caller reports to the engine.
pub enum Event<'a> {
    /// The write or the pause that was asked for has come to its end. For a
    /// write this says nothing of its success: the dialogue goes on either
    /// way.
    Done,
    /// The read that was asked for brought these bytes.
    Data(&'a [u8]),
    /// The read that was asked for failed.
    ReadFailed,
    /// The read that was asked for brought nothing in its time.
    TimedOut,
}

/// What an `Event` holds.
pub enum EventView {
    Done,
    Data(Seq<u8>),
    ReadFailed,
    TimedOut,
}

impl<'a> View for Event<'a> {
    type V = EventView;

    open spec fn view(&self) -> EventView {
        match self {
            Event::Done => EventView::Done,
            Event::Data(chunk) => EventView::Data(chunk@),
            Event::ReadFailed => EventView::ReadFailed,
            Event::TimedOut => EventView::TimedOut,
        }
    }
}

/// A text that is written to the modem, in the buffer of its kind.
pub enum Outgoing {
    /// A command line.
    Command(CommandText),
    /// The command that announces the length of the request.
    Announce(AnnounceText),
    /// The request that goes upstream.
    Upstream(UpstreamText),
}

impl View for Outgoing {
    type V = Seq<u8>;

    open spec fn view(&self) -> Seq<u8> {
        match self {
            Outgoing::Command(line) => command_bytes(line),
            Outgoing::Announce(line) => short_bytes(line),
            Outgoing::Upstream(text) => upstream_bytes(text),
        }
    }
}

impl Outgoing {
    /// The bytes to write.
    pub fn as_bytes(&self) -> (bytes: &[u8])
        ensures
            bytes@ == self@,
    {
        match self {
            Outgoing::Command(line) => command_as_str(line).as_bytes(),
            Outgoing::Announce(line) => short_as_str(line).as_bytes(),
            Outgoing::Upstream(text) => upstream_as_str(text).as_bytes(),
        }
    }
}

/// What the engine asks its caller to do.
pub enum Action {
    /// Write all of this text to the serial line, then report `Done`
    /// whether or not the write succeeded.
    Write(Outgoing),
    /// Read at most `capacity` bytes within `timeout_ms` milliseconds and
    /// report `Data`, `ReadFailed` or `TimedOut`.
    Read { timeout_ms: u32, capacity: usize },
    /// Pause for `ms` milliseconds, then report `Done`.
    Sleep { ms: u32 },
    /// The engine is ready: hand it the next request with `fetch`.
    AwaitRequest,
    /// The request has been served with this result; the engine is ready
    /// for the next one.
    Finish(ProxyResult),
}

/// What an `Action` holds.
pub enum ActionView {
    Write(Seq<u8>),
    Read { timeout_ms: u32, capacity: usize },
    Sleep { ms: u32 },
    AwaitRequest,
    Finish(ResultView),
}

impl View for Action {
    type V = ActionView;

    open spec fn view(&self) -> ActionView {
        match self {
            Action::Write(text) => ActionView::Write(text@),
            Action::Read { timeout_ms, capacity } => ActionView::Read {
                timeout_ms: *timeout_ms,
                capacity: *capacity,
            },
            Action::Sleep { ms } => ActionView::Sleep { ms: *ms },
            Action::AwaitRequest => ActionView::AwaitRequest,
            Action::Finish(result) => ActionView::Finish(result@),
        }
    }
}

/// The token by which the modem acknowledges an open connection.
pub open spec fn open_ack() -> Seq<u8> {
    "+QIOPEN: 0,0".spec_bytes()
}

/// The prompt by which the modem invites the payload.
pub open spec fn send_prompt() -> Seq<u8> {
    ">".spec_bytes()
}

/// The token by which the modem acknowledges the payload.
pub open spec fn send_ack() -> Seq<u8> {
    "SEND OK".spec_bytes()
}

/// The command that closes the connection.
pub open spec fn close_command() -> Seq<u8> {
    "AT+QICLOSE=0\r\n".spec_bytes()
}

/// The command that opens a TCP connection to port 80 of `host`.
pub open spec fn open_command(host: Seq<u8>) -> Seq<u8> {
    "AT+QIOPEN=1,0,\"TCP\",\"".spec_bytes() + host + "\",80,0,1\r\n".spec_bytes()
}

/// The request that is sent upstream: a request line, the host header, the
/// connection directive, the user agent and a blank line.
pub open spec fn upstream_request(request: RequestView) -> Seq<u8> {
    "GET ".spec_bytes() + request.path + " HTTP/1.1\r\nHost: ".spec_bytes() + request.host
        + "\r\nConnection: close\r\nUser-Agent: PicoLTE-Proxy/1.0\r\n\r\n".spec_bytes()
}

/// The end of a command line: a carriage return and a line feed.
pub open spec fn line_end() -> Seq<u8> {
    "\r\n".spec_bytes()
}

/// How the command begins that announces a length.
pub open spec fn announce_head() -> Seq<u8> {
    "AT+QISEND=0,".spec_bytes()
}

/// The command that announces a payload of `len` bytes.
pub open spec fn send_command(len: nat) -> Seq<u8> {
    announce_head() + decimal_digits(len) + line_end()
}

/// Bring-up command `index`, without its line end: a liveness probe, the
/// SIM status, the network registration, the packet-domain attach, the APN
/// context, its activation, the activation status and the DNS servers.
pub open spec fn bringup_text(index: int) -> Seq<u8> {
    if index == 0 {
        "AT".spec_bytes()
    } else if index == 1 {
        "AT+CPIN?".spec_bytes()
    } else if index == 2 {
        "AT+CREG?".spec_bytes()
    } else if index == 3 {
        "AT+CGATT=1".spec_bytes()
    } else if index == 4 {
        "AT+QICSGP=1,1,\"CTNET\"".spec_bytes()
    } else if index == 5 {
        "AT+QIACT=1".spec_bytes()
    } else if index == 6 {
        "AT+QIACT?".spec_bytes()
    } else {
        "AT+QIDNSCFG=1,\"114.114.114.114\",\"8.8.8.8\"".spec_bytes()
    }
}

/// The settle time after bring-up command `index`, in milliseconds.
pub open spec fn bringup_rest_ms(index: int) -> u32 {
    if index == 3 {
        1000
    } else if index == 5 {
        2000
    } else {
        500
    }
}

/// The line that is written for `command`: the command and a line end, as
/// a command buffer of 256 bytes holds them. Either of the two is dropped
/// where it does not fit.
pub open spec fn command_text(command: Seq<u8>) -> Seq<u8> {
    appended(bounded(command, 256), line_end(), 256)
}

/// The line that is written for bring-up command `index`.
pub open spec fn bringup_line(index: int) -> Seq<u8> {
    command_text(bringup_text(index))
}

/// A closing `html` tag, in lower or in upper case, stands in `transcript`.
pub open spec fn terminal_marker_in(transcript: Seq<u8>) -> bool {
    occurs(transcript, "</html>".spec_bytes()) || occurs(transcript, "</HTML>".spec_bytes())
}

/// More than `threshold` reads in a row brought nothing while the transcript
/// holds something.
pub open spec fn quiescent(quiet: u32, holding: bool, threshold: u32) -> bool {
    quiet > threshold && holding
}

/// The token that a phase awaits in what it reads, if it awaits one.
pub open spec fn awaited(phase: Phase) -> Option<Seq<u8>> {
    match phase {
        Phase::OpenRead { .. } => Some(open_ack()),
        Phase::PromptRead { .. } => Some(send_prompt()),
        Phase::ConfirmRead { .. } => Some(send_ack()),
        _ => None,
    }
}

/// `event` brings text in which `token` stands.
pub open spec fn carries(event: EventView, token: Seq<u8>) -> bool {
    event matches EventView::Data(chunk) && valid_utf8(chunk) && occurs(chunk, token)
}

/// How `event` arrived.
pub open spec fn arrival_of(event: EventView) -> Arrival {
    match event {
        EventView::Done => Arrival::Completed,
        EventView::Data(chunk) => if valid_utf8(chunk) {
            Arrival::Text
        } else {
            Arrival::Garbled
        },
        EventView::ReadFailed => Arrival::Failed,
        EventView::TimedOut => Arrival::Silent,
    }
}

/// The transcript after `event` was reported in `phase`: text that arrives
/// while the response is collected is appended where it fits whole, and
/// dropped where it does not; nothing else changes the transcript.
pub open spec fn absorb(phase: Phase, transcript: Seq<u8>, event: EventView) -> Seq<u8> {
    match event {
        EventView::Data(chunk) => if phase is Collect && valid_utf8(chunk) {
            appended(transcript, chunk, 8192)
        } else {
            transcript
        },
        _ => transcript,
    }
}

/// What `event` means to `phase`, given the transcript after the event.
pub open spec fn observe(phase: Phase, transcript: Seq<u8>, event: EventView) -> Observation {
    Observation {
        arrival: arrival_of(event),
        token: match awaited(phase) {
            Some(token) => carries(event, token),
            None => false,
        },
        marker: phase is Collect && arrival_of(event) is Text && terminal_marker_in(transcript),
        holding: phase is Collect && transcript.len() > 0,
    }
}

/// Takes the pause of `ms` milliseconds in phase `paused`, or goes on with
/// `otherwise` at once where there is no pause to take.
pub open spec fn pause_or(ms: u32, paused: Phase, otherwise: (Phase, Command)) -> (Phase, Command) {
    if ms > 0 {
        (paused, Command::Sleep { ms })
    } else {
        otherwise
    }
}

/// Goes on to bring-up command `index`, or to readiness behind the last one.
pub open spec fn enter_bringup(index: usize) -> (Phase, Command) {
    if index < BRINGUP_COMMANDS {
        (Phase::BootWrite { index }, Command::WriteBringup { index })
    } else {
        (Phase::Ready, Command::AwaitRequest)
    }
}

/// Reads the reply to bring-up command `index`.
pub open spec fn enter_bringup_read(policy: EnginePolicy, index: usize) -> (Phase, Command) {
    (
        Phase::BootRead { index },
        Command::Read { timeout_ms: policy.probe_timeout_ms, capacity: BULK_READ },
    )
}

/// The index behind `index`, which stays at the number of commands.
pub open spec fn bringup_successor(index: usize) -> usize {
    if index < BRINGUP_COMMANDS {
        (index + 1) as usize
    } else {
        BRINGUP_COMMANDS
    }
}

/// Starts a transaction: drains stale input, after the settle time.
pub open spec fn enter_drain(policy: EnginePolicy) -> (Phase, Command) {
    pause_or(policy.drain_settle_ms, Phase::DrainSettle, enter_drain_read(policy))
}

/// Reads stale input away.
pub open spec fn enter_drain_read(policy: EnginePolicy) -> (Phase, Command) {
    (Phase::Draining, Command::Read { timeout_ms: policy.drain_timeout_ms, capacity: TOKEN_READ })
}

/// Reads for the open acknowledgement with `left` reads left.
pub open spec fn enter_open_read(policy: EnginePolicy, left: u32) -> (Phase, Command) {
    (
        Phase::OpenRead { left },
        Command::Read { timeout_ms: policy.open.timeout_ms, capacity: TOKEN_READ },
    )
}

/// Starts the next attempt to see the open acknowledgement, or fails the
/// transaction where no read is left.
pub open spec fn enter_open_attempt(policy: EnginePolicy, left: u32) -> (Phase, Command) {
    if left == 0 {
        (Phase::Ready, Command::Fail(Diagnostic::ConnectionFailed))
    } else {
        pause_or(policy.open.delay_ms, Phase::OpenPause { left }, enter_open_read(policy, left))
    }
}

/// Goes on with an open connection.
pub open spec fn enter_connected(policy: EnginePolicy) -> (Phase, Command) {
    pause_or(policy.connect_settle_ms, Phase::ConnectSettle, enter_prompt_write())
}

/// Announces the length of the request.
pub open spec fn enter_prompt_write() -> (Phase, Command) {
    (Phase::PromptWrite, Command::WriteSendLength)
}

/// Reads for the send prompt with `left` reads left.
pub open spec fn enter_prompt_read(policy: EnginePolicy, left: u32) -> (Phase, Command) {
    (
        Phase::PromptRead { left },
        Command::Read { timeout_ms: policy.prompt.timeout_ms, capacity: TOKEN_READ },
    )
}

/// Starts the next attempt to see the send prompt, or gives the connection
/// up where no read is left.
pub open spec fn enter_prompt_attempt(policy: EnginePolicy, left: u32) -> (Phase, Command) {
    if left == 0 {
        (Phase::AbortClose, Command::WriteClose)
    } else {
        pause_or(
            policy.prompt.delay_ms,
            Phase::PromptPause { left },
            enter_prompt_read(policy, left),
        )
    }
}

/// Goes on after the request was written.
pub open spec fn enter_sent(policy: EnginePolicy) -> (Phase, Command) {
    pause_or(
        policy.send_settle_ms,
        Phase::SendSettle,
        enter_confirm_attempt(policy, policy.confirm.max_attempts),
    )
}

/// Starts the next attempt to see the send acknowledgement, or goes on to
/// collect without it where no read is left.
pub open spec fn enter_confirm_attempt(policy: EnginePolicy, left: u32) -> (Phase, Command) {
    if left == 0 {
        enter_collect(policy)
    } else {
        (
            Phase::ConfirmRead { left },
            Command::Read { timeout_ms: policy.confirm.timeout_ms, capacity: TOKEN_READ },
        )
    }
}

/// Goes on after a read that did not bring the send acknowledgement, with
/// `left` reads left.
pub open spec fn enter_confirm_miss(policy: EnginePolicy, left: u32) -> (Phase, Command) {
    pause_or(
        policy.confirm.delay_ms,
        Phase::ConfirmPause { left },
        enter_confirm_attempt(policy, left),
    )
}

/// Starts to collect the response.
pub open spec fn enter_collect(policy: EnginePolicy) -> (Phase, Command) {
    if policy.collect.max_reads == 0 {
        enter_close()
    } else {
        enter_collect_read(policy, policy.collect.max_reads, 0)
    }
}

/// Reads more of the response.
pub open spec fn enter_collect_read(policy: EnginePolicy, left: u32, quiet: u32) -> (
    Phase,
    Command,
) {
    (
        Phase::Collect { left, quiet },
        Command::Read { timeout_ms: policy.collect.timeout_ms, capacity: BULK_READ },
    )
}

/// Closes the connection.
pub open spec fn enter_close() -> (Phase, Command) {
    (Phase::CloseWrite, Command::WriteClose)
}

/// Goes on after the close command was written.
pub open spec fn enter_closed(policy: EnginePolicy) -> (Phase, Command) {
    pause_or(policy.close_settle_ms, Phase::CloseSettle, (Phase::Ready, Command::Deliver))
}

/// One less than `left`, and 0 where nothing is left.
pub open spec fn one_less(left: u32) -> u32 {
    if left == 0 {
        0
    } else {
        (left - 1) as u32
    }
}

/// The number of reads in a row without anything after one more of them.
pub open spec fn one_more(quiet: u32) -> u32 {
    if quiet == u32::MAX {
        quiet
    } else {
        (quiet + 1) as u32
    }
}

/// The step that collects the response, on one reported read. Text resets
/// the count of quiet reads and ends the step where a terminal marker has
/// been collected; garbled bytes change nothing; a read without data counts
/// as quiet and ends the step once the line is quiescent. The step also
/// ends with the last read that it is allowed.
pub open spec fn collect_step(policy: EnginePolicy, left: u32, quiet: u32, seen: Observation) -> (
    Phase,
    Command,
) {
    let quiet_now = match seen.arrival {
        Arrival::Text => 0u32,
        Arrival::Garbled => quiet,
        _ => one_more(quiet),
    };
    let finished = match seen.arrival {
        Arrival::Text => seen.marker,
        Arrival::Garbled => false,
        _ => quiescent(quiet_now, seen.holding, policy.collect.quiet_reads),
    };
    if finished || left <= 1 {
        enter_close()
    } else {
        enter_collect_read(policy, one_less(left), quiet_now)
    }
}

/// The decision of the engine: the phase that follows `phase` on an event
/// that was observed as `seen`, and what to do next.
pub open spec fn advance(phase: Phase, policy: EnginePolicy, seen: Observation) -> (Phase, Command) {
    match phase {
        Phase::BootSettle => enter_bringup(0),
        Phase::BootWrite { index } => pause_or(
            policy.probe_pause_ms,
            Phase::BootPause { index },
            enter_bringup_read(policy, index),
        ),
        Phase::BootPause { index } => enter_bringup_read(policy, index),
        Phase::BootRead { index } => pause_or(
            bringup_rest_ms(index as int),
            Phase::BootRest { index },
            enter_bringup(bringup_successor(index)),
        ),
        Phase::BootRest { index } => enter_bringup(bringup_successor(index)),
        Phase::Ready => (Phase::Ready, Command::AwaitRequest),
        Phase::DrainSettle => enter_drain_read(policy),
        Phase::Draining => if seen.arrival is Silent {
            (Phase::OpenWrite, Command::WriteOpen)
        } else {
            enter_drain_read(policy)
        },
        Phase::OpenWrite => enter_open_attempt(policy, policy.open.max_attempts),
        Phase::OpenPause { left } => enter_open_read(policy, left),
        Phase::OpenRead { left } => if seen.token {
            enter_connected(policy)
        } else {
            enter_open_attempt(policy, one_less(left))
        },
        Phase::ConnectSettle => enter_prompt_write(),
        Phase::PromptWrite => enter_prompt_attempt(policy, policy.prompt.max_attempts),
        Phase::PromptPause { left } => enter_prompt_read(policy, left),
        Phase::PromptRead { left } => if seen.token {
            (Phase::SendWrite, Command::WritePayload)
        } else {
            enter_prompt_attempt(policy, one_less(left))
        },
        Phase::AbortClose => (Phase::Ready, Command::Fail(Diagnostic::NoSendPrompt)),
        Phase::SendWrite => enter_sent(policy),
        Phase::SendSettle => enter_confirm_attempt(policy, policy.confirm.max_attempts),
        Phase::ConfirmRead { left } => if seen.token {
            enter_collect(policy)
        } else {
            enter_confirm_miss(policy, one_less(left))
        },
        Phase::ConfirmPause { left } => enter_confirm_attempt(policy, left),
        Phase::Collect { left, quiet } => collect_step(policy, left, quiet, seen),
        Phase::CloseWrite => enter_closed(policy),
        Phase::CloseSettle => (Phase::Ready, Command::Deliver),
    }
}

/// What an `Engine` holds.
pub struct EngineView {
    pub phase: Phase,
    pub policy: EnginePolicy,
    pub request: RequestView,
    pub transcript: Seq<u8>,
}

/// The action that carries out `command` for `request`, with `transcript`
/// collected.
pub open spec fn render(command: Command, request: RequestView, transcript: Seq<u8>) -> ActionView {
    match command {
        Command::WriteBringup { index } => ActionView::Write(bringup_line(index as int)),
        Command::WriteOpen => ActionView::Write(open_command(request.host)),
        Command::WriteSendLength => ActionView::Write(
            send_command(upstream_request(request).len()),
        ),
        Command::WritePayload => ActionView::Write(upstream_request(request)),
        Command::WriteClose => ActionView::Write(close_command()),
        Command::Read { timeout_ms, capacity } => ActionView::Read { timeout_ms, capacity },
        Command::Sleep { ms } => ActionView::Sleep { ms },
        Command::AwaitRequest => ActionView::AwaitRequest,
        Command::Fail(diagnostic) => ActionView::Finish(
            ResultView { payload: diagnostic.text(), succeeded: false },
        ),
        Command::Deliver => ActionView::Finish(ResultView { payload: transcript, succeeded: true }),
    }
}

/// One step of the engine: the state and the action that follow `state` on
/// `event`. The transcript leaves the engine with the result that delivers
/// it.
pub open spec fn next(state: EngineView, event: EventView) -> (EngineView, ActionView) {
    let transcript = absorb(state.phase, state.transcript, event);
    let seen = observe(state.phase, transcript, event);
    let (phase, command) = advance(state.phase, state.policy, seen);
    let kept = if command is Deliver {
        Seq::<u8>::empty()
    } else {
        transcript
    };
    (
        EngineView { phase, policy: state.policy, request: state.request, transcript: kept },
        render(command, state.request, transcript),
    )
}

/// The state and the first action of a transaction for `request`, from a
/// state that is ready.
pub open spec fn begin(state: EngineView, request: RequestView) -> (EngineView, ActionView) {
    let (phase, command) = enter_drain(state.policy);
    (
        EngineView { phase, policy: state.policy, request, transcript: Seq::<u8>::empty() },
        render(command, request, Seq::<u8>::empty()),
    )
}

/// The timing that the gateway uses unless it is told otherwise.
pub open spec fn standard_policy() -> EnginePolicy {
    EnginePolicy {
        boot_settle_ms: 2000,
        probe_pause_ms: 100,
        probe_timeout_ms: 2000,
        drain_settle_ms: 500,
        drain_timeout_ms: 100,
        open: RetryPolicy { max_attempts: 20, timeout_ms: 500, delay_ms: 500 },
        connect_settle_ms: 1000,
        prompt: RetryPolicy { max_attempts: 1, timeout_ms: 5000, delay_ms: 500 },
        send_settle_ms: 500,
        confirm: RetryPolicy { max_attempts: 10, timeout_ms: 500, delay_ms: 100 },
        collect: CollectPolicy { max_reads: 60, timeout_ms: 500, quiet_reads: 6 },
        close_settle_ms: 500,
    }
}

impl EnginePolicy {
    /// The timing that the gateway uses unless it is told otherwise.
    pub fn standard() -> (policy: EnginePolicy)
        ensures
            policy == standard_policy(),
    {
        EnginePolicy {
            boot_settle_ms: 2000,
            probe_pause_ms: 100,
            probe_timeout_ms: 2000,
            drain_settle_ms: 500,
            drain_timeout_ms: 100,
            open: RetryPolicy { max_attempts: 20, timeout_ms: 500, delay_ms: 500 },
            connect_settle_ms: 1000,
            prompt: RetryPolicy { max_attempts: 1, timeout_ms: 5000, delay_ms: 500 },
            send_settle_ms: 500,
            confirm: RetryPolicy { max_attempts: 10, timeout_ms: 500, delay_ms: 100 },
            collect: CollectPolicy { max_reads: 60, timeout_ms: 500, quiet_reads: 6 },
            close_settle_ms: 500,
        }
    }
}

/// Whether a closing `html` tag, in lower or in upper case, stands in
/// `transcript`.
pub fn has_terminal_marker(transcript: &[u8]) -> (r: bool)
    ensures
        r == terminal_marker_in(transcript@),
{
    contains(transcript, "</html>".as_bytes()) || contains(transcript, "</HTML>".as_bytes())
}

/// Whether the line counts as quiet: more than `threshold` reads in a row
/// brought nothing while the transcript holds something.
pub fn is_quiescent(quiet: u32, holding: bool, threshold: u32) -> (r: bool)
    ensures
        r == quiescent(quiet, holding, threshold),
{
    quiet > threshold && holding
}

/// Bring-up command `index` without its line end, and the settle time that
/// follows it.
pub fn bringup_command(index: usize) -> (command: (&'static str, u32))
    ensures
        command.0.spec_bytes() == bringup_text(index as int),
        command.1 == bringup_rest_ms(index as int),
{
    if index == 0 {
        ("AT", 500)
    } else if index == 1 {
        ("AT+CPIN?", 500)
    } else if index == 2 {
        ("AT+CREG?", 500)
    } else if index == 3 {
        ("AT+CGATT=1", 1000)
    } else if index == 4 {
        ("AT+QICSGP=1,1,\"CTNET\"", 500)
    } else if index == 5 {
        ("AT+QIACT=1", 2000)
    } else if index == 6 {
        ("AT+QIACT?", 500)
    } else {
        ("AT+QIDNSCFG=1,\"114.114.114.114\",\"8.8.8.8\"", 500)
    }
}

/// The line that is written for `command`: the command and a line end.
pub fn command_line(command: &str) -> (line: CommandText)
    ensures
        command_bytes(&line) == command_text(command.spec_bytes()),
{
    let mut line = command_new();
    let _ = command_push_str(&mut line, command);
    let _ = command_push_str(&mut line, "\r\n");
    line
}

/// The command that opens a TCP connection to port 80 of the host of
/// `request`.
pub fn open_line(request: &ProxyRequest) -> (line: CommandText)
    ensures
        command_bytes(&line) == open_command(request@.host),
{
    let host = request.host();
    let path = request.path();
    proof {
        lemma_commands_are_short(request@);
    }
    let mut line = command_new();
    let _ = command_push_str(&mut line, "AT+QIOPEN=1,0,\"TCP\",\"");
    let _ = command_push_str(&mut line, host);
    let _ = command_push_str(&mut line, "\",80,0,1\r\n");
    assert(command_bytes(&line) =~= open_command(request@.host));
    line
}

/// The request that is sent upstream for `request`.
pub fn upstream_text(request: &ProxyRequest) -> (text: UpstreamText)
    ensures
        upstream_bytes(&text) == upstream_request(request@),
{
    let host = request.host();
    let path = request.path();
    proof {
        lemma_commands_are_short(request@);
    }
    let mut text = upstream_new();
    let _ = upstream_push_str(&mut text, "GET ");
    let _ = upstream_push_str(&mut text, path);
    let _ = upstream_push_str(&mut text, " HTTP/1.1\r\nHost: ");
    let _ = upstream_push_str(&mut text, host);
    let _ = upstream_push_str(
        &mut text,
        "\r\nConnection: close\r\nUser-Agent: PicoLTE-Proxy/1.0\r\n\r\n",
    );
    assert(upstream_bytes(&text) =~= upstream_request(request@));
    text
}

/// The command that announces a payload of `len` bytes.
pub fn send_line(len: usize) -> (line: AnnounceText)
    ensures
        short_bytes(&line) == send_command(len as nat),
{
    proof {
        lemma_announcement_is_short(len);
    }
    let mut line = short_new();
    let _ = short_push_str(&mut line, "AT+QISEND=0,");
    let _ = push_decimal(&mut line, len);
    let _ = short_push_str(&mut line, "\r\n");
    assert(short_bytes(&line) =~= send_command(len as nat));
    line
}

/// The command that closes the connection.
pub fn close_line() -> (line: CommandText)
    ensures
        command_bytes(&line) == close_command(),
{
    proof {
        lemma_commands_are_short(RequestView { host: Seq::empty(), path: Seq::empty() });
    }
    let mut line = command_new();
    let _ = command_push_str(&mut line, "AT+QICLOSE=0\r\n");
    assert(command_bytes(&line) =~= close_command());
    line
}

/// Computes `pause_or`.
fn paused_or(ms: u32, paused: Phase, otherwise: (Phase, Command)) -> (r: (Phase, Command))
    ensures
        r == pause_or(ms, paused, otherwise),
{
    if ms > 0 {
        (paused, Command::Sleep { ms })
    } else {
        otherwise
    }
}

/// Computes `enter_bringup`.
fn to_bringup(index: usize) -> (r: (Phase, Command))
    ensures
        r == enter_bringup(index),
{
    if index < BRINGUP_COMMANDS {
        (Phase::BootWrite { index }, Command::WriteBringup { index })
    } else {
        (Phase::Ready, Command::AwaitRequest)
    }
}

/// Computes `enter_bringup_read`.
fn to_bringup_read(policy: &EnginePolicy, index: usize) -> (r: (Phase, Command))
    ensures
        r == enter_bringup_read(*policy, index),
{
    (
        Phase::BootRead { index },
        Command::Read { timeout_ms: policy.probe_timeout_ms, capacity: BULK_READ },
    )
}

/// Computes `bringup_successor`.
fn successor(index: usize) -> (r: usize)
    ensures
        r == bringup_successor(index),
{
    if index < BRINGUP_COMMANDS {
        index + 1
    } else {
        BRINGUP_COMMANDS
    }
}

/// Computes `enter_drain_read`.
fn to_drain_read(policy: &EnginePolicy) -> (r: (Phase, Command))
    ensures
        r == enter_drain_read(*policy),
{
    (Phase::Draining, Command::Read { timeout_ms: policy.drain_timeout_ms, capacity: TOKEN_READ })
}

/// Computes `enter_drain`.
fn to_drain(policy: &EnginePolicy) -> (r: (Phase, Command))
    ensures
        r == enter_drain(*policy),
{
    paused_or(policy.drain_settle_ms, Phase::DrainSettle, to_drain_read(policy))
}

/// Computes `enter_open_read`.
fn to_open_read(policy: &EnginePolicy, left: u32) -> (r: (Phase, Command))
    ensures
        r == enter_open_read(*policy, left),
{
    (
        Phase::OpenRead { left },
        Command::Read { timeout_ms: policy.open.timeout_ms, capacity: TOKEN_READ },
    )
}

/// Computes `enter_open_attempt`.
fn to_open_attempt(policy: &EnginePolicy, left: u32) -> (r: (Phase, Command))
    ensures
        r == enter_open_attempt(*policy, left),
{
    if left == 0 {
        (Phase::Ready, Command::Fail(Diagnostic::ConnectionFailed))
    } else {
        paused_or(policy.open.delay_ms, Phase::OpenPause { left }, to_open_read(policy, left))
    }
}

/// Computes `enter_connected`.
fn to_connected(policy: &EnginePolicy) -> (r: (Phase, Command))
    ensures
        r == enter_connected(*policy),
{
    paused_or(
        policy.connect_settle_ms,
        Phase::ConnectSettle,
        (Phase::PromptWrite, Command::WriteSendLength),
    )
}

/// Computes `enter_prompt_read`.
fn to_prompt_read(policy: &EnginePolicy, left: u32) -> (r: (Phase, Command))
    ensures
        r == enter_prompt_read(*policy, left),
{
    (
        Phase::PromptRead { left },
        Command::Read { timeout_ms: policy.prompt.timeout_ms, capacity: TOKEN_READ },
    )
}

/// Computes `enter_prompt_attempt`.
fn to_prompt_attempt(policy: &EnginePolicy, left: u32) -> (r: (Phase, Command))
    ensures
        r == enter_prompt_attempt(*policy, left),
{
    if left == 0 {
        (Phase::AbortClose, Command::WriteClose)
    } else {
        paused_or(policy.prompt.delay_ms, Phase::PromptPause { left }, to_prompt_read(policy, left))
    }
}

/// Computes `enter_collect`.
fn to_collect(policy: &EnginePolicy) -> (r: (Phase, Command))
    ensures
        r == enter_collect(*policy),
{
    if policy.collect.max_reads == 0 {
        (Phase::CloseWrite, Command::WriteClose)
    } else {
        (
            Phase::Collect { left: policy.collect.max_reads, quiet: 0 },
            Command::Read { timeout_ms: policy.collect.timeout_ms, capacity: BULK_READ },
        )
    }
}

/// Computes `enter_confirm_attempt`.
fn to_confirm_attempt(policy: &EnginePolicy, left: u32) -> (r: (Phase, Command))
    ensures
        r == enter_confirm_attempt(*policy, left),
{
    if left == 0 {
        to_collect(policy)
    } else {
        (
            Phase::ConfirmRead { left },
            Command::Read { timeout_ms: policy.confirm.timeout_ms, capacity: TOKEN_READ },
        )
    }
}

/// Computes `enter_confirm_miss`.
fn to_confirm_miss(policy: &EnginePolicy, left: u32) -> (r: (Phase, Command))
    ensures
        r == enter_confirm_miss(*policy, left),
{
    paused_or(
        policy.confirm.delay_ms,
        Phase::ConfirmPause { left },
        to_confirm_attempt(policy, left),
    )
}

/// Computes `enter_sent`.
fn to_sent(policy: &EnginePolicy) -> (r: (Phase, Command))
    ensures
        r == enter_sent(*policy),
{
    paused_or(
        policy.send_settle_ms,
        Phase::SendSettle,
        to_confirm_attempt(policy, policy.confirm.max_attempts),
    )
}

/// Computes `enter_closed`.
fn to_closed(policy: &EnginePolicy) -> (r: (Phase, Command))
    ensures
        r == enter_closed(*policy),
{
    paused_or(policy.close_settle_ms, Phase::CloseSettle, (Phase::Ready, Command::Deliver))
}

/// Computes `one_less`.
fn less(left: u32) -> (r: u32)
    ensures
        r == one_less(left),
{
    if left == 0 {
        0
    } else {
        left - 1
    }
}

/// Computes `collect_step`.
fn collect_on(policy: &EnginePolicy, left: u32, quiet: u32, seen: Observation) -> (r: (
    Phase,
    Command,
))
    ensures
        r == collect_step(*policy, left, quiet, seen),
{
    let quiet_now: u32 = match seen.arrival {
        Arrival::Text => 0,
        Arrival::Garbled => quiet,
        _ => if quiet == u32::MAX {
            quiet
        } else {
            quiet + 1
        },
    };
    let finished = match seen.arrival {
        Arrival::Text => seen.marker,
        Arrival::Garbled => false,
        _ => is_quiescent(quiet_now, seen.holding, policy.collect.quiet_reads),
    };
    if finished || left <= 1 {
        (Phase::CloseWrite, Command::WriteClose)
    } else {
        (
            Phase::Collect { left: less(left), quiet: quiet_now },
            Command::Read { timeout_ms: policy.collect.timeout_ms, capacity: BULK_READ },
        )
    }
}

/// The decision of the engine: the phase that follows `phase` on an event
/// that was observed as `seen`, and what to do next.
pub fn decide(phase: Phase, policy: &EnginePolicy, seen: Observation) -> (r: (Phase, Command))
    ensures
        r == advance(phase, *policy, seen),
{
    match phase {
        Phase::BootSettle => to_bringup(0),
        Phase::BootWrite { index } => paused_or(
            policy.probe_pause_ms,
            Phase::BootPause { index },
            to_bringup_read(policy, index),
        ),
        Phase::BootPause { index } => to_bringup_read(policy, index),
        Phase::BootRead { index } => paused_or(
            bringup_command(index).1,
            Phase::BootRest { index },
            to_bringup(successor(index)),
        ),
        Phase::BootRest { index } => to_bringup(successor(index)),
        Phase::Ready => (Phase::Ready, Command::AwaitRequest),
        Phase::DrainSettle => to_drain_read(policy),
        Phase::Draining => match seen.arrival {
            Arrival::Silent => (Phase::OpenWrite, Command::WriteOpen),
            _ => to_drain_read(policy),
        },
        Phase::OpenWrite => to_open_attempt(policy, policy.open.max_attempts),
        Phase::OpenPause { left } => to_open_read(policy, left),
        Phase::OpenRead { left } => if seen.token {
            to_connected(policy)
        } else {
            to_open_attempt(policy, less(left))
        },
        Phase::ConnectSettle => (Phase::PromptWrite, Command::WriteSendLength),
        Phase::PromptWrite => to_prompt_attempt(policy, policy.prompt.max_attempts),
        Phase::PromptPause { left } => to_prompt_read(policy, left),
        Phase::PromptRead { left } => if seen.token {
            (Phase::SendWrite, Command::WritePayload)
        } else {
            to_prompt_attempt(policy, less(left))
        },
        Phase::AbortClose => (Phase::Ready, Command::Fail(Diagnostic::NoSendPrompt)),
        Phase::SendWrite => to_sent(policy),
        Phase::SendSettle => to_confirm_attempt(policy, policy.confirm.max_attempts),
        Phase::ConfirmRead { left } => if seen.token {
            to_collect(policy)
        } else {
            to_confirm_miss(policy, less(left))
        },
        Phase::ConfirmPause { left } => to_confirm_attempt(policy, left),
        Phase::Collect { left, quiet } => collect_on(policy, left, quiet, seen),
        Phase::CloseWrite => to_closed(policy),
        Phase::CloseSettle => (Phase::Ready, Command::Deliver),
    }
}

/// The engine of one modem. It serves one request at a time.
pub struct Engine {
    phase: Phase,
    policy: EnginePolicy,
    request: ProxyRequest,
    transcript: Payload,
}

impl View for Engine {
    type V = EngineView;

    closed spec fn view(&self) -> EngineView {
        EngineView {
            phase: self.phase,
            policy: self.policy,
            request: self.request@,
            transcript: payload_bytes(&self.transcript),
        }
    }
}

/// The state and the first action of an engine that has just been switched
/// on with `policy`: the modem is brought up before any request is served.
pub open spec fn switched_on(policy: EnginePolicy) -> (EngineView, ActionView) {
    let (phase, command) = pause_or(policy.boot_settle_ms, Phase::BootSettle, enter_bringup(0));
    let request = RequestView { host: Seq::<u8>::empty(), path: Seq::<u8>::empty() };
    (
        EngineView { phase, policy, request, transcript: Seq::<u8>::empty() },
        render(command, request, Seq::<u8>::empty()),
    )
}

impl Engine {
    /// An engine with `policy` and the first action of its bring-up.
    pub fn power_on(policy: EnginePolicy) -> (r: (Engine, Action))
        ensures
            (r.0@, r.1@) == switched_on(policy),
    {
        let (phase, command) = paused_or(policy.boot_settle_ms, Phase::BootSettle, to_bringup(0));
        let request = ProxyRequest::new("", "");
        proof {
            reveal_strlit("");
            assert("".spec_bytes() =~= Seq::<u8>::empty()) by {
                assert(vstd::string::is_ascii(""));
                vstd::string::is_ascii_spec_bytes("");
            }
        }
        let mut engine = Engine { phase, policy, request, transcript: payload_new() };
        let action = engine.carry_out(command);
        (engine, action)
    }

    /// Where the dialogue stands.
    pub fn phase(&self) -> (phase: Phase)
        ensures
            phase == self@.phase,
    {
        self.phase
    }

    /// The timing that the engine keeps to.
    pub fn policy(&self) -> (policy: EnginePolicy)
        ensures
            policy == self@.policy,
    {
        self.policy
    }

    /// Whether the engine can take a request.
    pub fn is_ready(&self) -> (ready: bool)
        ensures
            ready == (self@.phase is Ready),
    {
        match self.phase {
            Phase::Ready => true,
            _ => false,
        }
    }

    /// Starts to serve `request` and returns the first action of the
    /// transaction. An engine that is not ready hands the request back and
    /// stays as it is.
    pub fn fetch(&mut self, request: ProxyRequest) -> (r: Result<Action, ProxyRequest>)
        ensures
            old(self)@.phase is Ready ==> r is Ok && (final(self)@, r->Ok_0@) == begin(
                old(self)@,
                request@,
            ),
            !(old(self)@.phase is Ready) ==> r == Err::<Action, ProxyRequest>(request) && final(self)@
                == old(self)@,
    {
        if !self.is_ready() {
            return Err(request);
        }
        let (phase, command) = to_drain(&self.policy);
        self.phase = phase;
        self.request = request;
        self.transcript = payload_new();
        Ok(self.carry_out(command))
    }

    /// Takes `event` as the outcome of the action that was handed out last
    /// and returns the next action.
    pub fn step(&mut self, event: Event) -> (action: Action)
        ensures
            (final(self)@, action@) == next(old(self)@, event@),
    {
        let seen = self.take_in(&event);
        let (phase, command) = decide(self.phase, &self.policy, seen);
        self.phase = phase;
        self.carry_out(command)
    }

    /// Stores what `event` brings for the transcript and says what the event
    /// means to the current phase.
    fn take_in(&mut self, event: &Event) -> (seen: Observation)
        ensures
            final(self).phase == old(self).phase,
            final(self).policy == old(self).policy,
            final(self).request == old(self).request,
            payload_bytes(&final(self).transcript) == absorb(
                old(self).phase,
                payload_bytes(&old(self).transcript),
                event@,
            ),
            seen == observe(old(self).phase, payload_bytes(&final(self).transcript), event@),
    {
        let collecting = match self.phase {
            Phase::Collect { .. } => true,
            _ => false,
        };
        let mut arrival = Arrival::Completed;
        let mut token = false;
        let mut marker = false;
        match event {
            Event::Done => {},
            Event::ReadFailed => {
                arrival = Arrival::Failed;
            },
            Event::TimedOut => {
                arrival = Arrival::Silent;
            },
            Event::Data(chunk) => {
                match utf8_text(*chunk) {
                    None => {
                        arrival = Arrival::Garbled;
                    },
                    Some(text) => {
                        arrival = Arrival::Text;
                        token = match self.phase {
                            Phase::OpenRead { .. } => contains(
                                text.as_bytes(),
                                "+QIOPEN: 0,0".as_bytes(),
                            ),
                            Phase::PromptRead { .. } => contains(text.as_bytes(), ">".as_bytes()),
                            Phase::ConfirmRead { .. } => contains(
                                text.as_bytes(),
                                "SEND OK".as_bytes(),
                            ),
                            _ => false,
                        };
                        if collecting {
                            let _ = payload_push_str(&mut self.transcript, text);
                            marker = has_terminal_marker(payload_as_str(&self.transcript).as_bytes());
                        }
                    },
                }
            },
        }
        let holding = collecting && payload_as_str(&self.transcript).len() > 0;
        Observation { arrival, token, marker, holding }
    }

    /// Makes up the action for `command`. The transcript leaves the engine
    /// with the result that delivers it.
    fn carry_out(&mut self, command: Command) -> (action: Action)
        ensures
            action@ == render(command, old(self).request@, payload_bytes(&old(self).transcript)),
            final(self).phase == old(self).phase,
            final(self).policy == old(self).policy,
            final(self).request == old(self).request,
            payload_bytes(&final(self).transcript) == if command is Deliver {
                Seq::<u8>::empty()
            } else {
                payload_bytes(&old(self).transcript)
            },
    {
        match command {
            Command::WriteBringup { index } => Action::Write(
                Outgoing::Command(command_line(bringup_command(index).0)),
            ),
            Command::WriteOpen => Action::Write(Outgoing::Command(open_line(&self.request))),
            Command::WriteSendLength => {
                let payload = upstream_text(&self.request);
                let len = upstream_as_str(&payload).len();
                Action::Write(Outgoing::Announce(send_line(len)))
            },
            Command::WritePayload => Action::Write(
                Outgoing::Upstream(upstream_text(&self.request)),
            ),
            Command::WriteClose => Action::Write(Outgoing::Command(close_line())),
            Command::Read { timeout_ms, capacity } => Action::Read { timeout_ms, capacity },
            Command::Sleep { ms } => Action::Sleep { ms },
            Command::AwaitRequest => Action::AwaitRequest,
            Command::Fail(diagnostic) => Action::Finish(ProxyResult::failure(diagnostic)),
            Command::Deliver => {
                let mut transcript = payload_new();
                core::mem::swap(&mut self.transcript, &mut transcript);
                Action::Finish(ProxyResult::success(transcript))
            },
        }
    }
}

/// The actions that the engine hands out as `events` are reported one after
/// the other, from `state`: one action for each event.
pub open spec fn actions(state: EngineView, events: Seq<EventView>) -> Seq<ActionView>
    decreases events.len(),
{
    if events.len() == 0 {
        Seq::<ActionView>::empty()
    } else {
        seq![next(state, events.first()).1] + actions(
            next(state, events.first()).0,
            events.drop_first(),
        )
    }
}

/// The engine hands out one action for each event.
pub proof fn lemma_one_action_per_event(state: EngineView, events: Seq<EventView>)
    ensures
        actions(state, events).len() == events.len(),
    decreases events.len(),
{
    if events.len() > 0 {
        lemma_one_action_per_event(next(state, events.first()).0, events.drop_first());
    }
}

/// The engine is waiting for the open acknowledgement.
pub open spec fn is_opening(phase: Phase) -> bool {
    phase is OpenWrite || phase is OpenPause || phase is OpenRead
}

/// The action that ends a fetch whose connection was never acknowledged.
pub open spec fn connection_failure() -> ActionView {
    ActionView::Finish(
        ResultView { payload: Diagnostic::ConnectionFailed.text(), succeeded: false },
    )
}

/// The number of events that `left` attempts take which all miss the open
/// acknowledgement: a read each, and a pause each where the policy has one.
pub open spec fn open_attempts_cost(policy: EnginePolicy, left: u32) -> nat {
    if policy.open.delay_ms > 0 {
        2 * left as nat
    } else {
        left as nat
    }
}

/// The number of events after which an opening engine gives up, less one,
/// if none of them brings the open acknowledgement.
pub open spec fn open_budget(phase: Phase, policy: EnginePolicy) -> nat {
    match phase {
        Phase::OpenPause { left } => 1 + open_attempts_cost(policy, one_less(left)),
        Phase::OpenRead { left } => open_attempts_cost(policy, one_less(left)),
        _ => open_attempts_cost(policy, policy.open.max_attempts),
    }
}

/// Action `at` of `handed` ends the fetch with the connection failure, and
/// before it the engine only paused and read: it wrote nothing to the line.
pub open spec fn fails_unsent_at(handed: Seq<ActionView>, at: int) -> bool {
    &&& 0 <= at < handed.len()
    &&& handed[at] == connection_failure()
    &&& forall|j: int| 0 <= j < at ==> (#[trigger] handed[j] is Sleep || handed[j] is Read)
}

/// While the open acknowledgement has not been seen, the engine writes
/// nothing: on an event without it, an opening engine pauses or reads again
/// and goes on opening with a smaller budget, or it gives up, and then it
/// is ready and returns the failed result with the text of
/// `ConnectionFailed`.
pub proof fn lemma_open_ack_gates_send(state: EngineView, event: EventView)
    requires
        is_opening(state.phase),
        !carries(event, open_ack()),
    ensures
        ({
            let (after, action) = next(state, event);
            let budget = open_budget(state.phase, state.policy);
            &&& after.policy == state.policy
            &&& after.request == state.request
            &&& budget == 0 ==> after.phase is Ready && action == connection_failure()
            &&& budget > 0 ==> is_opening(after.phase) && (action is Sleep || action is Read)
                && open_budget(after.phase, after.policy) == budget - 1
        }),
{
}

/// If the open acknowledgement is never seen within the retry budget, the
/// fetch fails and nothing was sent: the action that answers event number
/// `open_budget` is the connection failure, and all actions before it are
/// pauses and reads.
pub proof fn lemma_unacknowledged_open_fails(state: EngineView, events: Seq<EventView>)
    requires
        is_opening(state.phase),
        forall|i: int| 0 <= i < events.len() ==> !carries(#[trigger] events[i], open_ack()),
        events.len() > open_budget(state.phase, state.policy),
    ensures
        fails_unsent_at(
            actions(state, events),
            open_budget(state.phase, state.policy) as int,
        ),
        Diagnostic::ConnectionFailed.text().len() > 0,
    decreases events.len(),
{
    Diagnostic::ConnectionFailed.lemma_text_len();
    let budget = open_budget(state.phase, state.policy);
    let (after, action) = next(state, events.first());
    let rest = events.drop_first();
    let handed = actions(state, events);
    assert(handed == seq![action] + actions(after, rest));
    assert(!carries(events[0], open_ack()));
    lemma_open_ack_gates_send(state, events.first());
    if budget > 0 {
        assert forall|i: int| 0 <= i < rest.len() implies !carries(#[trigger] rest[i], open_ack()) by {
            assert(rest[i] == events[i + 1]);
        }
        lemma_unacknowledged_open_fails(after, rest);
        let later = actions(after, rest);
        assert(handed[budget as int] == later[budget - 1]);
        assert forall|j: int| 0 <= j < budget implies (#[trigger] handed[j] is Sleep
            || handed[j] is Read) by {
            if j > 0 {
                assert(handed[j] == later[j - 1]);
            }
        }
    }
}

/// The engine has written the open command of a transaction or is further
/// on in it: from here on every event brings the transaction nearer to its
/// end.
pub open spec fn is_committed(phase: Phase) -> bool {
    !(phase is BootSettle || phase is BootWrite || phase is BootPause || phase is BootRead
        || phase is BootRest || phase is Ready || phase is DrainSettle || phase is Draining)
}

/// A bound on the events that collecting and closing take.
pub open spec fn collect_horizon(policy: EnginePolicy) -> nat {
    policy.collect.max_reads as nat + 3
}

/// A bound on the events that a transaction takes from the written request
/// on.
pub open spec fn send_horizon(policy: EnginePolicy) -> nat {
    collect_horizon(policy) + 2 * policy.confirm.max_attempts as nat + 3
}

/// A bound on the events that a transaction takes from the open connection
/// on.
pub open spec fn connect_horizon(policy: EnginePolicy) -> nat {
    send_horizon(policy) + 2 * policy.prompt.max_attempts as nat + 4
}

/// A bound on the number of events after which a transaction in `phase`
/// has ended. Only the drain before the open command has no bound: it ends
/// with the first read that times out.
pub open spec fn horizon(phase: Phase, policy: EnginePolicy) -> nat {
    match phase {
        Phase::CloseSettle => 1,
        Phase::CloseWrite => 2,
        Phase::Collect { left, .. } => left as nat + 3,
        Phase::ConfirmRead { left } => if left == 0 {
            collect_horizon(policy) + 3
        } else {
            collect_horizon(policy) + 2 * left as nat + 1
        },
        Phase::ConfirmPause { left } => collect_horizon(policy) + 2 * left as nat + 2,
        Phase::SendSettle => collect_horizon(policy) + 2 * policy.confirm.max_attempts as nat + 2,
        Phase::SendWrite => send_horizon(policy),
        Phase::AbortClose => 1,
        Phase::PromptRead { left } => send_horizon(policy) + 2 * left as nat + 1,
        Phase::PromptPause { left } => send_horizon(policy) + 2 * left as nat + 2,
        Phase::PromptWrite => send_horizon(policy) + 2 * policy.prompt.max_attempts as nat + 3,
        Phase::ConnectSettle => connect_horizon(policy),
        Phase::OpenRead { left } => connect_horizon(policy) + 2 * left as nat + 1,
        Phase::OpenPause { left } => connect_horizon(policy) + 2 * left as nat + 2,
        Phase::OpenWrite => connect_horizon(policy) + 2 * policy.open.max_attempts as nat + 3,
        _ => 0,
    }
}

/// Once the open command is written, every event brings the transaction
/// nearer to its end, whatever the event is: the engine ends the
/// transaction with a result and is ready, or it goes on with a smaller
/// bound on what is left.
pub proof fn lemma_event_nears_the_end(state: EngineView, event: EventView)
    requires
        is_committed(state.phase),
    ensures
        ({
            let (after, action) = next(state, event);
            &&& after.policy == state.policy
            &&& after.request == state.request
            &&& after.phase is Ready <==> action is Finish
            &&& !(after.phase is Ready) ==> is_committed(after.phase) && horizon(
                after.phase,
                after.policy,
            ) < horizon(state.phase, state.policy)
        }),
{
}

/// Every transaction ends: once the open command is written, one of the
/// next `horizon` events is answered with the result.
pub proof fn lemma_transaction_ends(state: EngineView, events: Seq<EventView>)
    requires
        is_committed(state.phase),
        events.len() >= horizon(state.phase, state.policy),
    ensures
        exists|at: int|
            0 <= at < horizon(state.phase, state.policy) && #[trigger] actions(
                state,
                events,
            )[at] is Finish,
    decreases events.len(),
{
    let (after, action) = next(state, events.first());
    let rest = events.drop_first();
    let handed = actions(state, events);
    lemma_event_nears_the_end(state, events.first());
    lemma_one_action_per_event(after, rest);
    assert(handed == seq![action] + actions(after, rest));
    if after.phase is Ready {
        assert(handed[0] is Finish);
    } else {
        lemma_transaction_ends(after, rest);
        let later = actions(after, rest);
        let at = choose|at: int|
            0 <= at < horizon(after.phase, after.policy) && #[trigger] later[at] is Finish;
        assert(handed[at + 1] == later[at]);
    }
}

/// What a transaction ends with. It fails with the text of
/// `ConnectionFailed` where the open acknowledgement stayed away, and with
/// the text of `NoSendPrompt` where the send prompt did. In every other
/// case it succeeds, with all that was collected as its payload: a send
/// acknowledgement that stayed away, or a response that is short or
/// empty, does not make it fail.
pub proof fn lemma_ends_of_a_transaction(state: EngineView, event: EventView)
    requires
        next(state, event).1 is Finish,
    ensures
        ({
            let result = next(state, event).1->Finish_0;
            &&& is_opening(state.phase) || state.phase is AbortClose || state.phase is CloseWrite
                || state.phase is CloseSettle
            &&& is_opening(state.phase) ==> !result.succeeded && result.payload
                == Diagnostic::ConnectionFailed.text()
            &&& state.phase is AbortClose ==> !result.succeeded && result.payload
                == Diagnostic::NoSendPrompt.text()
            &&& state.phase is CloseWrite || state.phase is CloseSettle ==> result.succeeded
                && result.payload == state.transcript
        }),
{
}

/// The modem is being brought up.
pub open spec fn is_booting(phase: Phase) -> bool {
    phase is BootSettle || phase is BootWrite || phase is BootPause || phase is BootRead
        || phase is BootRest
}

/// The number of bring-up commands from command `index` on.
pub open spec fn bringup_left(index: usize) -> nat {
    if index < BRINGUP_COMMANDS {
        (BRINGUP_COMMANDS - index) as nat
    } else {
        0
    }
}

/// A bound on the number of events after which the bring-up is over: four
/// for each command that is left, and one for the pause before the first.
pub open spec fn bringup_horizon(phase: Phase) -> nat {
    match phase {
        Phase::BootSettle => 4 * bringup_left(0) + 1,
        Phase::BootWrite { index } => 4 * bringup_left(bringup_successor(index)) + 4,
        Phase::BootPause { index } => 4 * bringup_left(bringup_successor(index)) + 3,
        Phase::BootRead { index } => 4 * bringup_left(bringup_successor(index)) + 2,
        Phase::BootRest { index } => 4 * bringup_left(bringup_successor(index)) + 1,
        _ => 0,
    }
}

/// Nothing that happens during the bring-up stops it: on every event the
/// engine goes on with the bring-up, with a smaller bound on what is left,
/// or it is ready and asks for a request. It never ends with a result.
pub proof fn lemma_bringup_goes_on(state: EngineView, event: EventView)
    requires
        is_booting(state.phase),
    ensures
        ({
            let (after, action) = next(state, event);
            &&& after.policy == state.policy
            &&& !(action is Finish)
            &&& after.phase is Ready <==> action is AwaitRequest
            &&& !(after.phase is Ready) ==> is_booting(after.phase) && bringup_horizon(after.phase)
                < bringup_horizon(state.phase)
        }),
{
}

/// The bring-up ends whatever the modem answers: one of the first 33 events
/// after the engine was switched on is answered with the request for a
/// request.
pub proof fn lemma_bringup_ends(state: EngineView, events: Seq<EventView>)
    requires
        is_booting(state.phase),
        events.len() >= bringup_horizon(state.phase),
    ensures
        bringup_horizon(state.phase) <= 33,
        exists|at: int|
            0 <= at < bringup_horizon(state.phase) && #[trigger] actions(
                state,
                events,
            )[at] is AwaitRequest,
    decreases events.len(),
{
    let (after, action) = next(state, events.first());
    let rest = events.drop_first();
    let handed = actions(state, events);
    lemma_bringup_goes_on(state, events.first());
    lemma_one_action_per_event(after, rest);
    assert(handed == seq![action] + actions(after, rest));
    if after.phase is Ready {
        assert(handed[0] is AwaitRequest);
    } else {
        lemma_bringup_ends(after, rest);
        let later = actions(after, rest);
        let at = choose|at: int|
            0 <= at < bringup_horizon(after.phase) && #[trigger] later[at] is AwaitRequest;
        assert(handed[at + 1] == later[at]);
    }
}

/// The end of a command line has two bytes.
pub proof fn lemma_line_end()
    ensures
        line_end() == seq![0x0du8, 0x0au8],
{
    reveal_strlit("\r\n");
    assert(vstd::string::is_ascii("\r\n"));
    vstd::string::is_ascii_spec_bytes("\r\n");
    assert(line_end() =~= seq![0x0du8, 0x0au8]);
}

/// The command that announces a length begins with 12 bytes.
pub proof fn lemma_announce_head()
    ensures
        announce_head().len() == 12,
{
    reveal_strlit("AT+QISEND=0,");
    assert(vstd::string::is_ascii("AT+QISEND=0,"));
    vstd::string::is_ascii_spec_bytes("AT+QISEND=0,");
}

/// The commands of a transaction are short: for a host of at most 64 bytes
/// and a path of at most 128 bytes the open command has at most 95 bytes,
/// the request that goes upstream at most 267, and the command that
/// announces its length at most 17. Each fits its buffer.
pub proof fn lemma_commands_are_short(request: RequestView)
    requires
        request.host.len() <= 64,
        request.path.len() <= 128,
    ensures
        open_command(request.host).len() == 31 + request.host.len(),
        upstream_request(request).len() == 75 + request.host.len() + request.path.len(),
        send_command(upstream_request(request).len()).len() <= 17,
        close_command().len() == 14,
{
    reveal_strlit("AT+QIOPEN=1,0,\"TCP\",\"");
    assert(vstd::string::is_ascii("AT+QIOPEN=1,0,\"TCP\",\""));
    vstd::string::is_ascii_spec_bytes("AT+QIOPEN=1,0,\"TCP\",\"");
    reveal_strlit("\",80,0,1\r\n");
    assert(vstd::string::is_ascii("\",80,0,1\r\n"));
    vstd::string::is_ascii_spec_bytes("\",80,0,1\r\n");
    reveal_strlit("GET ");
    assert(vstd::string::is_ascii("GET "));
    vstd::string::is_ascii_spec_bytes("GET ");
    reveal_strlit(" HTTP/1.1\r\nHost: ");
    assert(vstd::string::is_ascii(" HTTP/1.1\r\nHost: "));
    vstd::string::is_ascii_spec_bytes(" HTTP/1.1\r\nHost: ");
    reveal_strlit("\r\nConnection: close\r\nUser-Agent: PicoLTE-Proxy/1.0\r\n\r\n");
    assert(vstd::string::is_ascii(
        "\r\nConnection: close\r\nUser-Agent: PicoLTE-Proxy/1.0\r\n\r\n",
    ));
    vstd::string::is_ascii_spec_bytes(
        "\r\nConnection: close\r\nUser-Agent: PicoLTE-Proxy/1.0\r\n\r\n",
    );
    lemma_announce_head();
    lemma_line_end();
    reveal_strlit("AT+QICLOSE=0\r\n");
    assert(vstd::string::is_ascii("AT+QICLOSE=0\r\n"));
    vstd::string::is_ascii_spec_bytes("AT+QICLOSE=0\r\n");
    assert(power_of_ten(3) == 1000) by {
        reveal_with_fuel(power_of_ten, 4);
    }
    lemma_decimal_len(upstream_request(request).len(), 3);
}

/// The command that announces a length has at most 34 bytes, whatever the
/// length is.
pub proof fn lemma_announcement_is_short(len: usize)
    ensures
        send_command(len as nat).len() == 14 + decimal_digits(len as nat).len(),
        send_command(len as nat).len() <= 34,
{
    lemma_announce_head();
    lemma_line_end();
    lemma_decimal_len_of_usize(len);
}

/// The lines of the bring-up are whole: each is its command and a line end.
pub proof fn lemma_bringup_lines_are_whole(index: int)
    ensures
        bringup_line(index) == bringup_text(index) + line_end(),
        bringup_line(index).len() <= 43,
{
    lemma_line_end();
    reveal_strlit("AT");
    assert(vstd::string::is_ascii("AT"));
    vstd::string::is_ascii_spec_bytes("AT");
    reveal_strlit("AT+CPIN?");
    assert(vstd::string::is_ascii("AT+CPIN?"));
    vstd::string::is_ascii_spec_bytes("AT+CPIN?");
    reveal_strlit("AT+CREG?");
    assert(vstd::string::is_ascii("AT+CREG?"));
    vstd::string::is_ascii_spec_bytes("AT+CREG?");
    reveal_strlit("AT+CGATT=1");
    assert(vstd::string::is_ascii("AT+CGATT=1"));
    vstd::string::is_ascii_spec_bytes("AT+CGATT=1");
    reveal_strlit("AT+QICSGP=1,1,\"CTNET\"");
    assert(vstd::string::is_ascii("AT+QICSGP=1,1,\"CTNET\""));
    vstd::string::is_ascii_spec_bytes("AT+QICSGP=1,1,\"CTNET\"");
    reveal_strlit("AT+QIACT=1");
    assert(vstd::string::is_ascii("AT+QIACT=1"));
    vstd::string::is_ascii_spec_bytes("AT+QIACT=1");
    reveal_strlit("AT+QIACT?");
    assert(vstd::string::is_ascii("AT+QIACT?"));
    vstd::string::is_ascii_spec_bytes("AT+QIACT?");
    reveal_strlit("AT+QIDNSCFG=1,\"114.114.114.114\",\"8.8.8.8\"");
    assert(vstd::string::is_ascii("AT+QIDNSCFG=1,\"114.114.114.114\",\"8.8.8.8\""));
    vstd::string::is_ascii_spec_bytes("AT+QIDNSCFG=1,\"114.114.114.114\",\"8.8.8.8\"");
    assert(bringup_line(index) =~= bringup_text(index) + line_end());
}

} // verus!
