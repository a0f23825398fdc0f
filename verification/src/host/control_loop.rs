//! Control loop between service and session agent.
//!
//! After each command reply the agent drains its signals for the service, then sends a sentinel
//! acknowledgement of `drain_complete`.

use vstd::prelude::*;
use crate::host::agent::{
    law_agent_stays_in_step, AgentSession, AgentStep, PeerEffect, SessionView,
};
use crate::host::agent_state::law_unattended_latch_survives;
use crate::host::control::{ControlMessage, ErrorCode, MessageView, SignalView};
use crate::host::platform_capture::Platform;
use crate::host::session::ConnectionState;
use crate::host::signal_kind;
use crate::text::{
    after_prefix, chars_of, contains_text, decimal, digits_value, is_white, lemma_decimal, lemma_occurs_between, lower,
    lowercase, lowered, occurs_in, parse_unsigned, push_number, same, slice_is, starts_with,
    string_of, strip_prefix, trim, trimmed, trimmed_end, trimmed_start, unsigned_of,
};

verus! {

/// Sentinel method after the drain of outbound signals.
pub const DRAIN_COMPLETE: &'static str = "drain_complete";

/// Errors from the control client/server.
#[derive(Debug)]
pub enum ControlLoopError {
    /// Transport failure.
    Transport(String),
    /// Unexpected message shape.
    Protocol(String),
    /// Agent session construction failed.
    Agent(String),
}

/// What a `ControlLoopError` says.
pub enum LoopErrorView {
    Transport(Seq<char>),
    Protocol(Seq<char>),
    Agent(Seq<char>),
}

impl DeepView for ControlLoopError {
    type V = LoopErrorView;

    open spec fn deep_view(&self) -> LoopErrorView {
        match self {
            ControlLoopError::Transport(e) => LoopErrorView::Transport(e@),
            ControlLoopError::Protocol(e) => LoopErrorView::Protocol(e@),
            ControlLoopError::Agent(e) => LoopErrorView::Agent(e@),
        }
    }
}

impl LoopErrorView {
    /// The error as a message.
    pub open spec fn text(self) -> Seq<char> {
        match self {
            LoopErrorView::Transport(e) => "transport: "@ + e,
            LoopErrorView::Protocol(e) => "protocol: "@ + e,
            LoopErrorView::Agent(e) => "agent: "@ + e,
        }
    }
}

impl ControlLoopError {
    /// The error as a message.
    pub fn to_string(&self) -> (r: String)
        ensures
            r@ == self.deep_view().text(),
    {
        match self {
            ControlLoopError::Transport(e) => "transport: ".to_string().concat(e),
            ControlLoopError::Protocol(e) => "protocol: ".to_string().concat(e),
            ControlLoopError::Agent(e) => "agent: ".to_string().concat(e),
        }
    }
}

/// The sentinel that ends a drain.
pub fn drain_complete() -> (r: ControlMessage)
    ensures
        r.deep_view() == MessageView::ack(DRAIN_COMPLETE@, None),
{
    ControlMessage::ack(DRAIN_COMPLETE, None)
}

/// What a message means while the service drains the agent's signals.
#[derive(Debug)]
pub enum DrainStep {
    /// The drain is complete.
    Complete,
    /// A message to keep.
    Keep(ControlMessage),
    /// A message that has no place here.
    Unexpected(ControlLoopError),
}

/// Whether a message ends a drain.
pub open spec fn ends_drain(msg: MessageView) -> bool {
    msg matches MessageView::Ack { for_method, .. } && for_method == Some(DRAIN_COMPLETE@)
}

/// Whether a message is kept in a drain.
pub open spec fn kept_in_drain(msg: MessageView) -> bool {
    msg is SignalForward || msg is StatsPush || msg is LocalConfirmResult
}

/// The complaint about a message that has no place in a drain.
pub open spec fn drain_complaint(msg: MessageView) -> Seq<char> {
    "unexpected message while draining outbound: "@ + msg.method()
}

/// What a message means while the service drains the agent's signals.
pub fn drain_step(msg: ControlMessage) -> (r: DrainStep)
    ensures
        r is Complete <==> ends_drain(msg.deep_view()),
        r is Keep <==> kept_in_drain(msg.deep_view()),
        r matches DrainStep::Keep(m) ==> m == msg,
        r matches DrainStep::Unexpected(e) ==> e.deep_view() == LoopErrorView::Protocol(
            drain_complaint(msg.deep_view()),
        ),
{
    let ends = match &msg {
        ControlMessage::Ack(a) => match &a.for_method {
            Some(m) => same(m, DRAIN_COMPLETE),
            None => false,
        },
        _ => false,
    };
    if ends {
        return DrainStep::Complete;
    }
    let keep = match &msg {
        ControlMessage::SignalForward(_) => true,
        ControlMessage::StatsPush(_) => true,
        ControlMessage::LocalConfirmResult(_) => true,
        _ => false,
    };
    if keep {
        return DrainStep::Keep(msg);
    }
    let text = "unexpected message while draining outbound: ".to_string().concat(msg.method_name());
    DrainStep::Unexpected(ControlLoopError::Protocol(text))
}

/// Whether a reply lets the session start go on; `shown` is the reply as it is logged.
pub fn start_reply(msg: &ControlMessage, reply: &ControlMessage, shown: &str) -> (r: Result<
    (),
    ControlLoopError,
>)
    ensures
        r is Ok <==> reply.deep_view() is Ack,
        r matches Err(e) ==> e.deep_view() == LoopErrorView::Protocol(
            "agent rejected "@ + msg.deep_view().method() + ": "@ + shown@,
        ),
{
    match reply {
        ControlMessage::Ack(_) => Ok(()),
        _ => {
            let mut s = "agent rejected ".to_string();
            s.append(msg.method_name());
            s.append(": ");
            s.append(shown);
            Err(ControlLoopError::Protocol(s))
        },
    }
}

/// A control endpoint.
#[derive(Debug, Clone, PartialEq, Eq)]
pub enum ControlEndpoint {
    /// A port on the local host.
    TcpLocalhost { port: u16 },
    /// A Windows named pipe.
    NamedPipe { path: String },
}

/// What a `ControlEndpoint` names.
pub enum EndpointView {
    TcpLocalhost { port: u16 },
    NamedPipe { path: Seq<char> },
}

impl DeepView for ControlEndpoint {
    type V = EndpointView;

    open spec fn deep_view(&self) -> EndpointView {
        match self {
            ControlEndpoint::TcpLocalhost { port } => EndpointView::TcpLocalhost { port: *port },
            ControlEndpoint::NamedPipe { path } => EndpointView::NamedPipe { path: path@ },
        }
    }
}

/// The path of a pipe: a bare name lies under the local pipe directory.
pub open spec fn pipe_path(name: Seq<char>) -> Seq<char> {
    let low = lowered(name);
    if "\\\\.\\pipe\\"@.is_prefix_of(low) || "//./pipe/"@.is_prefix_of(low) {
        name
    } else {
        "\\\\.\\pipe\\"@ + name
    }
}

impl ControlEndpoint {
    /// A port on the local host.
    pub fn tcp_localhost(port: u16) -> (r: Self)
        ensures
            r.deep_view() == (EndpointView::TcpLocalhost { port }),
    {
        ControlEndpoint::TcpLocalhost { port }
    }

    /// The pipe that is used where none is named.
    pub fn default_named_pipe() -> (r: Self)
        ensures
            r.deep_view() == (EndpointView::NamedPipe {
                path: pipe_path("remotelink-host-control"@),
            }),
    {
        ControlEndpoint::named_pipe("remotelink-host-control")
    }

    /// A named pipe.
    pub fn named_pipe(name: &str) -> (r: Self)
        ensures
            r.deep_view() == (EndpointView::NamedPipe { path: pipe_path(name@) }),
    {
        let low = lowercase(&chars_of(name));
        if starts_with(&low, "\\\\.\\pipe\\") || starts_with(&low, "//./pipe/") {
            ControlEndpoint::NamedPipe { path: name.to_string() }
        } else {
            ControlEndpoint::NamedPipe { path: "\\\\.\\pipe\\".to_string().concat(name) }
        }
    }
}

/// What follows a scheme in either of its spellings.
pub open spec fn after_scheme(s: Seq<char>, low: Seq<char>, high: Seq<char>) -> Option<Seq<char>> {
    match after_prefix(s, low) {
        Some(rest) => Some(rest),
        None => after_prefix(s, high),
    }
}

/// The pipe that an endpoint text names on Windows, if it names one.
pub open spec fn pipe_of(s: Seq<char>) -> Option<EndpointView> {
    let low = lowered(s);
    if low == "pipe"@ || low == "named-pipe"@ {
        Some(EndpointView::NamedPipe { path: pipe_path("remotelink-host-control"@) })
    } else {
        match after_scheme(s, "pipe:"@, "PIPE:"@) {
            Some(rest) => {
                let name = trimmed(rest);
                Some(
                    EndpointView::NamedPipe {
                        path: pipe_path(
                            if name.len() == 0 {
                                "remotelink-host-control"@
                            } else {
                                name
                            },
                        ),
                    },
                )
            },
            None => if "\\\\.\\pipe\\"@.is_prefix_of(low) || "//./pipe/"@.is_prefix_of(low) {
                Some(EndpointView::NamedPipe { path: pipe_path(s) })
            } else {
                None
            },
        }
    }
}

/// Whether an endpoint text looks like a pipe where there are none.
pub open spec fn looks_like_pipe(s: Seq<char>) -> bool {
    let low = lowered(s);
    low == "pipe"@ || low == "named-pipe"@ || "pipe:"@.is_prefix_of(low)
        || "\\\\.\\pipe\\"@.is_prefix_of(low)
}

/// The port that an endpoint text names.
pub open spec fn port_of(s: Seq<char>) -> Option<nat> {
    unsigned_of(
        match after_scheme(s, "tcp:"@, "TCP:"@) {
            Some(rest) => rest,
            None => s,
        },
        u16::MAX as nat,
    )
}

/// The endpoint that a text names.
pub open spec fn endpoint_of(text: Seq<char>, platform: Platform) -> Result<
    EndpointView,
    LoopErrorView,
> {
    let s = trimmed(text);
    if s.len() == 0 {
        Err(
            LoopErrorView::Protocol("empty control endpoint (expected tcp:PORT or pipe[:name])"@),
        )
    } else if platform == Platform::Windows && pipe_of(s) is Some {
        Ok(pipe_of(s)->0)
    } else if platform != Platform::Windows && looks_like_pipe(s) {
        Err(
            LoopErrorView::Protocol(
                "named pipe control endpoints are only supported on Windows"@,
            ),
        )
    } else {
        match port_of(s) {
            Some(port) => Ok(EndpointView::TcpLocalhost { port: port as u16 }),
            None => Err(
                LoopErrorView::Protocol(
                    "invalid control endpoint `"@ + s + "` (expected tcp:PORT or pipe[:name])"@,
                ),
            ),
        }
    }
}

fn parse_pipe(s: &[char]) -> (r: Option<ControlEndpoint>)
    ensures
        r.deep_view() == pipe_of(s@),
{
    let low = lowercase(s);
    if slice_is(&low, "pipe") || slice_is(&low, "named-pipe") {
        return Some(ControlEndpoint::default_named_pipe());
    }
    let rest = match strip_prefix(s, "pipe:") {
        Some(rest) => Some(rest),
        None => strip_prefix(s, "PIPE:"),
    };
    match rest {
        Some(rest) => {
            assert(rest.deep_view() =~= rest@);
            let name = trim(rest);
            if name.len() == 0 {
                Some(ControlEndpoint::default_named_pipe())
            } else {
                Some(ControlEndpoint::named_pipe(&string_of(name)))
            }
        },
        None => {
            if starts_with(&low, "\\\\.\\pipe\\") || starts_with(&low, "//./pipe/") {
                Some(ControlEndpoint::named_pipe(&string_of(s)))
            } else {
                None
            }
        },
    }
}

fn parse_port(s: &[char]) -> (r: Option<u16>)
    ensures
        r is Some <==> port_of(s@) is Some,
        r matches Some(p) ==> port_of(s@) == Some(p as nat),
{
    let rest = match strip_prefix(s, "tcp:") {
        Some(rest) => Some(rest),
        None => strip_prefix(s, "TCP:"),
    };
    let digits: &[char] = match rest {
        Some(rest) => {
            assert(rest.deep_view() =~= rest@);
            rest
        },
        None => s,
    };
    match parse_unsigned(digits, u16::MAX as u64) {
        Some(n) => Some(n as u16),
        None => None,
    }
}

/// Parse a control endpoint string.
///
/// Examples:
/// - TCP: `tcp:0`, `tcp:7900`, `7900`
/// - Named pipe (Windows): `pipe`, `pipe:remotelink-host-control`,
///   `\\.\pipe\remotelink-host-control`
pub fn parse_control_endpoint(s: &str, platform: Platform) -> (r: Result<
    ControlEndpoint,
    ControlLoopError,
>)
    ensures
        match r {
            Ok(e) => endpoint_of(s@, platform) == Ok::<EndpointView, LoopErrorView>(e.deep_view()),
            Err(e) => endpoint_of(s@, platform) == Err::<EndpointView, LoopErrorView>(
                e.deep_view(),
            ),
        },
{
    let all = chars_of(s);
    let t = trim(&all);
    if t.len() == 0 {
        return Err(
            ControlLoopError::Protocol(
                "empty control endpoint (expected tcp:PORT or pipe[:name])".to_string(),
            ),
        );
    }
    if platform == Platform::Windows {
        if let Some(e) = parse_pipe(t) {
            return Ok(e);
        }
    } else {
        let low = lowercase(t);
        if slice_is(&low, "pipe") || slice_is(&low, "named-pipe") || starts_with(&low, "pipe:")
            || starts_with(&low, "\\\\.\\pipe\\") {
            return Err(
                ControlLoopError::Protocol(
                    "named pipe control endpoints are only supported on Windows".to_string(),
                ),
            );
        }
    }
    match parse_port(t) {
        Some(port) => Ok(ControlEndpoint::tcp_localhost(port)),
        None => {
            let mut m = "invalid control endpoint `".to_string();
            m.append(&string_of(t));
            m.append("` (expected tcp:PORT or pipe[:name])");
            Err(ControlLoopError::Protocol(m))
        },
    }
}

/// An endpoint as text: a pipe of the local pipe directory by its name.
pub open spec fn endpoint_text(e: EndpointView) -> Seq<char> {
    match e {
        EndpointView::TcpLocalhost { port } => "tcp:"@ + decimal(port as nat),
        EndpointView::NamedPipe { path } => match after_scheme(
            path,
            "\\\\.\\pipe\\"@,
            "\\\\.\\PIPE\\"@,
        ) {
            Some(leaf) => "pipe:"@ + leaf,
            None => path,
        },
    }
}

/// Format a bound endpoint for printing.
pub fn format_endpoint(endpoint: &ControlEndpoint) -> (r: String)
    ensures
        r@ == endpoint_text(endpoint.deep_view()),
{
    match endpoint {
        ControlEndpoint::TcpLocalhost { port } => {
            let mut s = "tcp:".to_string();
            push_number(&mut s, *port as u64);
            s
        },
        ControlEndpoint::NamedPipe { path } => {
            let p = chars_of(path);
            let leaf = match strip_prefix(&p, "\\\\.\\pipe\\") {
                Some(leaf) => Some(leaf),
                None => strip_prefix(&p, "\\\\.\\PIPE\\"),
            };
            match leaf {
                Some(leaf) => {
                    assert(leaf.deep_view() =~= leaf@);
                    "pipe:".to_string().concat(&string_of(leaf))
                },
                None => path.clone(),
            }
        },
    }
}

/// The refusal of a message whose method names media.
pub open spec fn forbidden_refusal(msg: MessageView) -> MessageView {
    MessageView::refusal(
        ErrorCode::Unexpected,
        "media method `"@ + msg.method() + "` forbidden on control IPC"@,
        None,
    )
}

/// The refusal of a message whose method is forbidden on the control channel.
pub fn forbidden_reply(msg: &ControlMessage, forbidden: &Vec<String>) -> (r: Option<ControlMessage>)
    ensures
        r.deep_view() == (if forbidden.deep_view().contains(msg.deep_view().method()) {
            Some(forbidden_refusal(msg.deep_view()))
        } else {
            None
        }),
{
    let name = msg.method_name();
    let mut i: usize = 0;
    while i < forbidden.len()
        invariant
            i <= forbidden@.len(),
            name@ == msg.deep_view().method(),
            forall|k: int| 0 <= k < i ==> forbidden.deep_view()[k] != name@,
        decreases forbidden@.len() - i,
    {
        assert(forbidden.deep_view()[i as int] == forbidden@[i as int]@);
        if same(name, &forbidden[i]) {
            assert(forbidden.deep_view()[i as int] == name@);
            let mut s = "media method `".to_string();
            s.append(name);
            s.append("` forbidden on control IPC");
            return Some(ControlMessage::refusal(ErrorCode::Unexpected, &s, None));
        }
        i += 1;
    }
    None
}

/// The session after a command was served: one that names media changes nothing.
pub open spec fn served(
    s: SessionView,
    msg: MessageView,
    forbidden: Seq<Seq<char>>,
    connection: ConnectionState,
) -> SessionView {
    if forbidden.contains(msg.method()) {
        s
    } else {
        s.step(msg, connection).0
    }
}

/// What happens to an agent on the control channel.
pub enum AgentEvent {
    /// A command was served.
    Served { msg: MessageView, connection: ConnectionState },
    /// The transport could not start media after all.
    StartUndone,
    /// The agent was rebuilt for the next attach.
    Rebuilt,
}

/// The session after what happened to it, in order.
pub open spec fn after_events(
    s: SessionView,
    forbidden: Seq<Seq<char>>,
    events: Seq<AgentEvent>,
) -> SessionView
    decreases events.len(),
{
    if events.len() == 0 {
        s
    } else {
        let before = after_events(s, forbidden, events.drop_last());
        match events.last() {
            AgentEvent::Served { msg, connection } => served(before, msg, forbidden, connection),
            AgentEvent::StartUndone => before.start_undone(),
            AgentEvent::Rebuilt => before.rebuilt(),
        }
    }
}

/// Once a local kill-switch has latched unattended access off, no commands and no rebuilds in
/// between lift the latch, and unattended access stays off: only a local re-enable lifts it.
pub proof fn law_latch_survives_rebuilds(
    s: SessionView,
    forbidden: Seq<Seq<char>>,
    events: Seq<AgentEvent>,
)
    requires
        s.in_step(),
        s.state.unattended_disabled,
    ensures
        after_events(s, forbidden, events).in_step(),
        after_events(s, forbidden, events).state.unattended_disabled,
        !after_events(s, forbidden, events).state.unattended,
    decreases events.len(),
{
    if events.len() > 0 {
        law_latch_survives_rebuilds(s, forbidden, events.drop_last());
        let before = after_events(s, forbidden, events.drop_last());
        if let AgentEvent::Served { msg, connection } = events.last() {
            law_unattended_latch_survives(before.state, msg);
            law_agent_stays_in_step(before, msg, connection);
        }
    }
}

/// A command as the agent serves it: one that names media is refused outright and changes
/// nothing, any other is handled.
pub fn serve_message(
    agent: &mut AgentSession,
    msg: &ControlMessage,
    forbidden: &Vec<String>,
    connection: ConnectionState,
) -> (r: AgentStep)
    ensures
        final(agent).deep_view() == served(
            old(agent).deep_view(),
            msg.deep_view(),
            forbidden.deep_view(),
            connection,
        ),
        if forbidden.deep_view().contains(msg.deep_view().method()) {
            r.effect == PeerEffect::Nothing && r.reply.deep_view() == forbidden_refusal(
                msg.deep_view(),
            )
        } else {
            (final(agent).deep_view(), r.reply.deep_view(), r.effect)
                == old(agent).deep_view().step(msg.deep_view(), connection)
        },
{
    match forbidden_reply(msg, forbidden) {
        Some(reply) => AgentStep { reply, effect: PeerEffect::Nothing },
        None => agent.handle(msg, connection),
    }
}

/// Whether the transport is to be polled after a reply: while a session is live.
pub fn polls_after_reply(agent: &AgentSession) -> (r: bool)
    ensures
        r == (agent.deep_view().state.session_id is Some && !agent.deep_view().state.killed),
{
    agent.state.session_id.is_some() && !agent.state.killed
}

/// Whether a command may set off a media pump: an answer, a candidate or a statistics query.
pub open spec fn may_pump(msg: MessageView) -> bool {
    match msg {
        MessageView::SignalForward(s) => s.kind == signal_kind::SESSION_ANSWER@ || s.kind
            == signal_kind::ICE_CANDIDATE@,
        MessageView::QueryStats { .. } => true,
        _ => false,
    }
}

/// Whether media is pumped after a command.
pub fn pumps_after(msg: &ControlMessage, agent: &AgentSession, connection: ConnectionState) -> (r:
    bool)
    ensures
        r == (may_pump(msg.deep_view()) && agent.deep_view().state.media_started && connection
            == ConnectionState::Connected),
{
    let may = match msg {
        ControlMessage::SignalForward(s) => same(&s.kind, signal_kind::SESSION_ANSWER) || same(
            &s.kind,
            signal_kind::ICE_CANDIDATE,
        ),
        ControlMessage::QueryStats(_) => true,
        _ => false,
    };
    may && agent.state.media_started && connection == ConnectionState::Connected
}

/// Whether the session manager is rebuilt after a command: a session ended, and transports are
/// not reused.
pub fn rebuilds_after(msg: &ControlMessage, reply: &ControlMessage) -> (r: bool)
    ensures
        r == ((msg.deep_view() is DetachSession || msg.deep_view() is ShutdownSession)
            && reply.deep_view() is Ack),
{
    let ends = match msg {
        ControlMessage::DetachSession(_) => true,
        ControlMessage::ShutdownSession(_) => true,
        _ => false,
    };
    let acked = match reply {
        ControlMessage::Ack(_) => true,
        _ => false,
    };
    ends && acked
}

/// A step of one exchange on the control channel, from the agent's side.
#[derive(Debug, Clone, Copy, PartialEq, Eq, Structural)]
pub enum ExchangeStep {
    /// Serve the command.
    Serve,
    /// Send the reply.
    Reply,
    /// Let the transport work; what becomes of it does not matter.
    PollPeer,
    /// Send the signals that wait for the service, in order.
    SendSignals,
    /// Send the marker that ends the exchange.
    SendDrained,
    /// Wait until the peer is ready and pump frames; what becomes of it does not matter.
    Pump { wait_ms: u64, frames: u32 },
    /// Rebuild the agent on a fresh peer.
    Rebuild,
    /// Wait for the next command.
    Receive,
}

/// The step after `last`, given what is decided about the command: whether the transport is
/// polled, media pumped and the agent rebuilt.
pub open spec fn exchange_after(last: ExchangeStep, polls: bool, pumps: bool, rebuilds: bool) ->
    ExchangeStep {
    match last {
        ExchangeStep::Receive => ExchangeStep::Serve,
        ExchangeStep::Serve => ExchangeStep::Reply,
        ExchangeStep::Reply => if polls {
            ExchangeStep::PollPeer
        } else {
            ExchangeStep::SendSignals
        },
        ExchangeStep::PollPeer => ExchangeStep::SendSignals,
        ExchangeStep::SendSignals => ExchangeStep::SendDrained,
        ExchangeStep::SendDrained => if pumps {
            ExchangeStep::Pump { wait_ms: 200, frames: 3 }
        } else if rebuilds {
            ExchangeStep::Rebuild
        } else {
            ExchangeStep::Receive
        },
        ExchangeStep::Pump { .. } => if rebuilds {
            ExchangeStep::Rebuild
        } else {
            ExchangeStep::Receive
        },
        ExchangeStep::Rebuild => ExchangeStep::Receive,
    }
}

/// The step of an exchange after `last`.
pub fn exchange_step(
    last: ExchangeStep,
    msg: &ControlMessage,
    reply: &ControlMessage,
    agent: &AgentSession,
    connection: ConnectionState,
) -> (r: ExchangeStep)
    ensures
        r == exchange_after(
            last,
            agent.deep_view().state.session_id is Some && !agent.deep_view().state.killed,
            may_pump(msg.deep_view()) && agent.deep_view().state.media_started && connection
                == ConnectionState::Connected,
            (msg.deep_view() is DetachSession || msg.deep_view() is ShutdownSession)
                && reply.deep_view() is Ack,
        ),
{
    match last {
        ExchangeStep::Receive => ExchangeStep::Serve,
        ExchangeStep::Serve => ExchangeStep::Reply,
        ExchangeStep::Reply => {
            if polls_after_reply(agent) {
                ExchangeStep::PollPeer
            } else {
                ExchangeStep::SendSignals
            }
        },
        ExchangeStep::PollPeer => ExchangeStep::SendSignals,
        ExchangeStep::SendSignals => ExchangeStep::SendDrained,
        ExchangeStep::SendDrained => {
            if pumps_after(msg, agent, connection) {
                ExchangeStep::Pump { wait_ms: 200, frames: 3 }
            } else if rebuilds_after(msg, reply) {
                ExchangeStep::Rebuild
            } else {
                ExchangeStep::Receive
            }
        },
        ExchangeStep::Pump { .. } => {
            if rebuilds_after(msg, reply) {
                ExchangeStep::Rebuild
            } else {
                ExchangeStep::Receive
            }
        },
        ExchangeStep::Rebuild => ExchangeStep::Receive,
    }
}

/// The steps of an exchange after its command was served, where the decisions stay as they are.
pub open spec fn exchange_course(polls: bool, pumps: bool, rebuilds: bool) -> Seq<ExchangeStep> {
    seq![ExchangeStep::Reply] + (if polls {
        seq![ExchangeStep::PollPeer]
    } else {
        Seq::empty()
    }) + seq![ExchangeStep::SendSignals, ExchangeStep::SendDrained] + (if pumps {
        seq![ExchangeStep::Pump { wait_ms: 200, frames: 3 }]
    } else {
        Seq::empty()
    }) + (if rebuilds {
        seq![ExchangeStep::Rebuild]
    } else {
        Seq::empty()
    }) + seq![ExchangeStep::Receive]
}

/// The step that `n` steps after the serving of a command lead to.
pub open spec fn exchange_nth(n: nat, polls: bool, pumps: bool, rebuilds: bool) -> ExchangeStep
    decreases n,
{
    if n == 0 {
        ExchangeStep::Serve
    } else {
        exchange_after(exchange_nth((n - 1) as nat, polls, pumps, rebuilds), polls, pumps, rebuilds)
    }
}

/// Every exchange runs its course: the reply goes out first, then the signals, then the marker that
/// ends them; media and a rebuild come only after that, and then the next command is awaited.
pub proof fn law_exchange_runs_its_course(polls: bool, pumps: bool, rebuilds: bool, i: int)
    requires
        0 <= i < exchange_course(polls, pumps, rebuilds).len(),
    ensures
        exchange_nth((i + 1) as nat, polls, pumps, rebuilds) == exchange_course(
            polls,
            pumps,
            rebuilds,
        )[i],
{
    reveal_with_fuel(exchange_nth, 9);
}

/// Whether a receive error is the service hanging up.
#[derive(Debug, Clone, Copy, PartialEq, Eq, Structural)]
pub enum ReceiveFault {
    /// The stream ended, was reset or was aborted.
    Ended,
    /// The frame could not be read.
    Codec,
    /// Anything else.
    Other,
}

/// Whether a receive error is the service hanging up. A frame that was cut short counts as such.
pub fn hung_up(fault: ReceiveFault, text: &str) -> (r: bool)
    ensures
        r == match fault {
            ReceiveFault::Ended => true,
            ReceiveFault::Codec => occurs_in("truncated"@, text@)
                || occurs_in("eof"@, text@) || occurs_in(
                "incomplete"@,
                text@,
            ),
            ReceiveFault::Other => false,
        },
{
    match fault {
        ReceiveFault::Ended => true,
        ReceiveFault::Codec => {
            let t = chars_of(text);
            contains_text(&t, "truncated") || contains_text(&t, "eof")
                || contains_text(&t, "incomplete")
        },
        ReceiveFault::Other => false,
    }
}

proof fn lemma_trimmed_same(s: Seq<char>)
    requires
        s.len() > 0,
        !is_white(s[0]),
        !is_white(s.last()),
    ensures
        trimmed(s) == s,
{
    assert(trimmed_start(s) == s);
    assert(trimmed_end(s) == s);
}

/// A port as it is printed reads back as that port, on every system.
pub proof fn law_port_roundtrip(port: u16, platform: Platform)
    ensures
        endpoint_of(endpoint_text(EndpointView::TcpLocalhost { port }), platform) == Ok::<
            EndpointView,
            LoopErrorView,
        >(EndpointView::TcpLocalhost { port }),
{
    reveal_strlit("tcp:");
    reveal_strlit("pipe");
    reveal_strlit("named-pipe");
    reveal_strlit("pipe:");
    reveal_strlit("PIPE:");
    reveal_strlit("\\\\.\\pipe\\");
    reveal_strlit("//./pipe/");
    let d = decimal(port as nat);
    let s = "tcp:"@ + d;
    lemma_decimal(port as nat);
    assert(s[0] == 't');
    assert(s.last() == d.last());
    assert('0' <= d[d.len() - 1] && d[d.len() - 1] <= '9');
    lemma_trimmed_same(s);
    let low = lowered(s);
    assert(low[0] == lower('t'));
    assert(low[0] == 't');
    assert("pipe"@[0] == 'p');
    assert("named-pipe"@[0] == 'n');
    assert("pipe:"@[0] == 'p');
    assert("PIPE:"@[0] == 'P');
    assert("\\\\.\\pipe\\"@[0] == '\\');
    assert("//./pipe/"@[0] == '/');
    assert("tcp:"@.is_prefix_of(s));
    assert(s.skip(4) == d);
    assert('0' <= d[0] && d[0] <= '9');
    assert(port_of(s) == Some(digits_value(d)));
}

/// A pipe of the local pipe directory as it is printed reads back as that pipe on Windows. A leaf
/// that is empty, that starts or ends in white space, or that spells out the pipe directory once
/// more is not one that a pipe has.
pub proof fn law_pipe_roundtrip(leaf: Seq<char>)
    requires
        leaf.len() > 0,
        !is_white(leaf[0]),
        !is_white(leaf.last()),
        pipe_path(leaf) != leaf,
    ensures
        endpoint_of(
            endpoint_text(EndpointView::NamedPipe { path: pipe_path(leaf) }),
            Platform::Windows,
        ) == Ok::<EndpointView, LoopErrorView>(EndpointView::NamedPipe { path: pipe_path(leaf) }),
{
    reveal_strlit("pipe:");
    reveal_strlit("pipe");
    reveal_strlit("named-pipe");
    reveal_strlit("\\\\.\\pipe\\");
    let path = pipe_path(leaf);
    let dir = "\\\\.\\pipe\\"@;
    assert(path == dir + leaf);
    assert(dir.is_prefix_of(path));
    assert(path.skip(dir.len() as int) == leaf);
    let s = "pipe:"@ + leaf;
    assert(endpoint_text(EndpointView::NamedPipe { path }) == s);
    assert(s[0] == 'p');
    assert(s.last() == leaf.last());
    lemma_trimmed_same(s);
    lemma_trimmed_same(leaf);
    let low = lowered(s);
    assert(low.len() > 5);
    assert(low[4] == lower(':'));
    assert("named-pipe"@[4] == 'd');
    assert("pipe:"@.is_prefix_of(s));
    assert(s.skip(5) == leaf);
}

/// A drain is over with the acknowledgement of `drain_complete` and with nothing else, and what it
/// keeps never ends it. No command has a place in it.
pub proof fn law_drain_ends_with_its_marker(msg: MessageView)
    ensures
        ends_drain(msg) <==> (exists|s: Option<Seq<char>>|
            msg == #[trigger] MessageView::ack("drain_complete"@, s)),
        kept_in_drain(msg) ==> !ends_drain(msg),
        msg is SignalForward ==> kept_in_drain(msg),
        msg is StatsPush ==> kept_in_drain(msg),
        msg is LocalConfirmResult ==> kept_in_drain(msg),
        msg is Ack || msg is Error ==> !kept_in_drain(msg),
        msg is AttachSession || msg is DetachSession || msg is SetPolicy || msg is StartMedia
            || msg is StopMedia || msg is QueryStats || msg is ShowSessionChrome
            || msg is ShutdownSession || msg is KillSwitch ==> !kept_in_drain(msg) && !ends_drain(
            msg,
        ),
{
    if ends_drain(msg) {
        let s = msg->Ack_session_id;
        assert(msg == MessageView::ack("drain_complete"@, s));
    }
}

/// A command that names media is refused and changes nothing; every other one is handled as the
/// agent handles it.
pub proof fn law_media_is_kept_off_the_control_channel(
    s: SessionView,
    msg: MessageView,
    forbidden: Seq<Seq<char>>,
    connection: ConnectionState,
)
    ensures
        forbidden.contains(msg.method()) ==> served(s, msg, forbidden, connection) == s,
        !forbidden.contains(msg.method()) ==> served(s, msg, forbidden, connection) == s.step(
            msg,
            connection,
        ).0,
        served(s, msg, Seq::empty(), connection) == s.step(msg, connection).0,
        forbidden_refusal(msg) matches MessageView::Error { code, message, .. } && code
            == "unexpected"@ && occurs_in(msg.method(), message),
{
    lemma_occurs_between(
        "media method `"@,
        msg.method(),
        "` forbidden on control IPC"@,
    );
}

/// Media is pumped only after what can have let the viewer in: an answer, a candidate, or a question
/// for statistics.
pub proof fn law_pumps_follow_signals(s: SignalView, msg: MessageView)
    ensures
        may_pump(MessageView::SignalForward(s)) <==> s.kind == "session_answer"@ || s.kind
            == "ice_candidate"@,
        msg is QueryStats ==> may_pump(msg),
        may_pump(msg) ==> msg is SignalForward || msg is QueryStats,
{
}

/// Every pipe lies under a pipe directory; a bare name is put there, and a path that lies there is
/// taken as it is, in either spelling of its directory.
pub proof fn law_pipe_lies_in_its_directory(name: Seq<char>)
    ensures
        pipe_path(pipe_path(name)) == pipe_path(name),
        pipe_path(name) == name || pipe_path(name) == "\\\\.\\pipe\\"@ + name,
        pipe_path("\\\\.\\pipe\\"@ + name) == "\\\\.\\pipe\\"@ + name,
        pipe_path("//./pipe/"@ + name) == "//./pipe/"@ + name,
        name.len() > 0 && name[0] != '\\' && name[0] != '/' ==> pipe_path(name)
            == "\\\\.\\pipe\\"@ + name,
{
    reveal_strlit("\\\\.\\pipe\\");
    reveal_strlit("//./pipe/");
    let win = "\\\\.\\pipe\\"@;
    let uni = "//./pipe/"@;
    assert(win.is_prefix_of(lowered(win + name))) by {
        assert(lowered(win + name).take(win.len() as int) =~= win);
    }
    assert(uni.is_prefix_of(lowered(uni + name))) by {
        assert(lowered(uni + name).take(uni.len() as int) =~= uni);
    }
    if name.len() > 0 && name[0] != '\\' && name[0] != '/' {
        let low = lowered(name);
        assert(low[0] == lower(name[0]));
        if win.is_prefix_of(low) {
            assert(low[0] == win[0]);
        }
        if uni.is_prefix_of(low) {
            assert(low[0] == uni[0]);
        }
    }
}

/// Pipes are a matter of Windows, and so an endpoint that is taken elsewhere is a port. Nothing but
/// white space names no endpoint anywhere.
pub proof fn law_pipes_are_for_windows(text: Seq<char>, platform: Platform)
    ensures
        endpoint_of(text, platform) matches Ok(EndpointView::NamedPipe { .. }) ==> platform
            == Platform::Windows,
        trimmed(text).len() == 0 ==> endpoint_of(text, platform) is Err,
        lowered(trimmed(text)) == "pipe"@ ==> (endpoint_of(text, platform) is Ok <==> platform
            == Platform::Windows),
        lowered(trimmed(text)) == "named-pipe"@ ==> (endpoint_of(text, platform) is Ok <==> platform
            == Platform::Windows),
        endpoint_of(text, platform) matches Ok(EndpointView::TcpLocalhost { port }) ==> port_of(
            trimmed(text),
        ) == Some(port as nat),
        endpoint_of(text, platform) is Err ==> endpoint_of(text, platform)->Err_0 is Protocol,
{
    reveal_strlit("pipe");
    reveal_strlit("named-pipe");
    let s = trimmed(text);
    assert(lowered(s).len() == s.len());
}

/// A port may be named with its scheme, in either spelling, or without.
pub proof fn law_port_needs_no_scheme(digits: Seq<char>)
    requires
        digits.len() > 0,
        digits[0] != 't' && digits[0] != 'T',
    ensures
        port_of("tcp:"@ + digits) == port_of(digits),
        port_of("TCP:"@ + digits) == port_of(digits),
        port_of(digits) matches Some(n) ==> n <= 65_535,
{
    reveal_strlit("tcp:");
    reveal_strlit("TCP:");
    assert("tcp:"@.is_prefix_of("tcp:"@ + digits));
    assert(("tcp:"@ + digits).skip(4) =~= digits);
    assert("TCP:"@.is_prefix_of("TCP:"@ + digits));
    assert(("TCP:"@ + digits).skip(4) =~= digits);
    assert(("TCP:"@ + digits)[0] == 'T');
    assert(!"tcp:"@.is_prefix_of("TCP:"@ + digits)) by {
        if "tcp:"@.is_prefix_of("TCP:"@ + digits) {
            assert("tcp:"@[0] == ("TCP:"@ + digits)[0]);
        }
    }
    assert(!"tcp:"@.is_prefix_of(digits)) by {
        if "tcp:"@.is_prefix_of(digits) {
            assert("tcp:"@[0] == digits[0]);
        }
    }
    assert(!"TCP:"@.is_prefix_of(digits)) by {
        if "TCP:"@.is_prefix_of(digits) {
            assert("TCP:"@[0] == digits[0]);
        }
    }
}

} // verus!
