//! What the host program is asked to run.
//!
//! ```text
//! remotelink-host --role=service --server=http://127.0.0.1:8080 --transport=live
//! remotelink-host --role=service --server=… --agent-control=pipe --boot-secret=SECRET
//! remotelink-host --role=ws --server=http://127.0.0.1:8080 --transport=live
//! remotelink-host --role=agent --control-listen=pipe --boot-secret=SECRET --transport=live
//! ```

use vstd::prelude::*;
use crate::args::{args_view, flag_in, flag_value};
use crate::host::control_loop::{
    endpoint_of, parse_control_endpoint, ControlEndpoint, EndpointView,
};
use crate::host::platform_capture::Platform;
use crate::host::roles::{
    asked_role, chosen_transport, find_role, parse_transport, unknown_role, HostRole, TransportMode,
};
use crate::host::ws_session::{WsHostConfig, DEFAULT_LAB_SERVER};
use crate::text::{chars_of, parse_unsigned, unsigned_of};

verus! {

/// What the program runs.
#[derive(Debug)]
pub enum HostPlan {
    /// Show usage.
    Usage,
    /// The service without a server: trial frames only.
    ServiceSkeleton,
    /// Serve sessions of a signaling server.
    Serve { config: WsHostConfig },
    /// One synthetic session of the agent.
    AgentSynthetic { transport: TransportMode },
    /// Serve the control channel.
    AgentControl {
        listen: ControlEndpoint,
        boot_secret: Option<String>,
        transport: TransportMode,
    },
    /// Service control and agent in one process.
    Colocate,
    /// Show the indicator and fire the kill-switch.
    KillSwitchDemo,
}

/// What sessions are served of a signaling server.
pub struct ServeView {
    pub server: Seq<char>,
    pub transport: TransportMode,
    /// Sessions before the program ends; 0 is no limit.
    pub max_sessions: u32,
    pub reconnect: bool,
    pub agent_control: Option<EndpointView>,
    pub boot_secret: Option<Seq<char>>,
}

/// What a `HostPlan` says.
pub enum PlanView {
    Usage,
    ServiceSkeleton,
    Serve(ServeView),
    AgentSynthetic { transport: TransportMode },
    AgentControl {
        listen: EndpointView,
        boot_secret: Option<Seq<char>>,
        transport: TransportMode,
    },
    Colocate,
    KillSwitchDemo,
}

impl DeepView for HostPlan {
    type V = PlanView;

    open spec fn deep_view(&self) -> PlanView {
        match self {
            HostPlan::Usage => PlanView::Usage,
            HostPlan::ServiceSkeleton => PlanView::ServiceSkeleton,
            HostPlan::Serve { config } => PlanView::Serve(
                ServeView {
                    server: config.server@,
                    transport: config.transport,
                    max_sessions: config.max_sessions,
                    reconnect: config.reconnect,
                    agent_control: config.agent_control.deep_view(),
                    boot_secret: config.boot_secret.deep_view(),
                },
            ),
            HostPlan::AgentSynthetic { transport } => PlanView::AgentSynthetic {
                transport: *transport,
            },
            HostPlan::AgentControl { listen, boot_secret, transport } => PlanView::AgentControl {
                listen: listen.deep_view(),
                boot_secret: boot_secret.deep_view(),
                transport: *transport,
            },
            HostPlan::Colocate => PlanView::Colocate,
            HostPlan::KillSwitchDemo => PlanView::KillSwitchDemo,
        }
    }
}

/// The endpoint that a flag names, if it is given.
pub open spec fn flag_endpoint(
    args: Seq<Seq<char>>,
    flag: Seq<char>,
    platform: Platform,
) -> Result<Option<EndpointView>, Seq<char>> {
    match flag_in(args, flag) {
        None => Ok(None),
        Some(text) => match endpoint_of(text, platform) {
            Ok(e) => Ok(Some(e)),
            Err(e) => Err(e.text()),
        },
    }
}

/// The number of sessions that `--sessions` gives, or another where it is absent.
pub open spec fn flag_sessions(args: Seq<Seq<char>>, otherwise: u32) -> Result<u32, Seq<char>> {
    match flag_in(args, "--sessions"@) {
        None => Ok(otherwise),
        Some(text) => match unsigned_of(text, u32::MAX as nat) {
            Some(n) => Ok(n as u32),
            None => Err("invalid --sessions `"@ + text + "`"@),
        },
    }
}

/// The service of a signaling server that arguments ask for. As a service it goes on without limit
/// and reconnects, unless `--sessions` says how many sessions it serves; in a one-shot run it
/// serves one.
pub open spec fn asked_service(
    args: Seq<Seq<char>>,
    env: Option<Seq<char>>,
    platform: Platform,
    one_shot: bool,
) -> Result<PlanView, Seq<char>> {
    match (flag_endpoint(args, "--agent-control"@, platform), flag_sessions(args, 0)) {
        (Err(e), _) => Err(e),
        (_, Err(e)) => Err(e),
        (Ok(agent_control), Ok(sessions)) => Ok(
            PlanView::Serve(
                ServeView {
                    server: match flag_in(args, "--server"@) {
                        Some(s) => s,
                        None => DEFAULT_LAB_SERVER@,
                    },
                    transport: chosen_transport(args, env),
                    max_sessions: if one_shot {
                        1
                    } else {
                        sessions
                    },
                    reconnect: !one_shot,
                    agent_control,
                    boot_secret: flag_in(args, "--boot-secret"@),
                },
            ),
        ),
    }
}

/// What arguments and the transport of the environment ask for, or why nothing can be run.
pub open spec fn asked_plan(
    args: Seq<Seq<char>>,
    env: Option<Seq<char>>,
    platform: Platform,
) -> Result<PlanView, Seq<char>> {
    match asked_role(args) {
        Err(text) => Err(
            "unknown --role `"@ + text + "` (expected service|agent|colocate|kill-switch)"@,
        ),
        Ok(HostRole::Help) => Ok(PlanView::Usage),
        Ok(HostRole::Colocate) => Ok(PlanView::Colocate),
        Ok(HostRole::KillSwitchDemo) => Ok(PlanView::KillSwitchDemo),
        Ok(HostRole::Agent) => match flag_endpoint(args, "--control-listen"@, platform) {
            Err(e) => Err(e),
            Ok(None) => Ok(PlanView::AgentSynthetic { transport: chosen_transport(args, env) }),
            Ok(Some(listen)) => Ok(
                PlanView::AgentControl {
                    listen,
                    boot_secret: flag_in(args, "--boot-secret"@),
                    transport: chosen_transport(args, env),
                },
            ),
        },
        Ok(HostRole::Ws) => asked_service(args, env, platform, true),
        Ok(HostRole::Service) => if flag_in(args, "--server"@) is None {
            Ok(PlanView::ServiceSkeleton)
        } else {
            asked_service(args, env, platform, false)
        },
    }
}

fn endpoint_flag(args: &[String], flag: &str, platform: Platform) -> (r: Result<
    Option<ControlEndpoint>,
    String,
>)
    ensures
        match r {
            Ok(e) => flag_endpoint(args_view(args@), flag@, platform) == Ok::<
                Option<EndpointView>,
                Seq<char>,
            >(e.deep_view()),
            Err(e) => flag_endpoint(args_view(args@), flag@, platform) == Err::<
                Option<EndpointView>,
                Seq<char>,
            >(e@),
        },
{
    match flag_value(args, flag) {
        None => Ok(None),
        Some(text) => match parse_control_endpoint(&text, platform) {
            Ok(e) => Ok(Some(e)),
            Err(e) => Err(e.to_string()),
        },
    }
}

fn sessions_flag(args: &[String], otherwise: u32) -> (r: Result<u32, String>)
    ensures
        match r {
            Ok(n) => flag_sessions(args_view(args@), otherwise) == Ok::<u32, Seq<char>>(n),
            Err(e) => flag_sessions(args_view(args@), otherwise) == Err::<u32, Seq<char>>(e@),
        },
{
    match flag_value(args, "--sessions") {
        None => Ok(otherwise),
        Some(text) => match parse_unsigned(&chars_of(&text), u32::MAX as u64) {
            Some(n) => Ok(n as u32),
            None => {
                let mut s = "invalid --sessions `".to_string();
                s.append(&text);
                s.append("`");
                Err(s)
            },
        },
    }
}

/// The configuration to serve with; what no flag sets is standard.
fn service_config(args: &[String], env: Option<&str>, platform: Platform, one_shot: bool) -> (r:
    Result<WsHostConfig, String>)
    ensures
        match r {
            Ok(config) => asked_service(args_view(args@), text_of(env), platform, one_shot) == Ok::<
                PlanView,
                Seq<char>,
            >((HostPlan::Serve { config }).deep_view()) && config.otherwise_standard(platform),
            Err(e) => asked_service(args_view(args@), text_of(env), platform, one_shot) == Err::<
                PlanView,
                Seq<char>,
            >(e@),
        },
{
    let agent_control = match endpoint_flag(args, "--agent-control", platform) {
        Ok(e) => e,
        Err(e) => {
            return Err(e);
        },
    };
    let sessions: u32 = match sessions_flag(args, 0) {
        Ok(n) => n,
        Err(e) => {
            return Err(e);
        },
    };
    let mut config = WsHostConfig::standard(platform);
    if let Some(server) = flag_value(args, "--server") {
        config.server = server;
    }
    config.transport = parse_transport(args, env);
    config.max_sessions = if one_shot {
        1
    } else {
        sessions
    };
    config.reconnect = !one_shot;
    config.agent_control = agent_control;
    config.boot_secret = flag_value(args, "--boot-secret");
    Ok(config)
}

/// What an optional text holds.
pub open spec fn text_of(s: Option<&str>) -> Option<Seq<char>> {
    match s {
        Some(t) => Some(t@),
        None => None,
    }
}

/// What the program is to run. `env` is the transport that the environment names. An error is the
/// message to show before usage.
pub fn host_plan(args: &[String], env: Option<&str>, platform: Platform) -> (r: Result<
    HostPlan,
    String,
>)
    ensures
        match r {
            Ok(plan) => {
                &&& asked_plan(args_view(args@), text_of(env), platform) == Ok::<
                    PlanView,
                    Seq<char>,
                >(plan.deep_view())
                &&& plan matches HostPlan::Serve { config } ==> config.otherwise_standard(platform)
            },
            Err(e) => asked_plan(args_view(args@), text_of(env), platform) == Err::<
                PlanView,
                Seq<char>,
            >(e@),
        },
{
    let role = match find_role(args) {
        Ok(role) => role,
        Err(text) => {
            return Err(unknown_role(&text));
        },
    };
    match role {
        HostRole::Help => Ok(HostPlan::Usage),
        HostRole::Colocate => Ok(HostPlan::Colocate),
        HostRole::KillSwitchDemo => Ok(HostPlan::KillSwitchDemo),
        HostRole::Agent => {
            let transport = parse_transport(args, env);
            match endpoint_flag(args, "--control-listen", platform) {
                Err(e) => Err(e),
                Ok(None) => Ok(HostPlan::AgentSynthetic { transport }),
                Ok(Some(listen)) => Ok(
                    HostPlan::AgentControl {
                        listen,
                        boot_secret: flag_value(args, "--boot-secret"),
                        transport,
                    },
                ),
            }
        },
        HostRole::Ws => match service_config(args, env, platform, true) {
            Ok(config) => Ok(HostPlan::Serve { config }),
            Err(e) => Err(e),
        },
        HostRole::Service => {
            if flag_value(args, "--server").is_none() {
                return Ok(HostPlan::ServiceSkeleton);
            }
            match service_config(args, env, platform, false) {
                Ok(config) => Ok(HostPlan::Serve { config }),
                Err(e) => Err(e),
            }
        },
    }
}

/// What each role runs. Help shows usage, whatever else is given. An agent serves the control channel
/// where it is told to listen, and a service needs a server to serve. A one-shot run serves one
/// session and does not reconnect; a service goes on.
pub proof fn law_role_decides_what_runs(
    args: Seq<Seq<char>>,
    env: Option<Seq<char>>,
    platform: Platform,
)
    ensures
        ({
            let plan = asked_plan(args, env, platform);
            let role = asked_role(args);
            &&& role is Err ==> plan is Err
            &&& role == Ok::<HostRole, Seq<char>>(HostRole::Help) <==> plan == Ok::<
                PlanView,
                Seq<char>,
            >(PlanView::Usage)
            &&& role == Ok::<HostRole, Seq<char>>(HostRole::Colocate) <==> plan == Ok::<
                PlanView,
                Seq<char>,
            >(PlanView::Colocate)
            &&& role == Ok::<HostRole, Seq<char>>(HostRole::KillSwitchDemo) <==> plan == Ok::<
                PlanView,
                Seq<char>,
            >(PlanView::KillSwitchDemo)
            &&& plan matches Ok(PlanView::AgentControl { .. }) ==> role == Ok::<
                HostRole,
                Seq<char>,
            >(HostRole::Agent) && flag_in(args, "--control-listen"@) is Some
            &&& plan matches Ok(PlanView::AgentSynthetic { .. }) ==> role == Ok::<
                HostRole,
                Seq<char>,
            >(HostRole::Agent) && flag_in(args, "--control-listen"@) is None
            &&& plan == Ok::<PlanView, Seq<char>>(PlanView::ServiceSkeleton) <==> role == Ok::<
                HostRole,
                Seq<char>,
            >(HostRole::Service) && flag_in(args, "--server"@) is None
            &&& plan matches Ok(PlanView::Serve(v)) ==> {
                &&& role == Ok::<HostRole, Seq<char>>(HostRole::Ws) ==> v.max_sessions == 1
                    && !v.reconnect
                &&& role == Ok::<HostRole, Seq<char>>(HostRole::Service) ==> v.reconnect
                &&& role == Ok::<HostRole, Seq<char>>(HostRole::Ws) || role == Ok::<
                    HostRole,
                    Seq<char>,
                >(HostRole::Service)
            }
        }),
{
}

/// A service takes over what the flags give: its server, its number of sessions, its agent and the
/// secret it shares with it. Without a number there is no limit.
pub proof fn law_service_takes_its_flags(
    args: Seq<Seq<char>>,
    env: Option<Seq<char>>,
    platform: Platform,
)
    ensures
        asked_plan(args, env, platform) matches Ok(PlanView::Serve(v)) ==> {
            &&& flag_in(args, "--server"@) matches Some(server) ==> v.server == server
            &&& v.boot_secret == flag_in(args, "--boot-secret"@)
            &&& v.transport == chosen_transport(args, env)
            &&& v.agent_control is Some <==> flag_in(args, "--agent-control"@) is Some
            &&& v.reconnect && flag_in(args, "--sessions"@) is None ==> v.max_sessions == 0
            &&& v.reconnect ==> (flag_in(args, "--sessions"@) matches Some(text) ==> unsigned_of(
                text,
                u32::MAX as nat,
            ) == Some(v.max_sessions as nat))
        },
        asked_role(args) == Ok::<HostRole, Seq<char>>(HostRole::Ws) && (flag_in(
            args,
            "--sessions"@,
        ) matches Some(text) && unsigned_of(text, u32::MAX as nat) is None) ==> asked_plan(
            args,
            env,
            platform,
        ) is Err,
{
}

/// An agent takes over where it listens and the secret it shares with the service.
pub proof fn law_agent_takes_its_flags(
    args: Seq<Seq<char>>,
    env: Option<Seq<char>>,
    platform: Platform,
)
    ensures
        asked_plan(args, env, platform) matches Ok(
            PlanView::AgentControl { listen, boot_secret, transport },
        ) ==> {
            &&& flag_in(args, "--control-listen"@) matches Some(text) && endpoint_of(
                text,
                platform,
            ) == Ok::<EndpointView, crate::host::control_loop::LoopErrorView>(listen)
            &&& boot_secret == flag_in(args, "--boot-secret"@)
            &&& transport == chosen_transport(args, env)
        },
{
}

} // verus!
