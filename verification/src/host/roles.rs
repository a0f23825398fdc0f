//! Roles and transports of the host program.

use vstd::prelude::*;
use crate::args::{args_view, flag_in, flag_value};
use crate::text::{after_prefix, chars_of, same, string_of, strip_prefix};

verus! {

/// What the host program is to do.
#[derive(Debug, Clone, Copy, PartialEq, Eq, Structural)]
pub enum HostRole {
    /// Enrollment, signaling, policy and kill-switch.
    Service,
    /// One session of a signaling server.
    Ws,
    /// Session manager and peer transport.
    Agent,
    /// In-process service control + agent synthetic session.
    Colocate,
    /// Attach a session, show the active indicator, fire the local kill-switch.
    KillSwitchDemo,
    /// Show usage.
    Help,
}

/// The role that a text names.
pub open spec fn named_role(s: Seq<char>) -> Option<HostRole> {
    if s == "service"@ {
        Some(HostRole::Service)
    } else if s == "ws"@ {
        Some(HostRole::Ws)
    } else if s == "agent"@ {
        Some(HostRole::Agent)
    } else if s == "colocate"@ || s == "synthetic"@ {
        Some(HostRole::Colocate)
    } else if s == "kill-switch"@ || s == "kill_switch"@ {
        Some(HostRole::KillSwitchDemo)
    } else if s == "help"@ {
        Some(HostRole::Help)
    } else {
        None
    }
}

/// What arguments ask for: the role, or the role text that names none.
pub open spec fn asked_role(args: Seq<Seq<char>>) -> Result<HostRole, Seq<char>>
    decreases args.len(),
{
    if args.len() == 0 {
        Ok(HostRole::Service)
    } else {
        let arg = args[0];
        if arg == "-h"@ || arg == "--help"@ {
            Ok(HostRole::Help)
        } else if arg == "--kill-switch"@ {
            Ok(HostRole::KillSwitchDemo)
        } else if arg == "--role"@ {
            let value = if args.len() > 1 {
                args[1]
            } else {
                Seq::empty()
            };
            match named_role(value) {
                Some(role) => Ok(role),
                None => Err(value),
            }
        } else {
            match after_prefix(arg, "--role="@) {
                Some(value) => match named_role(value) {
                    Some(role) => Ok(role),
                    None => Err(value),
                },
                None => asked_role(args.skip(1)),
            }
        }
    }
}

/// The role that a text names; a text that names none is handed back.
pub fn role_from_str(s: &str) -> (r: Result<HostRole, String>)
    ensures
        match r {
            Ok(role) => named_role(s@) == Some(role),
            Err(e) => named_role(s@) is None && e@ == s@,
        },
{
    if same(s, "service") {
        Ok(HostRole::Service)
    } else if same(s, "ws") {
        Ok(HostRole::Ws)
    } else if same(s, "agent") {
        Ok(HostRole::Agent)
    } else if same(s, "colocate") || same(s, "synthetic") {
        Ok(HostRole::Colocate)
    } else if same(s, "kill-switch") || same(s, "kill_switch") {
        Ok(HostRole::KillSwitchDemo)
    } else if same(s, "help") {
        Ok(HostRole::Help)
    } else {
        Err(s.to_string())
    }
}

/// The role that arguments ask for, or the role text that names none.
pub fn find_role(args: &[String]) -> (r: Result<HostRole, String>)
    ensures
        match r {
            Ok(role) => asked_role(args_view(args@)) == Ok::<HostRole, Seq<char>>(role),
            Err(e) => asked_role(args_view(args@)) == Err::<HostRole, Seq<char>>(e@),
        },
{
    let ghost all = args_view(args@);
    let mut i: usize = 0;
    assert(all.skip(0) == all);
    while i < args.len()
        invariant
            i <= args@.len(),
            all == args_view(args@),
            asked_role(all) == asked_role(all.skip(i as int)),
        decreases args@.len() - i,
    {
        let ghost rest = all.skip(i as int);
        assert(rest[0] == args@[i as int]@);
        assert(rest.skip(1) == all.skip(i + 1));
        let arg: &str = &args[i];
        if same(arg, "-h") || same(arg, "--help") {
            return Ok(HostRole::Help);
        }
        if same(arg, "--kill-switch") {
            return Ok(HostRole::KillSwitchDemo);
        }
        if same(arg, "--role") {
            if i + 1 < args.len() {
                assert(rest[1] == args@[i + 1]@);
                return role_from_str(&args[i + 1]);
            }
            let nothing = String::new();
            assert(nothing@ == Seq::<char>::empty());
            return role_from_str(&nothing);
        }
        let a = chars_of(arg);
        if let Some(value) = strip_prefix(&a, "--role=") {
            assert(value.deep_view() =~= value@);
            return role_from_str(&string_of(value));
        }
        i += 1;
    }
    Ok(HostRole::Service)
}

/// The role of the program: help where an unknown role is asked for.
pub fn parse_role(args: &[String]) -> (r: HostRole)
    ensures
        r == match asked_role(args_view(args@)) {
            Ok(role) => role,
            Err(_) => HostRole::Help,
        },
{
    match find_role(args) {
        Ok(role) => role,
        Err(_) => HostRole::Help,
    }
}

/// The warning about a role text that names none.
pub fn unknown_role(text: &str) -> (r: String)
    ensures
        r@ == "unknown --role `"@ + text@ + "` (expected service|agent|colocate|kill-switch)"@,
{
    let mut s = "unknown --role `".to_string();
    s.append(text);
    s.append("` (expected service|agent|colocate|kill-switch)");
    s
}

/// How peers are connected.
#[derive(Debug, Clone, Copy, PartialEq, Eq, Structural)]
pub enum TransportMode {
    /// In-process.
    Mock,
    /// TCP, length-prefixed.
    Live,
    /// Live where it is available, else mock.
    Auto,
    /// WebRTC.
    WebRtc,
}

impl Default for TransportMode {
    fn default() -> (r: Self)
        ensures
            r == TransportMode::Mock,
    {
        TransportMode::Mock
    }
}

impl TransportMode {
    /// The name of a mode.
    pub open spec fn name(self) -> Seq<char> {
        match self {
            TransportMode::Mock => "mock"@,
            TransportMode::Live => "live"@,
            TransportMode::Auto => "auto"@,
            TransportMode::WebRtc => "webrtc"@,
        }
    }

    /// The mode of a name.
    pub open spec fn of(name: Seq<char>) -> Option<TransportMode> {
        if name == "mock"@ {
            Some(TransportMode::Mock)
        } else if name == "live"@ {
            Some(TransportMode::Live)
        } else if name == "auto"@ {
            Some(TransportMode::Auto)
        } else if name == "webrtc"@ {
            Some(TransportMode::WebRtc)
        } else {
            None
        }
    }

    /// The name of a mode.
    pub fn as_str(&self) -> (r: &'static str)
        ensures
            r@ == self.name(),
    {
        match self {
            TransportMode::Mock => "mock",
            TransportMode::Live => "live",
            TransportMode::Auto => "auto",
            TransportMode::WebRtc => "webrtc",
        }
    }

    /// The mode of a name.
    pub fn parse(name: &str) -> (r: Option<TransportMode>)
        ensures
            r == TransportMode::of(name@),
    {
        if same(name, "mock") {
            Some(TransportMode::Mock)
        } else if same(name, "live") {
            Some(TransportMode::Live)
        } else if same(name, "auto") {
            Some(TransportMode::Auto)
        } else if same(name, "webrtc") {
            Some(TransportMode::WebRtc)
        } else {
            None
        }
    }
}

/// What an agent on its own shows.
#[derive(Debug, Clone, Copy, PartialEq, Eq, Structural)]
pub enum AgentDemo {
    /// A synthetic session over a live transport.
    Live,
    /// A synthetic session over a transport in this process.
    InProcess,
}

/// The transport that an agent on its own uses, and what it shows: left to itself it takes the live
/// transport.
pub fn agent_demo(mode: TransportMode) -> (r: (TransportMode, AgentDemo))
    ensures
        r.0 == (if mode == TransportMode::Auto {
            TransportMode::Live
        } else {
            mode
        }),
        r.1 == (if r.0 == TransportMode::Live {
            AgentDemo::Live
        } else {
            AgentDemo::InProcess
        }),
{
    match mode {
        TransportMode::Auto | TransportMode::Live => (TransportMode::Live, AgentDemo::Live),
        other => (other, AgentDemo::InProcess),
    }
}

/// The transport: what `--transport` names, else what the environment names, else mock. An unknown
/// name counts as mock.
pub open spec fn chosen_transport(args: Seq<Seq<char>>, env: Option<Seq<char>>) -> TransportMode {
    match flag_in(args, "--transport"@) {
        Some(v) => match TransportMode::of(v) {
            Some(m) => m,
            None => TransportMode::Mock,
        },
        None => match env {
            Some(v) => match TransportMode::of(v) {
                Some(m) => m,
                None => TransportMode::Mock,
            },
            None => TransportMode::Mock,
        },
    }
}

/// The transport of the program. `--transport` goes before `env`, the value that the environment
/// holds.
pub fn parse_transport(args: &[String], env: Option<&str>) -> (r: TransportMode)
    ensures
        r == chosen_transport(
            args_view(args@),
            match env {
                Some(e) => Some(e@),
                None => None,
            },
        ),
{
    match flag_value(args, "--transport") {
        Some(v) => match TransportMode::parse(&v) {
            Some(m) => m,
            None => TransportMode::Mock,
        },
        None => match env {
            Some(v) => match TransportMode::parse(v) {
                Some(m) => m,
                None => TransportMode::Mock,
            },
            None => TransportMode::Mock,
        },
    }
}

/// Every mode is found again under its name.
pub proof fn law_transport_name_roundtrip(mode: TransportMode)
    ensures
        TransportMode::of(mode.name()) == Some(mode),
{
    reveal_strlit("mock");
    reveal_strlit("live");
    reveal_strlit("auto");
    reveal_strlit("webrtc");
    assert("mock"@[0] == 'm');
    assert("live"@[0] == 'l');
    assert("auto"@[0] == 'a');
    assert("webrtc"@[0] == 'w');
}

/// Whether an argument says nothing about the role.
pub open spec fn no_role_in(arg: Seq<char>) -> bool {
    arg != "-h"@ && arg != "--help"@ && arg != "--kill-switch"@ && arg != "--role"@
        && !"--role="@.is_prefix_of(arg)
}

/// The role is what the first argument about it says: by its name, which stands behind the flag or
/// behind its equals sign, by a call for help or by the kill-switch. Without any it is the service.
pub proof fn law_first_role_counts(
    before: Seq<Seq<char>>,
    value: Seq<char>,
    after: Seq<Seq<char>>,
)
    requires
        forall|i: int| 0 <= i < before.len() ==> no_role_in(#[trigger] before[i]),
    ensures
        ({
            let named = match named_role(value) {
                Some(role) => Ok(role),
                None => Err(value),
            };
            &&& asked_role(before + seq!["--role"@, value] + after) == named
            &&& asked_role(before + seq!["--role="@ + value] + after) == named
            &&& asked_role(before + seq!["--help"@] + after) == Ok::<HostRole, Seq<char>>(
                HostRole::Help,
            )
            &&& asked_role(before + seq!["-h"@] + after) == Ok::<HostRole, Seq<char>>(
                HostRole::Help,
            )
            &&& asked_role(before + seq!["--kill-switch"@] + after) == Ok::<HostRole, Seq<char>>(
                HostRole::KillSwitchDemo,
            )
            &&& asked_role(before) == Ok::<HostRole, Seq<char>>(HostRole::Service)
        }),
    decreases before.len(),
{
    let a = before + seq!["--role"@, value] + after;
    let b = before + seq!["--role="@ + value] + after;
    let c = before + seq!["--help"@] + after;
    let d = before + seq!["-h"@] + after;
    let e = before + seq!["--kill-switch"@] + after;
    if before.len() == 0 {
        reveal_strlit("--role");
        reveal_strlit("--role=");
        reveal_strlit("--help");
        reveal_strlit("-h");
        reveal_strlit("--kill-switch");
        assert(a[0] == "--role"@ && a[1] == value);
        assert("--role"@.len() == 6 && "--help"@.len() == 6 && "-h"@.len() == 2
            && "--kill-switch"@.len() == 13 && "--role="@.len() == 7);
        assert("--role"@[2] == 'r' && "--help"@[2] == 'h');
        let joint = "--role="@ + value;
        assert(b[0] == joint);
        assert(joint[6] == '=' && joint[2] == 'r');
        assert("--kill-switch"@[2] == 'k');
        assert("--role="@.is_prefix_of(joint));
        assert(joint.skip(7) =~= value);
        assert(c[0] == "--help"@ && d[0] == "-h"@ && e[0] == "--kill-switch"@);
    } else {
        let rest = before.skip(1);
        assert forall|i: int| 0 <= i < rest.len() implies no_role_in(#[trigger] rest[i]) by {
            assert(rest[i] == before[i + 1]);
        }
        law_first_role_counts(rest, value, after);
        assert(no_role_in(before[0]));
        assert(a.skip(1) =~= rest + seq!["--role"@, value] + after && a[0] == before[0]);
        assert(b.skip(1) =~= rest + seq!["--role="@ + value] + after && b[0] == before[0]);
        assert(c.skip(1) =~= rest + seq!["--help"@] + after && c[0] == before[0]);
        assert(d.skip(1) =~= rest + seq!["-h"@] + after && d[0] == before[0]);
        assert(e.skip(1) =~= rest + seq!["--kill-switch"@] + after && e[0] == before[0]);
    }
}

/// The flag goes before the environment, and what neither names, or names wrongly, is the mock.
pub proof fn law_flag_goes_before_environment(
    args: Seq<Seq<char>>,
    mode: TransportMode,
    env: Option<Seq<char>>,
    unknown: Seq<char>,
)
    requires
        TransportMode::of(unknown) is None,
    ensures
        flag_in(args, "--transport"@) == Some(mode.name()) ==> chosen_transport(args, env) == mode,
        flag_in(args, "--transport"@) is None ==> chosen_transport(args, Some(mode.name())) == mode,
        flag_in(args, "--transport"@) is None ==> chosen_transport(args, None)
            == TransportMode::Mock,
        flag_in(args, "--transport"@) == Some(unknown) ==> chosen_transport(args, env)
            == TransportMode::Mock,
        flag_in(args, "--transport"@) is None ==> chosen_transport(args, Some(unknown))
            == TransportMode::Mock,
{
    law_transport_name_roundtrip(mode);
}

} // verus!
