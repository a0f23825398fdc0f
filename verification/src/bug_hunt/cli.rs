//! Command line of the bug-hunt agent.

use vstd::prelude::*;
use crate::args::{args_view, flag_in, flag_value};
use crate::bug_hunt::config::ProfileName;
use crate::text::{chars_of, parse_unsigned, same, unsigned_of};

verus! {

/// The profiles that `--profile` asks for: one by its name, or all of them.
pub fn requested_profiles(args: &[String]) -> (r: Result<Vec<ProfileName>, String>)
    ensures
        match flag_in(args_view(args@), "--profile"@) {
            None => r matches Err(e) && e@
                == "missing --profile NAME (drop_packets|reconnect|audio_desync|protocol_fuzz|all)"@,
            Some(name) => if name == "all"@ {
                r matches Ok(v) && v@ == ProfileName::every()
            } else {
                match ProfileName::of(name) {
                    Some(p) => r matches Ok(v) && v@ == seq![p],
                    None => r matches Err(e) && e@ == "unknown profile: "@ + name,
                }
            },
        },
{
    match flag_value(args, "--profile") {
        None => Err(
            "missing --profile NAME (drop_packets|reconnect|audio_desync|protocol_fuzz|all)".to_string(),
        ),
        Some(name) => {
            if same(&name, "all") {
                return Ok(ProfileName::all());
            }
            match ProfileName::parse(&name) {
                Some(p) => {
                    let v = vec![p];
                    assert(v@ =~= seq![p]);
                    Ok(v)
                },
                None => Err("unknown profile: ".to_string().concat(&name)),
            }
        },
    }
}

/// Where artifacts go: what `--out` names, else the shared directory where there is one.
pub fn out_dir(args: &[String], shared_exists: bool) -> (r: String)
    ensures
        r@ == match flag_in(args_view(args@), "--out"@) {
            Some(dir) => dir,
            None => if shared_exists {
                "agents/shared/artifacts"@
            } else {
                "target/chaos"@
            },
        },
{
    match flag_value(args, "--out") {
        Some(dir) => dir,
        None => if shared_exists {
            "agents/shared/artifacts".to_string()
        } else {
            "target/chaos".to_string()
        },
    }
}

/// The config file to load: what `--config` names, else the default one where it exists. Without a
/// file the built-in defaults hold.
pub fn config_file(args: &[String], default_exists: bool) -> (r: Option<String>)
    ensures
        r.deep_view() == match flag_in(args_view(args@), "--config"@) {
            Some(path) => Some(path),
            None => if default_exists {
                Some("agents/shared/bug_hunt_config.toml"@)
            } else {
                None
            },
        },
{
    match flag_value(args, "--config") {
        Some(path) => Some(path),
        None => if default_exists {
            Some("agents/shared/bug_hunt_config.toml".to_string())
        } else {
            None
        },
    }
}

/// The seed that `--seed` gives. A text that is no number of 64 bits is handed back.
pub fn parse_seed_flag(args: &[String]) -> (r: Result<Option<u64>, String>)
    ensures
        match flag_in(args_view(args@), "--seed"@) {
            None => r == Ok::<Option<u64>, String>(None),
            Some(s) => match unsigned_of(s, u64::MAX as nat) {
                Some(n) => r == Ok::<Option<u64>, String>(Some(n as u64)),
                None => r matches Err(e) && e@ == s,
            },
        },
{
    match flag_value(args, "--seed") {
        None => Ok(None),
        Some(s) => match parse_unsigned(&chars_of(&s), u64::MAX) {
            Some(n) => Ok(Some(n)),
            None => Err(s),
        },
    }
}

} // verus!
