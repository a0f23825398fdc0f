//! Start at user login (Windows current-user Run key).

use vstd::prelude::*;
use crate::host::platform_capture::Platform;
use crate::text::{
    chars_of, contains_text, lemma_occurs_between, lowercase, lowered, occurs_in, string_of, trim,
    trimmed,
};

verus! {

/// Registry value name under the current-user Run key.
pub const RUN_VALUE_NAME: &'static str = "RemoteLink";

/// The current-user Run key.
pub const RUN_KEY: &'static str = "HKCU\\Software\\Microsoft\\Windows\\CurrentVersion\\Run";

/// Command line written to the Run key: quoted exe + `--autostart`.
pub fn run_command_line(exe: &str) -> (r: String)
    ensures
        r@ == "\""@ + exe@ + "\" --autostart"@,
{
    let mut s = "\"".to_string();
    s.append(exe);
    s.append("\" --autostart");
    s
}

/// What has to be done to the login entry.
#[derive(Debug)]
pub enum StartupAction {
    /// Write the entry with this command line.
    Add(String),
    /// Remove the entry.
    Remove,
    /// Nothing at all.
    Nothing,
}

/// What has to be done to bring the login entry in line with the settings. `exe` is the path of
/// this process, or why it is not known. Other systems have no such entry.
pub fn apply(enabled: bool, exe: Result<&str, &str>, platform: Platform) -> (r: Result<
    StartupAction,
    String,
>)
    ensures
        if enabled {
            match exe {
                Err(e) => r matches Err(t) && t@ == "current exe: "@ + e@,
                Ok(path) => if platform == Platform::Windows {
                    r matches Ok(StartupAction::Add(line)) && line@ == "\""@ + path@
                        + "\" --autostart"@
                } else {
                    r matches Err(t) && t@ == "Start with Windows is only available on Windows"@
                },
            }
        } else {
            r matches Ok(a) && (if platform == Platform::Windows {
                a is Remove
            } else {
                a is Nothing
            })
        },
{
    if enabled {
        match exe {
            Err(e) => Err("current exe: ".to_string().concat(e)),
            Ok(path) => if platform == Platform::Windows {
                Ok(StartupAction::Add(run_command_line(path)))
            } else {
                Err("Start with Windows is only available on Windows".to_string())
            },
        }
    } else if platform == Platform::Windows {
        Ok(StartupAction::Remove)
    } else {
        Ok(StartupAction::Nothing)
    }
}

/// Whether writing the entry succeeded; `stderr` is what the tool said.
pub fn add_outcome(success: bool, stderr: &str) -> (r: Result<(), String>)
    ensures
        r is Ok <==> success,
        r matches Err(e) ==> e@ == "could not enable Start with Windows: "@ + trimmed(stderr@),
{
    if success {
        return Ok(());
    }
    let all = chars_of(stderr);
    Err("could not enable Start with Windows: ".to_string().concat(&string_of(trim(&all))))
}

/// Whether what the tool said means that there was no entry.
pub open spec fn was_gone(stderr: Seq<char>) -> bool {
    occurs_in("unable to find"@, lowered(stderr)) || occurs_in("cannot find"@, lowered(stderr))
}

/// Whether the entry is gone now (ok if it was already gone).
pub fn remove_outcome(success: bool, stderr: &str) -> (r: Result<(), String>)
    ensures
        r is Ok <==> success || was_gone(stderr@),
        r matches Err(e) ==> e@ == "could not disable Start with Windows: "@ + trimmed(stderr@),
{
    if success {
        return Ok(());
    }
    let all = chars_of(stderr);
    let low = lowercase(&all);
    if contains_text(&low, "unable to find") || contains_text(&low, "cannot find") {
        return Ok(());
    }
    Err("could not disable Start with Windows: ".to_string().concat(&string_of(trim(&all))))
}

/// That an entry was gone already is told by what the tool said, in any case of letters.
pub proof fn law_missing_entry_is_no_error(before: Seq<char>, after: Seq<char>)
    ensures
        was_gone(before + "unable to find"@ + after),
        was_gone(before + "cannot find"@ + after),
        was_gone(lowered(before)) == was_gone(before),
        before.len() < 11 ==> !was_gone(before),
{
    reveal_strlit("unable to find");
    reveal_strlit("cannot find");
    let a = before + "unable to find"@ + after;
    assert(lowered(a) =~= lowered(before) + "unable to find"@ + lowered(after));
    lemma_occurs_between(lowered(before), "unable to find"@, lowered(after));
    let b = before + "cannot find"@ + after;
    assert(lowered(b) =~= lowered(before) + "cannot find"@ + lowered(after));
    lemma_occurs_between(lowered(before), "cannot find"@, lowered(after));
    assert(lowered(lowered(before)) =~= lowered(before));
    assert(lowered(before).len() == before.len());
}

} // verus!
