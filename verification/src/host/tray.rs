//! Host tray / status surface.
//!
//! A single `TrayState` feeds the console panel, the status file and the notification area.
//! Session visibility is projected from the session indicator and cannot be disabled remotely.

use vstd::prelude::*;
use crate::host::chrome::{status_text, ChromeView, HostSessionUx, IndicatorView, SessionChrome};
use crate::json::{law_first_field_of_a_name_counts, object_contents, Json, JsonField, JsonView};
use crate::paths::{
    file_name, join_path, law_joined_name_is_last, parent_path, path_join, path_parent, prefix_len,
};
use crate::platform::Platform;
use crate::text::{
    chars_of, lemma_occurs_between, lemma_occurs_in_itself, lemma_occurs_in_longer, occurs_in,
    string_of,
};

verus! {

/// Local actions raised by the tray menu. Polled by the service.
///
/// There is one of these for a tray, and who shares the tray shares it: a copy would not see a
/// request that was made elsewhere.
#[derive(Debug)]
pub struct TrayCommands {
    end_session: bool,
    exit: bool,
    copy_otp_ok: u64,
}

/// What `TrayCommands` hold.
pub struct CommandsView {
    /// A session end was asked for.
    pub end_session: bool,
    /// Exit was asked for.
    pub exit: bool,
    /// How many times the code was copied.
    pub copies: u64,
}

impl CommandsView {
    /// Nothing was asked for.
    pub open spec fn idle() -> CommandsView {
        CommandsView { end_session: false, exit: false, copies: 0 }
    }
}

impl DeepView for TrayCommands {
    type V = CommandsView;

    closed spec fn deep_view(&self) -> CommandsView {
        CommandsView {
            end_session: self.end_session,
            exit: self.exit,
            copies: self.copy_otp_ok,
        }
    }
}

impl Default for TrayCommands {
    fn default() -> (r: Self)
        ensures
            r.deep_view() == CommandsView::idle(),
    {
        TrayCommands { end_session: false, exit: false, copy_otp_ok: 0 }
    }
}

impl TrayCommands {
    /// Request local session end (kill-switch from tray).
    pub fn request_end_session(&mut self)
        ensures
            final(self).deep_view() == old(self).deep_view().used(CommandUse::RequestEnd),
    {
        self.end_session = true;
    }

    /// Request process exit after the current control step.
    pub fn request_exit(&mut self)
        ensures
            final(self).deep_view() == old(self).deep_view().used(CommandUse::RequestExit),
    {
        self.exit = true;
    }

    /// Consume a pending end-session request (true once).
    pub fn take_end_session(&mut self) -> (r: bool)
        ensures
            r == old(self).deep_view().end_session,
            final(self).deep_view() == old(self).deep_view().used(CommandUse::TakeEnd),
    {
        let r = self.end_session;
        self.end_session = false;
        r
    }

    /// Consume a pending exit request (true once).
    pub fn take_exit(&mut self) -> (r: bool)
        ensures
            r == old(self).deep_view().exit,
            final(self).deep_view() == old(self).deep_view().used(CommandUse::TakeExit),
    {
        let r = self.exit;
        self.exit = false;
        r
    }

    /// Number of successful clipboard OTP copies.
    pub fn copy_otp_count(&self) -> (r: u64)
        ensures
            r == self.deep_view().copies,
    {
        self.copy_otp_ok
    }

    /// Count a successful clipboard copy; the count wraps round.
    pub fn note_copy_otp_ok(&mut self)
        ensures
            final(self).deep_view() == (CommandsView {
                copies: if old(self).deep_view().copies == u64::MAX {
                    0
                } else {
                    (old(self).deep_view().copies + 1) as u64
                },
                ..old(self).deep_view()
            }),
    {
        if self.copy_otp_ok == u64::MAX {
            self.copy_otp_ok = 0;
        } else {
            self.copy_otp_ok = self.copy_otp_ok + 1;
        }
    }
}

/// Snapshot of what the tray / status file should show.
#[derive(Debug, Clone)]
pub struct TrayState {
    /// Enrollment display name.
    pub display_name: String,
    /// Device public id (10-digit) when enrolled.
    pub public_id: Option<String>,
    /// Latest Mode A OTP plaintext (host-local only).
    pub otp_code: Option<String>,
    /// Server-reported OTP expiry.
    pub otp_expires_at: Option<String>,
    /// Mandatory session indicator + chrome.
    pub ux: HostSessionUx,
    /// Last human-readable event (e.g. "otp_minted", "session_end").
    pub last_event: Option<String>,
}

/// What a `TrayState` holds.
pub struct TrayView {
    pub display_name: Seq<char>,
    pub public_id: Option<Seq<char>>,
    pub otp_code: Option<Seq<char>>,
    pub otp_expires_at: Option<Seq<char>>,
    pub ux: IndicatorView,
    pub last_event: Option<Seq<char>>,
}

impl DeepView for TrayState {
    type V = TrayView;

    open spec fn deep_view(&self) -> TrayView {
        TrayView {
            display_name: self.display_name@,
            public_id: self.public_id.deep_view(),
            otp_code: self.otp_code.deep_view(),
            otp_expires_at: self.otp_expires_at.deep_view(),
            ux: self.ux.deep_view(),
            last_event: self.last_event.deep_view(),
        }
    }
}

/// A text, or another where there is none.
pub open spec fn text_or(s: Option<Seq<char>>, other: Seq<char>) -> Seq<char> {
    match s {
        Some(t) => t,
        None => other,
    }
}

/// A text of at most `max` characters: a longer one is cut and ends in an ellipsis.
pub open spec fn truncated(s: Seq<char>, max: int) -> Seq<char> {
    if s.len() <= max {
        s
    } else {
        s.take(if max > 0 {
            max - 1
        } else {
            0
        }) + "…"@
    }
}

/// A text of at most `max` characters: a longer one is cut and ends in an ellipsis.
pub fn truncate_chars(s: &str, max: usize) -> (r: String)
    ensures
        r@ == truncated(s@, max as int),
{
    let all = chars_of(s);
    if all.len() <= max {
        return s.to_string();
    }
    let keep: usize = if max > 0 {
        max - 1
    } else {
        0
    };
    let head = &all.as_slice()[0..keep];
    assert(head@ == s@.take(keep as int));
    string_of(head).concat("…")
}

/// A field of a JSON object for an optional text.
pub open spec fn opt_json(s: Option<Seq<char>>) -> JsonView {
    match s {
        Some(t) => JsonView::Text(t),
        None => JsonView::Null,
    }
}

impl TrayView {
    /// The tooltip before it is cut to length.
    pub open spec fn tooltip_line(self) -> Seq<char> {
        match ChromeView::of(self.ux) {
            ChromeView::Active { session_id, label } => "RemoteLink IN SESSION · "@ + text_or(
                label,
                "viewer"@,
            ) + " · "@ + session_id,
            ChromeView::Inactive => {
                let ready = "RemoteLink ready · id="@ + text_or(self.public_id, "—"@);
                match self.otp_code {
                    Some(otp) => ready + " · OTP "@ + otp,
                    None => ready,
                }
            },
        }
    }

    /// The tooltip.
    pub open spec fn tooltip(self) -> Seq<char> {
        truncated(self.tooltip_line(), 127)
    }

    /// The line of the panel on the code.
    pub open spec fn otp_line(self) -> Seq<char> {
        match (self.otp_code, self.otp_expires_at) {
            (Some(code), Some(exp)) => "  otp:     "@ + code + "  (expires "@ + exp + ")"@,
            (Some(code), None) => "  otp:     "@ + code,
            _ => "  otp:     (none)"@,
        }
    }

    /// The console panel.
    pub open spec fn panel(self) -> Seq<char> {
        "── RemoteLink host tray ──\n"@ + "  name:    "@ + self.display_name + "\n"@
            + "  id:      "@ + text_or(self.public_id, "(not enrolled)"@) + "\n"@ + "  chrome:  "@
            + ChromeView::of(self.ux).status() + " ("@ + status_text(self.ux) + ")\n"@
            + self.otp_line() + "\n"@ + (match self.last_event {
            Some(ev) => "  event:   "@ + ev + "\n"@,
            None => ""@,
        }) + "──────────────────────────"@
    }

    /// The status object.
    pub open spec fn status(self) -> JsonView {
        let chrome = ChromeView::of(self.ux);
        let (session_id, viewer_label) = match chrome {
            ChromeView::Active { session_id, label } => (Some(session_id), label),
            ChromeView::Inactive => (None, None),
        };
        JsonView::Object(
            seq![
                ("display_name"@, JsonView::Text(self.display_name)),
                ("public_id"@, opt_json(self.public_id)),
                ("otp_code"@, opt_json(self.otp_code)),
                ("otp_expires_at"@, opt_json(self.otp_expires_at)),
                ("chrome"@, JsonView::Text(chrome.status())),
                ("session_id"@, opt_json(session_id)),
                ("viewer_label"@, opt_json(viewer_label)),
                ("connected"@, JsonView::Bool(self.ux.connected)),
                ("active"@, JsonView::Bool(self.ux.active)),
                ("last_event"@, opt_json(self.last_event)),
                ("tooltip"@, JsonView::Text(self.tooltip())),
            ],
        )
    }
}

impl Default for TrayState {
    fn default() -> (r: Self)
        ensures
            r.deep_view() == (TrayView {
                display_name: Seq::empty(),
                public_id: None,
                otp_code: None,
                otp_expires_at: None,
                ux: IndicatorView::idle(),
                last_event: None,
            }),
    {
        let display_name = String::new();
        assert(display_name@ =~= Seq::<char>::empty());
        TrayState {
            display_name,
            public_id: None,
            otp_code: None,
            otp_expires_at: None,
            ux: HostSessionUx::default(),
            last_event: None,
        }
    }
}

fn push_field(fields: &mut Vec<JsonField>, name: &str, value: Json)
    ensures
        object_contents(final(fields)@) == object_contents(old(fields)@).push(
            (name@, value.contents()),
        ),
{
    let ghost before = fields@;
    fields.push(JsonField { name: name.to_string(), value });
    assert(fields@.drop_last() == before);
}

fn json_text(s: &Option<String>) -> (r: Json)
    ensures
        r.contents() == opt_json(s.deep_view()),
{
    match s {
        Some(t) => Json::Text(t.clone()),
        None => Json::Null,
    }
}

fn str_or<'a>(s: &'a Option<String>, other: &'a str) -> (r: &'a str)
    ensures
        r@ == text_or(s.deep_view(), other@),
{
    match s {
        Some(t) => t.as_str(),
        None => other,
    }
}

impl TrayState {
    /// Short tooltip for the notification area (≤127 chars).
    pub fn tooltip(&self) -> (r: String)
        ensures
            r@ == self.deep_view().tooltip(),
    {
        let line = match self.ux.chrome() {
            SessionChrome::Active { session_id, label } => {
                let mut s = "RemoteLink IN SESSION · ".to_string();
                s.append(str_or(&label, "viewer"));
                s.append(" · ");
                s.append(&session_id);
                s
            },
            SessionChrome::Inactive => {
                let mut s = "RemoteLink ready · id=".to_string();
                s.append(str_or(&self.public_id, "—"));
                if let Some(otp) = &self.otp_code {
                    s.append(" · OTP ");
                    s.append(otp);
                }
                s
            },
        };
        truncate_chars(&line, 127)
    }

    fn otp_line(&self) -> (r: String)
        ensures
            r@ == self.deep_view().otp_line(),
    {
        match (&self.otp_code, &self.otp_expires_at) {
            (Some(code), Some(exp)) => {
                let mut s = "  otp:     ".to_string();
                s.append(code);
                s.append("  (expires ");
                s.append(exp);
                s.append(")");
                s
            },
            (Some(code), None) => "  otp:     ".to_string().concat(code),
            _ => "  otp:     (none)".to_string(),
        }
    }

    /// Multi-line console panel (logs / headless).
    pub fn console_panel(&self) -> (r: String)
        ensures
            r@ == self.deep_view().panel(),
    {
        let mut s = "── RemoteLink host tray ──\n".to_string();
        s.append("  name:    ");
        s.append(&self.display_name);
        s.append("\n");
        s.append("  id:      ");
        s.append(str_or(&self.public_id, "(not enrolled)"));
        s.append("\n");
        s.append("  chrome:  ");
        s.append(self.ux.chrome().status_label());
        s.append(" (");
        s.append(&self.ux.status_line());
        s.append(")\n");
        s.append(&self.otp_line());
        s.append("\n");
        let mut event = "".to_string();
        if let Some(ev) = &self.last_event {
            event = "  event:   ".to_string();
            event.append(ev);
            event.append("\n");
        }
        s.append(&event);
        s.append("──────────────────────────");
        s
    }

    /// JSON object for the status file (stable keys for tooling).
    pub fn to_status_json(&self) -> (r: Json)
        ensures
            r.contents() == self.deep_view().status(),
    {
        let chrome = self.ux.chrome();
        let chrome_label = chrome.status_label();
        let (session_id, viewer_label) = match chrome {
            SessionChrome::Active { session_id, label } => (Some(session_id), label),
            SessionChrome::Inactive => (None, None),
        };
        let mut fields: Vec<JsonField> = Vec::new();
        push_field(&mut fields, "display_name", Json::Text(self.display_name.clone()));
        push_field(&mut fields, "public_id", json_text(&self.public_id));
        push_field(&mut fields, "otp_code", json_text(&self.otp_code));
        push_field(&mut fields, "otp_expires_at", json_text(&self.otp_expires_at));
        push_field(&mut fields, "chrome", Json::Text(chrome_label.to_string()));
        push_field(&mut fields, "session_id", json_text(&session_id));
        push_field(&mut fields, "viewer_label", json_text(&viewer_label));
        push_field(&mut fields, "connected", Json::Bool(self.ux.indicator().connected));
        push_field(&mut fields, "active", Json::Bool(self.ux.indicator().active));
        push_field(&mut fields, "last_event", json_text(&self.last_event));
        push_field(&mut fields, "tooltip", Json::Text(self.tooltip()));
        let r = Json::Object(fields);
        assert(r.contents()->Object_0 =~= self.deep_view().status()->Object_0);
        r
    }
}

/// Host tray: state, menu commands and where they are published.
#[derive(Debug)]
pub struct HostTray {
    state: TrayState,
    commands: TrayCommands,
    console: bool,
    status_path: String,
}

/// What a `HostTray` holds.
pub struct HostTrayView {
    pub state: TrayView,
    pub commands: CommandsView,
    /// Whether each update is printed as a panel.
    pub console: bool,
    pub status_path: Seq<char>,
}

impl DeepView for HostTray {
    type V = HostTrayView;

    closed spec fn deep_view(&self) -> HostTrayView {
        HostTrayView {
            state: self.state.deep_view(),
            commands: self.commands.deep_view(),
            console: self.console,
            status_path: self.status_path@,
        }
    }
}

impl HostTrayView {
    /// The tray with another state, after an event.
    pub open spec fn published(self, state: TrayView, event: Seq<char>) -> HostTrayView {
        HostTrayView { state: TrayView { last_event: Some(event), ..state }, ..self }
    }
}

impl HostTray {
    /// Create a tray; it is to be published at once.
    pub fn new(display_name: &str, status_path: &str, console: bool) -> (r: Self)
        ensures
            r.deep_view() == (HostTrayView {
                state: TrayView {
                    display_name: display_name@,
                    public_id: None,
                    otp_code: None,
                    otp_expires_at: None,
                    ux: IndicatorView::idle(),
                    last_event: Some("tray_start"@),
                },
                commands: CommandsView::idle(),
                console,
                status_path: status_path@,
            }),
    {
        let mut state = TrayState::default();
        state.display_name = display_name.to_string();
        let mut tray = HostTray {
            state,
            commands: TrayCommands::default(),
            console,
            status_path: status_path.to_string(),
        };
        tray.note("tray_start");
        tray
    }

    /// Console + file only.
    pub fn console_only(display_name: &str, status_path: &str) -> (r: Self)
        ensures
            r.deep_view().console,
            r.deep_view().commands == CommandsView::idle(),
            r.deep_view().status_path == status_path@,
            r.deep_view().state == (TrayView {
                display_name: display_name@,
                public_id: None,
                otp_code: None,
                otp_expires_at: None,
                ux: IndicatorView::idle(),
                last_event: Some("tray_start"@),
            }),
    {
        HostTray::new(display_name, status_path, true)
    }

    fn note(&mut self, event: &str)
        ensures
            final(self).deep_view() == old(self).deep_view().published(
                old(self).deep_view().state,
                event@,
            ),
    {
        self.state.last_event = Some(event.to_string());
    }

    /// Path of the JSON status file.
    pub fn status_path(&self) -> (r: &str)
        ensures
            r@ == self.deep_view().status_path,
    {
        self.status_path.as_str()
    }

    /// Whether each update is printed as a panel.
    pub fn console(&self) -> (r: bool)
        ensures
            r == self.deep_view().console,
    {
        self.console
    }

    /// The current state.
    pub fn snapshot(&self) -> (r: &TrayState)
        ensures
            r.deep_view() == self.deep_view().state,
    {
        &self.state
    }

    /// Set enrolled device identity. An empty name leaves the display name as it is.
    pub fn set_identity(&mut self, public_id: &str, display_name: Option<&str>)
        ensures
            final(self).deep_view() == old(self).deep_view().published(
                TrayView {
                    public_id: Some(public_id@),
                    display_name: match display_name {
                        Some(n) => if n@.len() > 0 {
                            n@
                        } else {
                            old(self).deep_view().state.display_name
                        },
                        None => old(self).deep_view().state.display_name,
                    },
                    ..old(self).deep_view().state
                },
                "identity"@,
            ),
    {
        self.state.public_id = Some(public_id.to_string());
        if let Some(n) = display_name {
            if n.unicode_len() > 0 {
                self.state.display_name = n.to_string();
            }
        }
        self.note("identity");
    }

    /// Publish a freshly minted Mode A OTP (plaintext stays host-local).
    pub fn set_otp(&mut self, code: &str, expires_at: &str)
        ensures
            final(self).deep_view() == old(self).deep_view().published(
                TrayView {
                    otp_code: Some(code@),
                    otp_expires_at: Some(expires_at@),
                    ..old(self).deep_view().state
                },
                "otp_minted"@,
            ),
    {
        self.state.otp_code = Some(code.to_string());
        self.state.otp_expires_at = Some(expires_at.to_string());
        self.note("otp_minted");
    }

    /// Clear the OTP after it should no longer be shown.
    pub fn clear_otp(&mut self)
        ensures
            final(self).deep_view() == old(self).deep_view().published(
                TrayView { otp_code: None, otp_expires_at: None, ..old(self).deep_view().state },
                "otp_cleared"@,
            ),
    {
        self.state.otp_code = None;
        self.state.otp_expires_at = None;
        self.note("otp_cleared");
    }

    /// Session bound (accepted); chrome not yet active until media starts. A session that is bound
    /// already stays.
    pub fn begin_session(&mut self, session_id: &str, viewer_label: Option<String>)
        ensures
            final(self).deep_view() == old(self).deep_view().published(
                TrayView {
                    ux: if old(self).deep_view().state.ux.is_connected() {
                        old(self).deep_view().state.ux
                    } else {
                        IndicatorView::begun(session_id@, viewer_label.deep_view())
                    },
                    ..old(self).deep_view().state
                },
                "session_begin"@,
            ),
    {
        let _ = self.state.ux.begin_session(session_id, viewer_label);
        self.note("session_begin");
    }

    /// Media/control live: mandatory active chrome.
    pub fn mark_session_active(&mut self)
        ensures
            final(self).deep_view() == old(self).deep_view().published(
                TrayView {
                    ux: old(self).deep_view().state.ux.activated(),
                    ..old(self).deep_view().state
                },
                "session_active"@,
            ),
    {
        self.state.ux.mark_active();
        self.note("session_active");
    }

    /// Session ended (detach / complete / kill).
    pub fn end_session(&mut self)
        ensures
            final(self).deep_view() == old(self).deep_view().published(
                TrayView { ux: IndicatorView::idle(), ..old(self).deep_view().state },
                "session_end"@,
            ),
    {
        self.state.ux.end_session();
        self.note("session_end");
    }

    /// Local kill-switch: clear session chrome.
    pub fn apply_kill(&mut self)
        ensures
            final(self).deep_view() == old(self).deep_view().published(
                TrayView { ux: IndicatorView::idle(), ..old(self).deep_view().state },
                "kill_switch"@,
            ),
    {
        self.state.ux.apply_kill();
        self.note("kill_switch");
    }

    /// Menu command flags.
    pub fn commands(&self) -> (r: &TrayCommands)
        ensures
            r.deep_view() == self.deep_view().commands,
    {
        &self.commands
    }

    /// Menu command flags, to raise.
    pub fn commands_mut(&mut self) -> (r: &mut TrayCommands)
        ensures
            r.deep_view() == old(self).deep_view().commands,
            final(self).deep_view() == (HostTrayView {
                commands: final(r).deep_view(),
                ..old(self).deep_view()
            }),
    {
        &mut self.commands
    }

    /// Consume tray "End session" (true once).
    pub fn take_end_session(&mut self) -> (r: bool)
        ensures
            r == old(self).deep_view().commands.end_session,
            final(self).deep_view() == (HostTrayView {
                commands: CommandsView {
                    end_session: false,
                    ..old(self).deep_view().commands
                },
                ..old(self).deep_view()
            }),
    {
        self.commands.take_end_session()
    }

    /// Consume tray "Exit" (true once).
    pub fn take_exit(&mut self) -> (r: bool)
        ensures
            r == old(self).deep_view().commands.exit,
            final(self).deep_view() == (HostTrayView {
                commands: CommandsView { exit: false, ..old(self).deep_view().commands },
                ..old(self).deep_view()
            }),
    {
        self.commands.take_exit()
    }

    /// Request end session as if the menu was clicked.
    pub fn request_end_session(&mut self)
        ensures
            final(self).deep_view() == (HostTrayView {
                commands: CommandsView {
                    end_session: true,
                    ..old(self).deep_view().commands
                },
                ..old(self).deep_view()
            }),
    {
        self.commands.request_end_session();
    }

    /// The OTP text that the menu copies.
    pub fn otp_for_clipboard(&self) -> (r: Option<String>)
        ensures
            r.deep_view() == self.deep_view().state.otp_code,
    {
        match &self.state.otp_code {
            Some(c) => Some(c.clone()),
            None => None,
        }
    }

    /// Which menu entries can be chosen: copying needs a code, ending needs a session.
    pub fn menu(&self) -> (r: TrayMenu)
        ensures
            r == (TrayMenu {
                copy_otp: self.deep_view().state.otp_code is Some,
                end_session: self.deep_view().state.ux.is_connected(),
            }),
    {
        TrayMenu {
            copy_otp: self.state.otp_code.is_some(),
            end_session: self.state.ux.chrome().is_active() || self.state.ux.indicator()
                .is_connected(),
        }
    }

    /// A menu entry was chosen; `copied` says whether the code reached the clipboard. What to show
    /// the user is returned. Exit also ends a live session first.
    pub fn handle_menu_command(&mut self, command: MenuCommand, copied: bool) -> (r: Option<
        &'static str,
    >)
        ensures
            ({
                let before = old(self).deep_view();
                let c = before.commands;
                match command {
                    MenuCommand::CopyOtp => if copied {
                        &&& r matches Some(s) && s@ == "OTP copied to clipboard."@
                        &&& final(self).deep_view().commands.copies == (if c.copies == u64::MAX {
                            0
                        } else {
                            (c.copies + 1) as u64
                        })
                        &&& final(self).deep_view() == (HostTrayView {
                            commands: CommandsView {
                                copies: final(self).deep_view().commands.copies,
                                ..c
                            },
                            ..before
                        })
                    } else {
                        r is None && final(self).deep_view() == before
                    },
                    MenuCommand::EndSession => {
                        &&& r matches Some(s) && s@ == "Ending session…"@
                        &&& final(self).deep_view() == (HostTrayView {
                            commands: CommandsView { end_session: true, ..c },
                            ..before
                        })
                    },
                    MenuCommand::Exit => {
                        &&& r is None
                        &&& final(self).deep_view() == (HostTrayView {
                            commands: CommandsView { end_session: true, exit: true, ..c },
                            ..before
                        })
                    },
                }
            }),
    {
        match command {
            MenuCommand::CopyOtp => {
                if !copied {
                    return None;
                }
                self.commands.note_copy_otp_ok();
                Some("OTP copied to clipboard.")
            },
            MenuCommand::EndSession => {
                self.commands.request_end_session();
                Some("Ending session…")
            },
            MenuCommand::Exit => {
                self.commands.request_exit();
                self.commands.request_end_session();
                None
            },
        }
    }
}

/// Entries of the tray menu.
#[derive(Debug, Clone, Copy, PartialEq, Eq, Structural)]
pub enum MenuCommand {
    CopyOtp,
    EndSession,
    Exit,
}

/// Which entries of the tray menu can be chosen.
#[derive(Debug, Clone, Copy, PartialEq, Eq, Structural)]
pub struct TrayMenu {
    pub copy_otp: bool,
    pub end_session: bool,
}

/// Text units in a buffer of fixed size: cut to leave room for the terminator, then zeros.
pub open spec fn wide_buffer(wide: Seq<u16>, size: int) -> Seq<u16> {
    Seq::new(
        size as nat,
        |i: int|
            if i < wide.len() && i < size - 1 {
                wide[i]
            } else {
                0
            },
    )
}

/// Text units in a buffer of fixed size: cut to leave room for the terminator, then zeros.
pub fn copy_wide(wide: &[u16], size: usize) -> (r: Vec<u16>)
    ensures
        r@ == wide_buffer(wide@, size as int),
{
    let mut out: Vec<u16> = Vec::new();
    let n: usize = wide.len();
    while out.len() < size
        invariant
            n == wide@.len(),
            out@.len() <= size,
            forall|i: int|
                0 <= i < out@.len() ==> #[trigger] out@[i] == wide_buffer(wide@, size as int)[i],
        decreases size - out@.len(),
    {
        let i: usize = out.len();
        if i < n && i < size - 1 {
            out.push(wide[i]);
        } else {
            out.push(0);
        }
    }
    assert(out@ =~= wide_buffer(wide@, size as int));
    out
}

/// The status file next to a credential file.
pub open spec fn status_path_of(platform: Platform, creds_path: Seq<char>) -> Seq<char> {
    match path_parent(platform, creds_path) {
        Some(p) => path_join(platform, p, ".remotelink-host-status.json"@),
        None => ".remotelink-host-status.json"@,
    }
}

/// Default status file next to the credential file (or in the working directory).
pub fn default_status_path(platform: Platform, creds_path: &str) -> (r: String)
    ensures
        r@ == status_path_of(platform, creds_path@),
{
    match parent_path(platform, creds_path) {
        Some(p) => join_path(platform, &p, ".remotelink-host-status.json"),
        None => ".remotelink-host-status.json".to_string(),
    }
}

/// A cut text has at most as many characters as asked for, and a tooltip at most 127, whatever the
/// state holds.
pub proof fn law_tooltip_fits(t: TrayView, s: Seq<char>, max: int)
    requires
        max >= 1,
    ensures
        t.tooltip().len() <= 127,
        truncated(s, max).len() <= max,
        s.len() <= max ==> truncated(s, max) == s,
{
    reveal_strlit("…");
    assert("…"@.len() == 1);
}

/// What a holder of the shared commands does with them.
pub enum CommandUse {
    RequestEnd,
    RequestExit,
    TakeEnd,
    TakeExit,
    CountCopy,
}

impl CommandsView {
    /// The commands after one use of them.
    pub open spec fn used(self, by: CommandUse) -> CommandsView {
        match by {
            CommandUse::RequestEnd => CommandsView { end_session: true, ..self },
            CommandUse::RequestExit => CommandsView { exit: true, ..self },
            CommandUse::TakeEnd => CommandsView { end_session: false, ..self },
            CommandUse::TakeExit => CommandsView { exit: false, ..self },
            CommandUse::CountCopy => CommandsView {
                copies: if self.copies == u64::MAX {
                    0
                } else {
                    (self.copies + 1) as u64
                },
                ..self
            },
        }
    }

    /// The commands after uses by any of their holders, in the order in which they came.
    pub open spec fn used_all(self, uses: Seq<CommandUse>) -> CommandsView
        decreases uses.len(),
    {
        if uses.len() == 0 {
            self
        } else {
            self.used_all(uses.drop_last()).used(uses.last())
        }
    }
}

/// A request to end the session is taken exactly once, whoever of the holders makes it and whoever
/// takes it: the first take after it finds it, whatever else was done in between, and no later take
/// finds anything until it is requested again.
pub proof fn law_end_request_is_taken_once(
    c: CommandsView,
    between: Seq<CommandUse>,
    afterwards: Seq<CommandUse>,
)
    requires
        forall|i: int| 0 <= i < between.len() ==> !(#[trigger] between[i] is TakeEnd),
        forall|i: int| 0 <= i < afterwards.len() ==> !(#[trigger] afterwards[i] is RequestEnd),
    ensures
        ({
            let found = c.used(CommandUse::RequestEnd).used_all(between);
            let left = found.used(CommandUse::TakeEnd).used_all(afterwards);
            found.end_session && !left.end_session
        }),
{
    let requested = c.used(CommandUse::RequestEnd);
    lemma_end_request_stays(requested, between);
    lemma_no_end_request(requested.used_all(between).used(CommandUse::TakeEnd), afterwards);
}

proof fn lemma_end_request_stays(c: CommandsView, uses: Seq<CommandUse>)
    requires
        c.end_session,
        forall|i: int| 0 <= i < uses.len() ==> !(#[trigger] uses[i] is TakeEnd),
    ensures
        c.used_all(uses).end_session,
    decreases uses.len(),
{
    if uses.len() > 0 {
        let earlier = uses.drop_last();
        assert forall|i: int| 0 <= i < earlier.len() implies !(#[trigger] earlier[i] is TakeEnd) by {
            assert(uses[i] == earlier[i]);
        }
        lemma_end_request_stays(c, uses.drop_last());
        assert(!(uses[uses.len() - 1] is TakeEnd));
    }
}

proof fn lemma_no_end_request(c: CommandsView, uses: Seq<CommandUse>)
    requires
        !c.end_session,
        forall|i: int| 0 <= i < uses.len() ==> !(#[trigger] uses[i] is RequestEnd),
    ensures
        !c.used_all(uses).end_session,
    decreases uses.len(),
{
    if uses.len() > 0 {
        let earlier = uses.drop_last();
        assert forall|i: int| 0 <= i < earlier.len() implies !(#[trigger] earlier[i] is RequestEnd) by {
            assert(uses[i] == earlier[i]);
        }
        lemma_no_end_request(c, uses.drop_last());
        assert(!(uses[uses.len() - 1] is RequestEnd));
    }
}

/// The exit is a request of its own: where none is pending, no take of it finds anything until it
/// is requested, however often the end of the session is requested or taken.
pub proof fn law_exit_needs_its_own_request(c: CommandsView, uses: Seq<CommandUse>)
    requires
        !c.exit,
        forall|i: int| 0 <= i < uses.len() ==> !(#[trigger] uses[i] is RequestExit),
    ensures
        !c.used_all(uses).exit,
    decreases uses.len(),
{
    if uses.len() > 0 {
        let earlier = uses.drop_last();
        assert forall|i: int| 0 <= i < earlier.len() implies !(#[trigger] earlier[i] is RequestExit) by {
            assert(uses[i] == earlier[i]);
        }
        law_exit_needs_its_own_request(c, uses.drop_last());
        assert(!(uses[uses.len() - 1] is RequestExit));
    }
}

/// A text that is too long keeps as many of its first characters as fit before the ellipsis.
pub proof fn law_cut_text_keeps_its_beginning(s: Seq<char>, max: int)
    requires
        1 <= max < s.len(),
    ensures
        truncated(s, max).len() == max,
        truncated(s, max).take(max - 1) == s.take(max - 1),
        truncated(s, max).last() == '…',
{
    reveal_strlit("…");
    assert(truncated(s, max).take(max - 1) =~= s.take(max - 1));
}

/// While a session is active the tooltip tells who is in and says nothing of the code; otherwise it
/// tells under which identity the host can be reached, and the code if there is one. It is cut only
/// where it is too long.
pub proof fn law_tooltip_tells_who_is_in(t: TrayView, other: TrayView)
    requires
        other == (TrayView {
            otp_code: other.otp_code,
            otp_expires_at: other.otp_expires_at,
            last_event: other.last_event,
            ..t
        }),
    ensures
        t.ux.is_active() ==> other.tooltip() == t.tooltip(),
        t.ux.is_active() ==> occurs_in(t.ux.session_id->0, t.tooltip_line()),
        t.ux.is_active() ==> (t.ux.viewer_label matches Some(l) ==> occurs_in(
            l,
            t.tooltip_line(),
        )),
        !t.ux.is_active() ==> (t.public_id matches Some(id) ==> occurs_in(id, t.tooltip_line())),
        !t.ux.is_active() ==> (t.otp_code matches Some(code) ==> occurs_in(
            code,
            t.tooltip_line(),
        )),
        t.tooltip_line().len() <= 127 ==> t.tooltip() == t.tooltip_line(),
{
    let line = t.tooltip_line();
    if t.ux.is_active() {
        let label = text_or(t.ux.viewer_label, "viewer"@);
        let id = t.ux.session_id->0;
        let head = "RemoteLink IN SESSION · "@;
        lemma_occurs_between(head, label, " · "@ + id);
        assert(line =~= head + label + (" · "@ + id));
        lemma_occurs_between(head + label + " · "@, id, Seq::empty());
        assert(line =~= head + label + " · "@ + id + Seq::<char>::empty());
    } else {
        let head = "RemoteLink ready · id="@;
        let id = text_or(t.public_id, "—"@);
        let rest = match t.otp_code {
            Some(otp) => " · OTP "@ + otp,
            None => Seq::empty(),
        };
        lemma_occurs_between(head, id, rest);
        assert(line =~= head + id + rest);
        if let Some(otp) = t.otp_code {
            lemma_occurs_between(head + id + " · OTP "@, otp, Seq::empty());
            assert(line =~= head + id + " · OTP "@ + otp + Seq::<char>::empty());
        }
    }
}

/// The panel shows the name, the identity, the code with its end, and what happened last.
pub proof fn law_panel_shows_the_state(t: TrayView)
    ensures
        occurs_in(t.display_name, t.panel()),
        t.public_id matches Some(id) ==> occurs_in(id, t.panel()),
        t.otp_code matches Some(code) ==> occurs_in(code, t.panel()),
        t.otp_code is Some ==> (t.otp_expires_at matches Some(end) ==> occurs_in(end, t.panel())),
        t.last_event matches Some(ev) ==> occurs_in(ev, t.panel()),
        occurs_in(status_text(t.ux), t.panel()),
{
    let id = text_or(t.public_id, "(not enrolled)"@);
    let event = match t.last_event {
        Some(ev) => "  event:   "@ + ev + "\n"@,
        None => ""@,
    };
    lemma_occurs_in_itself(t.display_name);
    lemma_occurs_in_itself(id);
    lemma_occurs_in_itself(status_text(t.ux));
    if let Some(code) = t.otp_code {
        let label = "  otp:     "@;
        lemma_occurs_in_itself(code);
        lemma_occurs_in_longer(label, code);
        if let Some(end) = t.otp_expires_at {
            lemma_occurs_in_itself(end);
            lemma_occurs_in_longer(label + code, "  (expires "@);
            lemma_occurs_in_longer(label + code + "  (expires "@, end);
            lemma_occurs_in_longer(label + code + "  (expires "@ + end, ")"@);
        }
    }
    if let Some(ev) = t.last_event {
        lemma_occurs_in_itself(ev);
        lemma_occurs_in_longer("  event:   "@, ev);
        lemma_occurs_in_longer("  event:   "@ + ev, "\n"@);
    }
    let p0 = "── RemoteLink host tray ──\n"@ + "  name:    "@;
    lemma_occurs_in_longer(p0, t.display_name);
    let p1 = p0 + t.display_name;
    lemma_occurs_in_longer(p1, "\n"@);
    let p2 = p1 + "\n"@;
    lemma_occurs_in_longer(p2, "  id:      "@);
    let p3 = p2 + "  id:      "@;
    lemma_occurs_in_longer(p3, id);
    let p4 = p3 + id;
    lemma_occurs_in_longer(p4, "\n"@);
    let p5 = p4 + "\n"@;
    lemma_occurs_in_longer(p5, "  chrome:  "@);
    let p6 = p5 + "  chrome:  "@;
    lemma_occurs_in_longer(p6, ChromeView::of(t.ux).status());
    let p7 = p6 + ChromeView::of(t.ux).status();
    lemma_occurs_in_longer(p7, " ("@);
    let p8 = p7 + " ("@;
    lemma_occurs_in_longer(p8, status_text(t.ux));
    let p9 = p8 + status_text(t.ux);
    lemma_occurs_in_longer(p9, ")\n"@);
    let p10 = p9 + ")\n"@;
    lemma_occurs_in_longer(p10, t.otp_line());
    let p11 = p10 + t.otp_line();
    lemma_occurs_in_longer(p11, "\n"@);
    let p12 = p11 + "\n"@;
    lemma_occurs_in_longer(p12, event);
    let p13 = p12 + event;
    lemma_occurs_in_longer(p13, "──────────────────────────"@);
    assert(t.panel() == p13 + "──────────────────────────"@);
}

/// The status object tells the state under its keys; a session and its viewer stand in it only while
/// chrome is shown.
pub proof fn law_status_tells_the_state(t: TrayView)
    ensures
        t.status().member("display_name"@) == Some(JsonView::Text(t.display_name)),
        t.status().member("public_id"@) == Some(opt_json(t.public_id)),
        t.status().member("otp_code"@) == Some(opt_json(t.otp_code)),
        t.status().member("otp_expires_at"@) == Some(opt_json(t.otp_expires_at)),
        t.status().member("connected"@) == Some(JsonView::Bool(t.ux.connected)),
        t.status().member("active"@) == Some(JsonView::Bool(t.ux.active)),
        t.status().member("last_event"@) == Some(opt_json(t.last_event)),
        t.status().member("tooltip"@) == Some(JsonView::Text(t.tooltip())),
        t.ux.is_active() ==> t.status().member("session_id"@) == Some(
            opt_json(t.ux.session_id),
        ) && t.status().member("viewer_label"@) == Some(opt_json(t.ux.viewer_label))
            && t.status().member("chrome"@) == Some(JsonView::Text("Active"@)),
        !t.ux.is_active() ==> t.status().member("session_id"@) == Some(JsonView::Null)
            && t.status().member("viewer_label"@) == Some(JsonView::Null) && t.status().member(
            "chrome"@,
        ) == Some(JsonView::Text("Inactive"@)),
        opt_json(None) == JsonView::Null,
        forall|s: Seq<char>| #[trigger] opt_json(Some(s)) == JsonView::Text(s),
{
    reveal_strlit("display_name");
    reveal_strlit("public_id");
    reveal_strlit("otp_code");
    reveal_strlit("otp_expires_at");
    reveal_strlit("chrome");
    reveal_strlit("session_id");
    reveal_strlit("viewer_label");
    reveal_strlit("connected");
    reveal_strlit("active");
    reveal_strlit("last_event");
    reveal_strlit("tooltip");
    assert("display_name"@[0] != "viewer_label"@[0]);
    assert("public_id"@[0] != "connected"@[0]);
    assert("chrome"@[0] != "active"@[0]);
    assert("session_id"@[0] != "last_event"@[0]);
    let fields = t.status()->Object_0;
    assert(fields[0].0 == "display_name"@ && "display_name"@.len() == 12);
    assert(fields[1].0 == "public_id"@ && "public_id"@.len() == 9);
    assert(fields[2].0 == "otp_code"@ && "otp_code"@.len() == 8);
    assert(fields[3].0 == "otp_expires_at"@ && "otp_expires_at"@.len() == 14);
    assert(fields[4].0 == "chrome"@ && "chrome"@.len() == 6);
    assert(fields[5].0 == "session_id"@ && "session_id"@.len() == 10);
    assert(fields[6].0 == "viewer_label"@ && "viewer_label"@.len() == 12);
    assert(fields[7].0 == "connected"@ && "connected"@.len() == 9);
    assert(fields[8].0 == "active"@ && "active"@.len() == 6);
    assert(fields[9].0 == "last_event"@ && "last_event"@.len() == 10);
    assert(fields[10].0 == "tooltip"@ && "tooltip"@.len() == 7);
    law_first_field_of_a_name_counts(fields, "display_name"@, 0);
    law_first_field_of_a_name_counts(fields, "public_id"@, 1);
    law_first_field_of_a_name_counts(fields, "otp_code"@, 2);
    law_first_field_of_a_name_counts(fields, "otp_expires_at"@, 3);
    law_first_field_of_a_name_counts(fields, "chrome"@, 4);
    law_first_field_of_a_name_counts(fields, "session_id"@, 5);
    law_first_field_of_a_name_counts(fields, "viewer_label"@, 6);
    law_first_field_of_a_name_counts(fields, "connected"@, 7);
    law_first_field_of_a_name_counts(fields, "active"@, 8);
    law_first_field_of_a_name_counts(fields, "last_event"@, 9);
    law_first_field_of_a_name_counts(fields, "tooltip"@, 10);
}

/// Each use of the commands touches what it is about, and copies are counted one by one.
pub proof fn law_commands_are_used_apart(c: CommandsView)
    ensures
        c.used(CommandUse::RequestEnd).exit == c.exit,
        c.used(CommandUse::RequestEnd).copies == c.copies,
        c.used(CommandUse::RequestExit).end_session == c.end_session,
        c.used(CommandUse::RequestExit).exit,
        c.used(CommandUse::RequestExit).copies == c.copies,
        c.used(CommandUse::TakeEnd).exit == c.exit,
        c.used(CommandUse::TakeExit).end_session == c.end_session,
        !c.used(CommandUse::TakeExit).exit,
        c.used(CommandUse::TakeExit).copies == c.copies,
        c.used(CommandUse::TakeEnd).copies == c.copies,
        c.used(CommandUse::CountCopy).end_session == c.end_session,
        c.used(CommandUse::CountCopy).exit == c.exit,
        c.copies < u64::MAX ==> c.used(CommandUse::CountCopy).copies == c.copies + 1,
        !CommandsView::idle().end_session && !CommandsView::idle().exit,
{
}

/// A buffer has the size it was asked for, ends in its terminator, and holds as much of the text as
/// fits before it.
pub proof fn law_buffer_is_terminated(wide: Seq<u16>, size: int)
    requires
        size >= 1,
    ensures
        wide_buffer(wide, size).len() == size,
        wide_buffer(wide, size).last() == 0,
        forall|i: int|
            0 <= i < wide.len() && i < size - 1 ==> #[trigger] wide_buffer(wide, size)[i]
                == wide[i],
        forall|i: int|
            wide.len() <= i < size ==> #[trigger] wide_buffer(wide, size)[i] == 0,
{
}

/// The status file has its own name, and lies where the credentials lie. On Windows a bare server
/// becomes a prefix with the name appended to it, and is left out.
pub proof fn law_status_lies_by_the_credentials(platform: Platform, creds_path: Seq<char>)
    requires
        path_parent(platform, creds_path) matches Some(p) ==> prefix_len(
            platform,
            path_join(platform, p, ".remotelink-host-status.json"@),
        ) == prefix_len(platform, p),
    ensures
        file_name(platform, status_path_of(platform, creds_path))
            == ".remotelink-host-status.json"@,
        path_parent(platform, creds_path) is None ==> status_path_of(platform, creds_path)
            == ".remotelink-host-status.json"@,
{
    let name = ".remotelink-host-status.json"@;
    reveal_strlit(".remotelink-host-status.json");
    let base = match path_parent(platform, creds_path) {
        Some(p) => p,
        None => Seq::empty(),
    };
    law_joined_name_is_last(platform, base, name);
}

} // verus!
