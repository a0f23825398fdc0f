//! The shell behind the window: "this PC" and "connect".
//!
//! Drawing, threads and files are driven from outside; here stands what the shell remembers,
//! decides and shows.

use vstd::prelude::*;
use crate::desktop::config::{remembered, AppConfig, ConfigView};
use crate::desktop::status::{HostStatusSnapshot, SnapshotView};
use crate::host::roles::{law_transport_name_roundtrip, TransportMode};
use crate::text::{
    chars_of, decimal, lemma_occurs_between, lowercase, lowered, occurs_in, push_number, same,
    slice_is, starts_with, string_of, trim, trimmed,
};

verus! {

/// State of the shell.
#[derive(Debug, Clone)]
pub struct Shell {
    pub config: AppConfig,
    pub show_advanced: bool,
    /// Connect form: remote host public id.
    pub remote_id: String,
    /// Connect form: OTP / password.
    pub remote_secret: String,
    /// Status line under Connect.
    pub connect_status: String,
    /// Host allow-access desired state.
    pub allow_access: bool,
    /// Whether there is a host worker.
    pub hosting: bool,
    pub host_status: HostStatusSnapshot,
    pub host_error: Option<String>,
    pub footer_note: String,
    pub minimize_on_start: bool,
}

/// What a `Shell` holds.
pub struct ShellView {
    pub config: ConfigView,
    pub show_advanced: bool,
    pub remote_id: Seq<char>,
    pub remote_secret: Seq<char>,
    pub connect_status: Seq<char>,
    pub allow_access: bool,
    pub hosting: bool,
    pub host_status: SnapshotView,
    pub host_error: Option<Seq<char>>,
    pub footer_note: Seq<char>,
    pub minimize_on_start: bool,
}

impl DeepView for Shell {
    type V = ShellView;

    open spec fn deep_view(&self) -> ShellView {
        ShellView {
            config: self.config.deep_view(),
            show_advanced: self.show_advanced,
            remote_id: self.remote_id@,
            remote_secret: self.remote_secret@,
            connect_status: self.connect_status@,
            allow_access: self.allow_access,
            hosting: self.hosting,
            host_status: self.host_status.deep_view(),
            host_error: self.host_error.deep_view(),
            footer_note: self.footer_note@,
            minimize_on_start: self.minimize_on_start,
        }
    }
}

/// What a live viewer session reports.
#[derive(Debug)]
pub struct ViewerReport {
    pub error: Option<String>,
    pub status: String,
    /// Whether the session is over.
    pub finished: bool,
}

/// A connection to make.
#[derive(Debug)]
pub struct ConnectRequest {
    pub server: String,
    pub host: String,
    pub otp: String,
    pub transport: TransportMode,
}

/// The transport of a settings text; live where it names none.
pub open spec fn transport_of(text: Seq<char>) -> TransportMode {
    match TransportMode::of(text) {
        Some(m) => m,
        None => TransportMode::Live,
    }
}

/// Whether a variable asks for a start at login.
pub open spec fn asks_login_start(value: Seq<char>) -> bool {
    value == "1"@ || lowered(value) == "true"@
}

/// Whether a variable asks for a start at login.
pub fn is_login_start(value: Option<&str>) -> (r: bool)
    ensures
        r == (value matches Some(v) && asks_login_start(v@)),
{
    match value {
        Some(v) => same(v, "1") || slice_is(&lowercase(&chars_of(v)), "true"),
        None => false,
    }
}

/// What is said when the host went away by itself.
pub const HOST_STOPPED: &'static str = "Host service stopped. Check the signaling server URL, then toggle Allow access.";

impl ShellView {
    /// The shell after a look at the host worker: whether it is alive, and what it reported.
    pub open spec fn host_polled(
        self,
        snapshot: Option<SnapshotView>,
        worker: Option<(bool, Option<Seq<char>>)>,
    ) -> ShellView {
        let s = ShellView {
            host_status: match snapshot {
                Some(n) => n,
                None => self.host_status,
            },
            ..self
        };
        match worker {
            None => s,
            Some((alive, error)) => {
                let t = ShellView {
                    host_error: match error {
                        Some(e) => Some(e),
                        None => s.host_error,
                    },
                    ..s
                };
                if !alive && t.allow_access {
                    ShellView {
                        host_error: match t.host_error {
                            Some(e) => Some(e),
                            None => Some(HOST_STOPPED@),
                        },
                        allow_access: false,
                        hosting: false,
                        ..t
                    }
                } else {
                    t
                }
            },
        }
    }

    /// The shell after a look at the viewer session.
    pub open spec fn viewer_polled(
        self,
        error: Option<Seq<char>>,
        status: Seq<char>,
        finished: bool,
    ) -> ShellView {
        let shown = match error {
            Some(e) => "Connect failed: "@ + e,
            None => if status.len() > 0 {
                status
            } else {
                self.connect_status
            },
        };
        if !finished || error is Some {
            ShellView { connect_status: shown, ..self }
        } else {
            ShellView {
                connect_status: if "Connect failed"@.is_prefix_of(shown) {
                    shown
                } else {
                    status
                },
                config: ConfigView {
                    recent_hosts: remembered(self.config.recent_hosts, self.remote_id),
                    ..self.config
                },
                ..self
            }
        }
    }

    /// What is shown as the public id.
    pub open spec fn id_text(self) -> Seq<char> {
        match self.host_status.public_id {
            Some(id) => id,
            None => if self.allow_access {
                "… enrolling"@
            } else {
                "—"@
            },
        }
    }

    /// What is shown as the code.
    pub open spec fn otp_text(self) -> Seq<char> {
        match self.host_status.otp_code {
            Some(c) => c,
            None => "—"@,
        }
    }

    /// Whether the host counts as running.
    pub open spec fn host_alive(self) -> bool {
        self.allow_access && self.hosting && self.host_error is None
    }

    /// The status line of this PC.
    pub open spec fn status_text(self) -> Seq<char> {
        let chrome = if self.host_status.chrome.len() > 0 {
            self.host_status.chrome
        } else if self.allow_access {
            "Starting…"@
        } else {
            "Off"@
        };
        let hint = if !self.host_alive() {
            "stopped"@
        } else if self.host_status.public_id is Some {
            "online (waiting for viewers)"@
        } else {
            "starting…"@
        };
        "Status: "@ + chrome + " · host "@ + hint
    }

    /// The line about a session, if there is one.
    pub open spec fn session_text(self) -> Option<Seq<char>> {
        match self.host_status.session_id {
            Some(sid) => Some(
                "In session with "@ + (match self.host_status.viewer_label {
                    Some(l) => l,
                    None => "viewer"@,
                }) + " ("@ + sid + ")"@,
            ),
            None => None,
        }
    }
}

fn nothing() -> (r: String)
    ensures
        r@ == Seq::<char>::empty(),
{
    let r = String::new();
    assert(r@ =~= Seq::<char>::empty());
    r
}

impl Shell {
    /// A shell with settings. One that was started at login always allows access and starts
    /// minimized.
    pub fn new(config: AppConfig, login_start: bool, version: &str) -> (r: Self)
        ensures
            r.deep_view() == (ShellView {
                config: ConfigView {
                    auto_start_host: config.deep_view().auto_start_host || login_start,
                    ..config.deep_view()
                },
                show_advanced: false,
                remote_id: Seq::empty(),
                remote_secret: Seq::empty(),
                connect_status: Seq::empty(),
                allow_access: config.deep_view().auto_start_host || login_start,
                hosting: false,
                host_status: SnapshotView::blank(),
                host_error: None,
                footer_note: "RemoteLink "@ + version@ + " · live session"@ + (if login_start {
                    " · started at login"@
                } else {
                    ""@
                }),
                minimize_on_start: login_start,
            }),
    {
        let mut config = config;
        if login_start {
            config.auto_start_host = true;
        }
        let allow_access = config.auto_start_host;
        let mut footer_note = "RemoteLink ".to_string();
        footer_note.append(version);
        footer_note.append(" · live session");
        footer_note.append(
            if login_start {
                " · started at login"
            } else {
                ""
            },
        );
        Shell {
            config,
            show_advanced: false,
            remote_id: nothing(),
            remote_secret: nothing(),
            connect_status: nothing(),
            allow_access,
            hosting: false,
            host_status: HostStatusSnapshot::default(),
            host_error: None,
            footer_note,
            minimize_on_start: login_start,
        }
    }

    /// The transport of the settings; live where they name none.
    pub fn transport_mode(&self) -> (r: TransportMode)
        ensures
            r == transport_of(self.deep_view().config.transport),
    {
        match TransportMode::parse(&self.config.transport) {
            Some(m) => m,
            None => TransportMode::Live,
        }
    }

    /// A host worker is about to be started: the old one is gone, and so is its error.
    pub fn host_starting(&mut self)
        ensures
            final(self).deep_view() == (ShellView {
                hosting: false,
                host_error: None,
                ..old(self).deep_view()
            }),
    {
        self.hosting = false;
        self.host_error = None;
    }

    /// The host could not even be prepared.
    pub fn host_unprepared(&mut self, error: String)
        ensures
            final(self).deep_view() == (ShellView {
                hosting: false,
                host_error: Some(error@),
                ..old(self).deep_view()
            }),
    {
        self.hosting = false;
        self.host_error = Some(error);
    }

    /// A host worker was started, or could not be: `exe` is what runs.
    pub fn host_started(&mut self, exe: Result<String, String>)
        ensures
            final(self).deep_view() == match exe {
                Ok(path) => ShellView {
                    footer_note: "Host started ("@ + path@ + ")"@,
                    hosting: true,
                    allow_access: true,
                    connect_status: Seq::empty(),
                    ..old(self).deep_view()
                },
                Err(e) => ShellView {
                    host_error: Some(e@),
                    allow_access: false,
                    connect_status: Seq::empty(),
                    ..old(self).deep_view()
                },
            },
    {
        match exe {
            Ok(path) => {
                let mut note = "Host started (".to_string();
                note.append(&path);
                note.append(")");
                self.footer_note = note;
                self.hosting = true;
                self.allow_access = true;
            },
            Err(e) => {
                self.host_error = Some(e);
                self.allow_access = false;
            },
        }
        self.connect_status = nothing();
    }

    /// Remote access was switched off.
    pub fn stop_host_ui(&mut self)
        ensures
            final(self).deep_view() == (ShellView {
                hosting: false,
                allow_access: false,
                host_status: SnapshotView::blank(),
                footer_note: "Remote access stopped."@,
                ..old(self).deep_view()
            }),
    {
        self.hosting = false;
        self.allow_access = false;
        self.host_status = HostStatusSnapshot::default();
        self.footer_note = "Remote access stopped.".to_string();
    }

    /// Take note of the host: a new status, and for a worker whether it is alive and what it
    /// reported. A worker that died switches remote access off.
    pub fn poll_host_status(
        &mut self,
        snapshot: Option<HostStatusSnapshot>,
        worker: Option<(bool, Option<String>)>,
    )
        ensures
            final(self).deep_view() == old(self).deep_view().host_polled(
                match snapshot {
                    Some(s) => Some(s.deep_view()),
                    None => None,
                },
                match worker {
                    Some(w) => Some((w.0, w.1.deep_view())),
                    None => None,
                },
            ),
    {
        if let Some(s) = snapshot {
            self.host_status = s;
        }
        if let Some((alive, error)) = worker {
            if let Some(e) = error {
                self.host_error = Some(e);
            }
            if !alive && self.allow_access {
                if self.host_error.is_none() {
                    self.host_error = Some(HOST_STOPPED.to_string());
                }
                self.allow_access = false;
                self.hosting = false;
            }
        }
    }

    /// When the window is drawn again, in milliseconds: often while a session is live, now and
    /// then while access is allowed, else only on input.
    pub fn repaint_after_ms(&self, viewer_live: bool) -> (r: Option<u64>)
        ensures
            r == (if viewer_live {
                Some(16u64)
            } else if self.deep_view().allow_access {
                Some(250u64)
            } else {
                None
            }),
    {
        if viewer_live {
            Some(16)
        } else if self.allow_access {
            Some(250)
        } else {
            None
        }
    }

    /// Take note of the viewer session. Whether the settings have to be saved is returned: a
    /// session that ended well is remembered.
    pub fn poll_viewer(&mut self, report: ViewerReport) -> (r: bool)
        ensures
            final(self).deep_view() == old(self).deep_view().viewer_polled(
                report.error.deep_view(),
                report.status@,
                report.finished,
            ),
            r == (report.finished && report.error is None && trimmed(
                old(self).deep_view().remote_id,
            ).len() > 0),
    {
        let failed = report.error.is_some();
        if let Some(e) = &report.error {
            self.connect_status = "Connect failed: ".to_string().concat(e);
        } else if report.status.as_str().unicode_len() > 0 {
            self.connect_status = report.status.clone();
        }
        if !report.finished || failed {
            return false;
        }
        let all = chars_of(&self.remote_id);
        let id = trim(&all);
        let save = id.len() > 0;
        let id = self.remote_id.clone();
        self.config.push_recent(&id);
        if !starts_with(&chars_of(&self.connect_status), "Connect failed") {
            self.connect_status = report.status;
        }
        save
    }

    /// The user hung up.
    pub fn disconnect_viewer(&mut self)
        ensures
            final(self).deep_view() == (ShellView {
                connect_status: "Disconnected."@,
                ..old(self).deep_view()
            }),
    {
        self.connect_status = "Disconnected.".to_string();
    }

    /// Start to connect with what the form holds; `busy` says whether a session is running. What is
    /// missing is said under the form.
    pub fn start_connect(&mut self, busy: bool) -> (r: Option<ConnectRequest>)
        ensures
            ({
                let s = old(self).deep_view();
                let host = trimmed(s.remote_id);
                let otp = trimmed(s.remote_secret);
                let shown = if host.len() == 0 {
                    "Enter a remote ID."@
                } else if otp.len() == 0 {
                    "Enter the OTP shown on the remote PC."@
                } else if busy {
                    "A connection is already in progress."@
                } else {
                    "Connecting to "@ + host + "…"@
                };
                &&& final(self).deep_view() == (ShellView { connect_status: shown, ..s })
                &&& r is Some <==> host.len() > 0 && otp.len() > 0 && !busy
                &&& r matches Some(q) ==> q.server@ == s.config.server && q.host@ == host && q.otp@
                    == otp && q.transport == transport_of(s.config.transport)
            }),
    {
        let id = chars_of(&self.remote_id);
        let secret = chars_of(&self.remote_secret);
        let host = trim(&id);
        let otp = trim(&secret);
        if host.len() == 0 {
            self.connect_status = "Enter a remote ID.".to_string();
            return None;
        }
        if otp.len() == 0 {
            self.connect_status = "Enter the OTP shown on the remote PC.".to_string();
            return None;
        }
        if busy {
            self.connect_status = "A connection is already in progress.".to_string();
            return None;
        }
        let host = string_of(host);
        let mut status = "Connecting to ".to_string();
        status.append(&host);
        status.append("…");
        let transport = self.transport_mode();
        self.connect_status = status;
        Some(
            ConnectRequest {
                server: self.config.server.clone(),
                host,
                otp: string_of(otp),
                transport,
            },
        )
    }

    /// What is shown as the public id.
    pub fn public_id_text(&self) -> (r: String)
        ensures
            r@ == self.deep_view().id_text(),
    {
        match &self.host_status.public_id {
            Some(id) => id.clone(),
            None => if self.allow_access {
                "… enrolling".to_string()
            } else {
                "—".to_string()
            },
        }
    }

    /// Whether the public id can be copied.
    pub fn can_copy_id(&self) -> (r: bool)
        ensures
            r == (self.deep_view().id_text() != "—"@ && !"…"@.is_prefix_of(
                self.deep_view().id_text(),
            )),
    {
        let text = self.public_id_text();
        !same(&text, "—") && !starts_with(&chars_of(&text), "…")
    }

    /// What is shown as the code.
    pub fn otp_text(&self) -> (r: String)
        ensures
            r@ == self.deep_view().otp_text(),
    {
        match &self.host_status.otp_code {
            Some(c) => c.clone(),
            None => "—".to_string(),
        }
    }

    /// Whether the host counts as running.
    pub fn host_alive(&self) -> (r: bool)
        ensures
            r == self.deep_view().host_alive(),
    {
        self.allow_access && self.hosting && self.host_error.is_none()
    }

    /// The status line of this PC.
    pub fn status_line(&self) -> (r: String)
        ensures
            r@ == self.deep_view().status_text(),
    {
        let mut s = "Status: ".to_string();
        if self.host_status.chrome.as_str().unicode_len() > 0 {
            s.append(&self.host_status.chrome);
        } else if self.allow_access {
            s.append("Starting…");
        } else {
            s.append("Off");
        }
        s.append(" · host ");
        if !self.host_alive() {
            s.append("stopped");
        } else if self.host_status.public_id.is_some() {
            s.append("online (waiting for viewers)");
        } else {
            s.append("starting…");
        }
        s
    }

    /// The line about a session, if there is one.
    pub fn session_line(&self) -> (r: Option<String>)
        ensures
            r.deep_view() == self.deep_view().session_text(),
    {
        match &self.host_status.session_id {
            Some(sid) => {
                let mut s = "In session with ".to_string();
                match &self.host_status.viewer_label {
                    Some(l) => s.append(l),
                    None => s.append("viewer"),
                }
                s.append(" (");
                s.append(sid);
                s.append(")");
                Some(s)
            },
            None => None,
        }
    }

    /// The user switched the start at login on or off, which worked or did not. Whether the
    /// settings have to be saved is returned.
    pub fn startup_changed(&mut self, enabled: bool, applied: Result<(), String>) -> (r: bool)
        ensures
            r == (applied is Ok),
            final(self).deep_view() == match applied {
                Ok(()) => ShellView {
                    config: ConfigView {
                        start_with_windows: enabled,
                        ..old(self).deep_view().config
                    },
                    footer_note: if enabled {
                        "Start with Windows enabled."@
                    } else {
                        "Start with Windows disabled."@
                    },
                    ..old(self).deep_view()
                },
                Err(e) => ShellView { footer_note: e@, ..old(self).deep_view() },
            },
    {
        match applied {
            Ok(()) => {
                self.config.start_with_windows = enabled;
                self.footer_note = if enabled {
                    "Start with Windows enabled.".to_string()
                } else {
                    "Start with Windows disabled.".to_string()
                };
                true
            },
            Err(e) => {
                self.footer_note = e;
                false
            },
        }
    }

    /// The settings were saved to a path, or could not be.
    pub fn settings_saved(&mut self, saved: Result<String, String>)
        ensures
            final(self).deep_view() == (ShellView {
                footer_note: match saved {
                    Ok(path) => "Saved "@ + path@,
                    Err(e) => e@,
                },
                ..old(self).deep_view()
            }),
    {
        self.footer_note = match saved {
            Ok(path) => "Saved ".to_string().concat(&path),
            Err(e) => e,
        };
    }
}

/// The line above the picture of a live session.
pub fn session_hud(
    hud: &str,
    width: u32,
    height: u32,
    video_rx: u64,
    audio_rx: u64,
    identity_bound: bool,
) -> (r: String)
    ensures
        r@ == hud@ + " · "@ + decimal(width as nat) + "×"@ + decimal(height as nat) + " · video "@
            + decimal(video_rx as nat) + " · audio "@ + decimal(audio_rx as nat) + " · bind "@
            + (if identity_bound {
            "ready"@
        } else {
            "pending"@
        }),
{
    let mut s = hud.to_string();
    s.append(" · ");
    push_number(&mut s, width as u64);
    s.append("×");
    push_number(&mut s, height as u64);
    s.append(" · video ");
    push_number(&mut s, video_rx);
    s.append(" · audio ");
    push_number(&mut s, audio_rx);
    s.append(" · bind ");
    s.append(
        if identity_bound {
            "ready"
        } else {
            "pending"
        },
    );
    s
}

/// Whether a frame can be shown: it has an area, and its data covers it with four bytes a pixel.
pub fn frame_ready(width: u32, height: u32, bytes: usize) -> (r: bool)
    ensures
        r == (width > 0 && height > 0 && bytes >= width * height * 4),
{
    if width == 0 || height == 0 {
        return false;
    }
    assert(width * height <= 0xffff_ffff * 0xffff_ffff) by (nonlinear_arith)
        requires
            width <= 0xffff_ffff,
            height <= 0xffff_ffff,
    ;
    let need: u128 = width as u128 * height as u128 * 4;
    bytes as u128 >= need
}

/// A host that died, or could not be started, leaves remote access switched off and says why.
pub proof fn law_dead_host_is_reported(
    s: ShellView,
    snapshot: Option<SnapshotView>,
    error: Option<Seq<char>>,
)
    requires
        s.allow_access,
    ensures
        ({
            let after = s.host_polled(snapshot, Some((false, error)));
            &&& !after.allow_access
            &&& !after.hosting
            &&& after.host_error is Some
            &&& !after.host_alive()
        }),
{
}

/// A session that failed is not remembered, and one that ended well is remembered first.
pub proof fn law_only_good_sessions_are_remembered(
    s: ShellView,
    error: Option<Seq<char>>,
    status: Seq<char>,
    finished: bool,
)
    ensures
        error is Some || !finished ==> s.viewer_polled(error, status, finished).config == s.config,
        error is None && finished && trimmed(s.remote_id).len() > 0 ==> s.viewer_polled(
            error,
            status,
            finished,
        ).config.recent_hosts[0] == trimmed(s.remote_id),
{
}

/// A look at the host shows its newest status and what went wrong, and leaves the rest of the shell
/// alone; a worker that lives keeps remote access as it was.
pub proof fn law_look_at_the_host(
    s: ShellView,
    snapshot: Option<SnapshotView>,
    worker: Option<(bool, Option<Seq<char>>)>,
)
    ensures
        ({
            let after = s.host_polled(snapshot, worker);
            &&& snapshot matches Some(n) ==> after.host_status == n
            &&& snapshot is None ==> after.host_status == s.host_status
            &&& after.config == s.config && after.remote_id == s.remote_id && after.remote_secret
                == s.remote_secret && after.connect_status == s.connect_status
                && after.footer_note == s.footer_note && after.show_advanced == s.show_advanced
                && after.minimize_on_start == s.minimize_on_start
            &&& worker is None ==> after.host_error == s.host_error && after.allow_access
                == s.allow_access && after.hosting == s.hosting
            &&& worker matches Some((alive, error)) ==> {
                &&& alive || !s.allow_access ==> after.allow_access == s.allow_access
                    && after.hosting == s.hosting
                &&& error matches Some(e) ==> after.host_error == Some(e)
                &&& alive && error is None ==> after.host_error == s.host_error
                &&& !alive && error is None && s.host_error is Some ==> after.host_error
                    == s.host_error
            }
        }),
{
}

/// A look at the viewer session shows what it says: an error as a failed connection, else its
/// status. Nothing but that line and the recent hosts changes.
pub proof fn law_look_at_the_viewer(
    s: ShellView,
    error: Option<Seq<char>>,
    status: Seq<char>,
    finished: bool,
)
    ensures
        ({
            let after = s.viewer_polled(error, status, finished);
            &&& error matches Some(e) ==> after.connect_status == "Connect failed: "@ + e
            &&& error is None && status.len() > 0 ==> after.connect_status == status
            &&& error is None && status.len() == 0 && !finished ==> after.connect_status
                == s.connect_status
            &&& after.allow_access == s.allow_access && after.hosting == s.hosting
                && after.host_status == s.host_status && after.host_error == s.host_error
                && after.remote_id == s.remote_id && after.remote_secret == s.remote_secret
                && after.footer_note == s.footer_note
            &&& after.config.server == s.config.server && after.config.transport
                == s.config.transport && after.config.auto_start_host == s.config.auto_start_host
        }),
{
}

/// What is shown of this PC: its id and its code where they are known, and else a placeholder.
pub proof fn law_known_values_are_shown(s: ShellView)
    ensures
        s.host_status.public_id matches Some(id) ==> s.id_text() == id,
        s.host_status.public_id is None ==> s.id_text() == "—"@ || "…"@.is_prefix_of(s.id_text()),
        s.host_status.public_id is None ==> (s.id_text() == "—"@ <==> !s.allow_access),
        s.host_status.otp_code matches Some(code) ==> s.otp_text() == code,
        s.host_status.otp_code is None ==> s.otp_text() == "—"@,
{
    reveal_strlit("… enrolling");
    reveal_strlit("…");
    reveal_strlit("—");
    assert("… enrolling"@.subrange(0, 1) =~= "…"@);
    assert("… enrolling"@.len() != "—"@.len());
}

/// A host counts as running only while access is allowed, a worker is there and nothing went wrong,
/// and the status line ends by telling how far it is.
pub proof fn law_status_line_tells_how_far_the_host_is(s: ShellView)
    ensures
        s.host_alive() ==> s.allow_access && s.hosting && s.host_error is None,
        !s.host_alive() ==> !s.allow_access || !s.hosting || s.host_error is Some,
        !s.host_alive() ==> "stopped"@.is_suffix_of(s.status_text()),
        s.host_alive() && s.host_status.public_id is Some
            ==> "online (waiting for viewers)"@.is_suffix_of(s.status_text()),
        s.host_alive() && s.host_status.public_id is None ==> "starting…"@.is_suffix_of(
            s.status_text(),
        ),
        s.host_status.chrome.len() > 0 ==> occurs_in(s.host_status.chrome, s.status_text()),
{
    let line = s.status_text();
    let hint = if !s.host_alive() {
        "stopped"@
    } else if s.host_status.public_id is Some {
        "online (waiting for viewers)"@
    } else {
        "starting…"@
    };
    assert(line.subrange(line.len() - hint.len(), line.len() as int) =~= hint);
    if s.host_status.chrome.len() > 0 {
        lemma_occurs_between("Status: "@, s.host_status.chrome, " · host "@ + hint);
        assert(line =~= "Status: "@ + s.host_status.chrome + (" · host "@ + hint));
    }
}

/// A session is told of exactly while there is one, with its id and who is in it.
pub proof fn law_session_line_tells_who_is_in(s: ShellView)
    ensures
        s.session_text() is Some <==> s.host_status.session_id is Some,
        s.session_text() matches Some(line) ==> occurs_in(s.host_status.session_id->0, line),
        s.session_text() matches Some(line) ==> (s.host_status.viewer_label matches Some(l)
            ==> occurs_in(l, line)),
{
    if let Some(sid) = s.host_status.session_id {
        let who = match s.host_status.viewer_label {
            Some(l) => l,
            None => "viewer"@,
        };
        let line = s.session_text()->0;
        lemma_occurs_between("In session with "@, who, " ("@ + sid + ")"@);
        assert(line =~= "In session with "@ + who + (" ("@ + sid + ")"@));
        lemma_occurs_between("In session with "@ + who + " ("@, sid, ")"@);
    }
}

/// Settings name a transport or get the live one; a start at login is asked for by `1` or by `true`
/// in any case of letters.
pub proof fn law_settings_texts(mode: TransportMode, text: Seq<char>)
    ensures
        transport_of(mode.name()) == mode,
        TransportMode::of(text) is None ==> transport_of(text) == TransportMode::Live,
        asks_login_start("1"@),
        lowered(text) == "true"@ ==> asks_login_start(text),
        text.len() == 0 ==> !asks_login_start(text),
        asks_login_start(text) ==> text == "1"@ || text.len() == 4,
{
    law_transport_name_roundtrip(mode);
    reveal_strlit("1");
    reveal_strlit("true");
    assert(lowered(text).len() == text.len());
}

} // verus!
