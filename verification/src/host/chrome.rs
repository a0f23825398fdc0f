//! Mandatory session indicator + tray chrome state machine.
//!
//! The host **service** owns the indicator. It cannot be disabled remotely: only local attach,
//! media start, detach and kill-switch change it. Tray chrome is a projection of it.

use vstd::prelude::*;
use crate::host::control::copy_text;
use crate::text::{lemma_occurs_between, occurs_in};

verus! {

/// Service-owned connection visibility flags.
///
/// - `connected`: a control session is bound (attach succeeded).
/// - `active`: the session is live for control/media (indicator shows "in session").
#[derive(Debug, Clone, PartialEq, Eq)]
pub struct SessionIndicator {
    /// Signaling/session is bound.
    pub connected: bool,
    /// Session is actively controlling (media or control live).
    pub active: bool,
    /// Bound session id while connected.
    pub session_id: Option<String>,
    /// Optional viewer label for tray / chrome.
    pub viewer_label: Option<String>,
}

/// What a `SessionIndicator` holds.
pub struct IndicatorView {
    pub connected: bool,
    pub active: bool,
    pub session_id: Option<Seq<char>>,
    pub viewer_label: Option<Seq<char>>,
}

impl DeepView for SessionIndicator {
    type V = IndicatorView;

    open spec fn deep_view(&self) -> IndicatorView {
        IndicatorView {
            connected: self.connected,
            active: self.active,
            session_id: self.session_id.deep_view(),
            viewer_label: self.viewer_label.deep_view(),
        }
    }
}

impl IndicatorView {
    /// Nothing is bound.
    pub open spec fn idle() -> IndicatorView {
        IndicatorView { connected: false, active: false, session_id: None, viewer_label: None }
    }

    /// A session is bound.
    pub open spec fn is_connected(self) -> bool {
        self.connected && self.session_id is Some
    }

    /// A session is bound and controlling.
    pub open spec fn is_active(self) -> bool {
        self.active && self.is_connected()
    }

    /// The indicator after a session began.
    pub open spec fn begun(session_id: Seq<char>, viewer_label: Option<Seq<char>>) -> IndicatorView {
        IndicatorView {
            connected: true,
            active: false,
            session_id: Some(session_id),
            viewer_label,
        }
    }

    /// The indicator after its session became active.
    pub open spec fn activated(self) -> IndicatorView {
        if self.is_connected() {
            IndicatorView { active: true, ..self }
        } else {
            self
        }
    }
}

impl Default for SessionIndicator {
    fn default() -> (r: Self)
        ensures
            r.deep_view() == IndicatorView::idle(),
    {
        SessionIndicator { connected: false, active: false, session_id: None, viewer_label: None }
    }
}

impl SessionIndicator {
    /// Fresh inactive indicator.
    pub fn new() -> (r: Self)
        ensures
            r.deep_view() == IndicatorView::idle(),
    {
        SessionIndicator::default()
    }

    /// True only while a live session is bound and marked active.
    pub fn is_active(&self) -> (r: bool)
        ensures
            r == self.deep_view().is_active(),
    {
        self.active && self.connected && self.session_id.is_some()
    }

    /// True while any session is bound (even if media not yet started).
    pub fn is_connected(&self) -> (r: bool)
        ensures
            r == self.deep_view().is_connected(),
    {
        self.connected && self.session_id.is_some()
    }

    /// Local attach: mark connected (not yet active until media/control starts).
    ///
    /// Returns `Err` with the existing session id when a live session is already bound
    /// (single controller).
    pub fn begin_session(&mut self, session_id: &str, viewer_label: Option<String>) -> (r: Result<
        (),
        String,
    >)
        ensures
            if old(self).deep_view().is_connected() {
                (r matches Err(e) && Some(e@) == old(self).deep_view().session_id)
                    && final(self).deep_view() == old(self).deep_view()
            } else {
                r is Ok && final(self).deep_view() == IndicatorView::begun(
                    session_id@,
                    viewer_label.deep_view(),
                )
            },
    {
        if self.connected {
            if let Some(cur) = &self.session_id {
                return Err(cur.clone());
            }
        }
        self.connected = true;
        self.active = false;
        self.session_id = Some(session_id.to_string());
        self.viewer_label = viewer_label;
        Ok(())
    }

    /// Mark the bound session as actively controlling (media/control started).
    ///
    /// No-op when not connected.
    pub fn mark_active(&mut self)
        ensures
            final(self).deep_view() == old(self).deep_view().activated(),
    {
        if self.connected && self.session_id.is_some() {
            self.active = true;
        }
    }

    /// Local end of session (detach / shutdown / remote end handled locally).
    pub fn end_session(&mut self)
        ensures
            final(self).deep_view() == IndicatorView::idle(),
    {
        *self = SessionIndicator::default();
    }

    /// Local kill-switch: clear all flags (session ends).
    pub fn apply_kill(&mut self)
        ensures
            final(self).deep_view() == IndicatorView::idle(),
    {
        self.end_session();
    }
}

/// Tray / on-desktop chrome: active only while the indicator reports a live session.
#[derive(Debug, Clone, PartialEq, Eq)]
pub enum SessionChrome {
    /// No session chrome (tray idle).
    Inactive,
    /// Mandatory connection chrome while the host is controlled.
    Active {
        /// Bound session id.
        session_id: String,
        /// Optional viewer label.
        label: Option<String>,
    },
}

/// What a `SessionChrome` shows.
pub enum ChromeView {
    Inactive,
    Active { session_id: Seq<char>, label: Option<Seq<char>> },
}

impl DeepView for SessionChrome {
    type V = ChromeView;

    open spec fn deep_view(&self) -> ChromeView {
        match self {
            SessionChrome::Inactive => ChromeView::Inactive,
            SessionChrome::Active { session_id, label } => ChromeView::Active {
                session_id: session_id@,
                label: label.deep_view(),
            },
        }
    }
}

impl ChromeView {
    /// The chrome of an indicator.
    pub open spec fn of(ind: IndicatorView) -> ChromeView {
        if ind.is_active() {
            ChromeView::Active { session_id: ind.session_id->0, label: ind.viewer_label }
        } else {
            ChromeView::Inactive
        }
    }

    /// The status word.
    pub open spec fn status(self) -> Seq<char> {
        match self {
            ChromeView::Inactive => "Inactive"@,
            ChromeView::Active { .. } => "Active"@,
        }
    }

    /// The chrome as text.
    pub open spec fn text(self) -> Seq<char> {
        match self {
            ChromeView::Inactive => "SessionChrome::Inactive"@,
            ChromeView::Active { session_id, label } => match label {
                Some(l) => "SessionChrome::Active(session="@ + session_id + ", label="@ + l + ")"@,
                None => "SessionChrome::Active(session="@ + session_id + ")"@,
            },
        }
    }
}

impl Default for SessionChrome {
    fn default() -> (r: Self)
        ensures
            r.deep_view() == ChromeView::Inactive,
    {
        SessionChrome::Inactive
    }
}

impl SessionChrome {
    /// Project the service indicator into tray chrome.
    pub fn from_indicator(ind: &SessionIndicator) -> (r: Self)
        ensures
            r.deep_view() == ChromeView::of(ind.deep_view()),
    {
        if ind.is_active() {
            if let Some(sid) = &ind.session_id {
                return SessionChrome::Active {
                    session_id: sid.clone(),
                    label: copy_text(&ind.viewer_label),
                };
            }
        }
        SessionChrome::Inactive
    }

    /// Whether chrome should be drawn / tray shows "in session".
    pub fn is_active(&self) -> (r: bool)
        ensures
            r == (self.deep_view() is Active),
    {
        match self {
            SessionChrome::Inactive => false,
            SessionChrome::Active { .. } => true,
        }
    }

    /// Stable status string for logs.
    pub fn status_label(&self) -> (r: &'static str)
        ensures
            r@ == self.deep_view().status(),
    {
        match self {
            SessionChrome::Inactive => "Inactive",
            SessionChrome::Active { .. } => "Active",
        }
    }

    /// The chrome as text.
    pub fn to_string(&self) -> (r: String)
        ensures
            r@ == self.deep_view().text(),
    {
        match self {
            SessionChrome::Inactive => "SessionChrome::Inactive".to_string(),
            SessionChrome::Active { session_id, label } => {
                let mut s = "SessionChrome::Active(session=".to_string();
                s.append(session_id);
                if let Some(l) = label {
                    s.append(", label=");
                    s.append(l);
                }
                s.append(")");
                s
            },
        }
    }
}

/// Service-side coordinator: mandatory indicator + chrome + single-session guard.
///
/// All changes are **local** (service process). Remote viewers cannot clear the indicator.
#[derive(Debug, Clone)]
pub struct HostSessionUx {
    indicator: SessionIndicator,
}

impl DeepView for HostSessionUx {
    type V = IndicatorView;

    closed spec fn deep_view(&self) -> IndicatorView {
        self.indicator.deep_view()
    }
}

/// A truth value as text.
pub open spec fn bool_text(b: bool) -> Seq<char> {
    if b {
        "true"@
    } else {
        "false"@
    }
}

/// A truth value as text.
pub fn bool_str(b: bool) -> (r: &'static str)
    ensures
        r@ == bool_text(b),
{
    if b {
        "true"
    } else {
        "false"
    }
}

/// The status line of an indicator.
pub open spec fn status_text(ind: IndicatorView) -> Seq<char> {
    "session_indicator connected="@ + bool_text(ind.connected) + " active="@ + bool_text(ind.active)
        + " chrome="@ + ChromeView::of(ind).status() + " session_id="@ + (match ind.session_id {
        Some(s) => s,
        None => "-"@,
    })
}

impl Default for HostSessionUx {
    fn default() -> (r: Self)
        ensures
            r.deep_view() == IndicatorView::idle(),
    {
        HostSessionUx { indicator: SessionIndicator::default() }
    }
}

impl HostSessionUx {
    /// Create an idle coordinator.
    pub fn new() -> (r: Self)
        ensures
            r.deep_view() == IndicatorView::idle(),
    {
        HostSessionUx::default()
    }

    /// Borrow the service-owned indicator.
    pub fn indicator(&self) -> (r: &SessionIndicator)
        ensures
            r.deep_view() == self.deep_view(),
    {
        &self.indicator
    }

    /// Current tray chrome projection.
    pub fn chrome(&self) -> (r: SessionChrome)
        ensures
            r.deep_view() == ChromeView::of(self.deep_view()),
    {
        SessionChrome::from_indicator(&self.indicator)
    }

    /// Attempt to bind a new session. Fails with existing session id if busy.
    pub fn begin_session(&mut self, session_id: &str, viewer_label: Option<String>) -> (r: Result<
        (),
        String,
    >)
        ensures
            if old(self).deep_view().is_connected() {
                (r matches Err(e) && Some(e@) == old(self).deep_view().session_id)
                    && final(self).deep_view() == old(self).deep_view()
            } else {
                r is Ok && final(self).deep_view() == IndicatorView::begun(
                    session_id@,
                    viewer_label.deep_view(),
                )
            },
    {
        self.indicator.begin_session(session_id, viewer_label)
    }

    /// Mark session active (e.g. after media start was acknowledged).
    pub fn mark_active(&mut self)
        ensures
            final(self).deep_view() == old(self).deep_view().activated(),
    {
        self.indicator.mark_active();
    }

    /// End session (detach / shutdown).
    pub fn end_session(&mut self)
        ensures
            final(self).deep_view() == IndicatorView::idle(),
    {
        self.indicator.end_session();
    }

    /// Apply local kill-switch to the indicator (session ends; chrome → Inactive).
    pub fn apply_kill(&mut self)
        ensures
            final(self).deep_view() == IndicatorView::idle(),
    {
        self.indicator.apply_kill();
    }

    /// Loggable one-line status.
    pub fn status_line(&self) -> (r: String)
        ensures
            r@ == status_text(self.deep_view()),
    {
        let mut s = "session_indicator connected=".to_string();
        s.append(bool_str(self.indicator.connected));
        s.append(" active=");
        s.append(bool_str(self.indicator.active));
        s.append(" chrome=");
        s.append(self.chrome().status_label());
        s.append(" session_id=");
        match &self.indicator.session_id {
            Some(id) => s.append(id),
            None => s.append("-"),
        }
        s
    }
}

/// Chrome is shown exactly while a session is bound and active: never before it is marked active,
/// and no longer after it ended.
pub proof fn law_chrome_follows_indicator(
    ind: IndicatorView,
    session_id: Seq<char>,
    label: Option<Seq<char>>,
)
    ensures
        ChromeView::of(ind) is Active <==> ind.is_active(),
        ChromeView::of(IndicatorView::idle()) is Inactive,
        ChromeView::of(IndicatorView::begun(session_id, label)) is Inactive,
        ChromeView::of(IndicatorView::begun(session_id, label).activated()) == (
        ChromeView::Active { session_id, label }),
{
}

/// Marking a session active twice is marking it once, and marks nothing where none is bound.
pub proof fn law_activation_is_idempotent(ind: IndicatorView)
    ensures
        ind.activated().activated() == ind.activated(),
        !ind.is_connected() ==> ind.activated() == ind,
{
}

/// A session that began is bound but not yet active; becoming active changes nothing else. With
/// nothing bound there is neither a session nor a viewer to show.
pub proof fn law_indicator_keeps_its_session(
    ind: IndicatorView,
    session_id: Seq<char>,
    label: Option<Seq<char>>,
)
    ensures
        ({
            let begun = IndicatorView::begun(session_id, label);
            let idle = IndicatorView::idle();
            &&& begun.is_connected() && !begun.is_active()
            &&& begun.session_id == Some(session_id) && begun.viewer_label == label
            &&& begun.activated().is_active()
            &&& ind.activated().session_id == ind.session_id
            &&& ind.activated().viewer_label == ind.viewer_label
            &&& ind.activated().connected == ind.connected
            &&& ind.is_active() ==> ind.is_connected()
            &&& ind.is_connected() ==> ind.connected && ind.session_id is Some
            &&& !idle.is_connected() && !idle.is_active() && !idle.connected && !idle.active
            &&& idle.session_id is None && idle.viewer_label is None
        }),
{
}

/// The status line ends in the session that is bound, and two indicators that differ in whether they
/// are active never read the same.
pub proof fn law_status_line_tells_the_session(ind: IndicatorView)
    ensures
        ({
            let line = status_text(ind);
            let id = match ind.session_id {
                Some(s) => s,
                None => "-"@,
            };
            &&& line.len() >= id.len()
            &&& line.skip(line.len() - id.len()) == id
            &&& occurs_in("active="@ + bool_text(ind.active), line)
            &&& occurs_in("connected="@ + bool_text(ind.connected), line)
            &&& occurs_in("chrome="@ + ChromeView::of(ind).status(), line)
        }),
        bool_text(true) == "true"@,
        bool_text(false) == "false"@,
        ChromeView::of(ind).status() == "Active"@ <==> ind.is_active(),
{
    let line = status_text(ind);
    let id = match ind.session_id {
        Some(s) => s,
        None => "-"@,
    };
    assert(line.skip(line.len() - id.len()) =~= id);
    reveal_strlit("session_indicator connected=");
    reveal_strlit("session_indicator ");
    reveal_strlit("connected=");
    reveal_strlit(" active=");
    reveal_strlit("active=");
    reveal_strlit(" chrome=");
    reveal_strlit("chrome=");
    reveal_strlit(" ");
    reveal_strlit("Active");
    reveal_strlit("Inactive");
    assert("Active"@.len() != "Inactive"@.len());
    let connected = bool_text(ind.connected);
    let active = bool_text(ind.active);
    let chrome = ChromeView::of(ind).status();
    let rest2 = " session_id="@ + id;
    let rest1 = " chrome="@ + chrome + rest2;
    let rest0 = " active="@ + active + rest1;
    assert("session_indicator connected="@ =~= "session_indicator "@ + "connected="@);
    assert(" active="@ =~= " "@ + "active="@);
    assert(" chrome="@ =~= " "@ + "chrome="@);
    let before0 = "session_indicator "@;
    assert(line =~= before0 + ("connected="@ + connected) + rest0);
    lemma_occurs_between(before0, "connected="@ + connected, rest0);
    let before1 = "session_indicator connected="@ + connected + " "@;
    assert(line =~= before1 + ("active="@ + active) + rest1);
    lemma_occurs_between(before1, "active="@ + active, rest1);
    let before2 = "session_indicator connected="@ + connected + " active="@ + active + " "@;
    assert(line =~= before2 + ("chrome="@ + chrome) + rest2);
    lemma_occurs_between(before2, "chrome="@ + chrome, rest2);
}

} // verus!
