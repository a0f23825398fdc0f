//! Host status as the window shows it.

use vstd::prelude::*;

verus! {

/// Snapshot of host status for the window.
#[derive(Debug, Clone)]
pub struct HostStatusSnapshot {
    /// Enrollment display name.
    pub display_name: String,
    /// 10-digit public id when enrolled.
    pub public_id: Option<String>,
    /// Mode A OTP plaintext (host-local).
    pub otp_code: Option<String>,
    /// OTP expiry when known.
    pub otp_expires_at: Option<String>,
    /// `Active` / `Inactive`.
    pub chrome: String,
    /// Viewer session id when active.
    pub session_id: Option<String>,
    /// Optional viewer label.
    pub viewer_label: Option<String>,
    /// Session connected flag.
    pub connected: bool,
    /// Session active flag.
    pub active: bool,
    /// Last tray event.
    pub last_event: Option<String>,
    /// Tooltip text.
    pub tooltip: String,
}

/// What a `HostStatusSnapshot` holds.
pub struct SnapshotView {
    pub display_name: Seq<char>,
    pub public_id: Option<Seq<char>>,
    pub otp_code: Option<Seq<char>>,
    pub otp_expires_at: Option<Seq<char>>,
    pub chrome: Seq<char>,
    pub session_id: Option<Seq<char>>,
    pub viewer_label: Option<Seq<char>>,
    pub connected: bool,
    pub active: bool,
    pub last_event: Option<Seq<char>>,
    pub tooltip: Seq<char>,
}

impl SnapshotView {
    /// Nothing is known.
    pub open spec fn blank() -> SnapshotView {
        SnapshotView {
            display_name: Seq::empty(),
            public_id: None,
            otp_code: None,
            otp_expires_at: None,
            chrome: Seq::empty(),
            session_id: None,
            viewer_label: None,
            connected: false,
            active: false,
            last_event: None,
            tooltip: Seq::empty(),
        }
    }
}

impl DeepView for HostStatusSnapshot {
    type V = SnapshotView;

    open spec fn deep_view(&self) -> SnapshotView {
        SnapshotView {
            display_name: self.display_name@,
            public_id: self.public_id.deep_view(),
            otp_code: self.otp_code.deep_view(),
            otp_expires_at: self.otp_expires_at.deep_view(),
            chrome: self.chrome@,
            session_id: self.session_id.deep_view(),
            viewer_label: self.viewer_label.deep_view(),
            connected: self.connected,
            active: self.active,
            last_event: self.last_event.deep_view(),
            tooltip: self.tooltip@,
        }
    }
}

fn nothing() -> (r: String)
    ensures
        r@ == Seq::<char>::empty(),
{
    let r = String::new();
    assert(r@ =~= Seq::<char>::empty());
    r
}

impl Default for HostStatusSnapshot {
    fn default() -> (r: Self)
        ensures
            r.deep_view() == SnapshotView::blank(),
    {
        HostStatusSnapshot {
            display_name: nothing(),
            public_id: None,
            otp_code: None,
            otp_expires_at: None,
            chrome: nothing(),
            session_id: None,
            viewer_label: None,
            connected: false,
            active: false,
            last_event: None,
            tooltip: nothing(),
        }
    }
}

} // verus!
