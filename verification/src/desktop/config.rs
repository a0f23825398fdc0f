//! Settings of the desktop shell.

use vstd::prelude::*;
use crate::paths::{join_path, path_join};
use crate::platform::Platform;
use crate::text::{chars_of, same, string_of, trim, trimmed};

verus! {

/// Default lab signaling endpoint (self-hosted / local server).
pub const DEFAULT_SERVER: &'static str = "http://127.0.0.1:18080";

/// How many recent hosts are remembered.
pub const MAX_RECENT: usize = 12;

/// User-facing app settings.
#[derive(Debug, Clone)]
pub struct AppConfig {
    /// Signaling HTTP base (hidden under Advanced by default).
    pub server: String,
    /// Display name used when enrolling this PC as a host.
    pub display_name: String,
    /// Start host service when the app opens.
    pub auto_start_host: bool,
    /// Register this app in the current-user Windows startup list.
    pub start_with_windows: bool,
    /// Transport mode string: webrtc | live | mock.
    pub transport: String,
    /// Optional STUN/TURN URLs, comma-separated. Empty = host ICE only.
    pub stun_urls: String,
    /// Recent remote host IDs (most recent first).
    pub recent_hosts: Vec<String>,
}

/// What an `AppConfig` holds.
pub struct ConfigView {
    pub server: Seq<char>,
    pub display_name: Seq<char>,
    pub auto_start_host: bool,
    pub start_with_windows: bool,
    pub transport: Seq<char>,
    pub stun_urls: Seq<char>,
    pub recent_hosts: Seq<Seq<char>>,
}

impl DeepView for AppConfig {
    type V = ConfigView;

    open spec fn deep_view(&self) -> ConfigView {
        ConfigView {
            server: self.server@,
            display_name: self.display_name@,
            auto_start_host: self.auto_start_host,
            start_with_windows: self.start_with_windows,
            transport: self.transport@,
            stun_urls: self.stun_urls@,
            recent_hosts: self.recent_hosts.deep_view(),
        }
    }
}

/// An optional text slice by its contents.
pub open spec fn opt_view(s: Option<&str>) -> Option<Seq<char>> {
    match s {
        Some(t) => Some(t@),
        None => None,
    }
}

fn is_blank(s: &str) -> (r: bool)
    ensures
        r == (trimmed(s@).len() == 0),
{
    let all = chars_of(s);
    trim(&all).len() == 0
}

/// The name of this PC, as far as the environment tells it.
pub fn hostname_guess(computer_name: Option<&str>, host_name: Option<&str>) -> (r: String)
    ensures
        r@ == match (opt_view(computer_name), opt_view(host_name)) {
            (Some(n), _) => n,
            (None, Some(n)) => n,
            (None, None) => "This PC"@,
        },
{
    match (computer_name, host_name) {
        (Some(n), _) => n.to_string(),
        (None, Some(n)) => n.to_string(),
        (None, None) => "This PC".to_string(),
    }
}

/// Other hosts than `id`, in order.
pub open spec fn others(hosts: Seq<Seq<char>>, id: Seq<char>) -> Seq<Seq<char>>
    decreases hosts.len(),
{
    if hosts.len() == 0 {
        Seq::empty()
    } else if hosts.last() == id {
        others(hosts.drop_last(), id)
    } else {
        others(hosts.drop_last(), id).push(hosts.last())
    }
}

/// The first hosts, at most as many as are remembered.
pub open spec fn capped(hosts: Seq<Seq<char>>) -> Seq<Seq<char>> {
    if hosts.len() <= MAX_RECENT {
        hosts
    } else {
        hosts.take(MAX_RECENT as int)
    }
}

/// The recent hosts after a connection to a host: it comes first, and only there.
pub open spec fn remembered(hosts: Seq<Seq<char>>, host_id: Seq<char>) -> Seq<Seq<char>> {
    let id = trimmed(host_id);
    if id.len() == 0 {
        hosts
    } else {
        capped(seq![id] + others(hosts, id))
    }
}

impl AppConfig {
    /// Default settings: `server_env` is the server that the environment names, if any.
    pub fn with_defaults(
        server_env: Option<&str>,
        computer_name: Option<&str>,
        host_name: Option<&str>,
    ) -> (r: Self)
        ensures
            r.deep_view() == (ConfigView {
                server: match opt_view(server_env) {
                    Some(s) => if trimmed(s).len() > 0 {
                        s
                    } else {
                        DEFAULT_SERVER@
                    },
                    None => DEFAULT_SERVER@,
                },
                display_name: match (opt_view(computer_name), opt_view(host_name)) {
                    (Some(n), _) => n,
                    (None, Some(n)) => n,
                    (None, None) => "This PC"@,
                },
                auto_start_host: true,
                start_with_windows: false,
                transport: "webrtc"@,
                stun_urls: Seq::empty(),
                recent_hosts: Seq::empty(),
            }),
    {
        let server = match server_env {
            Some(s) => if is_blank(s) {
                DEFAULT_SERVER.to_string()
            } else {
                s.to_string()
            },
            None => DEFAULT_SERVER.to_string(),
        };
        let stun_urls = String::new();
        assert(stun_urls@ =~= Seq::<char>::empty());
        let recent_hosts: Vec<String> = Vec::new();
        assert(recent_hosts.deep_view() =~= Seq::<Seq<char>>::empty());
        AppConfig {
            server,
            display_name: hostname_guess(computer_name, host_name),
            auto_start_host: true,
            start_with_windows: false,
            transport: "webrtc".to_string(),
            stun_urls,
            recent_hosts,
        }
    }

    /// Directory for config, status, and host credentials used by the shell: an override that is
    /// not blank, else below the local application data, else below the home directory.
    pub fn data_dir(
        platform: Platform,
        override_dir: Option<&str>,
        local_app_data: Option<&str>,
        home: Option<&str>,
    ) -> (r: String)
        ensures
            r@ == match opt_view(override_dir) {
                Some(p) => if trimmed(p).len() > 0 {
                    p
                } else {
                    default_dir(platform, opt_view(local_app_data), opt_view(home))
                },
                None => default_dir(platform, opt_view(local_app_data), opt_view(home)),
            },
    {
        if let Some(p) = override_dir {
            if !is_blank(p) {
                return p.to_string();
            }
        }
        if let Some(base) = local_app_data {
            return join_path(platform, base, "RemoteLink");
        }
        if let Some(h) = home {
            return join_path(platform, h, ".remotelink");
        }
        ".remotelink".to_string()
    }

    /// Path to `config.json`.
    pub fn config_path(platform: Platform, data_dir: &str) -> (r: String)
        ensures
            r@ == path_join(platform, data_dir@, "config.json"@),
    {
        join_path(platform, data_dir, "config.json")
    }

    /// Path for host status JSON (polled by the window).
    pub fn status_path(platform: Platform, data_dir: &str) -> (r: String)
        ensures
            r@ == path_join(platform, data_dir@, "host-status.json"@),
    {
        join_path(platform, data_dir, "host-status.json")
    }

    /// Path for the host credential file.
    pub fn creds_path(platform: Platform, data_dir: &str) -> (r: String)
        ensures
            r@ == path_join(platform, data_dir@, "host-creds.json"@),
    {
        join_path(platform, data_dir, "host-creds.json")
    }

    /// Remember a remote host ID (deduped, the most recent first, at most twelve).
    pub fn push_recent(&mut self, host_id: &str)
        ensures
            final(self).deep_view() == (ConfigView {
                recent_hosts: remembered(old(self).deep_view().recent_hosts, host_id@),
                ..old(self).deep_view()
            }),
    {
        let all = chars_of(host_id);
        let id = trim(&all);
        if id.len() == 0 {
            return;
        }
        let id = string_of(id);
        let ghost hosts = self.recent_hosts.deep_view();
        let mut kept: Vec<String> = Vec::new();
        kept.push(id.clone());
        let mut i: usize = 0;
        assert(kept.deep_view() =~= seq![id@] + others(hosts.take(0), id@));
        while i < self.recent_hosts.len()
            invariant
                i <= self.recent_hosts@.len(),
                *self == *old(self),
                hosts == self.recent_hosts.deep_view(),
                kept.deep_view() == seq![id@] + others(hosts.take(i as int), id@),
            decreases self.recent_hosts@.len() - i,
        {
            let ghost before = kept.deep_view();
            assert(hosts[i as int] == self.recent_hosts@[i as int]@);
            assert(hosts.take(i + 1).drop_last() == hosts.take(i as int));
            if !same(&self.recent_hosts[i], &id) {
                kept.push(self.recent_hosts[i].clone());
                assert(kept.deep_view() =~= before.push(hosts[i as int]));
                assert(kept.deep_view() =~= seq![id@] + others(hosts.take(i + 1), id@));
            }
            i += 1;
        }
        assert(hosts.take(hosts.len() as int) == hosts);
        let ghost long = kept.deep_view();
        while kept.len() > MAX_RECENT
            invariant
                long.len() >= kept@.len(),
                kept.deep_view() == long.take(kept@.len() as int),
                long.len() > kept@.len() ==> kept@.len() >= MAX_RECENT,
            decreases kept@.len(),
        {
            kept.pop();
            assert(kept.deep_view() =~= long.take(kept@.len() as int));
        }
        assert(kept.deep_view() =~= capped(long));
        self.recent_hosts = kept;
    }
}

/// The data directory where there is no override.
pub open spec fn default_dir(
    platform: Platform,
    local_app_data: Option<Seq<char>>,
    home: Option<Seq<char>>,
) -> Seq<char> {
    match local_app_data {
        Some(base) => path_join(platform, base, "RemoteLink"@),
        None => match home {
            Some(h) => path_join(platform, h, ".remotelink"@),
            None => ".remotelink"@,
        },
    }
}

proof fn lemma_others(hosts: Seq<Seq<char>>, id: Seq<char>)
    ensures
        forall|i: int| 0 <= i < others(hosts, id).len() ==> #[trigger] others(hosts, id)[i] != id
            && hosts.contains(others(hosts, id)[i]),
        hosts.no_duplicates() ==> others(hosts, id).no_duplicates(),
        others(hosts, id).len() <= hosts.len(),
    decreases hosts.len(),
{
    if hosts.len() > 0 {
        let head = hosts.drop_last();
        lemma_others(head, id);
        let o = others(hosts, id);
        let p = others(head, id);
        assert forall|i: int| 0 <= i < o.len() implies #[trigger] o[i] != id && hosts.contains(
            o[i],
        ) by {
            if i < p.len() {
                assert(o[i] == p[i]);
                assert(head.contains(p[i]));
                let k = head.index_of(p[i]);
                assert(hosts[k] == p[i]);
            } else {
                assert(o[i] == hosts.last());
                assert(hosts[hosts.len() - 1] == o[i]);
            }
        }
        if hosts.no_duplicates() {
            assert(head.no_duplicates()) by {
                assert forall|i: int, j: int|
                    0 <= i < head.len() && 0 <= j < head.len() && i != j implies head[i]
                    != head[j] by {
                    assert(head[i] == hosts[i]);
                    assert(head[j] == hosts[j]);
                }
            }
            assert forall|i: int, j: int| 0 <= i < o.len() && 0 <= j < o.len() && i != j implies o[i]
                != o[j] by {
                if i < p.len() && j < p.len() {
                    assert(o[i] == p[i]);
                    assert(o[j] == p[j]);
                } else {
                    let a = if i < p.len() {
                        i
                    } else {
                        j
                    };
                    assert(o[a] == p[a]);
                    assert(head.contains(p[a]));
                    let k = head.index_of(p[a]);
                    assert(hosts[k] == p[a]);
                    assert(hosts[k] != hosts[hosts.len() - 1]);
                }
            }
        }
    }
}

/// Recent hosts never repeat and are at most twelve; the one just connected to comes first, and
/// nothing else comes in. A blank id changes nothing.
pub proof fn law_recent_hosts(hosts: Seq<Seq<char>>, host_id: Seq<char>)
    requires
        hosts.no_duplicates(),
        hosts.len() <= MAX_RECENT,
    ensures
        remembered(hosts, host_id).no_duplicates(),
        remembered(hosts, host_id).len() <= MAX_RECENT,
        trimmed(host_id).len() > 0 ==> remembered(hosts, host_id).len() > 0 && remembered(
            hosts,
            host_id,
        )[0] == trimmed(host_id),
        trimmed(host_id).len() == 0 ==> remembered(hosts, host_id) == hosts,
        forall|h: Seq<char>|
            #[trigger] remembered(hosts, host_id).contains(h) ==> h == trimmed(host_id)
                || hosts.contains(h),
{
    let id = trimmed(host_id);
    if id.len() > 0 {
        lemma_others(hosts, id);
        let o = others(hosts, id);
        let all = seq![id] + o;
        let r = remembered(hosts, host_id);
        assert(r == capped(all));
        assert forall|i: int, j: int| 0 <= i < r.len() && 0 <= j < r.len() && i != j implies r[i]
            != r[j] by {
            assert(r[i] == all[i]);
            assert(r[j] == all[j]);
            if i > 0 {
                assert(all[i] == o[i - 1]);
            }
            if j > 0 {
                assert(all[j] == o[j - 1]);
            }
        }
        assert forall|h: Seq<char>| #[trigger] r.contains(h) implies h == id || hosts.contains(
            h,
        ) by {
            let k = r.index_of(h);
            assert(r[k] == all[k]);
            if k > 0 {
                assert(all[k] == o[k - 1]);
            }
        }
    }
}

proof fn lemma_others_are_filtered(hosts: Seq<Seq<char>>, id: Seq<char>)
    ensures
        others(hosts, id) == hosts.filter(|h: Seq<char>| h != id),
    decreases hosts.len(),
{
    reveal(Seq::filter);
    if hosts.len() > 0 {
        lemma_others_are_filtered(hosts.drop_last(), id);
    }
}

/// The other hosts keep their order behind the one just connected to. None of them is forgotten as
/// long as there is room, and the oldest goes first.
pub proof fn law_earlier_hosts_keep_their_order(hosts: Seq<Seq<char>>, host_id: Seq<char>)
    requires
        trimmed(host_id).len() > 0,
    ensures
        ({
            let kept = remembered(hosts, host_id);
            let earlier = hosts.filter(|h: Seq<char>| h != trimmed(host_id));
            &&& kept.len() <= 12
            &&& kept.skip(1) == earlier.take(kept.len() - 1)
            &&& earlier.len() < 12 ==> kept.len() == earlier.len() + 1
            &&& earlier.len() >= 12 ==> kept.len() == 12
        }),
{
    let id = trimmed(host_id);
    lemma_others_are_filtered(hosts, id);
    let earlier = others(hosts, id);
    let kept = remembered(hosts, host_id);
    assert(kept.skip(1) =~= earlier.take(kept.len() - 1));
}

/// Connecting to one host twice is remembered once.
pub proof fn law_second_connection_changes_nothing(hosts: Seq<Seq<char>>, host_id: Seq<char>)
    requires
        hosts.no_duplicates(),
        hosts.len() <= 12,
    ensures
        remembered(remembered(hosts, host_id), host_id) == remembered(hosts, host_id),
{
    let id = trimmed(host_id);
    if id.len() > 0 {
        let once = remembered(hosts, host_id);
        law_recent_hosts(hosts, host_id);
        lemma_others_are_filtered(once, id);
        let rest = once.skip(1);
        assert(once =~= seq![id] + rest);
        let keep = |h: Seq<char>| h != id;
        Seq::filter_distributes_over_add(seq![id], rest, keep);
        reveal_with_fuel(Seq::filter, 2);
        assert(seq![id].drop_last() =~= Seq::<Seq<char>>::empty());
        assert(seq![id].filter(keep) =~= Seq::<Seq<char>>::empty());
        lemma_filter_all(rest, id);
        assert(once.filter(keep) =~= rest);
        assert(seq![id] + rest =~= once);
    }
}

proof fn lemma_filter_all(hosts: Seq<Seq<char>>, id: Seq<char>)
    requires
        forall|i: int| 0 <= i < hosts.len() ==> #[trigger] hosts[i] != id,
    ensures
        hosts.filter(|h: Seq<char>| h != id) == hosts,
    decreases hosts.len(),
{
    reveal(Seq::filter);
    if hosts.len() > 0 {
        let t = hosts.drop_last();
        assert forall|i: int| 0 <= i < t.len() implies #[trigger] t[i] != id by {
            assert(t[i] == hosts[i]);
        }
        lemma_filter_all(t, id);
        assert(hosts[hosts.len() - 1] != id);
        assert(hosts =~= t.push(hosts.last()));
    } else {
        assert(hosts.filter(|h: Seq<char>| h != id) =~= hosts);
    }
}

/// The local application data go before the home directory, and without either the data lie in the
/// working directory.
pub proof fn law_data_dir_prefers_local_data(
    platform: Platform,
    base: Seq<char>,
    home: Option<Seq<char>>,
    other: Option<Seq<char>>,
)
    ensures
        default_dir(platform, Some(base), home) == default_dir(platform, Some(base), other),
        default_dir(platform, None, None) == ".remotelink"@,
        base.len() == 0 ==> default_dir(platform, None, Some(base)) == default_dir(
            platform,
            None,
            None,
        ),
{
}

} // verus!
