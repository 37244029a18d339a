//! The websocket component: on which paths it listens, and which of its sockets
//! a notification is sent to.
use vstd::prelude::*;
use vstd::string::*;
use crate::auth::User;
use crate::filters::Filter;
use crate::notification::Notification;
use crate::strutil::str_eq;

verus! {

/// The paths listened on when none are configured.
pub open spec fn default_path_list() -> Seq<Seq<char>> {
    seq!["/api/ws"@, "/api/websocket"@, "/api/socket"@, "/ws"@, "/websocket"@, "/socket"@]
}

/// Whether no two of `paths` are the same.
pub open spec fn paths_distinct(paths: Seq<String>) -> bool {
    forall|i: int, j: int| 0 <= i < paths.len() && 0 <= j < paths.len() && i != j ==> (#[trigger] paths[i])@ != (#[trigger] paths[j])@
}

/// The paths listened on when none are configured.
pub fn default_paths() -> (r: Vec<String>)
    ensures
        r@.map_values(|s: String| s@) == default_path_list(),
        paths_distinct(r@),
{
    let r = vec![
        String::from_str("/api/ws"),
        String::from_str("/api/websocket"),
        String::from_str("/api/socket"),
        String::from_str("/ws"),
        String::from_str("/websocket"),
        String::from_str("/socket"),
    ];
    proof {
        reveal_strlit("/api/ws");
        reveal_strlit("/api/websocket");
        reveal_strlit("/api/socket");
        reveal_strlit("/ws");
        reveal_strlit("/websocket");
        reveal_strlit("/socket");
        assert(r@.map_values(|s: String| s@) =~= default_path_list());
        assert forall|i: int, j: int| 0 <= i < r@.len() && 0 <= j < r@.len() && i != j implies (#[trigger] r@[i])@ != (#[trigger] r@[j])@ by {
            let a = r@[i]@;
            let b = r@[j]@;
            if a.len() == b.len() {
                assert(a[1] != b[1] || a[2] != b[2] || a[a.len() - 1] != b[b.len() - 1] || a[5] != b[5]);
            }
        }
    }
    r
}

/// The configuration of the websocket component.
pub struct Config {
    /// The paths on which websockets are accepted (no path twice).
    pub paths: Vec<String>,
    /// Which notifications every socket receives.
    pub filter: Filter,
}

impl Config {
    /// The configuration's invariant: no path is listed twice.
    pub open spec fn wf(&self) -> bool {
        paths_distinct(self.paths@)
    }

    /// Whether websockets are accepted on `path`.
    pub open spec fn handles_spec(&self, path: Seq<char>) -> bool {
        exists|i: int| 0 <= i < self.paths@.len() && #[trigger] self.paths@[i]@ == path
    }

    /// Whether websockets are accepted on `path`.
    pub fn handles(&self, path: &str) -> (r: bool)
        ensures
            r == self.handles_spec(path@),
    {
        let mut i: usize = 0;
        while i < self.paths.len()
            invariant
                i <= self.paths@.len(),
                forall|j: int| 0 <= j < i ==> self.paths@[j]@ != path@,
            decreases self.paths@.len() - i,
        {
            if str_eq(self.paths[i].as_str(), path) {
                return true;
            }
            i = i + 1;
        }
        false
    }
}

impl Default for Config {
    fn default() -> (r: Self)
        ensures
            r.wf(),
            r.paths@.map_values(|s: String| s@) == default_path_list(),
            r.filter.component.whitelist@.len() == 0,
            r.filter.component.blacklist@.len() == 0,
            r.filter.entity.whitelist@.len() == 0,
            r.filter.entity.blacklist@.len() == 0,
            r.filter.state_changes.whitelist@.len() == 0,
            r.filter.state_changes.blacklist@.len() == 0,
    {
        Config { paths: default_paths(), filter: Filter::default() }
    }
}

/// Whether a socket receives a notification: it must be open, and the
/// notification must pass the filter unless the socket's user is an admin or is
/// waived from the default api rules.
pub open spec fn receives(online: bool, allowed: bool, user: User) -> bool {
    online && (allowed || user.is_admin || user.ignores_default_api_rules)
}

/// Decides for each socket, given whether it is open and who is logged in on it,
/// whether it receives `notification`.
pub fn sockets_to_notify(config: &Config, notification: &Notification, sockets: &Vec<(bool, User)>) -> (r: Vec<bool>)
    ensures
        r@.len() == sockets@.len(),
        forall|i: int| 0 <= i < r@.len() ==> #[trigger] r@[i] == receives(
            sockets@[i].0,
            config.filter.allows_spec(notification),
            sockets@[i].1,
        ),
{
    let allowed = config.filter.allows(notification);
    let mut r: Vec<bool> = Vec::new();
    let mut i: usize = 0;
    while i < sockets.len()
        invariant
            i <= sockets@.len(),
            allowed == config.filter.allows_spec(notification),
            r@.len() == i,
            forall|k: int| 0 <= k < i ==> #[trigger] r@[k] == receives(sockets@[k].0, allowed, sockets@[k].1),
        decreases sockets@.len() - i,
    {
        let (online, user) = sockets[i];
        r.push(online && (allowed || user.is_admin || user.ignores_default_api_rules));
        i = i + 1;
    }
    r
}

/// A socket without a logged-in user receives a notification exactly when it is
/// open and the filter allows the notification; an admin's open socket receives
/// every notification.
pub proof fn law_filter_binds_only_plain_users(online: bool, allowed: bool, user: User)
    ensures
        user == User::none() ==> receives(online, allowed, user) == (online && allowed),
        user.is_admin ==> receives(online, allowed, user) == online,
{
}

} // verus!
