//! The dataminer component: dataminers ping `/miner/ping?id={miner-id}` to show
//! that they are still running, and count as offline once a timeout has passed
//! without a ping.
use vstd::prelude::*;
use crate::backend::{after_set_attribute, after_set_online, attribute_note, online_note, sent_by_about, ElementModel, GlobalState};
use crate::notification::{Notification, NotificationReason};
use crate::state::{nanos_between, AttributeValue, AttributeValueModel, Duration, Timestamp};
use crate::string_map::StringMap;
use crate::strutil::{contains_char, starts_with, str_eq};
use crate::tasks::{plan_reconfiguration, Reconfiguration, SameConfig};
use vstd::string::*;

verus! {

/// The attribute that holds when a dataminer last pinged.
pub const LAST_SEEN_ID: &'static str = "miner.last_seen";

/// The id under which the component reports changes.
pub const COMPONENT_ID: &'static str = "miner";

/// How one dataminer is watched.
pub struct Config {
    /// How long a dataminer counts as running after a ping.
    pub timeout: Duration,
}

impl SameConfig for Config {
    open spec fn same(&self, other: &Self) -> bool {
        self.timeout == other.timeout
    }

    proof fn lemma_same_reflexive(&self) {
    }

    fn same_as(&self, other: &Self) -> (r: bool) {
        self.timeout.nanos == other.timeout.nanos
    }
}

/// The miner id that a request for `path` with query `query` pings for: the path
/// must be `/miner/ping` and the query `id=` followed by the id, without `&`.
pub open spec fn pinged_id(path: Seq<char>, query: Option<Seq<char>>) -> Option<Seq<char>> {
    match query {
        Some(q) => if path == "/miner/ping"@ && "id="@.is_prefix_of(q) && !q.contains('&') {
            Some(q.skip(3))
        } else {
            None
        },
        None => None,
    }
}

/// The miner id that a request pings for, if it is a ping at all.
pub fn ping_id(path: &str, query: Option<&str>) -> (r: Option<String>)
    ensures
        match r {
            Some(id) => pinged_id(path@, match query { Some(q) => Some(q@), None => None }) == Some(id@),
            None => pinged_id(path@, match query { Some(q) => Some(q@), None => None }) is None,
        },
{
    proof {
        reveal_strlit("id=");
    }
    if !str_eq(path, "/miner/ping") {
        return None;
    }
    let q = match query {
        None => return None,
        Some(q) => q,
    };
    if !starts_with(q, "id=") || contains_char(q, '&') {
        return None;
    }
    let n = q.unicode_len();
    let id = q.substring_char(3, n);
    assert(id@ =~= q@.skip(3));
    Some(String::from_str(id))
}

/// The last ping of element `id`, if its last-seen attribute holds a time.
pub open spec fn last_ping(m: Map<Seq<char>, ElementModel>, id: Seq<char>) -> Option<Timestamp> {
    if m.dom().contains(id) && m[id].attributes.dom().contains(LAST_SEEN_ID@) {
        match m[id].attributes[LAST_SEEN_ID@] {
            AttributeValueModel::Timestamp(t) => Some(t),
            _ => None,
        }
    } else {
        None
    }
}

/// Whether a dataminer whose last ping was `last` counts as running at `now`:
/// it pinged, and no more than `timeout` ago.
pub open spec fn running(last: Option<Timestamp>, now: Timestamp, timeout: Duration) -> bool {
    match last {
        Some(t) => now.as_nanos() - t.as_nanos() <= timeout.nanos,
        None => false,
    }
}

/// The states after a ping from element `id` at time `now`: its last-seen time
/// is set, and it is online.
pub open spec fn after_ping(m: Map<Seq<char>, ElementModel>, id: Seq<char>, now: Timestamp) -> Map<Seq<char>, ElementModel> {
    let m1 = after_set_attribute(m, id, LAST_SEEN_ID@, AttributeValueModel::Timestamp(now));
    if m1[id].online {
        m1
    } else {
        after_set_online(m1, id, true)
    }
}

/// The dataminer component: the watched dataminers, by element id.
pub struct DataminerStatus {
    /// The watched dataminers, by element id.
    pub config: StringMap<Config>,
}

impl DataminerStatus {
    /// The component watching the dataminers of `config`, each of which gets a task.
    pub fn init(config: StringMap<Config>) -> (r: Self)
        ensures
            r.config == config,
    {
        DataminerStatus { config }
    }

    /// Takes a new configuration, and says which watching tasks stop and which start.
    pub fn reconfigure(&mut self, config: StringMap<Config>) -> (r: Reconfiguration)
        requires
            old(self).config.wf(),
            config.wf(),
        ensures
            final(self).config == config,
            forall|k: Seq<char>| crate::auth::holds_string(r.stop@, k) <==> crate::tasks::stops(old(self).config@, config@, k),
            forall|k: Seq<char>| crate::auth::holds_string(r.start@, k) <==> crate::tasks::starts(old(self).config@, config@, k),
    {
        let plan = plan_reconfiguration(&self.config, &config);
        self.config = config;
        plan
    }

    /// Records a ping from dataminer `id` at time `now`, and gives back the
    /// notifications it causes.
    pub fn record_ping(state: &mut GlobalState, id: &str, now: Timestamp) -> (notes: Vec<Notification>)
        requires
            old(state).wf(),
        ensures
            final(state).wf(),
            final(state)@ == after_ping(old(state)@, id@, now),
            forall|i: int| 0 <= i < notes@.len() ==> sent_by_about(#[trigger] notes@[i], COMPONENT_ID@, id@),
            ({
                let known = old(state)@.dom().contains(id@);
                let was_online = known && old(state)@[id@].online;
                let k = if known { 0int } else { 1int };
                &&& notes@.len() == k + 1 + (if was_online { 0int } else { 1int })
                &&& !known ==> notes@[0].reason == NotificationReason::NewElement(false)
                &&& attribute_note(notes@[k], old(state)@, id@, LAST_SEEN_ID@, AttributeValueModel::Timestamp(now))
                &&& !was_online ==> notes@.last().reason == NotificationReason::OnlineStatusChanged(true)
            }),
    {
        let mut notes = state.set_attribute(COMPONENT_ID, id, LAST_SEEN_ID, AttributeValue::Timestamp(now));
        let online = state.get_online_state(id);
        let is_online = match online {
            Some(true) => true,
            _ => false,
        };
        if !is_online {
            match state.set_online_state(COMPONENT_ID, id, true) {
                Some(n) => {
                    let ghost before = notes@;
                    notes.push(n);
                    assert forall|i: int| 0 <= i < notes@.len() implies sent_by_about(#[trigger] notes@[i], COMPONENT_ID@, id@) by {
                        if i < before.len() {
                            assert(notes@[i] == before[i]);
                        }
                    }
                },
                None => {},
            }
        }
        notes
    }

    /// Checks at time `now` whether dataminer `id` still counts as running with
    /// timeout `timeout`, and sets its online state accordingly. Gives back the
    /// notifications, and, when the online state changed, the time of the last
    /// ping, from which the next check is timed.
    pub fn check_timeout(state: &mut GlobalState, id: &str, timeout: Duration, now: Timestamp) -> (r: (Vec<Notification>, Option<Timestamp>))
        requires
            old(state).wf(),
        ensures
            final(state).wf(),
            ({
                let up = running(last_ping(old(state)@, id@), now, timeout);
                let unchanged = old(state)@.dom().contains(id@) && old(state)@[id@].online == up;
                &&& final(state)@ == if unchanged { old(state)@ } else { after_set_online(old(state)@, id@, up) }
                &&& r.1 == if unchanged { None::<Timestamp> } else { last_ping(old(state)@, id@) }
            }),
            forall|i: int| 0 <= i < r.0@.len() ==> sent_by_about(#[trigger] r.0@[i], COMPONENT_ID@, id@),
            ({
                let up = running(last_ping(old(state)@, id@), now, timeout);
                let unchanged = old(state)@.dom().contains(id@) && old(state)@[id@].online == up;
                &&& r.0@.len() == if unchanged { 0int } else { 1int }
                &&& !unchanged ==> online_note(r.0@[0], old(state)@, id@, up)
            }),
    {
        let last = match state.get_attribute(id, LAST_SEEN_ID) {
            Some(AttributeValue::Timestamp(t)) => Some(t),
            _ => None,
        };
        let up = match last {
            Some(t) => nanos_between(t, now) <= timeout.nanos,
            None => false,
        };
        let mut notes: Vec<Notification> = Vec::new();
        let unchanged = match state.get_online_state(id) {
            Some(s) => s == up,
            None => false,
        };
        if unchanged {
            return (notes, None);
        }
        match state.set_online_state(COMPONENT_ID, id, up) {
            Some(n) => notes.push(n),
            None => {},
        }
        (notes, last)
    }
}

/// A ping makes the dataminer online, and it counts as running until the timeout
/// has passed since that ping, after which it does not.
pub proof fn law_ping_keeps_miner_running(m: Map<Seq<char>, ElementModel>, id: Seq<char>, pinged: Timestamp, now: Timestamp, timeout: Duration)
    ensures
        after_ping(m, id, pinged).dom().contains(id),
        after_ping(m, id, pinged)[id].online,
        last_ping(after_ping(m, id, pinged), id) == Some(pinged),
        running(last_ping(after_ping(m, id, pinged), id), now, timeout)
            <==> now.as_nanos() - pinged.as_nanos() <= timeout.nanos,
{
}

} // verus!
