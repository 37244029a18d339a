//! The website component: whether a website counts as up, and what a check of
//! it does to the element's state.
use vstd::prelude::*;
use vstd::string::*;
use crate::backend::{after_set_attribute, after_set_online, attribute_note, online_note, sent_by_about, ElementModel, GlobalState};
use crate::filters::SingleFilter;
use crate::notification::Notification;
use crate::state::{AttributeValue, AttributeValueModel, Duration, Timestamp};
use crate::string_map::StringMap;
use crate::tasks::{plan_reconfiguration, Reconfiguration, SameConfig};
use crate::strutil::str_eq;

verus! {

/// The attribute that holds when a website was last reached.
pub const LAST_SEEN_ID: &'static str = "website.last_seen";

/// The id under which the component reports changes.
pub const COMPONENT_ID: &'static str = "website";

/// One hour, the default interval between checks.
pub fn hourly() -> (r: Duration)
    ensures
        r.nanos == 3_600_000_000_000,
{
    Duration { nanos: 3_600_000_000_000 }
}

/// How one website is checked.
pub struct Config {
    /// The URL requested.
    pub url: String,
    /// The time between two checks.
    pub interval: Duration,
    /// Which HTTP status codes count as up, beyond the successful ones.
    pub status: SingleFilter<u16>,
}

impl Default for Config {
    fn default() -> (r: Self)
        ensures
            r.url@ == "https://example.com"@,
            r.interval.nanos == 3_600_000_000_000,
            r.status.whitelist@.len() == 0,
            r.status.blacklist@.len() == 0,
    {
        Config { url: String::from_str("https://example.com"), interval: hourly(), status: SingleFilter::default() }
    }
}

/// Whether a response with status `code` means that the website is up: a
/// whitelisted code always does, a successful one (200 to 299) does unless it is
/// blacklisted.
pub open spec fn status_accepted(status: SingleFilter<u16>, code: u16) -> bool {
    crate::filters::some_item_matches(status.whitelist@, &code)
        || (200 <= code <= 299 && !crate::filters::some_item_matches(status.blacklist@, &code))
}

impl Config {
    /// Whether a check that got a response with status `code` (or, with `None`,
    /// no response at all) finds the website up.
    pub fn is_up(&self, code: Option<u16>) -> (r: bool)
        ensures
            r == match code {
                None => false,
                Some(c) => status_accepted(self.status, c),
            },
    {
        match code {
            None => false,
            Some(c) => self.status.whitelisted(&c) || (200 <= c && c <= 299 && !self.status.blacklisted(&c)),
        }
    }
}

fn same_codes(a: &Vec<u16>, b: &Vec<u16>) -> (r: bool)
    ensures
        r == (a@ == b@),
{
    if a.len() != b.len() {
        return false;
    }
    let mut i: usize = 0;
    while i < a.len()
        invariant
            a@.len() == b@.len(),
            i <= a@.len(),
            forall|j: int| 0 <= j < i ==> a@[j] == b@[j],
        decreases a@.len() - i,
    {
        if a[i] != b[i] {
            return false;
        }
        i = i + 1;
    }
    assert(a@ =~= b@);
    true
}

impl SameConfig for Config {
    open spec fn same(&self, other: &Self) -> bool {
        &&& self.url@ == other.url@
        &&& self.interval == other.interval
        &&& self.status.whitelist@ == other.status.whitelist@
        &&& self.status.blacklist@ == other.status.blacklist@
        &&& self.status.priority == other.status.priority
    }

    proof fn lemma_same_reflexive(&self) {
    }

    fn same_as(&self, other: &Self) -> (r: bool) {
        str_eq(self.url.as_str(), other.url.as_str()) && self.interval.nanos == other.interval.nanos
            && same_codes(&self.status.whitelist, &other.status.whitelist)
            && same_codes(&self.status.blacklist, &other.status.blacklist)
            && self.status.priority == other.status.priority
    }
}

/// The states after a check of element `id` that found the website up or not at
/// time `now`: the online state follows the finding, and a website that is up
/// has its last-seen time set.
pub open spec fn after_check(m: Map<Seq<char>, ElementModel>, id: Seq<char>, up: bool, now: Timestamp) -> Map<Seq<char>, ElementModel> {
    let m1 = after_check_online(m, id, up);
    if up {
        after_set_attribute(m1, id, LAST_SEEN_ID@, AttributeValueModel::Timestamp(now))
    } else {
        m1
    }
}

/// Whether a check of element `id` that found the website up or not leaves the
/// online state as it was in states `m`.
pub open spec fn online_unchanged(m: Map<Seq<char>, ElementModel>, id: Seq<char>, up: bool) -> bool {
    m.dom().contains(id) && m[id].online == up
}

/// The states after the first step of a check: the online state follows the
/// finding.
pub open spec fn after_check_online(m: Map<Seq<char>, ElementModel>, id: Seq<char>, up: bool) -> Map<Seq<char>, ElementModel> {
    if online_unchanged(m, id, up) {
        m
    } else {
        after_set_online(m, id, up)
    }
}

/// The website component: the configured websites, by element id.
pub struct WebsiteStatuse {
    /// The websites checked, by element id.
    pub config: StringMap<Config>,
}

impl WebsiteStatuse {
    /// The component with the websites of `config`, each of which gets a task.
    pub fn init(config: StringMap<Config>) -> (r: Self)
        ensures
            r.config == config,
    {
        WebsiteStatuse { config }
    }

    /// Takes a new configuration, and says which checking tasks stop and which start.
    pub fn reconfigure(&mut self, config: StringMap<Config>) -> (r: Reconfiguration)
        requires
            old(self).config.wf(),
            config.wf(),
        ensures
            final(self).config == config,
            forall|k: Seq<char>| crate::auth::holds_string(r.stop@, k) <==> crate::tasks::stops(old(self).config@, config@, k),
            forall|k: Seq<char>| crate::auth::holds_string(r.start@, k) <==> crate::tasks::starts(old(self).config@, config@, k),
    {
        let plan = plan_reconfiguration(&self.config, &config);
        self.config = config;
        plan
    }

    /// Records a check of element `id` at time `now` that found the website up or
    /// not, and gives back the notifications it causes.
    pub fn record_check(state: &mut GlobalState, id: &str, up: bool, now: Timestamp) -> (notes: Vec<Notification>)
        requires
            old(state).wf(),
        ensures
            final(state).wf(),
            final(state)@ == after_check(old(state)@, id@, up, now),
            forall|i: int| 0 <= i < notes@.len() ==> sent_by_about(#[trigger] notes@[i], COMPONENT_ID@, id@),
            notes@.len() == (if online_unchanged(old(state)@, id@, up) { 0int } else { 1int }) + (if up { 1int } else { 0int }),
            !online_unchanged(old(state)@, id@, up) ==> online_note(notes@[0], old(state)@, id@, up),
            up ==> attribute_note(
                notes@.last(),
                after_check_online(old(state)@, id@, up),
                id@,
                LAST_SEEN_ID@,
                AttributeValueModel::Timestamp(now),
            ),
    {
        let mut notes: Vec<Notification> = Vec::new();
        let old_state = state.get_online_state(id);
        let same = match old_state {
            Some(s) => s == up,
            None => false,
        };
        if !same {
            match state.set_online_state(COMPONENT_ID, id, up) {
                Some(n) => notes.push(n),
                None => {},
            }
        }
        if up {
            let mut more = state.set_attribute(COMPONENT_ID, id, LAST_SEEN_ID, AttributeValue::Timestamp(now));
            let ghost before = notes@;
            let ghost extra = more@;
            notes.append(&mut more);
            assert forall|i: int| 0 <= i < notes@.len() implies sent_by_about(#[trigger] notes@[i], COMPONENT_ID@, id@) by {
                if i >= before.len() {
                    assert(notes@[i] == extra[i - before.len()]);
                }
            }
        }
        notes
    }
}

/// After a check the element is known, its online state is the finding, and a
/// website found up carries the check's time as its last-seen time.
pub proof fn law_check_follows_finding(m: Map<Seq<char>, ElementModel>, id: Seq<char>, up: bool, now: Timestamp)
    ensures
        after_check(m, id, up, now).dom().contains(id),
        after_check(m, id, up, now)[id].online == up,
        up ==> after_check(m, id, up, now)[id].attributes.get(LAST_SEEN_ID@) == Some(AttributeValueModel::Timestamp(now)),
{
}

} // verus!
