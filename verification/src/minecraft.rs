//! The minecraft component: which Java servers are pinged, what a ping's
//! outcome does to the element's online state, and which attributes a server's
//! status answer sets.
use vstd::prelude::*;
use vstd::string::*;
use crate::backend::{after_set_online, deleted_by, deleted_id, online_note, sent_by_about, ElementModel, GlobalState};
use crate::notification::{AttributeValueChange, Notification, NotificationReason};
use crate::state::{holds_same, lemma_list_model, list_model, AttributeValue, AttributeValueModel, ByteCode, Duration, Timestamp};
use crate::string_map::StringMap;
use crate::strutil::str_eq;
use crate::tasks::{plan_reconfiguration, Reconfiguration, SameConfig};

verus! {

/// The id under which the component reports changes.
pub const COMPONENT_ID: &'static str = "minecraft";

/// The port of a Java server when none is configured.
pub fn java_default_port() -> (r: u16)
    ensures
        r == 25565,
{
    25565
}

/// How one Java server is pinged.
pub struct JavaConfig {
    /// The server's host.
    pub url: String,
    /// The server's port.
    pub port: u16,
    /// The time between two pings.
    pub interval: Duration,
}

impl SameConfig for JavaConfig {
    open spec fn same(&self, other: &Self) -> bool {
        self.url@ == other.url@ && self.port == other.port && self.interval == other.interval
    }

    proof fn lemma_same_reflexive(&self) {
    }

    fn same_as(&self, other: &Self) -> (r: bool) {
        str_eq(self.url.as_str(), other.url.as_str()) && self.port == other.port && self.interval.nanos == other.interval.nanos
    }
}

/// The configuration of the minecraft component.
pub struct Config {
    /// The Java servers pinged, by element id.
    pub java: StringMap<JavaConfig>,
}

/// The states after a ping of element `id` that was answered or not: the online
/// state follows the answer.
pub open spec fn after_ping(m: Map<Seq<char>, ElementModel>, id: Seq<char>, answered: bool) -> Map<Seq<char>, ElementModel> {
    if m.dom().contains(id) && m[id].online == answered {
        m
    } else {
        after_set_online(m, id, answered)
    }
}

/// The attribute that holds when a server last answered.
pub const LAST_SEEN_ID: &'static str = "minecraft.last_seen";

/// The marker attribute that a server enforcing secure chat carries.
pub const SECURE_CHAT_MARKER_ID: &'static str = "minecraft.retarded";

/// The players part of a server's status.
pub struct Players {
    /// How many players can be online at once.
    pub max: i64,
    /// How many players are online.
    pub online: i64,
    /// The names of some of the online players, if the server gives them.
    pub sample: Option<Vec<String>>,
}

/// What a Java server answers to a status request.
pub struct StatusResponse {
    /// The server's version name.
    pub version: String,
    /// The server's protocol version.
    pub protocol: i64,
    /// The players, if the server tells.
    pub players: Option<Players>,
    /// The server's description, if any.
    pub description: Option<String>,
    /// The server's favicon, if any.
    pub favicon: Option<String>,
    /// Whether the server enforces secure chat, if it tells.
    pub enforces_secure_chat: Option<bool>,
}

/// The attributes after one update of attributes `b`: a value is set unless the
/// attribute already holds the same; `None` deletes the attribute.
pub open spec fn update_step(b: Map<Seq<char>, AttributeValueModel>, k: Seq<char>, u: Option<AttributeValueModel>) -> Map<Seq<char>, AttributeValueModel> {
    match u {
        Some(v) => if b.contains_key(k) && holds_same(b[k], v) {
            b
        } else {
            b.insert(k, v)
        },
        None => b.remove(k),
    }
}

/// The attributes after the updates `ups`, in order, of attributes `a`.
pub open spec fn updated_attributes(a: Map<Seq<char>, AttributeValueModel>, ups: Seq<(Seq<char>, Option<AttributeValueModel>)>) -> Map<Seq<char>, AttributeValueModel>
    decreases ups.len(),
{
    if ups.len() == 0 {
        a
    } else {
        update_step(updated_attributes(a, ups.drop_last()), ups.last().0, ups.last().1)
    }
}

/// Whether one update changes attributes `b`.
pub open spec fn step_changes(b: Map<Seq<char>, AttributeValueModel>, k: Seq<char>, u: Option<AttributeValueModel>) -> bool {
    match u {
        Some(v) => !(b.contains_key(k) && holds_same(b[k], v)),
        None => b.contains_key(k),
    }
}

/// Whether `n` reports the change that one update makes to attributes `b`: the
/// creation or edit of the attribute with the new value, or its deletion.
pub open spec fn step_note(n: Notification, b: Map<Seq<char>, AttributeValueModel>, k: Seq<char>, u: Option<AttributeValueModel>) -> bool {
    n.reason matches NotificationReason::AttributeEdit(edit) && edit.id@ == k && match u {
        Some(v) => match edit.change {
            AttributeValueChange::Create(x) => x@ == v && !b.contains_key(k),
            AttributeValueChange::Edit(o, x) => x@ == v && b.contains_key(k) && o@ == b[k],
            AttributeValueChange::Delete(_) => false,
        },
        None => edit.change matches AttributeValueChange::Delete(o) && b.contains_key(k) && o@ == b[k],
    }
}

/// Whether `notes` are, in order, one notification for each update of `ups` that
/// changes the attributes (starting from `a`), and nothing else.
pub open spec fn notes_for(notes: Seq<Notification>, a: Map<Seq<char>, AttributeValueModel>, ups: Seq<(Seq<char>, Option<AttributeValueModel>)>) -> bool
    decreases ups.len(),
{
    if ups.len() == 0 {
        notes.len() == 0
    } else {
        let b = updated_attributes(a, ups.drop_last());
        let (k, u) = ups.last();
        if step_changes(b, k, u) {
            notes.len() > 0 && step_note(notes.last(), b, k, u) && notes_for(notes.drop_last(), a, ups.drop_last())
        } else {
            notes_for(notes, a, ups.drop_last())
        }
    }
}

/// The attributes of element `id` in states `m`: none for an unknown element.
pub open spec fn base_attributes(m: Map<Seq<char>, ElementModel>, id: Seq<char>) -> Map<Seq<char>, AttributeValueModel> {
    if m.dom().contains(id) {
        m[id].attributes
    } else {
        Map::empty()
    }
}

/// The states after the updates `ups` of element `id`'s attributes, the first of
/// which sets a value; an unknown element is created offline.
pub open spec fn after_updates(m: Map<Seq<char>, ElementModel>, id: Seq<char>, ups: Seq<(Seq<char>, Option<AttributeValueModel>)>) -> Map<Seq<char>, ElementModel> {
    m.insert(
        id,
        ElementModel {
            online: m.dom().contains(id) && m[id].online,
            attributes: updated_attributes(base_attributes(m, id), ups),
        },
    )
}

/// Whether `notes` are what the updates `ups` of element `id` in states `m` send:
/// for an unknown element first its announcement as created offline, then one
/// notification per change, in order.
pub open spec fn updates_notes(notes: Seq<Notification>, m: Map<Seq<char>, ElementModel>, id: Seq<char>, ups: Seq<(Seq<char>, Option<AttributeValueModel>)>) -> bool {
    &&& forall|i: int| 0 <= i < notes.len() ==> sent_by_about(#[trigger] notes[i], COMPONENT_ID@, id)
    &&& if m.dom().contains(id) {
        notes_for(notes, m[id].attributes, ups)
    } else {
        notes.len() > 0 && notes[0].reason == NotificationReason::NewElement(false) && notes_for(notes.skip(1), Map::empty(), ups)
    }
}

/// The model of a list of player names: each a string value.
pub open spec fn sample_model(names: Seq<String>) -> Seq<AttributeValueModel> {
    names.map_values(|n: String| AttributeValueModel::Custom(ByteCode::String(n)))
}

/// The model of an optional string as an attribute value.
pub open spec fn string_update(s: Option<String>) -> Option<AttributeValueModel> {
    match s {
        Some(x) => Some(AttributeValueModel::Custom(ByteCode::String(x))),
        None => None,
    }
}

/// The attribute updates that a status response received at `now` makes, in
/// order: the last-seen time, the version and the protocol are set; the player
/// counts and sample, the description, the favicon and the secure-chat flag are
/// set when the response has them and deleted when it does not; last, the
/// secure-chat marker is set when the server enforces secure chat and deleted
/// otherwise.
pub open spec fn status_updates(r: StatusResponse, now: Timestamp) -> Seq<(Seq<char>, Option<AttributeValueModel>)> {
    seq![
        (LAST_SEEN_ID@, Some(AttributeValueModel::Timestamp(now))),
        ("minecraft.version"@, Some(AttributeValueModel::Custom(ByteCode::String(r.version)))),
        ("minecraft.protocol"@, Some(AttributeValueModel::Custom(ByteCode::Int(r.protocol)))),
        ("minecraft.players.max"@, match r.players {
            Some(p) => Some(AttributeValueModel::Custom(ByteCode::Int(p.max))),
            None => None,
        }),
        ("minecraft.players.online"@, match r.players {
            Some(p) => Some(AttributeValueModel::Custom(ByteCode::Int(p.online))),
            None => None,
        }),
        ("minecraft.players.sample"@, match r.players {
            Some(p) => match p.sample {
                Some(names) => Some(AttributeValueModel::List(sample_model(names@))),
                None => None,
            },
            None => None,
        }),
        ("minecraft.description"@, string_update(r.description)),
        ("minecraft.favicon"@, string_update(r.favicon)),
        ("minecraft.enforces_secure_chat"@, match r.enforces_secure_chat {
            Some(b) => Some(AttributeValueModel::Custom(ByteCode::Bool(b))),
            None => None,
        }),
        (SECURE_CHAT_MARKER_ID@, match r.enforces_secure_chat {
            Some(true) => Some(AttributeValueModel::Marker),
            _ => None,
        }),
    ]
}

/// The states after server `id` answered with `r` at `now`.
pub open spec fn after_status(m: Map<Seq<char>, ElementModel>, id: Seq<char>, r: StatusResponse, now: Timestamp) -> Map<Seq<char>, ElementModel> {
    after_updates(m, id, status_updates(r, now))
}

/// The model of a list of updates.
pub open spec fn updates_model(u: Seq<(String, Option<AttributeValue>)>) -> Seq<(Seq<char>, Option<AttributeValueModel>)> {
    u.map_values(|p: (String, Option<AttributeValue>)| (p.0@, match p.1 {
        Some(v) => Some(v@),
        None => None,
    }))
}

fn string_value(s: Option<String>) -> (r: Option<AttributeValue>)
    ensures
        match r {
            Some(v) => Some(v@),
            None => None::<AttributeValueModel>,
        } == string_update(s),
{
    match s {
        Some(x) => Some(AttributeValue::Custom(ByteCode::String(x))),
        None => None,
    }
}

fn sample_value(names: &Vec<String>) -> (r: AttributeValue)
    ensures
        r@ == AttributeValueModel::List(sample_model(names@)),
{
    let mut out: Vec<AttributeValue> = Vec::new();
    let mut i: usize = 0;
    while i < names.len()
        invariant
            i <= names@.len(),
            out@.len() == i,
            forall|j: int| 0 <= j < i ==> #[trigger] out@[j]@ == AttributeValueModel::Custom(ByteCode::String(names@[j])),
        decreases names@.len() - i,
    {
        let v = AttributeValue::Custom(ByteCode::String(names[i].clone()));
        let ghost before = out@;
        out.push(v);
        assert forall|j: int| 0 <= j < i + 1 implies #[trigger] out@[j]@ == AttributeValueModel::Custom(ByteCode::String(names@[j])) by {
            if j < i {
                assert(out@[j] == before[j]);
            }
        }
        i = i + 1;
    }
    proof {
        lemma_list_model(out@);
        assert forall|j: int| 0 <= j < out@.len() implies #[trigger] list_model(out@)[j] == sample_model(names@)[j] by {
            assert(out@[j]@ == AttributeValueModel::Custom(ByteCode::String(names@[j])));
        }
        assert(list_model(out@) =~= sample_model(names@));
    }
    AttributeValue::List(out)
}

fn apply_updates(state: &mut GlobalState, id: &str, ups: &Vec<(String, Option<AttributeValue>)>) -> (notes: Vec<Notification>)
    requires
        old(state).wf(),
        ups@.len() > 0,
        ups@[0].1 is Some,
    ensures
        final(state).wf(),
        final(state)@ == after_updates(old(state)@, id@, updates_model(ups@)),
        updates_notes(notes@, old(state)@, id@, updates_model(ups@)),
{
    let ghost m0 = state@;
    let ghost known = m0.dom().contains(id@);
    let ghost base = base_attributes(m0, id@);
    let ghost us = updates_model(ups@);
    let mut notes: Vec<Notification> = Vec::new();
    let mut i: usize = 0;
    proof {
        assert(us.take(0) =~= Seq::<(Seq<char>, Option<AttributeValueModel>)>::empty());
    }
    while i < ups.len()
        invariant
            us == updates_model(ups@),
            ups@.len() > 0,
            ups@[0].1 is Some,
            known == m0.dom().contains(id@),
            base == base_attributes(m0, id@),
            i <= ups@.len(),
            state.wf(),
            i == 0 ==> state@ == m0,
            i > 0 ==> state@ == after_updates(m0, id@, us.take(i as int)),
            forall|j: int| 0 <= j < notes@.len() ==> sent_by_about(#[trigger] notes@[j], COMPONENT_ID@, id@),
            known ==> notes_for(notes@, base, us.take(i as int)),
            !known ==> if i == 0 {
                notes@.len() == 0
            } else {
                notes@.len() > 0 && notes@[0].reason == NotificationReason::NewElement(false)
                    && notes_for(notes@.skip(1), Map::empty(), us.take(i as int))
            },
        decreases ups@.len() - i,
    {
        let ghost s0 = state@;
        let ghost n0 = notes@;
        let ghost b = updated_attributes(base, us.take(i as int));
        let ghost present = s0.dom().contains(id@);
        proof {
            assert(us.take(i + 1).drop_last() =~= us.take(i as int));
            assert(us.take(i + 1).last() == us[i as int]);
            if i == 0 {
                assert(b == base);
            }
            assert(present <==> (known || i > 0));
            assert(!known ==> base == Map::<Seq<char>, AttributeValueModel>::empty());
            assert(present ==> s0[id@].attributes == b);
            assert(present ==> s0[id@].online == (known && m0[id@].online));
        }
        let key = &ups[i].0;
        match &ups[i].1 {
            Some(v) => {
                let ghost k = key@;
                let ghost vm = v@;
                proof {
                    assert(us[i as int] == (k, Some(vm)));
                }
                let same = match state.get_attribute(id, key.as_str()) {
                    Some(cur) => cur.holds_same(v),
                    None => false,
                };
                proof {
                    assert(same == (present && b.contains_key(k) && holds_same(b[k], vm)));
                }
                if !same {
                    let mut more = state.set_attribute(COMPONENT_ID, id, key.as_str(), v.clone_value());
                    let ghost mm = more@;
                    notes.append(&mut more);
                    proof {
                        assert(notes@ =~= n0 + mm);
                        assert(update_step(b, k, Some(vm)) == b.insert(k, vm));
                        assert(updated_attributes(base, us.take(i + 1)) == b.insert(k, vm));
                        assert(state@ =~= after_updates(m0, id@, us.take(i + 1)));
                        assert forall|j: int| 0 <= j < notes@.len() implies sent_by_about(#[trigger] notes@[j], COMPONENT_ID@, id@) by {
                            if j < n0.len() {
                                assert(notes@[j] == n0[j]);
                            } else {
                                assert(notes@[j] == mm[j - n0.len()]);
                            }
                        }
                        assert(step_changes(b, k, Some(vm)));
                        assert(step_note(mm.last(), b, k, Some(vm)));
                        if present {
                            assert(mm.len() == 1);
                            if known {
                                assert(notes@.drop_last() =~= n0);
                                assert(notes@.last() == mm.last());
                            } else {
                                assert(notes@.skip(1).drop_last() =~= n0.skip(1));
                                assert(notes@.skip(1).last() == mm.last());
                                assert(notes@[0] == n0[0]);
                            }
                        } else {
                            assert(i == 0 && !known);
                            assert(mm.len() == 2);
                            assert(notes@ =~= mm);
                            assert(notes@.skip(1).drop_last() =~= Seq::<Notification>::empty());
                            assert(notes@.skip(1).last() == mm.last());
                            assert(us.take(0) =~= Seq::<(Seq<char>, Option<AttributeValueModel>)>::empty());
                            assert(notes_for(notes@.skip(1).drop_last(), Map::empty(), us.take(i as int)));
                            assert(notes_for(notes@.skip(1), Map::empty(), us.take(i + 1)));
                        }
                    }
                } else {
                    proof {
                        assert(update_step(b, k, Some(vm)) == b);
                        assert(updated_attributes(base, us.take(i + 1)) == b);
                        assert(!step_changes(b, k, Some(vm)));
                        assert(state@ =~= after_updates(m0, id@, us.take(i + 1)));
                        assert(!known ==> notes_for(notes@.skip(1), Map::empty(), us.take(i + 1)));
                    }
                }
            },
            None => {
                let ghost k = key@;
                proof {
                    assert(us[i as int] == (k, None::<AttributeValueModel>));
                    assert(i > 0);
                    assert(present);
                }
                let mut more = state.delete_attribute(COMPONENT_ID, id, key.as_str(), true);
                let ghost mm = more@;
                notes.append(&mut more);
                proof {
                    assert(notes@ =~= n0 + mm);
                    assert(update_step(b, k, None) == b.remove(k));
                    assert(updated_attributes(base, us.take(i + 1)) == b.remove(k));
                    assert(b.remove_keys(Set::new(|x: Seq<char>| deleted_by(k, true, x))) =~= b.remove(k));
                    assert(state@ =~= after_updates(m0, id@, us.take(i + 1)));
                    assert forall|j: int| 0 <= j < mm.len() implies deleted_id(#[trigger] mm[j]) == k by {
                        assert(deleted_by(k, true, deleted_id(mm[j])));
                    }
                    if mm.len() > 1 {
                        assert(deleted_id(mm[0]) != deleted_id(mm[1]));
                    }
                    if b.contains_key(k) {
                        assert(deleted_by(k, true, k));
                        let w = choose|w: int| 0 <= w < mm.len() && deleted_id(#[trigger] mm[w]) == k;
                        assert(mm.len() == 1);
                        assert(step_note(mm[0], b, k, None));
                    } else {
                        if mm.len() > 0 {
                            assert(deleted_id(mm[0]) == k);
                        }
                        assert(mm.len() == 0);
                    }
                    assert forall|j: int| 0 <= j < notes@.len() implies sent_by_about(#[trigger] notes@[j], COMPONENT_ID@, id@) by {
                        if j < n0.len() {
                            assert(notes@[j] == n0[j]);
                        } else {
                            assert(notes@[j] == mm[j - n0.len()]);
                        }
                    }
                    if b.contains_key(k) {
                        if known {
                            assert(notes@.drop_last() =~= n0);
                            assert(notes@.last() == mm[0]);
                        } else {
                            assert(notes@.skip(1).drop_last() =~= n0.skip(1));
                            assert(notes@.skip(1).last() == mm[0]);
                            assert(notes@[0] == n0[0]);
                        }
                    } else {
                        assert(notes@ =~= n0);
                        assert(!known ==> notes_for(notes@.skip(1), Map::empty(), us.take(i + 1)));
                    }
                }
            },
        }
        i = i + 1;
    }
    proof {
        assert(us.take(ups@.len() as int) =~= us);
    }
    notes
}

/// Where no other update of `ups` names the same attribute as update `j`, that
/// update decides the attribute: a set attribute holds the value or already held
/// the same, a deleted one is gone.
proof fn lemma_update_decides(a: Map<Seq<char>, AttributeValueModel>, ups: Seq<(Seq<char>, Option<AttributeValueModel>)>, j: int)
    requires
        0 <= j < ups.len(),
        forall|l: int| 0 <= l < ups.len() && l != j ==> (#[trigger] ups[l]).0 != ups[j].0,
    ensures
        match ups[j].1 {
            Some(v) => updated_attributes(a, ups).contains_key(ups[j].0) && (updated_attributes(a, ups)[ups[j].0] == v
                || holds_same(updated_attributes(a, ups)[ups[j].0], v)),
            None => !updated_attributes(a, ups).contains_key(ups[j].0),
        },
    decreases ups.len(),
{
    let init = ups.drop_last();
    if j < ups.len() - 1 {
        assert forall|l: int| 0 <= l < init.len() && l != j implies (#[trigger] init[l]).0 != init[j].0 by {
            assert(init[l] == ups[l]);
        }
        lemma_update_decides(a, init, j);
        assert(ups.last() == ups[ups.len() - 1]);
        assert(init[j] == ups[j]);
    }
}

/// After server `id` answered with `r`, each attribute that the answer gives holds
/// its value (or held the same already), and each that it lacks is gone; the
/// server is known, online as before or, if it was unknown, offline.
pub proof fn law_status_sets_documented_attributes(m: Map<Seq<char>, ElementModel>, id: Seq<char>, r: StatusResponse, now: Timestamp, j: int)
    requires
        0 <= j < 10,
    ensures
        after_status(m, id, r, now).dom().contains(id),
        after_status(m, id, r, now)[id].online == (m.dom().contains(id) && m[id].online),
        ({
            let u = status_updates(r, now)[j];
            let attrs = after_status(m, id, r, now)[id].attributes;
            match u.1 {
                Some(v) => attrs.contains_key(u.0) && (attrs[u.0] == v || holds_same(attrs[u.0], v)),
                None => !attrs.contains_key(u.0),
            }
        }),
{
    let ups = status_updates(r, now);
    reveal_strlit("minecraft.last_seen");
    reveal_strlit("minecraft.version");
    reveal_strlit("minecraft.protocol");
    reveal_strlit("minecraft.players.max");
    reveal_strlit("minecraft.players.online");
    reveal_strlit("minecraft.players.sample");
    reveal_strlit("minecraft.description");
    reveal_strlit("minecraft.favicon");
    reveal_strlit("minecraft.enforces_secure_chat");
    reveal_strlit("minecraft.retarded");
    assert forall|l: int| 0 <= l < ups.len() && l != j implies (#[trigger] ups[l]).0 != ups[j].0 by {
        let a = ups[l].0;
        let b = ups[j].0;
        if a.len() == b.len() {
            assert(a[10] != b[10] || a[18] != b[18]);
        }
    }
    lemma_update_decides(base_attributes(m, id), ups, j);
}

/// The minecraft component, keeping track of Minecraft servers.
///
/// Sets the following attributes (where the server provides them):
/// - `minecraft.version`: the version of the server;
/// - `minecraft.protocol`: its protocol version;
/// - `minecraft.players.max`: how many players can be online at once;
/// - `minecraft.players.online`: how many players are online;
/// - `minecraft.players.sample`: the names of some of the online players;
/// - `minecraft.description`: the description of the server;
/// - `minecraft.favicon`: its favicon;
/// - `minecraft.enforces_secure_chat`: whether it enforces secure chat;
///
/// and `minecraft.last_seen`, the time of the last answer, and the marker
/// [`SECURE_CHAT_MARKER_ID`] while the server enforces secure chat.
pub struct MinecraftStatus {
    /// The configuration.
    pub config: Config,
}

impl MinecraftStatus {
    /// The component pinging the servers of `config`, each of which gets a task.
    pub fn init(config: Config) -> (r: Self)
        ensures
            r.config == config,
    {
        MinecraftStatus { config }
    }

    /// Takes a new configuration, and says which pinging tasks stop and which start.
    pub fn reconfigure(&mut self, config: Config) -> (r: Reconfiguration)
        requires
            old(self).config.java.wf(),
            config.java.wf(),
        ensures
            final(self).config == config,
            forall|k: Seq<char>| crate::auth::holds_string(r.stop@, k) <==> crate::tasks::stops(old(self).config.java@, config.java@, k),
            forall|k: Seq<char>| crate::auth::holds_string(r.start@, k) <==> crate::tasks::starts(old(self).config.java@, config.java@, k),
    {
        let plan = plan_reconfiguration(&self.config.java, &config.java);
        self.config = config;
        plan
    }

    /// Records the status that server `id` answered with at time `now`: its
    /// attributes are set, or deleted where the response lacks them, as
    /// [`status_updates`] lists them (an attribute that already holds the same is
    /// left alone), and one notification per change is given back.
    pub fn record_status(state: &mut GlobalState, id: &str, response: StatusResponse, now: Timestamp) -> (notes: Vec<Notification>)
        requires
            old(state).wf(),
        ensures
            final(state).wf(),
            final(state)@ == after_status(old(state)@, id@, response, now),
            updates_notes(notes@, old(state)@, id@, status_updates(response, now)),
    {
        let ghost r0 = response;
        let StatusResponse { version, protocol, players, description, favicon, enforces_secure_chat } = response;
        let (max, online, sample) = match players {
            Some(p) => (
                Some(AttributeValue::Custom(ByteCode::Int(p.max))),
                Some(AttributeValue::Custom(ByteCode::Int(p.online))),
                match &p.sample {
                    Some(names) => Some(sample_value(names)),
                    None => None,
                },
            ),
            None => (None, None, None),
        };
        let secure_chat = match enforces_secure_chat {
            Some(b) => Some(AttributeValue::Custom(ByteCode::Bool(b))),
            None => None,
        };
        let marker = match enforces_secure_chat {
            Some(true) => Some(AttributeValue::Marker),
            _ => None,
        };
        let mut ups: Vec<(String, Option<AttributeValue>)> = Vec::new();
        ups.push((String::from_str(LAST_SEEN_ID), Some(AttributeValue::Timestamp(now))));
        ups.push((String::from_str("minecraft.version"), Some(AttributeValue::Custom(ByteCode::String(version)))));
        ups.push((String::from_str("minecraft.protocol"), Some(AttributeValue::Custom(ByteCode::Int(protocol)))));
        ups.push((String::from_str("minecraft.players.max"), max));
        ups.push((String::from_str("minecraft.players.online"), online));
        ups.push((String::from_str("minecraft.players.sample"), sample));
        ups.push((String::from_str("minecraft.description"), string_value(description)));
        ups.push((String::from_str("minecraft.favicon"), string_value(favicon)));
        ups.push((String::from_str("minecraft.enforces_secure_chat"), secure_chat));
        ups.push((String::from_str(SECURE_CHAT_MARKER_ID), marker));
        proof {
            assert(updates_model(ups@) =~= status_updates(r0, now));
        }
        apply_updates(state, id, &ups)
    }

    /// Records whether a ping of server `id` was answered, and gives back the
    /// notification it causes, if any.
    pub fn record_ping(state: &mut GlobalState, id: &str, answered: bool) -> (note: Option<Notification>)
        requires
            old(state).wf(),
        ensures
            final(state).wf(),
            final(state)@ == after_ping(old(state)@, id@, answered),
            note is None <==> (old(state)@.dom().contains(id@) && old(state)@[id@].online == answered),
            note matches Some(n) ==> sent_by_about(n, COMPONENT_ID@, id@) && online_note(n, old(state)@, id@, answered),
    {
        let same = match state.get_online_state(id) {
            Some(s) => s == answered,
            None => false,
        };
        if same {
            return None;
        }
        state.set_online_state(COMPONENT_ID, id, answered)
    }
}

} // verus!
