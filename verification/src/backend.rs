//! The server's store of element states, and how each change to it is decided:
//! the new state and the notifications that the change sends out.
use vstd::prelude::*;
use crate::filters::{id_or_child, is_id_or_child};
use crate::notification::{AttributeEdit, AttributeValueChange, Notification, NotificationReason};
use crate::state::{AttributeValue, AttributeValueModel, State};
use crate::string_map::{entries_map, keys_distinct, lemma_entries_map_at, lemma_entries_map_push, lemma_map_values_insert, StringMap};
use crate::strutil::{str_eq, to_owned};

verus! {

/// The mathematical state of an element.
pub struct ElementModel {
    /// Whether the element is online.
    pub online: bool,
    /// Its attributes, each by the model of its value.
    pub attributes: Map<Seq<char>, AttributeValueModel>,
}

/// The model of an element's state.
pub open spec fn state_model(s: State) -> ElementModel {
    ElementModel { online: s.online, attributes: s.attributes@.map_values(|v: AttributeValue| v@) }
}

/// Whether an attribute with id `key` is removed when deleting `attribute_id`:
/// with `exact`, only the attribute itself; otherwise also its sub-attributes.
pub open spec fn deleted_by(attribute_id: Seq<char>, exact: bool, key: Seq<char>) -> bool {
    if exact {
        key == attribute_id
    } else {
        is_id_or_child(attribute_id, key)
    }
}

/// The states after setting attribute `a` of element `e` to `v`; an unknown
/// element is created offline.
pub open spec fn after_set_attribute(
    m: Map<Seq<char>, ElementModel>,
    e: Seq<char>,
    a: Seq<char>,
    v: AttributeValueModel,
) -> Map<Seq<char>, ElementModel> {
    if m.dom().contains(e) {
        m.insert(e, ElementModel { online: m[e].online, attributes: m[e].attributes.insert(a, v) })
    } else {
        m.insert(e, ElementModel { online: false, attributes: Map::empty().insert(a, v) })
    }
}

/// The states after deleting attribute `a` (and, unless `exact`, its
/// sub-attributes) of element `e`; an unknown element stays unknown.
pub open spec fn after_delete_attribute(
    m: Map<Seq<char>, ElementModel>,
    e: Seq<char>,
    a: Seq<char>,
    exact: bool,
) -> Map<Seq<char>, ElementModel> {
    if m.dom().contains(e) {
        m.insert(
            e,
            ElementModel {
                online: m[e].online,
                attributes: m[e].attributes.remove_keys(Set::new(|k: Seq<char>| deleted_by(a, exact, k))),
            },
        )
    } else {
        m
    }
}

/// The states after setting the online state of element `e` to `s`; an unknown
/// element is created with that state and no attributes.
pub open spec fn after_set_online(m: Map<Seq<char>, ElementModel>, e: Seq<char>, s: bool) -> Map<
    Seq<char>,
    ElementModel,
> {
    if m.dom().contains(e) {
        m.insert(e, ElementModel { online: s, attributes: m[e].attributes })
    } else {
        m.insert(e, ElementModel { online: s, attributes: Map::empty() })
    }
}

/// Whether `n` was sent by component `c` about element `e`.
pub open spec fn sent_by_about(n: Notification, c: Seq<char>, e: Seq<char>) -> bool {
    n.component_id@ == c && n.element_id@ == e
}

/// Whether `n` is what setting the online state of element `e` to `s` in states
/// `m` announces: a new element with its state, or the change of a known one.
pub open spec fn online_note(n: Notification, m: Map<Seq<char>, ElementModel>, e: Seq<char>, s: bool) -> bool {
    n.reason == if m.dom().contains(e) {
        NotificationReason::OnlineStatusChanged(s)
    } else {
        NotificationReason::NewElement(s)
    }
}

/// Whether `n` reports setting attribute `a` of element `e` to `v` in states `m`:
/// as a creation where the element had no such attribute, otherwise as an edit
/// from the value it had.
pub open spec fn attribute_note(
    n: Notification,
    m: Map<Seq<char>, ElementModel>,
    e: Seq<char>,
    a: Seq<char>,
    v: AttributeValueModel,
) -> bool {
    n.reason matches NotificationReason::AttributeEdit(edit) && edit.id@ == a && match edit.change {
        AttributeValueChange::Create(x) => x@ == v && !(m.dom().contains(e) && m[e].attributes.dom().contains(a)),
        AttributeValueChange::Edit(o, x) => x@ == v && m.dom().contains(e) && m[e].attributes.dom().contains(a)
            && o@ == m[e].attributes[a],
        AttributeValueChange::Delete(_) => false,
    }
}

/// The states of all elements known to the server.
pub struct GlobalState {
    states: StringMap<State>,
}

impl View for GlobalState {
    type V = Map<Seq<char>, ElementModel>;

    closed spec fn view(&self) -> Map<Seq<char>, ElementModel> {
        self.states@.map_values(|s: State| state_model(s))
    }
}

impl GlobalState {
    /// The store's internal invariant.
    pub closed spec fn wf(&self) -> bool {
        &&& self.states.wf()
        &&& forall|k: Seq<char>| #[trigger] self.states@.dom().contains(k) ==> self.states@[k].wf()
    }

    /// A store without elements.
    pub fn new() -> (r: Self)
        ensures
            r.wf(),
            r@ == Map::<Seq<char>, ElementModel>::empty(),
    {
        let r = GlobalState { states: StringMap::new() };
        assert(r@ =~= Map::<Seq<char>, ElementModel>::empty());
        r
    }

    /// Takes the state of `element_id` out of the store, or a new offline state if
    /// there is none.
    fn take_state(&mut self, element_id: &str) -> (r: (State, bool))
        requires
            old(self).wf(),
        ensures
            final(self).wf(),
            r.0.wf(),
            r.1 == old(self)@.dom().contains(element_id@),
            final(self)@ == old(self)@.remove(element_id@),
            r.1 ==> state_model(r.0) == old(self)@[element_id@],
            !r.1 ==> state_model(r.0) == (ElementModel { online: false, attributes: Map::empty() }),
    {
        let ghost before = self.states@;
        match self.states.remove(element_id) {
            Some(st) => {
                proof {
                    assert(self@ =~= old(self)@.remove(element_id@));
                }
                (st, true)
            },
            None => {
                let st = State::new();
                proof {
                    assert(self@ =~= old(self)@.remove(element_id@));
                    assert(state_model(st).attributes =~= Map::empty());
                }
                (st, false)
            },
        }
    }

    /// Puts the state of `element_id` back into the store.
    fn put_state(&mut self, element_id: &str, st: State)
        requires
            old(self).wf(),
            st.wf(),
        ensures
            final(self).wf(),
            final(self)@ == old(self)@.insert(element_id@, state_model(st)),
    {
        let ghost m = st;
        self.states.insert(to_owned(element_id), st);
        proof {
            assert(self@ =~= old(self)@.insert(element_id@, state_model(m)));
        }
    }

    /// Sets attribute `attribute_id` of element `element_id` to `value`, on behalf
    /// of component `component_id`, and gives back the notifications to send.
    pub fn set_attribute(&mut self, component_id: &str, element_id: &str, attribute_id: &str, value: AttributeValue) -> (notes: Vec<Notification>)
        requires
            old(self).wf(),
        ensures
            final(self).wf(),
            final(self)@ == after_set_attribute(old(self)@, element_id@, attribute_id@, value@),
            notes@.len() == if old(self)@.dom().contains(element_id@) { 1int } else { 2int },
            forall|i: int| 0 <= i < notes@.len() ==> sent_by_about(#[trigger] notes@[i], component_id@, element_id@),
            !old(self)@.dom().contains(element_id@) ==> notes@[0].reason == NotificationReason::NewElement(false),
            attribute_note(notes@.last(), old(self)@, element_id@, attribute_id@, value@),
    {
        let ghost m0 = self@;
        let mut notes: Vec<Notification> = Vec::new();
        let (mut st, existed) = self.take_state(element_id);
        if !existed {
            notes.push(Notification::new(to_owned(component_id), to_owned(element_id), NotificationReason::NewElement(false)));
        }
        let ghost sm0 = state_model(st);
        let ghost attrs0 = st.attributes@;
        let stored = value.clone_value();
        let old_value = st.attributes.insert(to_owned(attribute_id), stored);
        proof {
            assert(state_model(st).attributes =~= sm0.attributes.insert(attribute_id@, value@));
            assert(old_value is None <==> !sm0.attributes.dom().contains(attribute_id@));
            if old_value is Some {
                assert(old_value->0@ == sm0.attributes[attribute_id@]);
            }
            assert(existed ==> sm0 == m0[element_id@]);
        }
        let change = match old_value {
            None => AttributeValueChange::Create(value),
            Some(old) => AttributeValueChange::Edit(old, value),
        };
        self.put_state(element_id, st);
        proof {
            assert(self@ =~= after_set_attribute(m0, element_id@, attribute_id@, value@));
        }
        let note = Notification::new(
            to_owned(component_id),
            to_owned(element_id),
            NotificationReason::AttributeEdit(AttributeEdit { id: to_owned(attribute_id), change }),
        );
        notes.push(note);
        assert(notes@.last() == note);
        notes
    }

    /// Sets the online state of element `element_id` to `online`, on behalf of
    /// component `component_id`; gives back the notification to send, if the
    /// state changed or the element is new.
    pub fn set_online_state(&mut self, component_id: &str, element_id: &str, online: bool) -> (note: Option<Notification>)
        requires
            old(self).wf(),
        ensures
            final(self).wf(),
            final(self)@ == after_set_online(old(self)@, element_id@, online),
            match note {
                None => old(self)@.dom().contains(element_id@) && old(self)@[element_id@].online == online,
                Some(n) => sent_by_about(n, component_id@, element_id@) && online_note(n, old(self)@, element_id@, online)
                    && !(old(self)@.dom().contains(element_id@) && old(self)@[element_id@].online == online),
            },
    {
        let ghost m0 = self@;
        let (mut st, existed) = self.take_state(element_id);
        if existed && st.online == online {
            self.put_state(element_id, st);
            proof {
                assert(self@ =~= after_set_online(m0, element_id@, online));
            }
            return None;
        }
        st.online = online;
        self.put_state(element_id, st);
        proof {
            assert(self@ =~= after_set_online(m0, element_id@, online));
        }
        let reason = if existed {
            NotificationReason::OnlineStatusChanged(online)
        } else {
            NotificationReason::NewElement(online)
        };
        Some(Notification::new(to_owned(component_id), to_owned(element_id), reason))
    }

    /// Deletes attribute `attribute_id` of element `element_id` (and, unless
    /// `exact`, its sub-attributes), on behalf of component `component_id`; gives
    /// back one notification per deleted attribute.
    pub fn delete_attribute(&mut self, component_id: &str, element_id: &str, attribute_id: &str, exact: bool) -> (notes: Vec<Notification>)
        requires
            old(self).wf(),
        ensures
            final(self).wf(),
            final(self)@ == after_delete_attribute(old(self)@, element_id@, attribute_id@, exact),
            forall|i: int| #![trigger notes@[i]] 0 <= i < notes@.len() ==> {
                &&& sent_by_about(notes@[i], component_id@, element_id@)
                &&& notes@[i].reason matches NotificationReason::AttributeEdit(edit)
                &&& old(self)@.dom().contains(element_id@)
                &&& old(self)@[element_id@].attributes.dom().contains(edit.id@)
                &&& deleted_by(attribute_id@, exact, edit.id@)
                &&& edit.change matches AttributeValueChange::Delete(v)
                &&& v@ == old(self)@[element_id@].attributes[edit.id@]
            },
            forall|i: int, j: int| 0 <= i < notes@.len() && 0 <= j < notes@.len() && i != j ==>
                deleted_id(#[trigger] notes@[i]) != deleted_id(#[trigger] notes@[j]),
            forall|k: Seq<char>| old(self)@.dom().contains(element_id@) && #[trigger] old(self)@[element_id@].attributes.dom().contains(k)
                && deleted_by(attribute_id@, exact, k) ==> exists|i: int| 0 <= i < notes@.len() && deleted_id(#[trigger] notes@[i]) == k,
    {
        let ghost m0 = self@;
        let mut notes: Vec<Notification> = Vec::new();
        if !self.states.contains_key(element_id) {
            proof {
                assert(after_delete_attribute(m0, element_id@, attribute_id@, exact) == m0);
            }
            return notes;
        }
        let (mut st, _) = self.take_state(element_id);
        let ghost a0 = st.attributes@;
        assert(st.online == m0[element_id@].online);
        let ghost del = Set::new(|k: Seq<char>| deleted_by(attribute_id@, exact, k));
        // The ids to delete.
        let mut ids: Vec<String> = Vec::new();
        {
            let entries = st.attributes.entries();
            proof { st.attributes.lemma_entries(); }
            let mut i: usize = 0;
            while i < entries.len()
                invariant
                    i <= entries@.len(),
                    entries@ == st.attributes.entries_spec(),
                    crate::string_map::keys_distinct(entries@),
                    forall|j: int| 0 <= j < ids@.len() ==> #[trigger] deleted_by(attribute_id@, exact, ids@[j]@),
                    forall|j: int| 0 <= j < ids@.len() ==> exists|l: int| 0 <= l < i && entries@[l].0@ == (#[trigger] ids@[j])@,
                    forall|a: int, b: int| 0 <= a < ids@.len() && 0 <= b < ids@.len() && a != b ==> (#[trigger] ids@[a])@ != (#[trigger] ids@[b])@,
                    forall|l: int| 0 <= l < i && deleted_by(attribute_id@, exact, #[trigger] entries@[l].0@) ==> exists|j: int| 0 <= j < ids@.len() && (#[trigger] ids@[j])@ == entries@[l].0@,
                decreases entries@.len() - i,
            {
                let key = &entries[i].0;
                let hit = if exact {
                    str_eq(key.as_str(), attribute_id)
                } else {
                    id_or_child(attribute_id, key.as_str())
                };
                if hit {
                    let ghost before = ids@;
                    ids.push(key.clone());
                    proof {
                        assert forall|a: int, b: int| 0 <= a < ids@.len() && 0 <= b < ids@.len() && a != b implies (#[trigger] ids@[a])@ != (#[trigger] ids@[b])@ by {
                            if a == ids@.len() - 1 || b == ids@.len() - 1 {
                                let o = if a == ids@.len() - 1 { b } else { a };
                                assert(ids@[o] == before[o]);
                                let l = choose|l: int| 0 <= l < i && entries@[l].0@ == (#[trigger] before[o])@;
                                assert(entries@[l].0@ != entries@[i as int].0@);
                            }
                        }
                        assert forall|l: int| 0 <= l < i + 1 && deleted_by(attribute_id@, exact, #[trigger] entries@[l].0@) implies exists|j: int| 0 <= j < ids@.len() && (#[trigger] ids@[j])@ == entries@[l].0@ by {
                            if l < i {
                                let j = choose|j: int| 0 <= j < before.len() && (#[trigger] before[j])@ == entries@[l].0@;
                                assert(ids@[j] == before[j]);
                            } else {
                                assert(ids@[ids@.len() - 1]@ == entries@[l].0@);
                            }
                        }
                        assert forall|j: int| 0 <= j < ids@.len() implies exists|l: int| 0 <= l < i + 1 && entries@[l].0@ == (#[trigger] ids@[j])@ by {
                            if j < before.len() {
                                assert(ids@[j] == before[j]);
                                let l = choose|l: int| 0 <= l < i && entries@[l].0@ == (#[trigger] before[j])@;
                            } else {
                                assert(entries@[i as int].0@ == ids@[j]@);
                            }
                        }
                    }
                }
                i = i + 1;
            }
            proof {
                assert forall|j: int| 0 <= j < ids@.len() implies #[trigger] a0.dom().contains(ids@[j]@) by {
                    let l = choose|l: int| 0 <= l < entries@.len() && entries@[l].0@ == (#[trigger] ids@[j])@;
                    crate::string_map::lemma_entries_map_at(entries@, l);
                }
                assert forall|k: Seq<char>| #[trigger] a0.dom().contains(k) && deleted_by(attribute_id@, exact, k) implies exists|j: int| 0 <= j < ids@.len() && (#[trigger] ids@[j])@ == k by {
                    let l = crate::string_map::key_index(entries@, k);
                    assert(entries@[l].0@ == k);
                }
            }
        }
        // Remove them, one notification each.
        let mut j: usize = 0;
        while j < ids.len()
            invariant
                j <= ids@.len(),
                st.wf(),
                st.online == m0[element_id@].online,
                forall|x: int| 0 <= x < ids@.len() ==> #[trigger] deleted_by(attribute_id@, exact, ids@[x]@),
                forall|x: int| 0 <= x < ids@.len() ==> #[trigger] a0.dom().contains(ids@[x]@),
                forall|a: int, b: int| 0 <= a < ids@.len() && 0 <= b < ids@.len() && a != b ==> (#[trigger] ids@[a])@ != (#[trigger] ids@[b])@,
                st.attributes@ == a0.remove_keys(Set::new(|k: Seq<char>| exists|x: int| 0 <= x < j && (#[trigger] ids@[x])@ == k)),
                notes@.len() == j,
                forall|x: int| #![trigger notes@[x]] 0 <= x < j ==> {
                    &&& sent_by_about(notes@[x], component_id@, element_id@)
                    &&& notes@[x].reason matches NotificationReason::AttributeEdit(edit)
                    &&& edit.id@ == ids@[x]@
                    &&& edit.change matches AttributeValueChange::Delete(v)
                    &&& v@ == a0[ids@[x]@]@
                },
            decreases ids@.len() - j,
        {
            let ghost before = st.attributes@;
            let removed = st.attributes.remove(ids[j].as_str());
            proof {
                assert(before.dom().contains(ids@[j as int]@)) by {
                    if !before.dom().contains(ids@[j as int]@) {
                        let x = choose|x: int| 0 <= x < j && (#[trigger] ids@[x])@ == ids@[j as int]@;
                        assert(false);
                    }
                }
                assert(st.attributes@ =~= a0.remove_keys(Set::new(|k: Seq<char>| exists|x: int| 0 <= x < j + 1 && (#[trigger] ids@[x])@ == k))) by {
                    assert forall|k: Seq<char>| #[trigger] st.attributes@.dom().contains(k) <==> a0.remove_keys(Set::new(|k: Seq<char>| exists|x: int| 0 <= x < j + 1 && (#[trigger] ids@[x])@ == k)).dom().contains(k) by {
                        if exists|x: int| 0 <= x < j + 1 && (#[trigger] ids@[x])@ == k {
                            let x = choose|x: int| 0 <= x < j + 1 && (#[trigger] ids@[x])@ == k;
                            if x < j {
                                assert(exists|y: int| 0 <= y < j && (#[trigger] ids@[y])@ == k);
                            }
                        }
                        if exists|x: int| 0 <= x < j && (#[trigger] ids@[x])@ == k {
                            let x = choose|x: int| 0 <= x < j && (#[trigger] ids@[x])@ == k;
                            assert(exists|y: int| 0 <= y < j + 1 && (#[trigger] ids@[y])@ == k);
                        }
                    }
                }
            }
            let old_value = match removed {
                Some(v) => v,
                None => {
                    proof { assert(false); }
                    AttributeValue::Marker
                },
            };
            notes.push(Notification::new(
                to_owned(component_id),
                to_owned(element_id),
                NotificationReason::AttributeEdit(AttributeEdit { id: ids[j].clone(), change: AttributeValueChange::Delete(old_value) }),
            ));
            j = j + 1;
        }
        let ghost sm = state_model(st);
        self.put_state(element_id, st);
        proof {
            let gone = Set::new(|k: Seq<char>| exists|x: int| 0 <= x < ids@.len() && (#[trigger] ids@[x])@ == k);
            assert(a0.remove_keys(gone) =~= a0.remove_keys(del)) by {
                assert forall|k: Seq<char>| a0.dom().contains(k) implies (gone.contains(k) <==> #[trigger] del.contains(k)) by {
                    if del.contains(k) {
                        assert(exists|x: int| 0 <= x < ids@.len() && (#[trigger] ids@[x])@ == k);
                    }
                }
            }
            assert(sm.attributes =~= m0[element_id@].attributes.remove_keys(del));
            assert(self@ =~= after_delete_attribute(m0, element_id@, attribute_id@, exact));
            assert forall|k: Seq<char>| m0.dom().contains(element_id@) && #[trigger] m0[element_id@].attributes.dom().contains(k)
                && deleted_by(attribute_id@, exact, k) implies exists|i: int| 0 <= i < notes@.len() && deleted_id(#[trigger] notes@[i]) == k by {
                assert(a0.dom().contains(k));
                let x = choose|x: int| 0 <= x < ids@.len() && (#[trigger] ids@[x])@ == k;
                assert(deleted_id(notes@[x]) == k);
            }
            assert forall|a: int, b: int| 0 <= a < notes@.len() && 0 <= b < notes@.len() && a != b implies
                deleted_id(#[trigger] notes@[a]) != deleted_id(#[trigger] notes@[b]) by {
                assert(ids@[a]@ != ids@[b]@);
            }
        }
        notes
    }

    /// A copy of all elements and their states.
    pub fn get_states(&self) -> (r: StringMap<State>)
        requires
            self.wf(),
        ensures
            r.wf(),
            forall|k: Seq<char>| #[trigger] r@.dom().contains(k) ==> r@[k].wf(),
            r@.map_values(|s: State| state_model(s)) == self@,
    {
        let entries = self.states.entries();
        proof { self.states.lemma_entries(); }
        let mut r: StringMap<State> = StringMap::new();
        let mut i: usize = 0;
        while i < entries.len()
            invariant
                i <= entries@.len(),
                self.wf(),
                entries@ == self.states.entries_spec(),
                keys_distinct(entries@),
                self.states@ == entries_map(entries@),
                r.wf(),
                forall|k: Seq<char>| #[trigger] r@.dom().contains(k) ==> r@[k].wf(),
                r@.map_values(|s: State| state_model(s)) == entries_map(entries@.take(i as int)).map_values(|s: State| state_model(s)),
            decreases entries@.len() - i,
        {
            let ghost before = r@;
            proof {
                lemma_entries_map_at(entries@, i as int);
            }
            let key = entries[i].0.clone();
            let st = entries[i].1.clone_state();
            let ghost sm = state_model(st);
            assert(sm == state_model(entries@[i as int].1));
            let ghost stored = st;
            r.insert(key, st);
            proof {
                let t = entries@.take(i as int);
                assert(entries@.take(i + 1) =~= t.push(entries@[i as int]));
                assert forall|j: int| 0 <= j < t.len() implies t[j].0@ != entries@[i as int].0@ by {
                    assert(entries@[j].0@ != entries@[i as int].0@);
                }
                lemma_entries_map_push(t, entries@[i as int]);
                lemma_map_values_insert(before, entries_map(t), entries@[i as int].0@, stored, entries@[i as int].1, |s: State| state_model(s));
                assert forall|k: Seq<char>| #[trigger] r@.dom().contains(k) implies r@[k].wf() by {
                    if k != entries@[i as int].0@ {
                        assert(before.dom().contains(k));
                    }
                }
            }
            i = i + 1;
        }
        proof {
            assert(entries@.take(entries@.len() as int) =~= entries@);
            assert(r@.map_values(|s: State| state_model(s)) =~= self@);
        }
        r
    }

    /// The value of attribute `attribute_id` of element `element_id`, if any.
    pub fn get_attribute(&self, element_id: &str, attribute_id: &str) -> (r: Option<AttributeValue>)
        requires
            self.wf(),
        ensures
            match r {
                Some(v) => self@.dom().contains(element_id@) && self@[element_id@].attributes.dom().contains(attribute_id@)
                    && v@ == self@[element_id@].attributes[attribute_id@],
                None => !(self@.dom().contains(element_id@) && self@[element_id@].attributes.dom().contains(attribute_id@)),
            },
    {
        match self.states.get(element_id) {
            None => None,
            Some(st) => match st.attributes.get(attribute_id) {
                None => None,
                Some(v) => Some(v.clone_value()),
            },
        }
    }

    /// The online state of element `element_id`, if the element is known.
    pub fn get_online_state(&self, element_id: &str) -> (r: Option<bool>)
        requires
            self.wf(),
        ensures
            r == if self@.dom().contains(element_id@) { Some(self@[element_id@].online) } else { None::<bool> },
    {
        match self.states.get(element_id) {
            None => None,
            Some(st) => Some(st.online),
        }
    }
}

/// The id of the attribute a notification is about (empty for other notifications).
pub open spec fn deleted_id(n: Notification) -> Seq<char> {
    match n.reason {
        NotificationReason::AttributeEdit(edit) => edit.id@,
        _ => Seq::empty(),
    }
}

} // verus!

verus! {

/// Reading an attribute right after setting it gives the value that was set.
pub proof fn law_read_after_set(m: Map<Seq<char>, ElementModel>, e: Seq<char>, a: Seq<char>, v: AttributeValueModel)
    ensures
        after_set_attribute(m, e, a, v).dom().contains(e),
        after_set_attribute(m, e, a, v)[e].attributes.dom().contains(a),
        after_set_attribute(m, e, a, v)[e].attributes[a] == v,
{
}

/// Setting an attribute changes nothing but that attribute: other elements, the
/// element's online state (if the element was known) and its other attributes stay.
pub proof fn law_set_touches_only_its_attribute(
    m: Map<Seq<char>, ElementModel>,
    e: Seq<char>,
    a: Seq<char>,
    v: AttributeValueModel,
    other_element: Seq<char>,
    other_attribute: Seq<char>,
)
    requires
        other_element != e,
        other_attribute != a,
    ensures
        after_set_attribute(m, e, a, v).dom().contains(other_element) == m.dom().contains(other_element),
        m.dom().contains(other_element) ==> after_set_attribute(m, e, a, v)[other_element] == m[other_element],
        m.dom().contains(e) ==> after_set_attribute(m, e, a, v)[e].online == m[e].online,
        m.dom().contains(e) ==> after_set_attribute(m, e, a, v)[e].attributes.dom().contains(other_attribute)
            == m[e].attributes.dom().contains(other_attribute),
        m.dom().contains(e) && m[e].attributes.dom().contains(other_attribute) ==> after_set_attribute(m, e, a, v)[e].attributes[other_attribute]
            == m[e].attributes[other_attribute],
{
}

/// Deleting (exactly) an attribute that was just created on a known element
/// restores the states from before its creation.
pub proof fn law_delete_undoes_create(m: Map<Seq<char>, ElementModel>, e: Seq<char>, a: Seq<char>, v: AttributeValueModel)
    requires
        m.dom().contains(e),
        !m[e].attributes.dom().contains(a),
    ensures
        after_delete_attribute(after_set_attribute(m, e, a, v), e, a, true) == m,
{
    let m1 = after_set_attribute(m, e, a, v);
    let m2 = after_delete_attribute(m1, e, a, true);
    let del = Set::new(|k: Seq<char>| deleted_by(a, true, k));
    assert(m1[e].attributes.remove_keys(del) =~= m[e].attributes);
    assert(m2 =~= m);
}

/// After an exact delete the attribute is gone; after a delete that is not exact,
/// neither the attribute nor any of its sub-attributes remains. Every other
/// attribute stays as it was.
pub proof fn law_delete_removes_matching(m: Map<Seq<char>, ElementModel>, e: Seq<char>, a: Seq<char>, exact: bool, k: Seq<char>)
    requires
        m.dom().contains(e),
    ensures
        deleted_by(a, exact, k) ==> !after_delete_attribute(m, e, a, exact)[e].attributes.dom().contains(k),
        !deleted_by(a, exact, k) ==> after_delete_attribute(m, e, a, exact)[e].attributes.dom().contains(k)
            == m[e].attributes.dom().contains(k),
        !deleted_by(a, exact, k) && m[e].attributes.dom().contains(k) ==> after_delete_attribute(m, e, a, exact)[e].attributes[k]
            == m[e].attributes[k],
        after_delete_attribute(m, e, a, exact)[e].online == m[e].online,
{
    let del = Set::new(|x: Seq<char>| deleted_by(a, exact, x));
    assert(del.contains(k) == deleted_by(a, exact, k));
}

/// Setting the online state twice to the same value is the same as setting it
/// once, and after the first time the element is known with that state, so the
/// second call sends no notification.
pub proof fn law_set_online_idempotent(m: Map<Seq<char>, ElementModel>, e: Seq<char>, s: bool)
    ensures
        after_set_online(after_set_online(m, e, s), e, s) == after_set_online(m, e, s),
        after_set_online(m, e, s).dom().contains(e),
        after_set_online(m, e, s)[e].online == s,
{
    assert(after_set_online(after_set_online(m, e, s), e, s) =~= after_set_online(m, e, s));
}

/// Changing the online state never changes any attribute.
pub proof fn law_online_keeps_attributes(m: Map<Seq<char>, ElementModel>, e: Seq<char>, s: bool)
    requires
        m.dom().contains(e),
    ensures
        after_set_online(m, e, s)[e].attributes == m[e].attributes,
{
}

} // verus!
