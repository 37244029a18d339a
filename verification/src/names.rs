//! The names component: configured display names become the `name` attribute
//! of their elements, for other components to show elements by.
use vstd::prelude::*;
use crate::backend::{after_set_attribute, attribute_note, sent_by_about, ElementModel, GlobalState};
use crate::notification::{Notification, NotificationReason};
use crate::state::{AttributeValue, AttributeValueModel, ByteCode};
use crate::string_map::{entries_map, key_index, keys_distinct, lemma_entries_map_at, StringMap};

verus! {

/// The attribute that holds an element's name.
pub const NAME_ATTRIBUTE_ID: &'static str = "name";

/// The id under which the component reports changes.
pub const COMPONENT_ID: &'static str = "names";

/// The attribute value that a name becomes.
pub open spec fn name_value(name: String) -> AttributeValueModel {
    AttributeValueModel::Custom(ByteCode::String(name))
}

/// The states after the elements in `ids` got their names from `names` as their
/// `name` attribute; unknown elements among them are created offline.
pub open spec fn after_naming(m: Map<Seq<char>, ElementModel>, names: Map<Seq<char>, String>, ids: Set<Seq<char>>) -> Map<Seq<char>, ElementModel> {
    Map::new(
        |e: Seq<char>| m.dom().contains(e) || ids.contains(e),
        |e: Seq<char>| if ids.contains(e) {
            if m.dom().contains(e) {
                ElementModel { online: m[e].online, attributes: m[e].attributes.insert(NAME_ATTRIBUTE_ID@, name_value(names[e])) }
            } else {
                ElementModel { online: false, attributes: Map::empty().insert(NAME_ATTRIBUTE_ID@, name_value(names[e])) }
            }
        } else {
            m[e]
        },
    )
}

proof fn lemma_naming_empty(m: Map<Seq<char>, ElementModel>, names: Map<Seq<char>, String>)
    ensures
        after_naming(m, names, Set::empty()) == m,
{
    assert(after_naming(m, names, Set::empty()) =~= m);
}

proof fn lemma_naming_step(m: Map<Seq<char>, ElementModel>, names: Map<Seq<char>, String>, ids: Set<Seq<char>>, e: Seq<char>)
    ensures
        after_set_attribute(after_naming(m, names, ids), e, NAME_ATTRIBUTE_ID@, name_value(names[e]))
            == after_naming(m, names, ids.insert(e)),
{
    let before = after_naming(m, names, ids);
    let a = after_set_attribute(before, e, NAME_ATTRIBUTE_ID@, name_value(names[e]));
    let b = after_naming(m, names, ids.insert(e));
    assert(a.dom() =~= b.dom());
    assert forall|x: Seq<char>| a.dom().contains(x) implies a[x] == b[x] by {
        if x == e {
            if ids.contains(e) && m.dom().contains(e) {
                assert(a[x].attributes =~= b[x].attributes);
            } else if ids.contains(e) {
                assert(a[x].attributes =~= b[x].attributes);
            }
        }
    }
    assert(a =~= b);
}

/// The ids whose name a reconfiguration from `old` to `new` sets: those whose
/// name is new or changed.
pub open spec fn renamed(old: Map<Seq<char>, String>, new: Map<Seq<char>, String>) -> Set<Seq<char>> {
    Set::new(|e: Seq<char>| new.dom().contains(e) && !(old.dom().contains(e) && old[e]@ == new[e]@))
}

/// Whether `n` is one that naming the elements in `ids`, starting from states
/// `m`, sends: the announcement of an element that `m` lacks, created offline, or
/// the setting of an element's `name` attribute to its name in `names`, reported
/// against the element's state in `m`.
pub open spec fn naming_note(n: Notification, m: Map<Seq<char>, ElementModel>, names: Map<Seq<char>, String>, ids: Set<Seq<char>>) -> bool {
    &&& n.component_id@ == COMPONENT_ID@
    &&& ids.contains(n.element_id@)
    &&& ((n.reason == NotificationReason::NewElement(false) && !m.dom().contains(n.element_id@))
        || attribute_note(n, m, n.element_id@, NAME_ATTRIBUTE_ID@, name_value(names[n.element_id@])))
}

/// Whether `n` reports an attribute of element `e` as set.
pub open spec fn names_element(n: Notification, e: Seq<char>) -> bool {
    n.element_id@ == e && n.reason is AttributeEdit
}

/// Whether `n` announces element `e` as created offline.
pub open spec fn announces(n: Notification, e: Seq<char>) -> bool {
    n.element_id@ == e && n.reason == NotificationReason::NewElement(false)
}

/// Whether two notifications are of the same kind about the same element.
pub open spec fn same_kind(a: Notification, b: Notification) -> bool {
    a.element_id@ == b.element_id@ && (a.reason is AttributeEdit) == (b.reason is AttributeEdit)
}

/// Whether `notes` are exactly what naming the elements in `ids` from states `m`
/// sends, in some order: for each element one notification that its `name`
/// attribute is set, preceded for an element that `m` lacks by one that announces
/// it, and nothing else.
pub open spec fn naming_notes(notes: Seq<Notification>, m: Map<Seq<char>, ElementModel>, names: Map<Seq<char>, String>, ids: Set<Seq<char>>) -> bool {
    &&& forall|i: int| 0 <= i < notes.len() ==> naming_note(#[trigger] notes[i], m, names, ids)
    &&& forall|i: int, j: int| 0 <= i < notes.len() && 0 <= j < notes.len() && i != j ==> !same_kind(#[trigger] notes[i], #[trigger] notes[j])
    &&& forall|e: Seq<char>| #[trigger] ids.contains(e) ==> exists|i: int| 0 <= i < notes.len() && names_element(#[trigger] notes[i], e)
    &&& forall|e: Seq<char>| ids.contains(e) && !(#[trigger] m.dom().contains(e)) ==> exists|i: int| 0 <= i < notes.len() && announces(#[trigger] notes[i], e)
}

proof fn lemma_naming_notes_empty(m: Map<Seq<char>, ElementModel>, names: Map<Seq<char>, String>)
    ensures
        naming_notes(Seq::empty(), m, names, Set::empty()),
{
}

proof fn lemma_naming_notes_step(
    before: Seq<Notification>,
    more: Seq<Notification>,
    m: Map<Seq<char>, ElementModel>,
    names: Map<Seq<char>, String>,
    done: Set<Seq<char>>,
    e: Seq<char>,
)
    requires
        naming_notes(before, m, names, done),
        !done.contains(e),
        more.len() == if after_naming(m, names, done).dom().contains(e) { 1int } else { 2int },
        forall|i: int| 0 <= i < more.len() ==> sent_by_about(#[trigger] more[i], COMPONENT_ID@, e),
        !after_naming(m, names, done).dom().contains(e) ==> more[0].reason == NotificationReason::NewElement(false),
        attribute_note(more.last(), after_naming(m, names, done), e, NAME_ATTRIBUTE_ID@, name_value(names[e])),
    ensures
        naming_notes(before + more, m, names, done.insert(e)),
{
    let st = after_naming(m, names, done);
    let all = before + more;
    let ids = done.insert(e);
    assert(st.dom().contains(e) == m.dom().contains(e));
    assert(m.dom().contains(e) ==> st[e] == m[e]);
    let last = more.last();
    assert(attribute_note(last, m, e, NAME_ATTRIBUTE_ID@, name_value(names[e])));
    assert forall|i: int| 0 <= i < all.len() implies naming_note(#[trigger] all[i], m, names, ids) by {
        if i < before.len() {
            assert(all[i] == before[i]);
            assert(naming_note(before[i], m, names, done));
        } else {
            assert(all[i] == more[i - before.len()]);
            if i - before.len() == more.len() - 1 {
                assert(all[i] == last);
            } else {
                assert(i - before.len() == 0);
            }
        }
    }
    assert forall|i: int, j: int| 0 <= i < all.len() && 0 <= j < all.len() && i != j implies !same_kind(#[trigger] all[i], #[trigger] all[j]) by {
        if i < before.len() && j < before.len() {
            assert(all[i] == before[i] && all[j] == before[j]);
        } else if i < before.len() {
            assert(all[i] == before[i]);
            assert(naming_note(before[i], m, names, done));
            assert(all[j] == more[j - before.len()]);
            assert(sent_by_about(more[j - before.len()], COMPONENT_ID@, e));
        } else if j < before.len() {
            assert(all[j] == before[j]);
            assert(naming_note(before[j], m, names, done));
            assert(all[i] == more[i - before.len()]);
            assert(sent_by_about(more[i - before.len()], COMPONENT_ID@, e));
        } else {
            assert(all[i] == more[i - before.len()] && all[j] == more[j - before.len()]);
            assert(more.len() == 2);
            assert(more[1] == last);
        }
    }
    assert forall|x: Seq<char>| #[trigger] ids.contains(x) implies exists|i: int| 0 <= i < all.len() && names_element(#[trigger] all[i], x) by {
        if x == e {
            assert(all[all.len() - 1] == last);
            assert(sent_by_about(more[more.len() - 1], COMPONENT_ID@, e));
            assert(names_element(all[all.len() - 1], x));
        } else {
            assert(done.contains(x));
            let i = choose|i: int| 0 <= i < before.len() && names_element(#[trigger] before[i], x);
            assert(all[i] == before[i]);
            assert(names_element(all[i], x));
        }
    }
    assert forall|x: Seq<char>| ids.contains(x) && !(#[trigger] m.dom().contains(x)) implies exists|i: int| 0 <= i < all.len() && announces(#[trigger] all[i], x) by {
        if x == e {
            assert(all[before.len() as int] == more[0]);
            assert(sent_by_about(more[0], COMPONENT_ID@, e));
            assert(announces(all[before.len() as int], x));
        } else {
            assert(done.contains(x));
            let i = choose|i: int| 0 <= i < before.len() && announces(#[trigger] before[i], x);
            assert(all[i] == before[i]);
            assert(announces(all[i], x));
        }
    }
}

/// The ids that naming with `names` sets: all of them, or, given the previous
/// names, those that are new or changed.
spec fn apply_target(names: Map<Seq<char>, String>, previous: Option<&StringMap<String>>) -> Set<Seq<char>> {
    match previous {
        Some(p) => renamed(p@, names),
        None => names.dom(),
    }
}

/// The names component.
pub struct Names {
    /// The configured names, by element id.
    pub config: StringMap<String>,
}

impl Names {
    fn apply(state: &mut GlobalState, names: &StringMap<String>, previous: Option<&StringMap<String>>) -> (notes: Vec<Notification>)
        requires
            old(state).wf(),
            names.wf(),
            previous matches Some(p) ==> p.wf(),
        ensures
            final(state).wf(),
            final(state)@ == after_naming(old(state)@, names@, apply_target(names@, previous)),
            naming_notes(notes@, old(state)@, names@, apply_target(names@, previous)),
    {
        let ghost m0 = state@;
        let ghost target = match previous {
            Some(p) => renamed(p@, names@),
            None => names@.dom(),
        };
        let entries = names.entries();
        proof { names.lemma_entries(); }
        let ghost es = entries@;
        let mut notes: Vec<Notification> = Vec::new();
        let ghost mut done: Set<Seq<char>> = Set::empty();
        let mut i: usize = 0;
        proof {
            lemma_naming_empty(m0, names@);
            lemma_naming_notes_empty(m0, names@);
        }
        while i < entries.len()
            invariant
                es == entries@,
                keys_distinct(es),
                names@ == entries_map(es),
                names.wf(),
                previous matches Some(p) ==> p.wf(),
                target == match previous {
                    Some(p) => renamed(p@, names@),
                    None => names@.dom(),
                },
                i <= es.len(),
                state.wf(),
                state@ == after_naming(m0, names@, done),
                done == Set::new(|e: Seq<char>| target.contains(e) && exists|l: int| 0 <= l < i && #[trigger] es[l].0@ == e),
                naming_notes(notes@, m0, names@, done),
            decreases es.len() - i,
        {
            proof { lemma_entries_map_at(es, i as int); }
            let id = &entries[i].0;
            let name = &entries[i].1;
            let set_it = match previous {
                None => true,
                Some(p) => match p.get(id.as_str()) {
                    None => true,
                    Some(old_name) => !crate::strutil::str_eq(old_name.as_str(), name.as_str()),
                },
            };
            let ghost next = Set::new(|e: Seq<char>| target.contains(e) && exists|l: int| 0 <= l < i + 1 && #[trigger] es[l].0@ == e);
            if set_it {
                proof {
                    lemma_naming_step(m0, names@, done, id@);
                    assert(target.contains(id@));
                    assert(!done.contains(id@)) by {
                        if done.contains(id@) {
                            let l = choose|l: int| 0 <= l < i && #[trigger] es[l].0@ == id@;
                            assert(es[l].0@ != es[i as int].0@);
                        }
                    }
                    assert(next =~= done.insert(id@)) by {
                        assert forall|e: Seq<char>| next.contains(e) implies done.insert(id@).contains(e) by {
                            if e != id@ {
                                let l = choose|l: int| 0 <= l < i + 1 && #[trigger] es[l].0@ == e;
                                assert(l < i);
                            }
                        }
                        assert forall|e: Seq<char>| done.insert(id@).contains(e) implies next.contains(e) by {
                            if e == id@ {
                                assert(es[i as int].0@ == e);
                            } else {
                                let l = choose|l: int| 0 <= l < i && #[trigger] es[l].0@ == e;
                                assert(es[l].0@ == e);
                            }
                        }
                    }
                }
                let mut more = state.set_attribute(
                    COMPONENT_ID,
                    id.as_str(),
                    NAME_ATTRIBUTE_ID,
                    AttributeValue::Custom(ByteCode::String(name.clone())),
                );
                let ghost before = notes@;
                let ghost extra = more@;
                notes.append(&mut more);
                proof {
                    assert(names@[id@] == *name);
                    assert(notes@ =~= before + extra);
                    lemma_naming_notes_step(before, extra, m0, names@, done, id@);
                }
            } else {
                proof {
                    assert(!target.contains(id@));
                    assert(next =~= done) by {
                        assert forall|e: Seq<char>| next.contains(e) implies done.contains(e) by {
                            let l = choose|l: int| 0 <= l < i + 1 && #[trigger] es[l].0@ == e;
                            if l == i {
                                assert(e == id@);
                            }
                        }
                        assert forall|e: Seq<char>| done.contains(e) implies next.contains(e) by {
                            let l = choose|l: int| 0 <= l < i && #[trigger] es[l].0@ == e;
                            assert(es[l].0@ == e);
                        }
                    }
                }
            }
            proof { done = next; }
            i = i + 1;
        }
        proof {
            assert(done =~= target) by {
                assert forall|e: Seq<char>| target.contains(e) implies done.contains(e) by {
                    assert(names@.dom().contains(e));
                    let l = key_index(es, e);
                    assert(es[l].0@ == e);
                }
            }
        }
        notes
    }

    /// The component with the names of `config`, each of which is set as its
    /// element's `name` attribute.
    pub fn init(state: &mut GlobalState, config: StringMap<String>) -> (r: (Self, Vec<Notification>))
        requires
            old(state).wf(),
            config.wf(),
        ensures
            final(state).wf(),
            final(state)@ == after_naming(old(state)@, config@, config@.dom()),
            r.0.config == config,
            naming_notes(r.1@, old(state)@, config@, config@.dom()),
    {
        let notes = Self::apply(state, &config, None);
        proof {
            assert(apply_target(config@, None) =~= config@.dom());
        }
        (Names { config }, notes)
    }

    /// Takes new names: each name that is new or changed is set as its element's
    /// `name` attribute; names no longer configured stay where they are.
    pub fn reconfigure(&mut self, state: &mut GlobalState, config: StringMap<String>) -> (notes: Vec<Notification>)
        requires
            old(state).wf(),
            old(self).config.wf(),
            config.wf(),
        ensures
            final(state).wf(),
            final(state)@ == after_naming(old(state)@, config@, renamed(old(self).config@, config@)),
            final(self).config == config,
            naming_notes(notes@, old(state)@, config@, renamed(old(self).config@, config@)),
    {
        let notes = Self::apply(state, &config, Some(&self.config));
        self.config = config;
        notes
    }
}

/// Reconfiguring with unchanged names sets nothing.
pub proof fn law_unchanged_names_set_nothing(m: Map<Seq<char>, ElementModel>, names: Map<Seq<char>, String>)
    ensures
        after_naming(m, names, renamed(names, names)) == m,
{
    assert(renamed(names, names) =~= Set::empty());
    lemma_naming_empty(m, names);
}

} // verus!
