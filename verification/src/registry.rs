//! The server's registry of components: which are loaded, which send
//! notifications, and which depend on which, so that removing a component also
//! removes every component that depends on it.
use vstd::prelude::*;
use crate::auth::holds_string;
use crate::config::Global;
use crate::string_map::StringMap;
use crate::strutil::str_eq;
use crate::tasks::ids_distinct;

verus! {

/// What the registry knows of a loaded component.
pub struct ComponentInfo {
    /// The components that depend on this one.
    pub required_by: Vec<String>,
    /// Whether the component receives notifications.
    pub notifies: bool,
}

/// Whether adding a component goes ahead.
#[derive(Clone, Copy, Debug, PartialEq, Eq, Structural)]
pub enum Admission {
    /// The configuration ignores the component.
    Ignored,
    /// The component is loaded already.
    AlreadyPresent,
    /// The component is to be initialized and registered.
    Admit,
}

/// What a reload of the configuration does with one component.
#[derive(Clone, Copy, Debug, PartialEq, Eq, Structural)]
pub enum ReloadAction {
    /// The component is loaded and now ignored: it is removed, with its dependents.
    Remove,
    /// The component is loaded and not ignored: it takes its new configuration.
    Reconfigure,
    /// The component is not loaded: it is added (adding an ignored one does nothing).
    Add,
}

/// The dependents of `id` in `reg`, if `id` is loaded.
pub open spec fn dependents(reg: Map<Seq<char>, ComponentInfo>, id: Seq<char>) -> Seq<String> {
    if reg.dom().contains(id) {
        reg[id].required_by@
    } else {
        Seq::empty()
    }
}

/// Whether `path` leads through loaded components of `reg`, each step from a
/// component to one that depends on it.
pub open spec fn is_dependency_path(reg: Map<Seq<char>, ComponentInfo>, path: Seq<Seq<char>>) -> bool {
    &&& path.len() > 0
    &&& forall|i: int| 0 <= i < path.len() - 1 ==> reg.dom().contains(#[trigger] path[i]) && holds_string(dependents(reg, path[i]), path[i + 1])
}

/// Whether `to` depends on `from`, directly or through others (or is `from`).
pub open spec fn depends_on(reg: Map<Seq<char>, ComponentInfo>, from: Seq<char>, to: Seq<char>) -> bool {
    exists|path: Seq<Seq<char>>| is_dependency_path(reg, path) && path[0] == from && path.last() == to
}

/// Whether `removed` holds `id` and, with each of its members, every loaded
/// component that depends on that member.
pub open spec fn closed_under_dependents(reg: Map<Seq<char>, ComponentInfo>, id: Seq<char>, removed: Seq<String>) -> bool {
    &&& reg.dom().contains(id) ==> holds_string(removed, id)
    &&& forall|i: int, d: Seq<char>| 0 <= i < removed.len() && #[trigger] holds_string(dependents(reg, removed[i]@), d)
        && reg.dom().contains(d) ==> holds_string(removed, d)
}

/// The set of the texts of `ids`.
pub open spec fn id_set(ids: Seq<String>) -> Set<Seq<char>> {
    Set::new(|k: Seq<char>| holds_string(ids, k))
}

fn contains_id(v: &Vec<String>, s: &str) -> (r: bool)
    ensures
        r == holds_string(v@, s@),
{
    let mut i: usize = 0;
    while i < v.len()
        invariant
            i <= v@.len(),
            forall|j: int| 0 <= j < i ==> v@[j]@ != s@,
        decreases v@.len() - i,
    {
        if str_eq(v[i].as_str(), s) {
            return true;
        }
        i = i + 1;
    }
    false
}

/// The loaded components, by id.
pub struct ComponentRegistry {
    components: StringMap<ComponentInfo>,
}

impl View for ComponentRegistry {
    type V = Map<Seq<char>, ComponentInfo>;

    closed spec fn view(&self) -> Map<Seq<char>, ComponentInfo> {
        self.components@
    }
}

impl ComponentRegistry {
    /// The registry's invariant.
    pub closed spec fn wf(&self) -> bool {
        self.components.wf()
    }

    /// A registry without components.
    pub fn new() -> (r: Self)
        ensures
            r.wf(),
            r@ == Map::<Seq<char>, ComponentInfo>::empty(),
    {
        ComponentRegistry { components: StringMap::new() }
    }

    /// Whether component `id` is loaded.
    pub fn has_component(&self, id: &str) -> (r: bool)
        requires
            self.wf(),
        ensures
            r == self@.dom().contains(id@),
    {
        self.components.contains_key(id)
    }

    /// What reloading the configuration `global` does with component `id`: a
    /// loaded component is removed when it is now ignored and reconfigured
    /// otherwise; one that is not loaded is added.
    pub fn reload_action(&self, global: &Global, id: &str) -> (r: ReloadAction)
        requires
            self.wf(),
        ensures
            r == if !self@.dom().contains(id@) {
                ReloadAction::Add
            } else if global.ignores_spec(id@) {
                ReloadAction::Remove
            } else {
                ReloadAction::Reconfigure
            },
    {
        if !self.components.contains_key(id) {
            ReloadAction::Add
        } else if global.is_ignored(id) {
            ReloadAction::Remove
        } else {
            ReloadAction::Reconfigure
        }
    }

    /// Whether component `id` may be added: not if the configuration ignores it,
    /// nor if it is loaded already.
    pub fn admission(&self, global: &Global, id: &str) -> (r: Admission)
        requires
            self.wf(),
        ensures
            r == if global.ignores_spec(id@) {
                Admission::Ignored
            } else if self@.dom().contains(id@) {
                Admission::AlreadyPresent
            } else {
                Admission::Admit
            },
    {
        if global.is_ignored(id) {
            Admission::Ignored
        } else if self.components.contains_key(id) {
            Admission::AlreadyPresent
        } else {
            Admission::Admit
        }
    }

    /// Registers the newly initialized component `id`, with no dependents.
    pub fn register(&mut self, id: String, notifies: bool)
        requires
            old(self).wf(),
            !old(self)@.dom().contains(id@),
        ensures
            final(self).wf(),
            final(self)@.dom() == old(self)@.dom().insert(id@),
            forall|k: Seq<char>| #[trigger] old(self)@.dom().contains(k) ==> final(self)@[k] == old(self)@[k],
            final(self)@[id@].required_by@.len() == 0,
            final(self)@[id@].notifies == notifies,
    {
        self.components.insert(id, ComponentInfo { required_by: Vec::new(), notifies });
        proof {
            assert(self@.dom() =~= old(self)@.dom().insert(id@));
        }
    }

    /// Marks the loaded component `id` as one that receives notifications; an
    /// unknown id changes nothing.
    pub fn set_notifies(&mut self, id: &str)
        requires
            old(self).wf(),
        ensures
            final(self).wf(),
            final(self)@.dom() == old(self)@.dom(),
            forall|k: Seq<char>| #[trigger] final(self)@.dom().contains(k) ==> final(self)@[k].required_by@ == old(self)@[k].required_by@
                && final(self)@[k].notifies == (old(self)@[k].notifies || k == id@),
    {
        match self.components.remove(id) {
            None => {},
            Some(info) => {
                let ghost before = self@;
                self.components.insert(String::from_str(id), ComponentInfo { required_by: info.required_by, notifies: true });
                proof {
                    assert(self@.dom() =~= old(self)@.dom());
                }
            },
        }
    }

    /// Records that `dependent` depends on the loaded component `id`. Gives back
    /// `false`, changing nothing, when `id` is not loaded.
    pub fn add_dependency(&mut self, id: &str, dependent: &str) -> (r: bool)
        requires
            old(self).wf(),
        ensures
            final(self).wf(),
            r == old(self)@.dom().contains(id@),
            final(self)@.dom() == old(self)@.dom(),
            forall|k: Seq<char>| #[trigger] final(self)@.dom().contains(k) && k != id@ ==> final(self)@[k] == old(self)@[k],
            r ==> final(self)@[id@].notifies == old(self)@[id@].notifies
                && id_set(final(self)@[id@].required_by@) == id_set(old(self)@[id@].required_by@).insert(dependent@)
                && (ids_distinct(old(self)@[id@].required_by@) ==> ids_distinct(final(self)@[id@].required_by@)),
    {
        match self.components.remove(id) {
            None => false,
            Some(info) => {
                let mut required_by = info.required_by;
                let ghost before = required_by@;
                if !contains_id(&required_by, dependent) {
                    required_by.push(String::from_str(dependent));
                    proof {
                        assert(id_set(required_by@) =~= id_set(before).insert(dependent@)) by {
                            assert forall|k: Seq<char>| id_set(required_by@).contains(k) implies id_set(before).insert(dependent@).contains(k) by {
                                let x = choose|x: int| 0 <= x < required_by@.len() && #[trigger] required_by@[x]@ == k;
                                if x < before.len() {
                                    assert(before[x] == required_by@[x]);
                                }
                            }
                            assert forall|k: Seq<char>| id_set(before).insert(dependent@).contains(k) implies id_set(required_by@).contains(k) by {
                                if k == dependent@ {
                                    assert(required_by@[before.len() as int]@ == k);
                                } else {
                                    let x = choose|x: int| 0 <= x < before.len() && #[trigger] before[x]@ == k;
                                    assert(required_by@[x] == before[x]);
                                }
                            }
                        }
                    }
                } else {
                    proof {
                        assert(id_set(required_by@) =~= id_set(before).insert(dependent@));
                    }
                }
                self.components.insert(String::from_str(id), ComponentInfo { required_by, notifies: info.notifies });
                proof {
                    assert(self@.dom() =~= old(self)@.dom());
                }
                true
            },
        }
    }

    /// The loaded components that receive notifications, in stored order.
    pub fn providers(&self) -> (r: Vec<String>)
        requires
            self.wf(),
        ensures
            ids_distinct(r@),
            forall|k: Seq<char>| holds_string(r@, k) <==> self@.dom().contains(k) && self@[k].notifies,
    {
        let entries = self.components.entries();
        proof { self.components.lemma_entries(); }
        let ghost es = entries@;
        let mut r: Vec<String> = Vec::new();
        let ghost mut idx: Seq<int> = Seq::empty();
        let mut i: usize = 0;
        while i < entries.len()
            invariant
                es == entries@,
                es == self.components.entries_spec(),
                crate::string_map::keys_distinct(es),
                self@ == crate::string_map::entries_map(es),
                i <= es.len(),
                idx.len() == r@.len(),
                forall|x: int| 0 <= x < idx.len() ==> 0 <= #[trigger] idx[x] < i && es[idx[x]].0@ == r@[x]@ && es[idx[x]].1.notifies,
                forall|a: int, b: int| 0 <= a < b < idx.len() ==> #[trigger] idx[a] < #[trigger] idx[b],
                forall|l: int| 0 <= l < i && (#[trigger] es[l]).1.notifies ==> holds_string(r@, es[l].0@),
            decreases es.len() - i,
        {
            if entries[i].1.notifies {
                let ghost before = r@;
                r.push(entries[i].0.clone());
                proof {
                    idx = idx.push(i as int);
                    assert forall|l: int| 0 <= l < i + 1 && (#[trigger] es[l]).1.notifies implies holds_string(r@, es[l].0@) by {
                        if l < i {
                            let x = choose|x: int| 0 <= x < before.len() && #[trigger] before[x]@ == es[l].0@;
                            assert(r@[x] == before[x]);
                        } else {
                            assert(r@[r@.len() - 1]@ == es[l].0@);
                        }
                    }
                }
            }
            i = i + 1;
        }
        proof {
            assert forall|a: int, b: int| 0 <= a < r@.len() && 0 <= b < r@.len() && a != b implies (#[trigger] r@[a])@ != (#[trigger] r@[b])@ by {
                if a < b {
                    assert(idx[a] < idx[b]);
                } else {
                    assert(idx[b] < idx[a]);
                }
            }
            assert forall|k: Seq<char>| holds_string(r@, k) implies self@.dom().contains(k) && self@[k].notifies by {
                let x = choose|x: int| 0 <= x < r@.len() && #[trigger] r@[x]@ == k;
                crate::string_map::lemma_entries_map_at(es, idx[x]);
            }
            assert forall|k: Seq<char>| self@.dom().contains(k) && self@[k].notifies implies holds_string(r@, k) by {
                let l = crate::string_map::key_index(es, k);
                crate::string_map::lemma_entries_map_at(es, l);
            }
        }
        r
    }

    /// Removes component `id` together with every loaded component that depends
    /// on it, directly or through others, and gives back the removed ids in the
    /// order of removal. An unknown id removes nothing.
    pub fn remove_component(&mut self, id: &str) -> (removed: Vec<String>)
        requires
            old(self).wf(),
        ensures
            final(self).wf(),
            ids_distinct(removed@),
            closed_under_dependents(old(self)@, id@, removed@),
            forall|i: int| 0 <= i < removed@.len() ==> old(self)@.dom().contains(#[trigger] removed@[i]@)
                && depends_on(old(self)@, id@, removed@[i]@),
            final(self)@ == old(self)@.remove_keys(id_set(removed@)),
    {
        let ghost reg0 = self@;
        let mut removed: Vec<String> = Vec::new();
        let mut work: Vec<String> = Vec::new();
        work.push(String::from_str(id));
        let ghost mut paths: Map<Seq<char>, Seq<Seq<char>>> = Map::empty().insert(id@, seq![id@]);
        proof {
            assert(self@ =~= reg0.remove_keys(id_set(removed@)));
            assert(is_dependency_path(reg0, seq![id@]));
            assert(work@[0]@ == id@);
        }
        while work.len() > 0
            invariant
                self.wf(),
                self@ == reg0.remove_keys(id_set(removed@)),
                ids_distinct(removed@),
                forall|i: int| 0 <= i < removed@.len() ==> reg0.dom().contains(#[trigger] removed@[i]@),
                forall|k: Seq<char>| #[trigger] paths.dom().contains(k) ==> is_dependency_path(reg0, paths[k])
                    && paths[k][0] == id@ && paths[k].last() == k,
                forall|i: int| 0 <= i < removed@.len() ==> paths.dom().contains(#[trigger] removed@[i]@),
                forall|i: int| 0 <= i < work@.len() ==> paths.dom().contains(#[trigger] work@[i]@),
                reg0.dom().contains(id@) ==> holds_string(removed@, id@) || holds_string(work@, id@),
                forall|i: int, d: Seq<char>| 0 <= i < removed@.len() && #[trigger] holds_string(dependents(reg0, removed@[i]@), d)
                    && reg0.dom().contains(d) ==> holds_string(removed@, d) || holds_string(work@, d),
            decreases self@.dom().len(), work@.len(),
        {
            let ghost work_all = work@;
            let x = work.pop().unwrap();
            let ghost work_rest = work@;
            proof {
                assert(work_all =~= work_rest.push(x));
            }
            proof { self.components.lemma_entries(); }
            let ghost size_before = self@.dom().len();
            match self.components.remove(x.as_str()) {
                None => {
                    // Removed already, or never loaded: nothing more to do for it.
                    proof {
                        assert(!self@.dom().contains(x@));
                        assert forall|i: int, d: Seq<char>| 0 <= i < removed@.len() && #[trigger] holds_string(dependents(reg0, removed@[i]@), d)
                            && reg0.dom().contains(d) implies holds_string(removed@, d) || holds_string(work@, d) by {
                            if !holds_string(removed@, d) {
                                assert(holds_string(work_rest.push(x), d));
                                let w = choose|w: int| 0 <= w < work_rest.push(x).len() && #[trigger] work_rest.push(x)[w]@ == d;
                                if w == work_rest.len() {
                                    assert(x@ == d);
                                    assert(!(reg0.dom().contains(d) && !id_set(removed@).contains(d)));
                                    assert(false);
                                } else {
                                    assert(work@[w] == work_rest.push(x)[w]);
                                }
                            }
                        }
                        if reg0.dom().contains(id@) && !holds_string(removed@, id@) {
                            let w = choose|w: int| 0 <= w < work_rest.push(x).len() && #[trigger] work_rest.push(x)[w]@ == id@;
                            if w == work_rest.len() {
                                assert(!id_set(removed@).contains(id@));
                                assert(false);
                            } else {
                                assert(work@[w] == work_rest.push(x)[w]);
                            }
                        }
                        assert forall|i: int| 0 <= i < work@.len() implies paths.dom().contains(#[trigger] work@[i]@) by {
                            assert(work@[i] == work_rest.push(x)[i]);
                        }
                    }
                },
                Some(info) => {
                    let ghost removed_before = removed@;
                    let ghost xpath = paths[x@];
                    proof {
                        assert(work_rest.push(x)[work_rest.len() as int] == x);
                        assert(paths.dom().contains(x@));
                        assert(reg0.dom().contains(x@) && !id_set(removed_before).contains(x@));
                        assert(reg0[x@].required_by == info.required_by);
                    }
                    removed.push(x);
                    proof {
                        assert(self@ =~= reg0.remove_keys(id_set(removed@))) by {
                            assert(id_set(removed@) =~= id_set(removed_before).insert(removed@[removed@.len() - 1]@)) by {
                                assert forall|k: Seq<char>| id_set(removed@).contains(k) implies id_set(removed_before).insert(removed@[removed@.len() - 1]@).contains(k) by {
                                    let y = choose|y: int| 0 <= y < removed@.len() && #[trigger] removed@[y]@ == k;
                                    if y < removed_before.len() {
                                        assert(removed@[y] == removed_before[y]);
                                    }
                                }
                                assert forall|k: Seq<char>| id_set(removed_before).insert(removed@[removed@.len() - 1]@).contains(k) implies id_set(removed@).contains(k) by {
                                    if k != removed@[removed@.len() - 1]@ {
                                        let y = choose|y: int| 0 <= y < removed_before.len() && #[trigger] removed_before[y]@ == k;
                                        assert(removed@[y] == removed_before[y]);
                                    } else {
                                        assert(removed@[removed@.len() - 1]@ == k);
                                    }
                                }
                            }
                        }
                        assert forall|a: int, b: int| 0 <= a < removed@.len() && 0 <= b < removed@.len() && a != b implies (#[trigger] removed@[a])@ != (#[trigger] removed@[b])@ by {
                            if a < removed_before.len() && b < removed_before.len() {
                                assert(removed@[a] == removed_before[a]);
                                assert(removed@[b] == removed_before[b]);
                            } else if a < removed_before.len() {
                                assert(removed@[a] == removed_before[a]);
                                assert(id_set(removed_before).contains(removed_before[a]@));
                            } else {
                                assert(removed@[b] == removed_before[b]);
                                assert(id_set(removed_before).contains(removed_before[b]@));
                            }
                        }
                    }
                    let deps = info.required_by;
                    let mut j: usize = 0;
                    let ghost work_mid = work@;
                    while j < deps.len()
                        invariant
                            j <= deps@.len(),
                            deps@ == reg0[x@].required_by@,
                            reg0.dom().contains(x@),
                            work@ == work_mid + deps@.take(j as int),
                            forall|k: Seq<char>| #[trigger] paths.dom().contains(k) ==> is_dependency_path(reg0, paths[k])
                                && paths[k][0] == id@ && paths[k].last() == k,
                            paths.dom().contains(x@),
                            forall|i: int| 0 <= i < work_mid.len() ==> paths.dom().contains(#[trigger] work_mid[i]@),
                            forall|i: int| 0 <= i < work@.len() ==> paths.dom().contains(#[trigger] work@[i]@),
                            forall|i: int| 0 <= i < removed@.len() ==> paths.dom().contains(#[trigger] removed@[i]@),
                        decreases deps@.len() - j,
                    {
                        let d = deps[j].clone();
                        proof {
                            if !paths.dom().contains(d@) {
                                let p = paths[x@].push(d@);
                                assert(holds_string(dependents(reg0, x@), d@)) by {
                                    assert(deps@[j as int]@ == d@);
                                }
                                assert(is_dependency_path(reg0, p)) by {
                                    assert forall|i: int| 0 <= i < p.len() - 1 implies reg0.dom().contains(#[trigger] p[i]) && holds_string(dependents(reg0, p[i]), p[i + 1]) by {
                                        if i < paths[x@].len() - 1 {
                                            assert(p[i] == paths[x@][i]);
                                            assert(p[i + 1] == paths[x@][i + 1]);
                                        } else {
                                            assert(p[i] == x@);
                                        }
                                    }
                                }
                                paths = paths.insert(d@, p);
                            }
                        }
                        work.push(d);
                        proof {
                            assert(deps@.take(j + 1) =~= deps@.take(j as int).push(deps@[j as int]));
                            assert forall|i: int| 0 <= i < work@.len() implies paths.dom().contains(#[trigger] work@[i]@) by {
                                if i < work@.len() - 1 {
                                    assert(work@[i] == (work_mid + deps@.take(j as int))[i]);
                                }
                            }
                        }
                        j = j + 1;
                    }
                    proof {
                        assert(deps@.take(deps@.len() as int) =~= deps@);
                        assert(self@.dom().len() < size_before) by {
                            assert(self@ =~= reg0.remove_keys(id_set(removed@)));
                        }
                        assert forall|i: int, d: Seq<char>| 0 <= i < removed@.len() && #[trigger] holds_string(dependents(reg0, removed@[i]@), d)
                            && reg0.dom().contains(d) implies holds_string(removed@, d) || holds_string(work@, d) by {
                            if i == removed@.len() - 1 {
                                let y = choose|y: int| 0 <= y < deps@.len() && #[trigger] deps@[y]@ == d;
                                assert(work@[work_mid.len() + y] == deps@[y]);
                            } else {
                                assert(removed@[i] == removed_before[i]);
                                if holds_string(removed_before, d) {
                                    let y = choose|y: int| 0 <= y < removed_before.len() && #[trigger] removed_before[y]@ == d;
                                    assert(removed@[y] == removed_before[y]);
                                } else {
                                    assert(holds_string(work_rest.push(x), d));
                                    let w = choose|w: int| 0 <= w < work_rest.push(x).len() && #[trigger] work_rest.push(x)[w]@ == d;
                                    if w == work_rest.len() {
                                        assert(removed@[removed@.len() - 1]@ == d);
                                    } else {
                                        assert(work@[w] == work_rest[w]);
                                    }
                                }
                            }
                        }
                        if reg0.dom().contains(id@) {
                            if holds_string(removed_before, id@) {
                                let y = choose|y: int| 0 <= y < removed_before.len() && #[trigger] removed_before[y]@ == id@;
                                assert(removed@[y] == removed_before[y]);
                            } else {
                                let w = choose|w: int| 0 <= w < work_rest.push(x).len() && #[trigger] work_rest.push(x)[w]@ == id@;
                                if w == work_rest.len() {
                                    assert(removed@[removed@.len() - 1]@ == id@);
                                } else {
                                    assert(work@[w] == work_rest[w]);
                                }
                            }
                        }
                    }
                },
            }
        }
        proof {
            assert forall|i: int| 0 <= i < removed@.len() implies old(self)@.dom().contains(#[trigger] removed@[i]@)
                && depends_on(old(self)@, id@, removed@[i]@) by {
                let p = paths[removed@[i]@];
                assert(is_dependency_path(reg0, p) && p[0] == id@ && p.last() == removed@[i]@);
            }
        }
        removed
    }

    /// The ids of the loaded components, in the order in which requests are
    /// offered to them.
    pub fn ids(&self) -> (r: Vec<String>)
        requires
            self.wf(),
        ensures
            ids_distinct(r@),
            forall|k: Seq<char>| holds_string(r@, k) <==> self@.dom().contains(k),
    {
        let entries = self.components.entries();
        proof { self.components.lemma_entries(); }
        let ghost es = entries@;
        let mut r: Vec<String> = Vec::new();
        let mut i: usize = 0;
        while i < entries.len()
            invariant
                es == entries@,
                crate::string_map::keys_distinct(es),
                self@ == crate::string_map::entries_map(es),
                i <= es.len(),
                r@.len() == i,
                forall|x: int| 0 <= x < i ==> (#[trigger] r@[x])@ == es[x].0@,
            decreases es.len() - i,
        {
            r.push(entries[i].0.clone());
            i = i + 1;
        }
        proof {
            assert forall|a: int, b: int| 0 <= a < r@.len() && 0 <= b < r@.len() && a != b implies (#[trigger] r@[a])@ != (#[trigger] r@[b])@ by {
                assert(es[a].0@ != es[b].0@);
            }
            assert forall|k: Seq<char>| holds_string(r@, k) implies self@.dom().contains(k) by {
                let x = choose|x: int| 0 <= x < r@.len() && #[trigger] r@[x]@ == k;
                crate::string_map::lemma_entries_map_at(es, x);
            }
            assert forall|k: Seq<char>| self@.dom().contains(k) implies holds_string(r@, k) by {
                let l = crate::string_map::key_index(es, k);
                assert(r@[l]@ == k);
            }
        }
        r
    }
}

proof fn lemma_path_prefix_removed(
    reg: Map<Seq<char>, ComponentInfo>,
    id: Seq<char>,
    removed: Seq<String>,
    path: Seq<Seq<char>>,
    j: int,
)
    requires
        closed_under_dependents(reg, id, removed),
        is_dependency_path(reg, path),
        path[0] == id,
        reg.dom().contains(path.last()),
        0 <= j < path.len(),
    ensures
        holds_string(removed, path[j]),
    decreases j,
{
    if j == 0 {
        if path.len() > 1 {
            assert(reg.dom().contains(path[0]));
        }
    } else {
        lemma_path_prefix_removed(reg, id, removed, path, j - 1);
        let i = choose|i: int| 0 <= i < removed.len() && #[trigger] removed[i]@ == path[j - 1];
        assert(holds_string(dependents(reg, path[j - 1]), path[j]));
        assert(holds_string(dependents(reg, removed[i]@), path[j]));
        if j < path.len() - 1 {
            assert(reg.dom().contains(path[j]));
        }
    }
}

/// Removing a component takes exactly the loaded components that depend on it,
/// directly or through others: what removal gives back is closed under
/// dependents and holds only such components, so it holds each of them.
pub proof fn law_removal_takes_exactly_the_dependents(
    reg: Map<Seq<char>, ComponentInfo>,
    id: Seq<char>,
    removed: Seq<String>,
    k: Seq<char>,
)
    requires
        closed_under_dependents(reg, id, removed),
        forall|i: int| 0 <= i < removed.len() ==> reg.dom().contains(#[trigger] removed[i]@) && depends_on(reg, id, removed[i]@),
        reg.dom().contains(k),
    ensures
        holds_string(removed, k) <==> depends_on(reg, id, k),
{
    if depends_on(reg, id, k) {
        let path = choose|path: Seq<Seq<char>>| is_dependency_path(reg, path) && path[0] == id && path.last() == k;
        lemma_path_prefix_removed(reg, id, removed, path, path.len() - 1);
    }
    if holds_string(removed, k) {
        let i = choose|i: int| 0 <= i < removed.len() && #[trigger] removed[i]@ == k;
        assert(depends_on(reg, id, removed[i]@));
    }
}

} // verus!
