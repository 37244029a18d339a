//! Reconfiguring components that run one task per configured element: which
//! tasks stop and which start when the configuration changes.
use vstd::prelude::*;
use crate::auth::holds_string;
use crate::string_map::{entries_map, key_index, keys_distinct, lemma_entries_map_at, StringMap};

verus! {

/// A configuration whose tasks are restarted when it changes.
pub trait SameConfig: Sized {
    /// Whether the two configurations are the same.
    spec fn same(&self, other: &Self) -> bool;

    /// A configuration is the same as itself.
    proof fn lemma_same_reflexive(&self)
        ensures
            self.same(self),
    ;

    /// Whether the two configurations are the same.
    fn same_as(&self, other: &Self) -> (r: bool)
        ensures
            r == self.same(other),
    ;
}

/// Whether the task of element `id` stops when `running` is replaced by `new`:
/// it is no longer configured, or its configuration changed.
pub open spec fn stops<C: SameConfig>(running: Map<Seq<char>, C>, new: Map<Seq<char>, C>, id: Seq<char>) -> bool {
    running.dom().contains(id) && (!new.dom().contains(id) || !running[id].same(&new[id]))
}

/// Whether a task for element `id` starts when `running` is replaced by `new`:
/// it is newly configured, or its configuration changed.
pub open spec fn starts<C: SameConfig>(running: Map<Seq<char>, C>, new: Map<Seq<char>, C>, id: Seq<char>) -> bool {
    new.dom().contains(id) && (!running.dom().contains(id) || !running[id].same(&new[id]))
}

/// Whether no two of `ids` are the same.
pub open spec fn ids_distinct(ids: Seq<String>) -> bool {
    forall|i: int, j: int| 0 <= i < ids.len() && 0 <= j < ids.len() && i != j ==> (#[trigger] ids[i])@ != (#[trigger] ids[j])@
}

/// The tasks to stop and to start for a change of configuration.
pub struct Reconfiguration {
    /// The elements whose tasks stop.
    pub stop: Vec<String>,
    /// The elements whose tasks start, each with its configuration in the new map.
    pub start: Vec<String>,
}

/// The ids, in stored order, of the entries of `from` that `other` lacks or holds
/// with another configuration: the tasks that stop when `from` is the running
/// configuration, or that start when it is the new one.
fn select<C: SameConfig>(from: &StringMap<C>, other: &StringMap<C>, from_is_running: bool) -> (r: Vec<String>)
    requires
        from.wf(),
        other.wf(),
    ensures
        ids_distinct(r@),
        from_is_running ==> forall|k: Seq<char>| holds_string(r@, k) <==> stops(from@, other@, k),
        !from_is_running ==> forall|k: Seq<char>| holds_string(r@, k) <==> starts(other@, from@, k),
{
    let entries = from.entries();
    proof { from.lemma_entries(); }
    let ghost es = entries@;
    let mut r: Vec<String> = Vec::new();
    let ghost mut idx: Seq<int> = Seq::empty();
    let mut i: usize = 0;
    while i < entries.len()
        invariant
            es == entries@,
            es == from.entries_spec(),
            keys_distinct(es),
            from@ == entries_map(es),
            from.wf(),
            other.wf(),
            i <= es.len(),
            idx.len() == r@.len(),
            forall|x: int| 0 <= x < idx.len() ==> 0 <= #[trigger] idx[x] < i && es[idx[x]].0@ == r@[x]@,
            forall|a: int, b: int| 0 <= a < b < idx.len() ==> #[trigger] idx[a] < #[trigger] idx[b],
            forall|x: int| 0 <= x < r@.len() ==> (from_is_running ==> stops(from@, other@, #[trigger] r@[x]@))
                && (!from_is_running ==> starts(other@, from@, r@[x]@)),
            forall|l: int| 0 <= l < i ==> (from_is_running && stops(from@, other@, #[trigger] es[l].0@) ==> holds_string(r@, es[l].0@))
                && (!from_is_running && starts(other@, from@, es[l].0@) ==> holds_string(r@, es[l].0@)),
        decreases es.len() - i,
    {
        proof { lemma_entries_map_at(es, i as int); }
        let id = &entries[i].0;
        let changed = match other.get(id.as_str()) {
            None => true,
            Some(c) => {
                if from_is_running {
                    !entries[i].1.same_as(c)
                } else {
                    !c.same_as(&entries[i].1)
                }
            },
        };
        if changed {
            let ghost before = r@;
            r.push(id.clone());
            proof {
                idx = idx.push(i as int);
                assert forall|l: int| 0 <= l < i + 1 implies (from_is_running && stops(from@, other@, #[trigger] es[l].0@) ==> holds_string(r@, es[l].0@))
                    && (!from_is_running && starts(other@, from@, es[l].0@) ==> holds_string(r@, es[l].0@)) by {
                    if l < i {
                        if holds_string(before, es[l].0@) {
                            let x = choose|x: int| 0 <= x < before.len() && #[trigger] before[x]@ == es[l].0@;
                            assert(r@[x] == before[x]);
                        }
                    } else {
                        assert(r@[r@.len() - 1]@ == es[l].0@);
                    }
                }
            }
        }
        i = i + 1;
    }
    proof {
        assert forall|a: int, b: int| 0 <= a < r@.len() && 0 <= b < r@.len() && a != b implies (#[trigger] r@[a])@ != (#[trigger] r@[b])@ by {
            if a < b {
                assert(idx[a] < idx[b]);
            } else {
                assert(idx[b] < idx[a]);
            }
        }
        assert forall|k: Seq<char>| from_is_running && #[trigger] holds_string(r@, k) implies stops(from@, other@, k) by {
            let x = choose|x: int| 0 <= x < r@.len() && #[trigger] r@[x]@ == k;
            assert(stops(from@, other@, r@[x]@));
        }
        assert forall|k: Seq<char>| !from_is_running && #[trigger] holds_string(r@, k) implies starts(other@, from@, k) by {
            let x = choose|x: int| 0 <= x < r@.len() && #[trigger] r@[x]@ == k;
            assert(starts(other@, from@, r@[x]@));
        }
        assert forall|k: Seq<char>| from_is_running && stops(from@, other@, k) implies #[trigger] holds_string(r@, k) by {
            let l = key_index(es, k);
            assert(es[l].0@ == k);
        }
        assert forall|k: Seq<char>| !from_is_running && starts(other@, from@, k) implies #[trigger] holds_string(r@, k) by {
            let l = key_index(es, k);
            assert(es[l].0@ == k);
        }
    }
    r
}

/// What replacing the running configuration `running` by `new` takes: the task of
/// every element that is no longer configured or whose configuration changed
/// stops, and a task starts for every element that is newly configured or whose
/// configuration changed. Afterwards `new` is the running configuration.
pub fn plan_reconfiguration<C: SameConfig>(running: &StringMap<C>, new: &StringMap<C>) -> (r: Reconfiguration)
    requires
        running.wf(),
        new.wf(),
    ensures
        ids_distinct(r.stop@),
        ids_distinct(r.start@),
        forall|k: Seq<char>| holds_string(r.stop@, k) <==> stops(running@, new@, k),
        forall|k: Seq<char>| holds_string(r.start@, k) <==> starts(running@, new@, k),
{
    let stop = select(running, new, true);
    let start = select(new, running, false);
    Reconfiguration { stop, start }
}

/// Reconfiguring with the configuration that is running stops and starts nothing.
pub proof fn law_same_configuration_changes_nothing<C: SameConfig>(running: Map<Seq<char>, C>, id: Seq<char>)
    ensures
        !stops(running, running, id),
        !starts(running, running, id),
{
    if running.dom().contains(id) {
        running[id].lemma_same_reflexive();
    }
}

/// After a reconfiguration exactly the newly configured elements have a task:
/// those that had one and did not stop, and those whose task started.
pub proof fn law_tasks_follow_the_configuration<C: SameConfig>(running: Map<Seq<char>, C>, new: Map<Seq<char>, C>, id: Seq<char>)
    ensures
        (running.dom().contains(id) && !stops(running, new, id)) || starts(running, new, id) <==> new.dom().contains(id),
        !(starts(running, new, id) && running.dom().contains(id) && !stops(running, new, id)),
{
}

} // verus!
