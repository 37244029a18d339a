//! A map keyed by strings, kept as a list of entries whose keys are distinct.
use vstd::prelude::*;
use crate::strutil::str_eq;

verus! {

/// Whether no two entries of `s` share a key.
pub open spec fn keys_distinct<V>(s: Seq<(String, V)>) -> bool {
    forall|i: int, j: int|
        0 <= i < s.len() && 0 <= j < s.len() && i != j ==> #[trigger] s[i].0@ != #[trigger] s[j].0@
}

/// Whether some entry of `s` has the key `k`.
pub open spec fn has_key<V>(s: Seq<(String, V)>, k: Seq<char>) -> bool {
    exists|i: int| 0 <= i < s.len() && #[trigger] s[i].0@ == k
}

/// The position of an entry of `s` with the key `k`.
pub open spec fn key_index<V>(s: Seq<(String, V)>, k: Seq<char>) -> int {
    choose|i: int| 0 <= i < s.len() && #[trigger] s[i].0@ == k
}

/// The map that a list of entries with distinct keys stands for.
pub open spec fn entries_map<V>(s: Seq<(String, V)>) -> Map<Seq<char>, V> {
    Map::new(|k: Seq<char>| has_key(s, k), |k: Seq<char>| s[key_index(s, k)].1)
}

/// An entry at a known position gives the value of its key.
pub proof fn lemma_entries_map_at<V>(s: Seq<(String, V)>, i: int)
    requires
        keys_distinct(s),
        0 <= i < s.len(),
    ensures
        entries_map(s).dom().contains(s[i].0@),
        entries_map(s)[s[i].0@] == s[i].1,
        key_index(s, s[i].0@) == i,
{
    let k = s[i].0@;
    assert(has_key(s, k));
    let j = key_index(s, k);
    assert(s[j].0@ == k);
}

/// A key that no entry holds is not in the map.
pub proof fn lemma_entries_map_absent<V>(s: Seq<(String, V)>, k: Seq<char>)
    requires
        forall|i: int| 0 <= i < s.len() ==> s[i].0@ != k,
    ensures
        !entries_map(s).dom().contains(k),
{
}

/// Two entry lists with distinct keys that hold the same key-value pairs
/// stand for the same map.
pub proof fn lemma_entries_map_same<V>(s: Seq<(String, V)>, t: Seq<(String, V)>, m: Map<Seq<char>, V>)
    requires
        keys_distinct(s),
        forall|k: Seq<char>| #[trigger] has_key(s, k) <==> m.dom().contains(k),
        forall|i: int| 0 <= i < s.len() ==> m[#[trigger] s[i].0@] == s[i].1,
    ensures
        entries_map(s) == m,
{
    assert forall|k: Seq<char>| #[trigger] entries_map(s).dom().contains(k) implies entries_map(s)[k] == m[k] by {
        let i = key_index(s, k);
        lemma_entries_map_at(s, i);
    }
    assert(entries_map(s) =~= m);
}

/// Appending an entry with a new key adds that key to the map.
pub proof fn lemma_entries_map_push<V>(s: Seq<(String, V)>, e: (String, V))
    requires
        keys_distinct(s),
        forall|i: int| 0 <= i < s.len() ==> s[i].0@ != e.0@,
    ensures
        keys_distinct(s.push(e)),
        entries_map(s.push(e)) == entries_map(s).insert(e.0@, e.1),
{
    let t = s.push(e);
    let m = entries_map(s).insert(e.0@, e.1);
    assert(keys_distinct(t)) by {
        assert forall|i: int, j: int| 0 <= i < t.len() && 0 <= j < t.len() && i != j implies #[trigger] t[i].0@ != #[trigger] t[j].0@ by {
            if i < s.len() && j < s.len() {
                assert(s[i].0@ != s[j].0@);
            }
        }
    }
    assert forall|k: Seq<char>| #[trigger] has_key(t, k) <==> m.dom().contains(k) by {
        if has_key(t, k) {
            let j = choose|j: int| 0 <= j < t.len() && #[trigger] t[j].0@ == k;
            if j < s.len() {
                lemma_entries_map_at(s, j);
            }
        }
        if m.dom().contains(k) && k != e.0@ {
            let j = key_index(s, k);
            assert(t[j].0@ == k);
        }
        if k == e.0@ {
            assert(t[s.len() as int].0@ == k);
        }
    }
    assert forall|j: int| 0 <= j < t.len() implies m[#[trigger] t[j].0@] == t[j].1 by {
        if j < s.len() {
            lemma_entries_map_at(s, j);
        }
    }
    lemma_entries_map_same(t, t, m);
}

/// Inserting values of equal images into maps of equal images gives maps of equal images.
pub proof fn lemma_map_values_insert<K, V, W>(a: Map<K, V>, b: Map<K, V>, k: K, va: V, vb: V, f: spec_fn(V) -> W)
    requires
        a.map_values(f) == b.map_values(f),
        f(va) == f(vb),
    ensures
        a.insert(k, va).map_values(f) == b.insert(k, vb).map_values(f),
{
    let lhs = a.insert(k, va).map_values(f);
    let rhs = b.insert(k, vb).map_values(f);
    assert forall|x: K| #[trigger] lhs.dom().contains(x) <==> rhs.dom().contains(x) by {
        if x != k {
            assert(a.map_values(f).dom().contains(x) == a.dom().contains(x));
            assert(b.map_values(f).dom().contains(x) == b.dom().contains(x));
        }
    }
    assert forall|x: K| #[trigger] lhs.dom().contains(x) implies lhs[x] == rhs[x] by {
        if x != k {
            assert(a.dom().contains(x));
            assert(b.map_values(f).dom().contains(x) == b.dom().contains(x));
            assert(a.map_values(f)[x] == f(a[x]));
            assert(b.map_values(f)[x] == f(b[x]));
            assert(a.map_values(f)[x] == b.map_values(f)[x]);
            assert(lhs[x] == f(a[x]));
            assert(rhs[x] == f(b[x]));
        } else {
            assert(lhs[x] == f(va));
            assert(rhs[x] == f(vb));
        }
    }
    assert(lhs =~= rhs);
}

/// A map from strings to values.
pub struct StringMap<V> {
    entries: Vec<(String, V)>,
}

impl<V> View for StringMap<V> {
    type V = Map<Seq<char>, V>;

    closed spec fn view(&self) -> Map<Seq<char>, V> {
        entries_map(self.entries@)
    }
}

impl<V> StringMap<V> {
    /// The entries of the map, in the order in which they are stored.
    pub closed spec fn entries_spec(&self) -> Seq<(String, V)> {
        self.entries@
    }

    /// The map's internal invariant: no key occurs twice.
    pub closed spec fn wf(&self) -> bool {
        keys_distinct(self.entries@)
    }

    /// The stored entries stand for the map, and the map is finite.
    pub proof fn lemma_entries(&self)
        requires
            self.wf(),
        ensures
            keys_distinct(self.entries_spec()),
            self@ == entries_map(self.entries_spec()),
            self@.dom().finite(),
            self@.dom().len() == self.entries_spec().len(),
    {
        let s = self.entries@;
        let keys = Seq::new(s.len(), |i: int| s[i].0@);
        assert forall|i: int, j: int| 0 <= i < keys.len() && 0 <= j < keys.len() && i != j implies keys[i] != keys[j] by {
            assert(s[i].0@ != s[j].0@);
        }
        assert(keys.no_duplicates());
        assert forall|k: Seq<char>| #[trigger] self@.dom().contains(k) <==> keys.to_set().contains(k) by {
            if self@.dom().contains(k) {
                let i = key_index(s, k);
                assert(keys[i] == k);
            }
            if keys.to_set().contains(k) {
                let i = choose|i: int| 0 <= i < keys.len() && keys[i] == k;
                assert(s[i].0@ == k);
            }
        }
        assert(self@.dom() =~= keys.to_set());
        keys.unique_seq_to_set();
    }

    /// An empty map.
    pub fn new() -> (r: Self)
        ensures
            r.wf(),
            r@ == Map::<Seq<char>, V>::empty(),
    {
        let r = StringMap { entries: Vec::new() };
        assert(r@ =~= Map::<Seq<char>, V>::empty());
        r
    }

    /// The number of entries.
    pub fn len(&self) -> (r: usize)
        requires
            self.wf(),
        ensures
            r == self@.dom().len(),
    {
        proof { self.lemma_entries(); }
        self.entries.len()
    }

    /// The stored entries.
    pub fn entries(&self) -> (r: &Vec<(String, V)>)
        ensures
            r@ == self.entries_spec(),
    {
        &self.entries
    }

    fn find(&self, key: &str) -> (r: Option<usize>)
        requires
            self.wf(),
        ensures
            match r {
                Some(i) => i < self.entries@.len() && self.entries@[i as int].0@ == key@,
                None => forall|i: int| 0 <= i < self.entries@.len() ==> self.entries@[i].0@ != key@,
            },
    {
        let mut i: usize = 0;
        while i < self.entries.len()
            invariant
                i <= self.entries@.len(),
                forall|j: int| 0 <= j < i ==> self.entries@[j].0@ != key@,
            decreases self.entries@.len() - i,
        {
            if str_eq(self.entries[i].0.as_str(), key) {
                return Some(i);
            }
            i = i + 1;
        }
        None
    }

    /// Whether the map holds `key`.
    pub fn contains_key(&self, key: &str) -> (r: bool)
        requires
            self.wf(),
        ensures
            r == self@.dom().contains(key@),
    {
        match self.find(key) {
            Some(i) => {
                proof { lemma_entries_map_at(self.entries@, i as int); }
                true
            },
            None => false,
        }
    }

    /// The value stored under `key`, if any.
    pub fn get(&self, key: &str) -> (r: Option<&V>)
        requires
            self.wf(),
        ensures
            match r {
                Some(v) => self@.dom().contains(key@) && *v == self@[key@],
                None => !self@.dom().contains(key@),
            },
    {
        match self.find(key) {
            Some(i) => {
                proof { lemma_entries_map_at(self.entries@, i as int); }
                Some(&self.entries[i].1)
            },
            None => None,
        }
    }

    /// Stores `value` under `key`, giving back the value it replaces.
    pub fn insert(&mut self, key: String, value: V) -> (r: Option<V>)
        requires
            old(self).wf(),
        ensures
            final(self).wf(),
            final(self)@ == old(self)@.insert(key@, value),
            r == old(self)@.get(key@),
    {
        let ghost s = self.entries@;
        let ghost k = key@;
        match self.find(key.as_str()) {
            Some(i) => {
                proof { lemma_entries_map_at(s, i as int); }
                let (_, old_value) = self.entries.remove(i);
                self.entries.insert(i, (key, value));
                proof {
                    let t = self.entries@;
                    assert(t =~= s.update(i as int, (t[i as int].0, value)));
                    assert(keys_distinct(t)) by {
                        assert forall|a: int, b: int| 0 <= a < t.len() && 0 <= b < t.len() && a != b implies #[trigger] t[a].0@ != #[trigger] t[b].0@ by {
                            assert(s[a].0@ != s[b].0@);
                        }
                    }
                    let m = entries_map(s).insert(k, value);
                    assert forall|kk: Seq<char>| #[trigger] has_key(t, kk) <==> m.dom().contains(kk) by {
                        if has_key(t, kk) {
                            let j = choose|j: int| 0 <= j < t.len() && #[trigger] t[j].0@ == kk;
                            if j != i { lemma_entries_map_at(s, j); }
                        }
                        if m.dom().contains(kk) && kk != k {
                            let j = key_index(s, kk);
                            assert(t[j].0@ == kk);
                        }
                    }
                    assert forall|j: int| 0 <= j < t.len() implies m[#[trigger] t[j].0@] == t[j].1 by {
                        if j != i { lemma_entries_map_at(s, j); }
                    }
                    lemma_entries_map_same(t, t, m);
                }
                Some(old_value)
            },
            None => {
                proof { lemma_entries_map_absent(s, k); }
                self.entries.push((key, value));
                proof {
                    let t = self.entries@;
                    assert(keys_distinct(t));
                    let m = entries_map(s).insert(k, value);
                    assert forall|kk: Seq<char>| #[trigger] has_key(t, kk) <==> m.dom().contains(kk) by {
                        if has_key(t, kk) {
                            let j = choose|j: int| 0 <= j < t.len() && #[trigger] t[j].0@ == kk;
                            if j < s.len() { lemma_entries_map_at(s, j); }
                        }
                        if m.dom().contains(kk) && kk != k {
                            let j = key_index(s, kk);
                            assert(t[j].0@ == kk);
                        }
                        if kk == k {
                            assert(t[s.len() as int].0@ == kk);
                        }
                    }
                    assert forall|j: int| 0 <= j < t.len() implies m[#[trigger] t[j].0@] == t[j].1 by {
                        if j < s.len() { lemma_entries_map_at(s, j); }
                    }
                    lemma_entries_map_same(t, t, m);
                }
                None
            },
        }
    }

    /// Removes `key`, giving back the value it held.
    pub fn remove(&mut self, key: &str) -> (r: Option<V>)
        requires
            old(self).wf(),
        ensures
            final(self).wf(),
            final(self)@ == old(self)@.remove(key@),
            r == old(self)@.get(key@),
    {
        let ghost s = self.entries@;
        let ghost k = key@;
        match self.find(key) {
            Some(i) => {
                proof { lemma_entries_map_at(s, i as int); }
                let (_, old_value) = self.entries.remove(i);
                proof {
                    let t = self.entries@;
                    assert(t =~= s.remove(i as int));
                    assert(keys_distinct(t)) by {
                        assert forall|a: int, b: int| 0 <= a < t.len() && 0 <= b < t.len() && a != b implies #[trigger] t[a].0@ != #[trigger] t[b].0@ by {
                            let a2 = if a < i { a } else { a + 1 };
                            let b2 = if b < i { b } else { b + 1 };
                            assert(t[a] == s[a2]);
                            assert(t[b] == s[b2]);
                            assert(s[a2].0@ != s[b2].0@);
                        }
                    }
                    let m = entries_map(s).remove(k);
                    assert forall|kk: Seq<char>| #[trigger] has_key(t, kk) <==> m.dom().contains(kk) by {
                        if has_key(t, kk) {
                            let j = choose|j: int| 0 <= j < t.len() && #[trigger] t[j].0@ == kk;
                            let j2 = if j < i { j } else { j + 1 };
                            assert(t[j] == s[j2]);
                            lemma_entries_map_at(s, j2);
                        }
                        if m.dom().contains(kk) {
                            let j = key_index(s, kk);
                            assert(s[j].0@ == kk);
                            assert(j != i);
                            let j2 = if j < i { j } else { j - 1 };
                            assert(t[j2] == s[j]);
                        }
                    }
                    assert forall|j: int| 0 <= j < t.len() implies m[#[trigger] t[j].0@] == t[j].1 by {
                        let j2 = if j < i { j } else { j + 1 };
                        assert(t[j] == s[j2]);
                        lemma_entries_map_at(s, j2);
                    }
                    lemma_entries_map_same(t, t, m);
                }
                Some(old_value)
            },
            None => {
                proof {
                    lemma_entries_map_absent(s, k);
                    assert(entries_map(s).remove(k) =~= entries_map(s));
                }
                None
            },
        }
    }
}

} // verus!
