//! The state of an element: whether it is online, and its attributes.
use vstd::prelude::*;
use crate::string_map::{entries_map, keys_distinct, lemma_entries_map_push, lemma_map_values_insert, StringMap};

verus! {

/// A point in time, as seconds since the Unix epoch and the nanoseconds past that second.
#[derive(Clone, Copy, Debug, PartialEq, Eq, Structural)]
pub struct Timestamp {
    /// Whole seconds since 1970-01-01T00:00:00Z.
    pub secs: i64,
    /// Nanoseconds past `secs` (above 999_999_999 only within a leap second).
    pub nanos: u32,
}

impl Timestamp {
    /// The instant as nanoseconds since the Unix epoch.
    pub open spec fn as_nanos(self) -> int {
        self.secs * 1_000_000_000 + self.nanos
    }
}

/// A signed length of time, in nanoseconds.
#[derive(Clone, Copy, Debug, PartialEq, Eq, Structural)]
pub struct Duration {
    /// The length in nanoseconds.
    pub nanos: i128,
}

/// The time from `a` to `b` in nanoseconds (negative when `b` is earlier).
pub fn nanos_between(a: Timestamp, b: Timestamp) -> (r: i128)
    ensures
        r == b.as_nanos() - a.as_nanos(),
{
    let secs: i128 = b.secs as i128 - a.secs as i128;
    let nanos: i128 = b.nanos as i128 - a.nanos as i128;
    assert(-0x1_0000_0000_0000_0000 <= secs <= 0x1_0000_0000_0000_0000);
    assert(secs * 1_000_000_000 <= 0x1_0000_0000_0000_0000 * 1_000_000_000) by (nonlinear_arith)
        requires
            secs <= 0x1_0000_0000_0000_0000,
    ;
    assert(secs * 1_000_000_000 >= -0x1_0000_0000_0000_0000 * 1_000_000_000) by (nonlinear_arith)
        requires
            secs >= -0x1_0000_0000_0000_0000,
    ;
    secs * 1_000_000_000 + nanos
}

/// A custom (or primitive) attribute value.
#[derive(Debug, PartialEq, Eq)]
pub enum ByteCode {
    /// A boolean.
    Bool(bool),
    /// A signed integer.
    Int(i64),
    /// A string.
    String(String),
}

impl Clone for ByteCode {
    fn clone(&self) -> (r: Self)
        ensures
            r == *self,
    {
        match self {
            ByteCode::Bool(b) => ByteCode::Bool(*b),
            ByteCode::Int(i) => ByteCode::Int(*i),
            ByteCode::String(s) => ByteCode::String(s.clone()),
        }
    }
}

/// A value an attribute can have.
#[derive(Debug, PartialEq)]
pub enum AttributeValue {
    /// Marks only that an attribute exists.
    Marker,
    /// Some custom (or primitive) value.
    Custom(ByteCode),
    /// A point in time, such as when an element was last seen.
    Timestamp(Timestamp),
    /// A percentage, held as the bit pattern of a 32-bit IEEE float
    /// (`1.0` standing for 100%).
    Percentage(u32),
    /// A history over (previous) values.
    History(Vec<(Timestamp, AttributeValue)>),
    /// A list of values.
    List(Vec<AttributeValue>),
}

/// The mathematical value of an attribute value: a history becomes a sequence.
pub enum AttributeValueModel {
    /// Marks only that an attribute exists.
    Marker,
    /// Some custom (or primitive) value.
    Custom(ByteCode),
    /// A point in time.
    Timestamp(Timestamp),
    /// A percentage as a float's bit pattern.
    Percentage(u32),
    /// A history over (previous) values.
    History(Seq<(Timestamp, AttributeValueModel)>),
    /// A list of values.
    List(Seq<AttributeValueModel>),
}

/// The model of an attribute value.
pub open spec fn value_model(v: &AttributeValue) -> AttributeValueModel
    decreases v, 0int,
{
    match v {
        AttributeValue::Marker => AttributeValueModel::Marker,
        AttributeValue::Custom(c) => AttributeValueModel::Custom(*c),
        AttributeValue::Timestamp(t) => AttributeValueModel::Timestamp(*t),
        AttributeValue::Percentage(p) => AttributeValueModel::Percentage(*p),
        AttributeValue::History(h) => {
            proof {
                broadcast use vstd::std_specs::vec::axiom_vec_decreases_to_view;
                assert(decreases_to!(h => h@));
            }
            AttributeValueModel::History(history_model(h@))
        },
        AttributeValue::List(l) => {
            proof {
                broadcast use vstd::std_specs::vec::axiom_vec_decreases_to_view;
                assert(decreases_to!(l => l@));
            }
            AttributeValueModel::List(list_model(l@))
        },
    }
}

/// The model of a list: each value replaced by its model.
pub open spec fn list_model(l: Seq<AttributeValue>) -> Seq<AttributeValueModel>
    decreases l, 1int,
{
    if l.len() == 0 {
        Seq::empty()
    } else {
        proof {
            broadcast use vstd::seq::axiom_seq_index_decreases, vstd::seq::axiom_seq_subrange_decreases;
            assert(decreases_to!(l => l[l.len() - 1]));
            assert(decreases_to!(l => l.subrange(0, l.len() - 1)));
        }
        list_model(l.subrange(0, l.len() - 1)).push(value_model(&l[l.len() - 1]))
    }
}

/// A list's model has one entry per entry, each the model of that entry.
pub proof fn lemma_list_model(l: Seq<AttributeValue>)
    ensures
        list_model(l).len() == l.len(),
        forall|i: int| 0 <= i < l.len() ==> #[trigger] list_model(l)[i] == value_model(&l[i]),
    decreases l.len(),
{
    if l.len() > 0 {
        let t = l.subrange(0, l.len() - 1);
        lemma_list_model(t);
        assert forall|i: int| 0 <= i < l.len() implies #[trigger] list_model(l)[i] == value_model(&l[i]) by {
            if i < l.len() - 1 {
                assert(t[i] == l[i]);
            }
        }
    }
}

/// The model of a history: each value replaced by its model.
pub open spec fn history_model(h: Seq<(Timestamp, AttributeValue)>) -> Seq<(Timestamp, AttributeValueModel)>
    decreases h, 1int,
{
    if h.len() == 0 {
        Seq::empty()
    } else {
        proof {
            broadcast use vstd::seq::axiom_seq_index_decreases, vstd::seq::axiom_seq_subrange_decreases;
            assert(decreases_to!(h => h[h.len() - 1]));
            assert(decreases_to!(h => h.subrange(0, h.len() - 1)));
        }
        history_model(h.subrange(0, h.len() - 1)).push((h[h.len() - 1].0, value_model(&h[h.len() - 1].1)))
    }
}

/// A history's model has one entry per entry, each with the model of its value.
pub proof fn lemma_history_model(h: Seq<(Timestamp, AttributeValue)>)
    ensures
        history_model(h).len() == h.len(),
        forall|i: int| 0 <= i < h.len() ==> #[trigger] history_model(h)[i] == (h[i].0, value_model(&h[i].1)),
    decreases h.len(),
{
    if h.len() > 0 {
        let t = h.subrange(0, h.len() - 1);
        lemma_history_model(t);
        assert forall|i: int| 0 <= i < h.len() implies #[trigger] history_model(h)[i] == (h[i].0, value_model(&h[i].1)) by {
            if i < h.len() - 1 {
                assert(t[i] == h[i]);
            }
        }
    }
}

impl View for AttributeValue {
    type V = AttributeValueModel;

    open spec fn view(&self) -> AttributeValueModel {
        value_model(self)
    }
}

/// Whether the first `n` entries of two histories agree, values compared by their models.
pub open spec fn histories_agree(a: Seq<(Timestamp, AttributeValue)>, b: Seq<(Timestamp, AttributeValue)>, n: int) -> bool {
    forall|j: int| 0 <= j < n ==> a[j].0 == b[j].0 && #[trigger] value_model(&a[j].1) == value_model(&b[j].1)
}

/// A copy of `history` whose entries have the same models as those of `history`.
fn clone_history(history: &Vec<(Timestamp, AttributeValue)>) -> (r: Vec<(Timestamp, AttributeValue)>)
    ensures
        r@.len() == history@.len(),
        histories_agree(r@, history@, r@.len() as int),
    decreases history@, 0nat,
{
    let mut r: Vec<(Timestamp, AttributeValue)> = Vec::new();
    let mut i: usize = 0;
    while i < history.len()
        invariant
            i <= history@.len(),
            r@.len() == i,
            histories_agree(r@, history@, i as int),
        decreases history@.len() - i,
    {
        let entry = &history[i];
        assert(decreases_to!(history@ => history@[i as int]));
        let value = entry.1.clone_value();
        let ghost before = r@;
        r.push((entry.0, value));
        assert(histories_agree(r@, history@, i + 1)) by {
            assert forall|j: int| 0 <= j < i + 1 implies r@[j].0 == history@[j].0 && #[trigger] value_model(&r@[j].1) == value_model(&history@[j].1) by {
                if j < i {
                    assert(r@[j] == before[j]);
                    assert(value_model(&before[j].1) == value_model(&history@[j].1));
                }
            }
        }
        i = i + 1;
    }
    r
}

/// A copy of `list` whose entries have the same models as those of `list`.
fn clone_list(list: &Vec<AttributeValue>) -> (r: Vec<AttributeValue>)
    ensures
        list_model(r@) == list_model(list@),
    decreases list@, 0nat,
{
    let mut r: Vec<AttributeValue> = Vec::new();
    let mut i: usize = 0;
    while i < list.len()
        invariant
            i <= list@.len(),
            r@.len() == i,
            forall|j: int| 0 <= j < i ==> #[trigger] value_model(&r@[j]) == value_model(&list@[j]),
        decreases list@.len() - i,
    {
        assert(decreases_to!(list@ => list@[i as int]));
        let value = list[i].clone_value();
        let ghost before = r@;
        r.push(value);
        assert forall|j: int| 0 <= j < i + 1 implies #[trigger] value_model(&r@[j]) == value_model(&list@[j]) by {
            if j < i {
                assert(r@[j] == before[j]);
            }
        }
        i = i + 1;
    }
    proof {
        lemma_list_model(r@);
        lemma_list_model(list@);
        assert(list_model(r@) =~= list_model(list@));
    }
    r
}

impl AttributeValue {
    /// A copy with the same model as `self`.
    pub fn clone_value(&self) -> (r: Self)
        ensures
            r@ == self@,
        decreases *self, 1nat,
    {
        match self {
            AttributeValue::Marker => AttributeValue::Marker,
            AttributeValue::Custom(c) => AttributeValue::Custom(c.clone()),
            AttributeValue::Timestamp(t) => AttributeValue::Timestamp(*t),
            AttributeValue::Percentage(p) => AttributeValue::Percentage(*p),
            AttributeValue::History(h) => {
                assert(decreases_to!(*self => h@));
                let c = clone_history(h);
                let r = AttributeValue::History(c);
                assert(value_model(&r) == value_model(self)) by {
                    lemma_history_model(c@);
                    lemma_history_model(h@);
                    assert forall|i: int| 0 <= i < c@.len() implies history_model(c@)[i] == history_model(h@)[i] by {
                        assert(value_model(&c@[i].1) == value_model(&h@[i].1));
                    }
                    assert(history_model(c@) =~= history_model(h@));
                }
                r
            },
            AttributeValue::List(l) => {
                assert(decreases_to!(*self => l@));
                AttributeValue::List(clone_list(l))
            },
        }
    }
}

/// Whether two custom values hold the same content (strings by their characters).
pub open spec fn bytecode_same(x: ByteCode, y: ByteCode) -> bool {
    match (x, y) {
        (ByteCode::Bool(a), ByteCode::Bool(b)) => a == b,
        (ByteCode::Int(a), ByteCode::Int(b)) => a == b,
        (ByteCode::String(a), ByteCode::String(b)) => a@ == b@,
        _ => false,
    }
}

/// Whether two values that are neither histories nor lists hold the same content;
/// a history or a list is never the same here.
pub open spec fn scalar_same(a: AttributeValueModel, b: AttributeValueModel) -> bool {
    match (a, b) {
        (AttributeValueModel::Marker, AttributeValueModel::Marker) => true,
        (AttributeValueModel::Custom(x), AttributeValueModel::Custom(y)) => bytecode_same(x, y),
        (AttributeValueModel::Timestamp(s), AttributeValueModel::Timestamp(t)) => s == t,
        (AttributeValueModel::Percentage(p), AttributeValueModel::Percentage(q)) => p == q,
        _ => false,
    }
}

/// Whether value `a` holds what `b` holds, for a `b` that is a single value or a
/// list of single values (neither a history nor a list of lists).
pub open spec fn holds_same(a: AttributeValueModel, b: AttributeValueModel) -> bool {
    match (a, b) {
        (AttributeValueModel::List(xs), AttributeValueModel::List(ys)) =>
            xs.len() == ys.len() && forall|i: int| 0 <= i < xs.len() ==> #[trigger] scalar_same(xs[i], ys[i]),
        _ => scalar_same(a, b),
    }
}

fn bytecode_same_exec(x: &ByteCode, y: &ByteCode) -> (r: bool)
    ensures
        r == bytecode_same(*x, *y),
{
    match (x, y) {
        (ByteCode::Bool(a), ByteCode::Bool(b)) => *a == *b,
        (ByteCode::Int(a), ByteCode::Int(b)) => *a == *b,
        (ByteCode::String(a), ByteCode::String(b)) => crate::strutil::str_eq(a.as_str(), b.as_str()),
        _ => false,
    }
}

fn scalar_same_exec(a: &AttributeValue, b: &AttributeValue) -> (r: bool)
    ensures
        r == scalar_same(a@, b@),
{
    match (a, b) {
        (AttributeValue::Marker, AttributeValue::Marker) => true,
        (AttributeValue::Custom(x), AttributeValue::Custom(y)) => bytecode_same_exec(x, y),
        (AttributeValue::Timestamp(s), AttributeValue::Timestamp(t)) => s.secs == t.secs && s.nanos == t.nanos,
        (AttributeValue::Percentage(p), AttributeValue::Percentage(q)) => *p == *q,
        _ => false,
    }
}

impl AttributeValue {
    /// Whether `self` holds what `other` holds, for an `other` that is a single
    /// value or a list of single values.
    pub fn holds_same(&self, other: &AttributeValue) -> (r: bool)
        ensures
            r == holds_same(self@, other@),
    {
        match (self, other) {
            (AttributeValue::List(xs), AttributeValue::List(ys)) => {
                proof {
                    lemma_list_model(xs@);
                    lemma_list_model(ys@);
                    assert(self@ == AttributeValueModel::List(list_model(xs@)));
                    assert(other@ == AttributeValueModel::List(list_model(ys@)));
                }
                if xs.len() != ys.len() {
                    return false;
                }
                let mut i: usize = 0;
                while i < xs.len()
                    invariant
                        xs@.len() == ys@.len(),
                        i <= xs@.len(),
                        self@ == AttributeValueModel::List(list_model(xs@)),
                        other@ == AttributeValueModel::List(list_model(ys@)),
                        list_model(xs@).len() == xs@.len(),
                        list_model(ys@).len() == ys@.len(),
                        forall|j: int| 0 <= j < xs@.len() ==> #[trigger] list_model(xs@)[j] == value_model(&xs@[j]),
                        forall|j: int| 0 <= j < ys@.len() ==> #[trigger] list_model(ys@)[j] == value_model(&ys@[j]),
                        forall|j: int| 0 <= j < i ==> #[trigger] scalar_same(list_model(xs@)[j], list_model(ys@)[j]),
                    decreases xs@.len() - i,
                {
                    if !scalar_same_exec(&xs[i], &ys[i]) {
                        assert(!scalar_same(list_model(xs@)[i as int], list_model(ys@)[i as int]));
                        return false;
                    }
                    i = i + 1;
                }
                true
            },
            _ => scalar_same_exec(self, other),
        }
    }
}

impl Clone for AttributeValue {
    fn clone(&self) -> (r: Self)
        ensures
            r@ == self@,
    {
        self.clone_value()
    }
}

/// The state that an element has.
pub struct State {
    /// Whether the element is currently online.
    pub online: bool,
    /// The attributes of the element.
    pub attributes: StringMap<AttributeValue>,
}

impl State {
    /// The state's internal invariant.
    pub open spec fn wf(&self) -> bool {
        self.attributes.wf()
    }

    /// A copy whose attributes have the same models as those of `self`.
    pub fn clone_state(&self) -> (r: Self)
        requires
            self.wf(),
        ensures
            r.wf(),
            r.online == self.online,
            r.attributes@.map_values(|v: AttributeValue| v@) == self.attributes@.map_values(|v: AttributeValue| v@),
    {
        let entries = self.attributes.entries();
        proof { self.attributes.lemma_entries(); }
        let mut attributes: StringMap<AttributeValue> = StringMap::new();
        let mut i: usize = 0;
        while i < entries.len()
            invariant
                i <= entries@.len(),
                entries@ == self.attributes.entries_spec(),
                keys_distinct(entries@),
                attributes.wf(),
                attributes@.map_values(|v: AttributeValue| v@) == entries_map(entries@.take(i as int)).map_values(|v: AttributeValue| v@),
            decreases entries@.len() - i,
        {
            let ghost before = attributes@;
            let key = entries[i].0.clone();
            let value = entries[i].1.clone_value();
            let ghost vm = value@;
            let ghost value_stored = value;
            attributes.insert(key, value);
            proof {
                let t = entries@.take(i as int);
                assert(entries@.take(i + 1) =~= t.push(entries@[i as int]));
                assert(keys_distinct(t));
                assert forall|j: int| 0 <= j < t.len() implies t[j].0@ != entries@[i as int].0@ by {
                    assert(entries@[j].0@ != entries@[i as int].0@);
                }
                lemma_entries_map_push(t, entries@[i as int]);
                lemma_map_values_insert(before, entries_map(t), entries@[i as int].0@, value_stored, entries@[i as int].1, |v: AttributeValue| v@);
            }
            i = i + 1;
        }
        proof {
            assert(entries@.take(entries@.len() as int) =~= entries@);
        }
        State { online: self.online, attributes }
    }

    /// A new offline state without attributes.
    pub fn new() -> (r: Self)
        ensures
            r.wf(),
            !r.online,
            r.attributes@ == Map::<Seq<char>, AttributeValue>::empty(),
    {
        State { online: false, attributes: StringMap::new() }
    }

    /// A state with the given online status and attributes.
    pub fn init(online: bool, attributes: StringMap<AttributeValue>) -> (r: Self)
        ensures
            r.online == online,
            r.attributes == attributes,
    {
        State { online, attributes }
    }

    /// A state with the given online status and no attributes.
    pub fn with_online(online: bool) -> (r: Self)
        ensures
            r.wf(),
            r.online == online,
            r.attributes@ == Map::<Seq<char>, AttributeValue>::empty(),
    {
        State { online, attributes: StringMap::new() }
    }
}

} // verus!
