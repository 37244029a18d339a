//! Filters for notifications: white- and blacklists over components, elements
//! and kinds of state change.
use vstd::prelude::*;
use crate::notification::{AttributeValueChange, Notification, NotificationReason};
use crate::strutil::{starts_with, str_eq};

verus! {

/// Values that can be matched by a filter item.
pub trait Filtering<Input> {
    /// Whether `value` matches the configuration of `self`.
    spec fn matches_value(&self, value: &Input) -> bool;

    /// Checks whether the value matches given the configuration of `self`.
    fn matches(&self, value: &Input) -> (r: bool)
        ensures
            r == self.matches_value(value);
}

impl Filtering<String> for String {
    open spec fn matches_value(&self, value: &String) -> bool {
        self@ == value@
    }

    fn matches(&self, value: &String) -> (r: bool) {
        str_eq(self.as_str(), value.as_str())
    }
}

impl Filtering<u16> for u16 {
    open spec fn matches_value(&self, value: &u16) -> bool {
        *self == *value
    }

    fn matches(&self, value: &u16) -> (r: bool) {
        *self == *value
    }
}

/// What a [`SingleFilter`] prioritizes.
#[derive(Clone, Copy, Debug, PartialEq, Eq, Structural)]
pub enum FilterPriority {
    /// Accepts values by default; rejects only those blacklisted and not whitelisted.
    Whitelist,
    /// Rejects values by default; accepts only those whitelisted and not blacklisted.
    Blacklist,
}

impl Default for FilterPriority {
    fn default() -> (r: Self)
        ensures
            r == FilterPriority::Whitelist,
    {
        FilterPriority::Whitelist
    }
}

/// A filter over a single type of item.
#[derive(Debug, PartialEq)]
pub struct SingleFilter<ItemType> {
    /// Things to specifically allow.
    pub whitelist: Vec<ItemType>,
    /// Things to block.
    pub blacklist: Vec<ItemType>,
    /// Whether to accept values by default or to reject them.
    pub priority: FilterPriority,
}

impl<T> Default for SingleFilter<T> {
    fn default() -> (r: Self)
        ensures
            r.whitelist@.len() == 0,
            r.blacklist@.len() == 0,
            r.priority == FilterPriority::Whitelist,
    {
        SingleFilter { whitelist: Vec::new(), blacklist: Vec::new(), priority: FilterPriority::Whitelist }
    }
}

/// Whether some item of `items` matches `input`.
pub open spec fn some_item_matches<Item: Filtering<V>, V>(items: Seq<Item>, input: &V) -> bool {
    exists|i: int| 0 <= i < items.len() && #[trigger] items[i].matches_value(input)
}

/// The decision of a filter with the given priority, given whether the input is
/// white- and blacklisted.
pub open spec fn decide(priority: FilterPriority, whitelisted: bool, blacklisted: bool) -> bool {
    match priority {
        FilterPriority::Whitelist => whitelisted || !blacklisted,
        FilterPriority::Blacklist => whitelisted && !blacklisted,
    }
}

fn any_matches<Item: Filtering<V>, V>(items: &Vec<Item>, input: &V) -> (r: bool)
    ensures
        r == some_item_matches(items@, input),
{
    let mut i: usize = 0;
    while i < items.len()
        invariant
            i <= items@.len(),
            forall|j: int| 0 <= j < i ==> !(#[trigger] items@[j].matches_value(input)),
        decreases items@.len() - i,
    {
        if items[i].matches(input) {
            return true;
        }
        i = i + 1;
    }
    false
}

impl<Item> SingleFilter<Item> {
    /// Whether the filter allows `input`.
    pub open spec fn allows_spec<V>(&self, input: &V) -> bool where Item: Filtering<V> {
        decide(self.priority, some_item_matches(self.whitelist@, input), some_item_matches(self.blacklist@, input))
    }

    /// Checks whether the filter allows the given input.
    pub fn allows<V>(&self, input: &V) -> (r: bool) where Item: Filtering<V>
        ensures
            r == self.allows_spec(input),
    {
        match self.priority {
            FilterPriority::Whitelist => self.whitelisted(input) || !self.blacklisted(input),
            FilterPriority::Blacklist => self.whitelisted(input) && !self.blacklisted(input),
        }
    }

    /// Checks whether the input is whitelisted.
    pub fn whitelisted<V>(&self, input: &V) -> (r: bool) where Item: Filtering<V>
        ensures
            r == some_item_matches(self.whitelist@, input),
    {
        any_matches(&self.whitelist, input)
    }

    /// Checks whether the input is blacklisted.
    pub fn blacklisted<V>(&self, input: &V) -> (r: bool) where Item: Filtering<V>
        ensures
            r == some_item_matches(self.blacklist@, input),
    {
        any_matches(&self.blacklist, input)
    }
}

/// Changes to the online state.
#[derive(Clone, Copy, Debug, PartialEq, Eq, Structural)]
pub enum OnlineStateChange {
    /// Matches any online state.
    Any,
    /// Matches when the element went (or was created) online.
    Online,
    /// Matches when the element went (or was created) offline.
    Offline,
}

impl Filtering<bool> for OnlineStateChange {
    open spec fn matches_value(&self, value: &bool) -> bool {
        match *self {
            OnlineStateChange::Any => true,
            OnlineStateChange::Online => *value,
            OnlineStateChange::Offline => !*value,
        }
    }

    fn matches(&self, value: &bool) -> (r: bool) {
        match self {
            OnlineStateChange::Any => true,
            OnlineStateChange::Online => *value,
            OnlineStateChange::Offline => !*value,
        }
    }
}

/// The value an attribute matcher's `exact` takes when it is not configured:
/// matches are exact unless asked otherwise.
pub fn always() -> (r: bool)
    ensures
        r,
{
    true
}

/// Matches an attribute id.
#[derive(Debug, PartialEq, Eq)]
pub struct AttributeIdMatcher {
    /// The id of the attribute.
    pub id: String,
    /// Whether to match the id exactly, or also its sub-attributes
    /// (ids continuing it after a `.`).
    pub exact: bool,
}

/// Whether `value` is the attribute id `id` or one of its sub-attributes: it starts
/// with `id`, and right after `id` it ends or continues with a `.`.
pub open spec fn is_id_or_child(id: Seq<char>, value: Seq<char>) -> bool {
    &&& id.is_prefix_of(value)
    &&& (value.len() == id.len() || value[id.len() as int] == '.')
}

/// Checks whether `value` is `id` or one of its sub-attributes.
pub fn id_or_child(id: &str, value: &str) -> (r: bool)
    ensures
        r == is_id_or_child(id@, value@),
{
    if !starts_with(value, id) {
        return false;
    }
    let n = id.unicode_len();
    n == value.unicode_len() || value.get_char(n) == '.'
}

impl AttributeIdMatcher {
    /// Whether the matcher matches the attribute id with characters `value`.
    pub open spec fn matches_id(&self, value: Seq<char>) -> bool {
        if self.exact {
            self.id@ == value
        } else {
            is_id_or_child(self.id@, value)
        }
    }
}

impl Filtering<String> for AttributeIdMatcher {
    open spec fn matches_value(&self, value: &String) -> bool {
        self.matches_id(value@)
    }

    fn matches(&self, value: &String) -> (r: bool) {
        if self.exact {
            str_eq(self.id.as_str(), value.as_str())
        } else {
            id_or_child(self.id.as_str(), value.as_str())
        }
    }
}

/// Events that can happen to an attribute.
#[derive(Clone, Copy, Debug, PartialEq, Eq, Structural)]
pub enum AttributeEvent {
    /// Any change to the attribute.
    Any,
    /// The creation of a new attribute.
    Create,
    /// The change of an attribute.
    Change,
    /// The deletion of an attribute.
    Delete,
}

impl Default for AttributeEvent {
    fn default() -> (r: Self)
        ensures
            r == AttributeEvent::Any,
    {
        AttributeEvent::Any
    }
}

impl Filtering<AttributeValueChange> for AttributeEvent {
    open spec fn matches_value(&self, value: &AttributeValueChange) -> bool {
        match *self {
            AttributeEvent::Any => true,
            AttributeEvent::Create => value is Create,
            AttributeEvent::Change => value is Edit,
            AttributeEvent::Delete => value is Delete,
        }
    }

    fn matches(&self, value: &AttributeValueChange) -> (r: bool) {
        match self {
            AttributeEvent::Any => true,
            AttributeEvent::Create => matches!(value, AttributeValueChange::Create(_)),
            AttributeEvent::Change => matches!(value, AttributeValueChange::Edit(_, _)),
            AttributeEvent::Delete => matches!(value, AttributeValueChange::Delete(_)),
        }
    }
}

/// Matches changes to the attributes of an element.
#[derive(Debug, PartialEq, Eq)]
pub struct AttributeChange {
    /// The id of the attribute to match; any attribute if absent.
    pub id: Option<AttributeIdMatcher>,
    /// The kind of change to match.
    pub event: AttributeEvent,
}

/// Identifies a change in state for filtering.
#[derive(Debug, PartialEq, Eq)]
pub enum StateChange {
    /// Matches the creation of an element, whatever its new state.
    CreateEntity,
    /// Matches changes to the attributes of an element.
    AttributeChange(AttributeChange),
    /// Matches changes to the online state (the creation of an element included).
    OnlineStateChange(OnlineStateChange),
}

impl Filtering<NotificationReason> for StateChange {
    open spec fn matches_value(&self, reason: &NotificationReason) -> bool {
        match self {
            StateChange::OnlineStateChange(filter) => match reason {
                NotificationReason::OnlineStatusChanged(status) => filter.matches_value(status),
                NotificationReason::NewElement(status) => filter.matches_value(status),
                NotificationReason::AttributeEdit(_) => false,
            },
            StateChange::CreateEntity => reason is NewElement,
            StateChange::AttributeChange(change) => match reason {
                NotificationReason::AttributeEdit(edit) => {
                    &&& match change.id {
                        None => true,
                        Some(matcher) => matcher.matches_value(&edit.id),
                    }
                    &&& change.event.matches_value(&edit.change)
                },
                _ => false,
            },
        }
    }

    fn matches(&self, reason: &NotificationReason) -> (r: bool) {
        match self {
            StateChange::OnlineStateChange(filter) => match reason {
                NotificationReason::OnlineStatusChanged(status) => filter.matches(status),
                NotificationReason::NewElement(status) => filter.matches(status),
                NotificationReason::AttributeEdit(_) => false,
            },
            StateChange::CreateEntity => matches!(reason, NotificationReason::NewElement(_)),
            StateChange::AttributeChange(change) => match reason {
                NotificationReason::AttributeEdit(edit) => {
                    let id_ok = match &change.id {
                        None => true,
                        Some(matcher) => matcher.matches(&edit.id),
                    };
                    id_ok && change.event.matches(&edit.change)
                },
                _ => false,
            },
        }
    }
}

/// A fully configurable filter over notifications: by component, by element and
/// by the kind of state change.
#[derive(Debug, PartialEq)]
pub struct Filter {
    /// Filters the id of the component that caused the notification.
    pub component: SingleFilter<String>,
    /// Filters the id of the element of the notification.
    pub entity: SingleFilter<String>,
    /// Filters the kind of state change.
    pub state_changes: SingleFilter<StateChange>,
}

impl Default for Filter {
    fn default() -> (r: Self)
        ensures
            r.component.whitelist@.len() == 0 && r.component.blacklist@.len() == 0,
            r.entity.whitelist@.len() == 0 && r.entity.blacklist@.len() == 0,
            r.state_changes.whitelist@.len() == 0 && r.state_changes.blacklist@.len() == 0,
            r.component.priority == FilterPriority::Whitelist,
            r.entity.priority == FilterPriority::Whitelist,
            r.state_changes.priority == FilterPriority::Whitelist,
    {
        Filter { component: SingleFilter::default(), entity: SingleFilter::default(), state_changes: SingleFilter::default() }
    }
}

impl Filter {
    /// Whether the filter allows `message`.
    pub open spec fn allows_spec(&self, message: &Notification) -> bool {
        &&& self.component.allows_spec(&message.component_id)
        &&& self.entity.allows_spec(&message.element_id)
        &&& self.state_changes.allows_spec(&message.reason)
    }

    /// Whether the filter allows the given message.
    pub fn allows(&self, message: &Notification) -> (r: bool)
        ensures
            r == self.allows_spec(message),
    {
        self.component.allows(&message.component_id) && self.entity.allows(&message.element_id)
            && self.state_changes.allows(&message.reason)
    }
}

} // verus!

verus! {

/// A filter with empty lists that prioritizes the whitelist (the default filter)
/// allows every input.
pub proof fn law_default_filter_allows_all<Item: Filtering<V>, V>(f: SingleFilter<Item>, input: &V)
    requires
        f.whitelist@.len() == 0,
        f.blacklist@.len() == 0,
        f.priority == FilterPriority::Whitelist,
    ensures
        f.allows_spec(input),
{
}

/// Whatever the priority, an input that is whitelisted and not blacklisted is
/// allowed, and one that is blacklisted and not whitelisted is rejected.
pub proof fn law_lists_decide_when_they_agree<Item: Filtering<V>, V>(f: SingleFilter<Item>, input: &V)
    ensures
        some_item_matches(f.whitelist@, input) && !some_item_matches(f.blacklist@, input) ==> f.allows_spec(input),
        !some_item_matches(f.whitelist@, input) && some_item_matches(f.blacklist@, input) ==> !f.allows_spec(input),
{
}

/// Prioritizing the blacklist is stricter: what such a filter allows, the same
/// lists with the whitelist prioritized allow too.
pub proof fn law_blacklist_priority_is_stricter<Item: Filtering<V>, V>(f: SingleFilter<Item>, g: SingleFilter<Item>, input: &V)
    requires
        f.whitelist@ == g.whitelist@,
        f.blacklist@ == g.blacklist@,
        f.priority == FilterPriority::Blacklist,
        g.priority == FilterPriority::Whitelist,
    ensures
        f.allows_spec(input) ==> g.allows_spec(input),
{
}

/// An attribute matcher that matches exactly matches a subset of what the same
/// id matches when not exact.
pub proof fn law_exact_match_implies_fuzzy(id: Seq<char>, value: Seq<char>)
    ensures
        id == value ==> is_id_or_child(id, value),
{
    if id == value {
        assert(id.is_prefix_of(value));
    }
}

/// An online-state filter matches the creation of an element exactly as it
/// matches a change to the same state; a filter on element creation matches all
/// creations and nothing else.
pub proof fn law_creation_counts_as_online_change(f: OnlineStateChange, s: bool)
    ensures
        StateChange::OnlineStateChange(f).matches_value(&NotificationReason::NewElement(s))
            == StateChange::OnlineStateChange(f).matches_value(&NotificationReason::OnlineStatusChanged(s)),
        StateChange::CreateEntity.matches_value(&NotificationReason::NewElement(s)),
        !StateChange::CreateEntity.matches_value(&NotificationReason::OnlineStatusChanged(s)),
{
}

} // verus!
