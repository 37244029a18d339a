//! The history component: which notifications it records, and what it records.
use vstd::prelude::*;
use crate::api::{allows_attribute, allows_id, lemma_allows_attribute, lemma_allows_id};
use crate::filters::{AttributeIdMatcher, SingleFilter};
use crate::notification::{AttributeValueChange, Notification, NotificationReason};
use crate::backend::{after_set_attribute, after_set_online, attribute_note, online_note, ElementModel};
use crate::state::{AttributeValue, AttributeValueModel};

verus! {

/// The configuration of the history component (its backends are configured apart).
#[derive(Debug, PartialEq, Default)]
pub struct Config {
    /// Which elements are recorded.
    pub elements_filter: SingleFilter<String>,
    /// Which attributes are recorded.
    pub attributes_filter: SingleFilter<AttributeIdMatcher>,
}

/// Keeps the history of elements' online states and attributes.
#[derive(Debug, PartialEq)]
pub struct History {
    /// Which elements are recorded.
    pub elements_filter: SingleFilter<String>,
    /// Which attributes are recorded.
    pub attributes_filter: SingleFilter<AttributeIdMatcher>,
}

/// One change to store in the history backends.
#[derive(Debug, PartialEq)]
pub enum HistoryRecord {
    /// An attribute changed: its new value, or `None` when it was deleted.
    Attribute {
        /// The element.
        element_id: String,
        /// The attribute.
        attribute_id: String,
        /// The new value, if the attribute still exists.
        new_value: Option<AttributeValue>,
    },
    /// The online state of an element changed (or the element was created).
    OnlineState {
        /// The element.
        element_id: String,
        /// The new online state.
        state: bool,
    },
}

impl History {
    /// Initializes the component from its configuration.
    pub fn init(config: Config) -> (r: Self)
        ensures
            r.elements_filter == config.elements_filter,
            r.attributes_filter == config.attributes_filter,
    {
        History { elements_filter: config.elements_filter, attributes_filter: config.attributes_filter }
    }

    /// Takes a new configuration.
    pub fn reconfigure(&mut self, config: Config)
        ensures
            final(self).elements_filter == config.elements_filter,
            final(self).attributes_filter == config.attributes_filter,
    {
        self.elements_filter = config.elements_filter;
        self.attributes_filter = config.attributes_filter;
    }

    /// The record of a notification: nothing for an element the element filter
    /// rejects, nor for an attribute change the attribute filter rejects.
    pub open spec fn record_spec(&self, n: Notification) -> Option<HistoryRecord> {
        if !allows_id(self.elements_filter, n.element_id@) {
            None
        } else {
            match n.reason {
                NotificationReason::AttributeEdit(edit) => {
                    if !allows_attribute(self.attributes_filter, edit.id@) {
                        None
                    } else {
                        Some(HistoryRecord::Attribute {
                            element_id: n.element_id,
                            attribute_id: edit.id,
                            new_value: match edit.change {
                                AttributeValueChange::Create(v) => Some(v),
                                AttributeValueChange::Edit(_, v) => Some(v),
                                AttributeValueChange::Delete(_) => None,
                            },
                        })
                    }
                },
                NotificationReason::OnlineStatusChanged(s) => Some(HistoryRecord::OnlineState { element_id: n.element_id, state: s }),
                NotificationReason::NewElement(s) => Some(HistoryRecord::OnlineState { element_id: n.element_id, state: s }),
            }
        }
    }

    /// What to record for `notification`, if anything.
    pub fn record_for(&self, notification: Notification) -> (r: Option<HistoryRecord>)
        ensures
            r == self.record_spec(notification),
    {
        let ghost n = notification;
        let allowed = self.elements_filter.allows(&notification.element_id);
        proof {
            lemma_allows_id(self.elements_filter, &notification.element_id);
        }
        if !allowed {
            return None;
        }
        match notification.reason {
            NotificationReason::AttributeEdit(edit) => {
                let attribute_allowed = self.attributes_filter.allows(&edit.id);
                proof {
                    lemma_allows_attribute(self.attributes_filter, &edit.id);
                }
                if !attribute_allowed {
                    return None;
                }
                let new_value = match edit.change {
                    AttributeValueChange::Create(v) => Some(v),
                    AttributeValueChange::Edit(_, v) => Some(v),
                    AttributeValueChange::Delete(_) => None,
                };
                Some(HistoryRecord::Attribute { element_id: notification.element_id, attribute_id: edit.id, new_value })
            },
            NotificationReason::OnlineStatusChanged(s) => Some(HistoryRecord::OnlineState { element_id: notification.element_id, state: s }),
            NotificationReason::NewElement(s) => Some(HistoryRecord::OnlineState { element_id: notification.element_id, state: s }),
        }
    }
}

/// When the filters allow it, what is recorded for the notification that setting
/// an attribute sends is the value the attribute holds afterwards.
pub proof fn law_history_records_value_after_set(
    h: History,
    m: Map<Seq<char>, ElementModel>,
    e: Seq<char>,
    a: Seq<char>,
    v: AttributeValueModel,
    n: Notification,
)
    requires
        attribute_note(n, m, e, a, v),
        n.element_id@ == e,
        allows_id(h.elements_filter, e),
        allows_attribute(h.attributes_filter, a),
    ensures
        h.record_spec(n) matches Some(HistoryRecord::Attribute { element_id, attribute_id, new_value: Some(x) })
            && element_id@ == e && attribute_id@ == a && x@ == after_set_attribute(m, e, a, v)[e].attributes[a],
{
}

/// When the element filter allows it, what is recorded for the notification that
/// setting an element's online state sends is the state the element has afterwards.
pub proof fn law_history_records_state_after_set(h: History, m: Map<Seq<char>, ElementModel>, e: Seq<char>, s: bool, n: Notification)
    requires
        online_note(n, m, e, s),
        n.element_id@ == e,
        allows_id(h.elements_filter, e),
    ensures
        h.record_spec(n) matches Some(HistoryRecord::OnlineState { element_id, state })
            && element_id@ == e && state == after_set_online(m, e, s)[e].online,
{
}

/// When the filters allow it, a deleted attribute is recorded as having no value.
pub proof fn law_history_records_deletion(h: History, n: Notification)
    requires
        n.reason matches NotificationReason::AttributeEdit(edit) && edit.change is Delete
            && allows_attribute(h.attributes_filter, edit.id@),
        allows_id(h.elements_filter, n.element_id@),
    ensures
        h.record_spec(n) matches Some(HistoryRecord::Attribute { new_value: None, .. }),
{
}

} // verus!
