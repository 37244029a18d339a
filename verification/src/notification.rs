//! Notifications about changes to the state of an element.
use vstd::prelude::*;
use crate::state::AttributeValue;

verus! {

/// A notification of a changing state for an element.
#[derive(Clone, Debug, PartialEq)]
pub struct Notification {
    /// The id of the component that triggered this change.
    pub component_id: String,
    /// The id of the element that experienced a change.
    pub element_id: String,
    /// The reason this notification was sent out.
    pub reason: NotificationReason,
}

impl Notification {
    /// A notification with the given fields.
    pub fn new(component_id: String, element_id: String, reason: NotificationReason) -> (r: Self)
        ensures
            r.component_id == component_id,
            r.element_id == element_id,
            r.reason == reason,
    {
        Notification { component_id, element_id, reason }
    }
}

/// Reasons why a notification might be sent out.
#[derive(Clone, Debug, PartialEq)]
pub enum NotificationReason {
    /// The online status of the element changed; the inner state is the new one,
    /// and the previous state was its negation.
    OnlineStatusChanged(bool),
    /// An attribute was edited (created, changed or deleted).
    AttributeEdit(AttributeEdit),
    /// A new element was created with the given online status.
    NewElement(bool),
}

/// An attribute was edited.
#[derive(Clone, Debug, PartialEq)]
pub struct AttributeEdit {
    /// The id of the attribute that was edited.
    pub id: String,
    /// The change that happened.
    pub change: AttributeValueChange,
}

/// Changes to the attribute value when an attribute was edited.
#[derive(Clone, Debug, PartialEq)]
pub enum AttributeValueChange {
    /// The attribute was created with this value.
    Create(AttributeValue),
    /// The attribute was changed from the first value to the second.
    Edit(AttributeValue, AttributeValue),
    /// The attribute, holding this value, was deleted.
    Delete(AttributeValue),
}

} // verus!
