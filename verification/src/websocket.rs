//! The messages sent to clients over websockets, and how a notification becomes one.
use vstd::prelude::*;
use crate::notification::{AttributeValueChange, Notification, NotificationReason};
use crate::backend::{after_set_attribute, after_set_online, attribute_note, online_note, ElementModel};
use crate::state::{AttributeValue, AttributeValueModel};

verus! {

/// A single websocket message.
#[derive(Debug, PartialEq)]
pub struct Message {
    /// The id of the element that changed.
    pub element_id: String,
    /// The id of the component that caused the message.
    pub component_id: String,
    /// Why the message was sent.
    pub reason: MessageReason,
}

/// Why a [`Message`] was sent.
#[derive(Debug, PartialEq)]
pub enum MessageReason {
    /// Something happened to the online status.
    OnlineStatus(OnlineStatusChange),
    /// Something happened to one of the attributes.
    Attribute(AttributeMessage),
}

/// Changes that can happen to the online status.
#[derive(Clone, Copy, Debug, PartialEq, Eq, Structural)]
pub enum OnlineStatusChange {
    /// The element was deleted.
    Delete,
    /// The element was created with this online status.
    Create(bool),
    /// The online status changed to this one.
    Change(bool),
}

/// A change to an attribute.
#[derive(Debug, PartialEq)]
pub struct AttributeMessage {
    /// The id of the attribute.
    pub attribute_id: String,
    /// The change that happened.
    pub change: AttributeChange,
}

/// Changes to the attribute of an element.
#[derive(Debug, PartialEq)]
pub enum AttributeChange {
    /// The attribute was created with this value.
    Create(AttributeValue),
    /// The attribute changed to this value.
    Change(AttributeValue),
    /// The attribute was deleted.
    Delete,
}

/// The message reason that a notification reason becomes: the old value of an
/// edit, and the value of a deleted attribute, are not sent.
pub open spec fn message_reason_of(r: NotificationReason) -> MessageReason {
    match r {
        NotificationReason::OnlineStatusChanged(s) => MessageReason::OnlineStatus(OnlineStatusChange::Change(s)),
        NotificationReason::NewElement(s) => MessageReason::OnlineStatus(OnlineStatusChange::Create(s)),
        NotificationReason::AttributeEdit(edit) => MessageReason::Attribute(AttributeMessage {
            attribute_id: edit.id,
            change: match edit.change {
                AttributeValueChange::Create(v) => AttributeChange::Create(v),
                AttributeValueChange::Edit(_, v) => AttributeChange::Change(v),
                AttributeValueChange::Delete(_) => AttributeChange::Delete,
            },
        }),
    }
}

/// The online state that a message reports, if it is about the online state.
pub open spec fn reported_online(r: MessageReason) -> Option<bool> {
    match r {
        MessageReason::OnlineStatus(OnlineStatusChange::Create(b)) => Some(b),
        MessageReason::OnlineStatus(OnlineStatusChange::Change(b)) => Some(b),
        _ => None,
    }
}

/// The message for the notification that setting an element's online state
/// sends reports the state the element has afterwards, as a creation exactly
/// when the element was unknown before.
pub proof fn law_online_message_reports_new_state(m: Map<Seq<char>, ElementModel>, e: Seq<char>, s: bool, n: Notification)
    requires
        online_note(n, m, e, s),
    ensures
        reported_online(message_reason_of(n.reason)) == Some(after_set_online(m, e, s)[e].online),
        (message_reason_of(n.reason) matches MessageReason::OnlineStatus(OnlineStatusChange::Create(_))) == !m.dom().contains(e),
{
}

/// The message for the notification that setting an attribute sends names the
/// attribute and carries the value it holds afterwards, as a creation exactly
/// when the attribute was absent before.
pub proof fn law_attribute_message_reports_new_value(
    m: Map<Seq<char>, ElementModel>,
    e: Seq<char>,
    a: Seq<char>,
    v: AttributeValueModel,
    n: Notification,
)
    requires
        attribute_note(n, m, e, a, v),
    ensures
        message_reason_of(n.reason) matches MessageReason::Attribute(am) && am.attribute_id@ == a && match am.change {
            AttributeChange::Create(x) => x@ == after_set_attribute(m, e, a, v)[e].attributes[a]
                && !(m.dom().contains(e) && m[e].attributes.dom().contains(a)),
            AttributeChange::Change(x) => x@ == after_set_attribute(m, e, a, v)[e].attributes[a]
                && m.dom().contains(e) && m[e].attributes.dom().contains(a),
            AttributeChange::Delete => false,
        },
{
}

impl From<NotificationReason> for MessageReason {
    fn from(value: NotificationReason) -> (r: Self) {
        match value {
            NotificationReason::OnlineStatusChanged(s) => MessageReason::OnlineStatus(OnlineStatusChange::Change(s)),
            NotificationReason::NewElement(s) => MessageReason::OnlineStatus(OnlineStatusChange::Create(s)),
            NotificationReason::AttributeEdit(edit) => MessageReason::Attribute(AttributeMessage {
                attribute_id: edit.id,
                change: match edit.change {
                    AttributeValueChange::Create(v) => AttributeChange::Create(v),
                    AttributeValueChange::Edit(_, v) => AttributeChange::Change(v),
                    AttributeValueChange::Delete(_) => AttributeChange::Delete,
                },
            }),
        }
    }
}

impl vstd::std_specs::convert::FromSpecImpl<NotificationReason> for MessageReason {
    open spec fn obeys_from_spec() -> bool {
        true
    }

    open spec fn from_spec(v: NotificationReason) -> MessageReason {
        message_reason_of(v)
    }
}

impl From<Notification> for Message {
    fn from(value: Notification) -> (r: Self) {
        Message {
            element_id: value.element_id,
            component_id: value.component_id,
            reason: MessageReason::from(value.reason),
        }
    }
}

impl vstd::std_specs::convert::FromSpecImpl<Notification> for Message {
    open spec fn obeys_from_spec() -> bool {
        true
    }

    open spec fn from_spec(v: Notification) -> Message {
        Message { element_id: v.element_id, component_id: v.component_id, reason: message_reason_of(v.reason) }
    }
}

} // verus!
