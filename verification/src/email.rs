//! Notifications by e-mail: who is written to, and what the mail says.
use vstd::prelude::*;
use vstd::string::*;
use crate::filters::Filter;
use crate::notification::{AttributeValueChange, Notification, NotificationReason};
use crate::strutil::to_owned;

verus! {

/// The sender name used when none is configured.
pub fn default_name() -> (r: String)
    ensures
        r@ == "No Reply"@,
{
    String::from_str("No Reply")
}

/// The configuration of e-mail notifications.
pub struct Config {
    /// The address mails are sent from (and the login at the server).
    pub address: String,
    /// The password at the mail server.
    pub password: String,
    /// The SMTP relay to send through.
    pub server: String,
    /// The sender's display name.
    pub name: String,
    /// Who receives the mails.
    pub subscribers: Vec<Subscriber>,
    /// Which notifications are mailed at all.
    pub filter: Filter,
}

impl Default for Config {
    fn default() -> (r: Self)
        ensures
            r.address@.len() == 0,
            r.password@.len() == 0,
            r.server@.len() == 0,
            r.name@ == "No Reply"@,
            r.subscribers@.len() == 0,
            r.filter.component.whitelist@.len() == 0,
            r.filter.component.blacklist@.len() == 0,
            r.filter.entity.whitelist@.len() == 0,
            r.filter.entity.blacklist@.len() == 0,
            r.filter.state_changes.whitelist@.len() == 0,
            r.filter.state_changes.blacklist@.len() == 0,
    {
        Config {
            address: String::new(),
            password: String::new(),
            server: String::new(),
            name: default_name(),
            subscribers: Vec::new(),
            filter: Filter::default(),
        }
    }
}

/// A receiver of notification mails.
pub enum Subscriber {
    /// An address that receives every mailed notification.
    Default(String),
    /// An address that receives the mailed notifications its filter allows.
    Custom {
        /// The address.
        email: String,
        /// Which notifications this subscriber receives.
        filter: Filter,
    },
}

impl Subscriber {
    /// The subscriber's address.
    pub open spec fn email_spec(&self) -> String {
        match self {
            Subscriber::Default(address) => *address,
            Subscriber::Custom { email, .. } => *email,
        }
    }

    /// Whether the subscriber receives `notification`.
    pub open spec fn allows_spec(&self, notification: &Notification) -> bool {
        match self {
            Subscriber::Custom { filter, .. } => filter.allows_spec(notification),
            Subscriber::Default(_) => true,
        }
    }

    /// The subscriber's address.
    pub fn get_email(&self) -> (r: &String)
        ensures
            *r == self.email_spec(),
    {
        match self {
            Subscriber::Default(address) => address,
            Subscriber::Custom { email, .. } => email,
        }
    }

    /// Whether the subscriber receives `notification`.
    pub fn allows(&self, notification: &Notification) -> (r: bool)
        ensures
            r == self.allows_spec(notification),
    {
        match self {
            Subscriber::Custom { filter, .. } => filter.allows(notification),
            Subscriber::Default(_) => true,
        }
    }
}

/// The subject of the mail about `reason` for element `element`; `shown_old` and
/// `shown_new` are how the old and new attribute values of an edit are written.
pub open spec fn subject_spec(element: Seq<char>, reason: NotificationReason, shown_old: Seq<char>, shown_new: Seq<char>) -> Seq<char> {
    match reason {
        NotificationReason::OnlineStatusChanged(true) => element + " went online"@,
        NotificationReason::OnlineStatusChanged(false) => element + " went offline"@,
        NotificationReason::AttributeEdit(edit) => match edit.change {
            AttributeValueChange::Create(_) => element + " just got the attribute "@ + edit.id@,
            AttributeValueChange::Edit(_, _) => edit.id@ + " of "@ + element + " just changed value"@,
            AttributeValueChange::Delete(_) => edit.id@ + " of "@ + element + " just got deleted"@,
        },
        NotificationReason::NewElement(true) => element + " just got created (online)"@,
        NotificationReason::NewElement(false) => element + " just got created (offline)"@,
    }
}

/// The (HTML) body of the mail about `reason` for element `element`.
pub open spec fn body_spec(element: Seq<char>, reason: NotificationReason, shown_old: Seq<char>, shown_new: Seq<char>) -> Seq<char> {
    match reason {
        NotificationReason::OnlineStatusChanged(true) => "<h1> <code>"@ + element + "</code> just went online</h1>Everything is fine"@,
        NotificationReason::OnlineStatusChanged(false) => "<h1><code>"@ + element + "</code> just went offline!</h1> Go check up on it!"@,
        NotificationReason::AttributeEdit(edit) => match edit.change {
            AttributeValueChange::Create(_) => "The new value of <code>"@ + edit.id@ + "</code> for "@ + element + " is: "@ + shown_new,
            AttributeValueChange::Edit(_, _) => edit.id@ + " of "@ + element + " just changed from "@ + shown_old + " to "@ + shown_new,
            AttributeValueChange::Delete(_) => edit.id@ + " of "@ + element + " just got deleted ("@ + shown_old + ")"@,
        },
        NotificationReason::NewElement(true) => "just got word that "@ + element + " exists and is online."@,
        NotificationReason::NewElement(false) => "just got word that "@ + element + " exists and is offline."@,
    }
}

/// The subject and body of the mail about `notification`; `shown_old` and
/// `shown_new` are how the old and new attribute values of an edit are written.
pub fn mail_text(notification: &Notification, shown_old: &str, shown_new: &str) -> (r: (String, String))
    ensures
        r.0@ == subject_spec(notification.element_id@, notification.reason, shown_old@, shown_new@),
        r.1@ == body_spec(notification.element_id@, notification.reason, shown_old@, shown_new@),
{
    let element = notification.element_id.as_str();
    match &notification.reason {
        NotificationReason::OnlineStatusChanged(true) => (
            to_owned(element).concat(" went online"),
            String::from_str("<h1> <code>").concat(element).concat("</code> just went online</h1>Everything is fine"),
        ),
        NotificationReason::OnlineStatusChanged(false) => (
            to_owned(element).concat(" went offline"),
            String::from_str("<h1><code>").concat(element).concat("</code> just went offline!</h1> Go check up on it!"),
        ),
        NotificationReason::AttributeEdit(edit) => {
            let id = edit.id.as_str();
            match &edit.change {
                AttributeValueChange::Create(_) => (
                    to_owned(element).concat(" just got the attribute ").concat(id),
                    String::from_str("The new value of <code>").concat(id).concat("</code> for ").concat(element)
                        .concat(" is: ").concat(shown_new),
                ),
                AttributeValueChange::Edit(_, _) => (
                    to_owned(id).concat(" of ").concat(element).concat(" just changed value"),
                    to_owned(id).concat(" of ").concat(element).concat(" just changed from ").concat(shown_old)
                        .concat(" to ").concat(shown_new),
                ),
                AttributeValueChange::Delete(_) => (
                    to_owned(id).concat(" of ").concat(element).concat(" just got deleted"),
                    to_owned(id).concat(" of ").concat(element).concat(" just got deleted (").concat(shown_old).concat(")"),
                ),
            }
        },
        NotificationReason::NewElement(true) => (
            to_owned(element).concat(" just got created (online)"),
            String::from_str("just got word that ").concat(element).concat(" exists and is online."),
        ),
        NotificationReason::NewElement(false) => (
            to_owned(element).concat(" just got created (offline)"),
            String::from_str("just got word that ").concat(element).concat(" exists and is offline."),
        ),
    }
}

/// The sender of the mails: the configured name, then the address in angle brackets.
pub fn sender(config: &Config) -> (r: String)
    ensures
        r@ == config.name@ + " <"@ + config.address@ + ">"@,
{
    to_owned(config.name.as_str()).concat(" <").concat(config.address.as_str()).concat(">")
}

/// The addresses of the subscribers in `subs` that receive `notification`, in order.
pub open spec fn receivers(subs: Seq<Subscriber>, notification: Notification) -> Seq<Seq<char>>
    decreases subs.len(),
{
    if subs.len() == 0 {
        Seq::empty()
    } else {
        let rest = receivers(subs.drop_last(), notification);
        if subs.last().allows_spec(&notification) {
            rest.push(subs.last().email_spec()@)
        } else {
            rest
        }
    }
}

/// The addresses that the mail about `notification` goes to, in the configured
/// order: none when the provider's filter refuses it, else those of the
/// subscribers that receive it.
pub fn recipients(config: &Config, notification: &Notification) -> (r: Vec<String>)
    ensures
        !config.filter.allows_spec(notification) ==> r@.len() == 0,
        config.filter.allows_spec(notification) ==> r@.map_values(|s: String| s@) == receivers(config.subscribers@, *notification),
{
    let mut r: Vec<String> = Vec::new();
    if !config.filter.allows(notification) {
        return r;
    }
    let ghost subs = config.subscribers@;
    let mut i: usize = 0;
    proof {
        assert(subs.take(0) =~= Seq::<Subscriber>::empty());
        assert(r@.map_values(|s: String| s@) =~= Seq::<Seq<char>>::empty());
    }
    while i < config.subscribers.len()
        invariant
            subs == config.subscribers@,
            i <= subs.len(),
            r@.map_values(|s: String| s@) == receivers(subs.take(i as int), *notification),
        decreases subs.len() - i,
    {
        let ghost before = r@;
        proof {
            assert(subs.take(i + 1).drop_last() =~= subs.take(i as int));
            assert(subs.take(i + 1).last() == subs[i as int]);
        }
        let sub = &config.subscribers[i];
        if sub.allows(notification) {
            let e = sub.get_email().clone();
            r.push(e);
            proof {
                assert(r@.map_values(|s: String| s@) =~= before.map_values(|s: String| s@).push(subs[i as int].email_spec()@));
            }
        }
        i = i + 1;
    }
    proof {
        assert(subs.take(subs.len() as int) =~= subs);
    }
    r
}

/// Mail goes only to subscribers that receive the notification, and a plain
/// address receives every mailed notification.
pub proof fn law_mail_follows_subscriber_filters(subs: Seq<Subscriber>, n: Notification)
    ensures
        receivers(subs, n).len() <= subs.len(),
        forall|k: int| #![trigger receivers(subs, n)[k]] 0 <= k < receivers(subs, n).len() ==> exists|j: int| 0 <= j < subs.len()
            && (#[trigger] subs[j]).allows_spec(&n) && subs[j].email_spec()@ == receivers(subs, n)[k],
        forall|j: int| #![trigger subs[j]] 0 <= j < subs.len() && subs[j] is Default ==> subs[j].allows_spec(&n),
    decreases subs.len(),
{
    if subs.len() > 0 {
        let rest = subs.drop_last();
        law_mail_follows_subscriber_filters(rest, n);
        assert forall|k: int| #![trigger receivers(subs, n)[k]] 0 <= k < receivers(subs, n).len() implies exists|j: int| 0 <= j < subs.len()
            && (#[trigger] subs[j]).allows_spec(&n) && subs[j].email_spec()@ == receivers(subs, n)[k] by {
            if k < receivers(rest, n).len() {
                let j = choose|j: int| 0 <= j < rest.len() && (#[trigger] rest[j]).allows_spec(&n) && rest[j].email_spec()@ == receivers(rest, n)[k];
                assert(subs[j] == rest[j]);
            } else {
                assert(subs[subs.len() - 1] == subs.last());
            }
        }
    }
}

} // verus!
