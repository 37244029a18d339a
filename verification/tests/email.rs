use status_server::email::{default_name, mail_text, recipients, sender, Config, Subscriber};
use status_server::filters::{Filter, FilterPriority, OnlineStateChange, SingleFilter, StateChange};
use status_server::notification::{AttributeEdit, AttributeValueChange, Notification, NotificationReason};
use status_server::state::AttributeValue;

#[test]
fn get_email() {
    let subscriber = Subscriber::Default("mail@example.com".to_string());
    assert_eq!(subscriber.get_email(), "mail@example.com");
    assert_eq!(Subscriber::Custom {
        email: "test@example.com".to_string(),
        filter: Filter::default(),
    }.get_email(), "test@example.com");
}

#[test]
fn allows() {
    let filter = Filter {
        component: Default::default(),
        entity: Default::default(),
        state_changes: SingleFilter {
            whitelist: vec![StateChange::OnlineStateChange(OnlineStateChange::Offline)],
            blacklist: vec![],
            priority: FilterPriority::Blacklist,
        },
    };
    let default_subscriber = Subscriber::Default("test@example.com".to_string());
    let custom_subscriber = Subscriber::Custom {
        email: "test@foobar.com".to_string(),
        filter,
    };
    let test_notif1 = Notification {
        component_id: "asdf".to_string(),
        element_id: "asdf".to_string(),
        reason: NotificationReason::NewElement(true),
    };
    let test_notif2 = Notification {
        component_id: "asdf".to_string(),
        element_id: "asdf".to_string(),
        reason: NotificationReason::OnlineStatusChanged(false),
    };
    assert!(default_subscriber.allows(&test_notif1));
    assert!(default_subscriber.allows(&test_notif2));
    assert!(!custom_subscriber.allows(&test_notif1));
    assert!(custom_subscriber.allows(&test_notif2));
}

fn offline_only() -> Filter {
    Filter {
        component: SingleFilter::default(),
        entity: SingleFilter::default(),
        state_changes: SingleFilter {
            whitelist: vec![StateChange::OnlineStateChange(OnlineStateChange::Offline)],
            blacklist: vec![],
            priority: FilterPriority::Blacklist,
        },
    }
}

fn note(reason: NotificationReason) -> Notification {
    Notification::new("miner".to_string(), "foo".to_string(), reason)
}

#[test]
fn default_config_uses_no_reply_name() {
    assert_eq!(default_name(), "No Reply");
    let config = Config::default();
    assert_eq!(config.name, "No Reply");
    assert!(config.subscribers.is_empty());
    assert_eq!(config.address, "");
}

#[test]
fn sender_shows_name_and_address() {
    let mut config = Config::default();
    config.address = "noreply@example.com".to_string();
    assert_eq!(sender(&config), "No Reply <noreply@example.com>");
}

#[test]
fn online_and_offline_mails() {
    let (subject, body) = mail_text(&note(NotificationReason::OnlineStatusChanged(true)), "", "");
    assert_eq!(subject, "foo went online");
    assert_eq!(body, "<h1> <code>foo</code> just went online</h1>Everything is fine");
    let (subject, body) = mail_text(&note(NotificationReason::OnlineStatusChanged(false)), "", "");
    assert_eq!(subject, "foo went offline");
    assert_eq!(body, "<h1><code>foo</code> just went offline!</h1> Go check up on it!");
    let (subject, body) = mail_text(&note(NotificationReason::NewElement(true)), "", "");
    assert_eq!(subject, "foo just got created (online)");
    assert_eq!(body, "just got word that foo exists and is online.");
    let (subject, body) = mail_text(&note(NotificationReason::NewElement(false)), "", "");
    assert_eq!(subject, "foo just got created (offline)");
    assert_eq!(body, "just got word that foo exists and is offline.");
}

#[test]
fn attribute_mails_show_values() {
    let edit = |change| NotificationReason::AttributeEdit(AttributeEdit { id: "cpu".to_string(), change });
    let (subject, body) = mail_text(&note(edit(AttributeValueChange::Create(AttributeValue::Marker))), "", "5%");
    assert_eq!(subject, "foo just got the attribute cpu");
    assert_eq!(body, "The new value of <code>cpu</code> for foo is: 5%");
    let (subject, body) = mail_text(
        &note(edit(AttributeValueChange::Edit(AttributeValue::Marker, AttributeValue::Marker))),
        "5%",
        "7%",
    );
    assert_eq!(subject, "cpu of foo just changed value");
    assert_eq!(body, "cpu of foo just changed from 5% to 7%");
    let (subject, body) = mail_text(&note(edit(AttributeValueChange::Delete(AttributeValue::Marker))), "7%", "");
    assert_eq!(subject, "cpu of foo just got deleted");
    assert_eq!(body, "cpu of foo just got deleted (7%)");
}

#[test]
fn recipients_follow_filters_in_order() {
    let mut config = Config::default();
    config.subscribers = vec![
        Subscriber::Default("a@example.com".to_string()),
        Subscriber::Custom { email: "b@example.com".to_string(), filter: offline_only() },
        Subscriber::Custom { email: "c@example.com".to_string(), filter: Filter::default() },
    ];
    let online = note(NotificationReason::OnlineStatusChanged(true));
    let offline = note(NotificationReason::OnlineStatusChanged(false));
    assert_eq!(recipients(&config, &online), vec!["a@example.com".to_string(), "c@example.com".to_string()]);
    assert_eq!(
        recipients(&config, &offline),
        vec!["a@example.com".to_string(), "b@example.com".to_string(), "c@example.com".to_string()]
    );
    config.filter = offline_only();
    assert!(recipients(&config, &online).is_empty());
}
