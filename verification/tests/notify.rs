use status_server::config::{check_passes, Global, Ignored, Notification as NotificationConfig, Status};
use status_server::filters::{Filter, FilterPriority, OnlineStateChange, SingleFilter, StateChange};
use status_server::history::{Config as HistoryConfig, History, HistoryRecord};
use status_server::notification::{AttributeEdit, AttributeValueChange, Notification, NotificationReason};
use status_server::ntfy::{default_message, fill, formatted_or_template, make_format_values, Config as NtfyConfig, NtfyNotificationProvider};
use status_server::registry::{Admission, ComponentRegistry, ReloadAction};
use status_server::state::{AttributeValue, ByteCode};
use status_server::websocket::{AttributeChange, Message, MessageReason, OnlineStatusChange};

fn ntfy_config(title: Option<&str>, message: &str, filter: Filter) -> NtfyConfig {
    NtfyConfig {
        base: "https://ntfy.sh".to_string(),
        topic: "status".to_string(),
        title: title.map(|t| t.to_string()),
        message: message.to_string(),
        tags: vec!["warning".to_string()],
        priority: Some(3),
        click: None,
        attach: None,
        markdown: None,
        icon: None,
        filename: None,
        delay: None,
        email: None,
        call: None,
        filter,
        auth_token: Some("tk_asdf".to_string()),
    }
}

fn offline_only() -> Filter {
    Filter {
        component: SingleFilter::default(),
        entity: SingleFilter::default(),
        state_changes: SingleFilter {
            whitelist: vec![StateChange::OnlineStateChange(OnlineStateChange::Offline)],
            blacklist: vec![],
            priority: FilterPriority::Blacklist,
        },
    }
}

fn went(online: bool) -> Notification {
    Notification::new("miner".to_string(), "m1".to_string(), NotificationReason::OnlineStatusChanged(online))
}

#[test]
fn format_values_for_online_changes() {
    let name = AttributeValue::Custom(ByteCode::String("Miner One".to_string()));
    let vars = make_format_values(&went(false), Some(&name), "", "");
    let get = |k: &str| vars.get(k).cloned();
    assert_eq!(get("element"), Some("Miner One".to_string()));
    assert_eq!(get("element_id"), Some("m1".to_string()));
    assert_eq!(get("component_id"), Some("miner".to_string()));
    assert_eq!(get("reason_short"), Some("went offline".to_string()));
    assert_eq!(get("reason_long"), Some("went offline".to_string()));
    assert_eq!(get("status_new"), Some("offline".to_string()));
    assert_eq!(get("status_old"), Some("online".to_string()));
    assert_eq!(get("attr_id"), None);
    let unnamed = make_format_values(&went(true), Some(&AttributeValue::Marker), "", "");
    assert_eq!(unnamed.get("element").cloned(), Some("m1".to_string()));
}

#[test]
fn format_values_for_attribute_edits() {
    let n = Notification::new(
        "c".to_string(),
        "e".to_string(),
        NotificationReason::AttributeEdit(AttributeEdit {
            id: "cpu".to_string(),
            change: AttributeValueChange::Edit(AttributeValue::Marker, AttributeValue::Marker),
        }),
    );
    let vars = make_format_values(&n, None, "5%", "7%");
    assert_eq!(vars.get("reason_short").cloned(), Some("attribute cpu changed".to_string()));
    assert_eq!(vars.get("reason_long").cloned(), Some("attribute cpu got changed (5% => 7%)".to_string()));
    assert_eq!(vars.get("attr_id").cloned(), Some("cpu".to_string()));
    assert_eq!(vars.get("attr_new_value").cloned(), Some("7%".to_string()));
    assert_eq!(vars.get("attr_old_value").cloned(), Some("5%".to_string()));
    assert_eq!(vars.get("status_new").cloned(), None);
}

#[test]
fn templates_are_filled_or_kept() {
    let vars = make_format_values(&went(true), None, "", "");
    assert_eq!(default_message(), "{element} {reason_long}");
    assert_eq!(fill(&default_message(), &vars), "m1 went online");
    assert_eq!(fill(&"{element_id}: {status_old} -> {status_new}".to_string(), &vars), "m1: offline -> online");
    let broken = "{unknown} happened".to_string();
    assert_eq!(fill(&broken, &vars), "{unknown} happened");
    assert_eq!(formatted_or_template(&broken, Some("x".to_string())), "x");
    assert_eq!(formatted_or_template(&broken, None), "{unknown} happened");
}

#[test]
fn ntfy_requests_per_allowing_target() {
    let provider = NtfyNotificationProvider::init(vec![
        ntfy_config(Some("{element} {reason_short}"), "{element} {reason_long}", Filter::default()),
        ntfy_config(None, "down: {element_id}", offline_only()),
    ]);
    let up = provider.requests(&went(true), None, "", "");
    assert_eq!(up.len(), 1);
    assert_eq!(up[0].url, "https://ntfy.sh");
    assert_eq!(up[0].bearer, Some("tk_asdf".to_string()));
    assert_eq!(up[0].body.title, Some("m1 went online".to_string()));
    assert_eq!(up[0].body.message, Some("m1 went online".to_string()));
    assert_eq!(up[0].body.tags, vec!["warning".to_string()]);
    assert_eq!(up[0].body.priority, Some(3));
    let down = provider.requests(&went(false), None, "", "");
    assert_eq!(down.len(), 2);
    assert_eq!(down[1].body.title, None);
    assert_eq!(down[1].body.message, Some("down: m1".to_string()));
}

#[test]
fn history_records() {
    let history = History::init(HistoryConfig {
        elements_filter: SingleFilter { whitelist: vec![], blacklist: vec!["private".to_string()], priority: FilterPriority::Whitelist },
        attributes_filter: SingleFilter::default(),
    });
    let record = history.record_for(went(true));
    assert_eq!(record, Some(HistoryRecord::OnlineState { element_id: "m1".to_string(), state: true }));
    let deleted = Notification::new(
        "c".to_string(),
        "m1".to_string(),
        NotificationReason::AttributeEdit(AttributeEdit { id: "cpu".to_string(), change: AttributeValueChange::Delete(AttributeValue::Marker) }),
    );
    assert_eq!(
        history.record_for(deleted),
        Some(HistoryRecord::Attribute { element_id: "m1".to_string(), attribute_id: "cpu".to_string(), new_value: None })
    );
    let private = Notification::new("c".to_string(), "private".to_string(), NotificationReason::NewElement(true));
    assert_eq!(history.record_for(private), None);
}

#[test]
fn websocket_messages_drop_old_values() {
    let m = Message::from(went(false));
    assert_eq!(m.element_id, "m1");
    assert_eq!(m.reason, MessageReason::OnlineStatus(OnlineStatusChange::Change(false)));
    let edit = Notification::new(
        "c".to_string(),
        "e".to_string(),
        NotificationReason::AttributeEdit(AttributeEdit {
            id: "cpu".to_string(),
            change: AttributeValueChange::Edit(AttributeValue::Marker, AttributeValue::Percentage(0x3f000000)),
        }),
    );
    match Message::from(edit).reason {
        MessageReason::Attribute(a) => {
            assert_eq!(a.attribute_id, "cpu");
            assert_eq!(a.change, AttributeChange::Change(AttributeValue::Percentage(0x3f000000)));
        }
        other => panic!("unexpected {other:?}"),
    }
}

#[test]
fn config_checks_and_wrappers() {
    let global = Global { ignored: Ignored { components: vec!["mail".to_string()] } };
    assert!(global.is_ignored("mail"));
    assert!(!global.is_ignored("miner"));
    assert!(check_passes(&global, &vec!["mail".to_string()]));
    assert!(!check_passes(&global, &vec!["mail".to_string(), "miner".to_string()]));
    assert!(check_passes(&Global::default(), &vec![]));
    assert_eq!(Status::new(5).status, 5);
    assert_eq!(NotificationConfig::new("x").notification, "x");
}

#[test]
fn component_registry_removes_dependents() {
    let global = Global { ignored: Ignored { components: vec!["mail".to_string()] } };
    let mut reg = ComponentRegistry::new();
    assert_eq!(reg.admission(&global, "mail"), Admission::Ignored);
    assert_eq!(reg.admission(&global, "api"), Admission::Admit);
    reg.register("api".to_string(), false);
    reg.register("frontend".to_string(), false);
    reg.register("sockets".to_string(), true);
    reg.register("history".to_string(), true);
    assert_eq!(reg.admission(&global, "api"), Admission::AlreadyPresent);
    assert!(reg.add_dependency("api", "frontend"));
    assert!(reg.add_dependency("sockets", "frontend"));
    assert!(reg.add_dependency("history", "api"));
    assert!(!reg.add_dependency("missing", "api"));
    let mut providers = reg.providers();
    providers.sort();
    assert_eq!(providers, vec!["history".to_string(), "sockets".to_string()]);
    let mut removed = reg.remove_component("history");
    removed.sort();
    assert_eq!(removed, vec!["api".to_string(), "frontend".to_string(), "history".to_string()]);
    assert!(reg.has_component("sockets"));
    assert!(!reg.has_component("frontend"));
    assert_eq!(reg.ids(), vec!["sockets".to_string()]);
    assert!(reg.remove_component("missing").is_empty());
    reg.set_notifies("sockets");
    assert_eq!(reg.providers(), vec!["sockets".to_string()]);
}

#[test]
fn reloading_decides_per_component() {
    let mut reg = ComponentRegistry::new();
    reg.register("mail".to_string(), true);
    reg.register("api".to_string(), false);
    let global = Global { ignored: Ignored { components: vec!["mail".to_string(), "names".to_string()] } };
    assert_eq!(reg.reload_action(&global, "mail"), ReloadAction::Remove);
    assert_eq!(reg.reload_action(&global, "api"), ReloadAction::Reconfigure);
    assert_eq!(reg.reload_action(&global, "miner"), ReloadAction::Add);
    assert_eq!(reg.reload_action(&global, "names"), ReloadAction::Add);
}
