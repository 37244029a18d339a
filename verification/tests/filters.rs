use status_server::filters::{
    always, id_or_child, AttributeChange, Filtering, AttributeEvent, AttributeIdMatcher, Filter, FilterPriority, OnlineStateChange,
    SingleFilter, StateChange,
};
use status_server::notification::{AttributeEdit, AttributeValueChange, Notification, NotificationReason};
use status_server::state::AttributeValue;

fn strings(v: &[&str]) -> Vec<String> {
    v.iter().map(|s| s.to_string()).collect()
}

fn note(component: &str, element: &str, reason: NotificationReason) -> Notification {
    Notification { component_id: component.to_string(), element_id: element.to_string(), reason }
}

fn attr(id: &str, change: AttributeValueChange) -> NotificationReason {
    NotificationReason::AttributeEdit(AttributeEdit { id: id.to_string(), change })
}

#[test]
fn unconfigured_exact_is_true() {
    assert!(always());
}

#[test]
fn single_filter_default_allows_everything() {
    let f: SingleFilter<String> = SingleFilter { whitelist: vec![], blacklist: vec![], priority: FilterPriority::Whitelist };
    assert!(f.allows(&String::new()));
    assert!(f.allows(&"foo".to_string()));
}

#[test]
fn whitelist_priority_lets_whitelist_win() {
    let f = SingleFilter {
        whitelist: strings(&["foo.bar"]),
        blacklist: strings(&["foo", "foo.bar"]),
        priority: FilterPriority::Whitelist,
    };
    assert!(f.allows(&"bar".to_string()));
    assert!(!f.allows(&"foo".to_string()));
    assert!(f.allows(&"foo.bar".to_string()));
}

#[test]
fn blacklist_priority_lets_blacklist_win() {
    let f = SingleFilter {
        whitelist: strings(&["foo", "foo.bar"]),
        blacklist: strings(&["foo.bar"]),
        priority: FilterPriority::Blacklist,
    };
    assert!(!f.allows(&"bar".to_string()));
    assert!(f.allows(&"foo".to_string()));
    assert!(!f.allows(&"foo.bar".to_string()));
}

#[test]
fn whitelisted_and_blacklisted_report_membership() {
    let f = SingleFilter { whitelist: vec![200u16, 401], blacklist: vec![204u16], priority: FilterPriority::Whitelist };
    assert!(f.whitelisted(&401));
    assert!(!f.whitelisted(&204));
    assert!(f.blacklisted(&204));
    assert!(!f.blacklisted(&200));
}

#[test]
fn attribute_ids_match_children_only_after_a_dot() {
    assert!(id_or_child("foo", "foo"));
    assert!(id_or_child("foo", "foo.bar"));
    assert!(!id_or_child("foo", "foobar"));
    assert!(!id_or_child("foo.bar", "foo"));
    let exact = AttributeIdMatcher { id: "foo".to_string(), exact: true };
    let fuzzy = AttributeIdMatcher { id: "foo".to_string(), exact: false };
    let f = SingleFilter { whitelist: vec![exact], blacklist: vec![], priority: FilterPriority::Blacklist };
    assert!(f.allows(&"foo".to_string()));
    assert!(!f.allows(&"foo.bar".to_string()));
    let g = SingleFilter { whitelist: vec![fuzzy], blacklist: vec![], priority: FilterPriority::Blacklist };
    assert!(g.allows(&"foo.bar".to_string()));
}

#[test]
fn creation_matches_create_and_online_changes() {
    let create = StateChange::CreateEntity;
    assert!(create.matches(&NotificationReason::NewElement(true)));
    assert!(create.matches(&NotificationReason::NewElement(false)));
    assert!(!create.matches(&attr("foo", AttributeValueChange::Create(AttributeValue::Marker))));
    assert!(!create.matches(&NotificationReason::OnlineStatusChanged(true)));
    let down = StateChange::OnlineStateChange(OnlineStateChange::Offline);
    assert!(down.matches(&NotificationReason::NewElement(false)));
    assert!(down.matches(&NotificationReason::OnlineStatusChanged(false)));
    assert!(!down.matches(&NotificationReason::OnlineStatusChanged(true)));
}

fn combined_filter() -> Filter {
    Filter {
        component: SingleFilter {
            whitelist: strings(&["foo"]),
            blacklist: strings(&["bar", "foo"]),
            priority: FilterPriority::Whitelist,
        },
        entity: SingleFilter {
            whitelist: strings(&["foo", "bar"]),
            blacklist: strings(&["bar"]),
            priority: FilterPriority::Blacklist,
        },
        state_changes: SingleFilter {
            whitelist: vec![
                StateChange::CreateEntity,
                StateChange::AttributeChange(AttributeChange {
                    id: Some(AttributeIdMatcher { id: "foo".to_string(), exact: true }),
                    event: AttributeEvent::Any,
                }),
                StateChange::AttributeChange(AttributeChange {
                    id: Some(AttributeIdMatcher { id: "bar".to_string(), exact: false }),
                    event: AttributeEvent::Any,
                }),
            ],
            blacklist: vec![StateChange::OnlineStateChange(OnlineStateChange::Online)],
            priority: FilterPriority::Blacklist,
        },
    }
}

#[test]
fn combined_filter_decides_each_part() {
    let f = combined_filter();
    assert!(!f.allows(&note("foo", "foo", NotificationReason::NewElement(true))));
    assert!(f.allows(&note("foo", "foo", NotificationReason::NewElement(false))));
    assert!(!f.allows(&note("bar", "foo", NotificationReason::NewElement(true))));
    assert!(!f.allows(&note("foo", "bar", NotificationReason::NewElement(true))));
    assert!(!f.allows(&note("smth", "foo", NotificationReason::NewElement(true))));
    assert!(!f.allows(&note("foo", "foo", NotificationReason::OnlineStatusChanged(true))));
    assert!(!f.allows(&note("foo", "foo", NotificationReason::OnlineStatusChanged(false))));
    assert!(f.allows(&note("foo", "foo", attr("foo", AttributeValueChange::Create(AttributeValue::Marker)))));
    assert!(f.allows(&note(
        "foo",
        "foo",
        attr("foo", AttributeValueChange::Edit(AttributeValue::Marker, AttributeValue::Marker))
    )));
    assert!(f.allows(&note("foo", "foo", attr("foo", AttributeValueChange::Delete(AttributeValue::Marker)))));
    assert!(!f.allows(&note("foo", "foo", attr("foo.bar", AttributeValueChange::Create(AttributeValue::Marker)))));
    assert!(f.allows(&note("foo", "foo", attr("bar", AttributeValueChange::Create(AttributeValue::Marker)))));
    assert!(f.allows(&note("foo", "foo", attr("bar.foo", AttributeValueChange::Create(AttributeValue::Marker)))));
}

#[test]
fn default_filter_allows_any_notification() {
    let f = Filter::default();
    assert!(f.allows(&note("a", "b", NotificationReason::OnlineStatusChanged(true))));
    assert!(f.allows(&note("a", "b", attr("x", AttributeValueChange::Delete(AttributeValue::Marker)))));
}
