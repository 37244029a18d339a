use status_server::backend::GlobalState;
use status_server::notification::{AttributeValueChange, NotificationReason};
use status_server::state::{nanos_between, AttributeValue, ByteCode, State, Timestamp};

fn text(s: &str) -> AttributeValue {
    AttributeValue::Custom(ByteCode::String(s.to_string()))
}

#[test]
fn setting_an_attribute_of_a_new_element_creates_it_offline() {
    let mut g = GlobalState::new();
    let notes = g.set_attribute("api", "foo", "cpu", text("5%"));
    assert_eq!(notes.len(), 2);
    assert_eq!(notes[0].reason, NotificationReason::NewElement(false));
    assert_eq!(notes[0].component_id, "api");
    assert_eq!(notes[0].element_id, "foo");
    match &notes[1].reason {
        NotificationReason::AttributeEdit(edit) => {
            assert_eq!(edit.id, "cpu");
            assert_eq!(edit.change, AttributeValueChange::Create(text("5%")));
        }
        other => panic!("unexpected reason {other:?}"),
    }
    assert_eq!(g.get_online_state("foo"), Some(false));
    assert_eq!(g.get_attribute("foo", "cpu"), Some(text("5%")));
}

#[test]
fn changing_an_attribute_reports_old_and_new_value() {
    let mut g = GlobalState::new();
    g.set_attribute("api", "foo", "cpu", text("5%"));
    let notes = g.set_attribute("api", "foo", "cpu", text("7%"));
    assert_eq!(notes.len(), 1);
    match &notes[0].reason {
        NotificationReason::AttributeEdit(edit) => {
            assert_eq!(edit.change, AttributeValueChange::Edit(text("5%"), text("7%")));
        }
        other => panic!("unexpected reason {other:?}"),
    }
    assert_eq!(g.get_attribute("foo", "cpu"), Some(text("7%")));
}

#[test]
fn online_changes_are_reported_once() {
    let mut g = GlobalState::new();
    let first = g.set_online_state("miner", "foo", true).expect("a new element is reported");
    assert_eq!(first.reason, NotificationReason::NewElement(true));
    assert!(g.set_online_state("miner", "foo", true).is_none());
    let second = g.set_online_state("miner", "foo", false).expect("a change is reported");
    assert_eq!(second.reason, NotificationReason::OnlineStatusChanged(false));
    assert_eq!(g.get_online_state("foo"), Some(false));
    assert_eq!(g.get_online_state("bar"), None);
}

#[test]
fn exact_delete_removes_only_the_attribute() {
    let mut g = GlobalState::new();
    g.set_attribute("c", "e", "players", AttributeValue::Marker);
    g.set_attribute("c", "e", "players.max", AttributeValue::Marker);
    let notes = g.delete_attribute("c", "e", "players", true);
    assert_eq!(notes.len(), 1);
    assert_eq!(g.get_attribute("e", "players"), None);
    assert_eq!(g.get_attribute("e", "players.max"), Some(AttributeValue::Marker));
}

#[test]
fn delete_with_children_removes_sub_attributes() {
    let mut g = GlobalState::new();
    g.set_attribute("c", "e", "players", AttributeValue::Marker);
    g.set_attribute("c", "e", "players.max", AttributeValue::Marker);
    g.set_attribute("c", "e", "playersx", AttributeValue::Marker);
    let notes = g.delete_attribute("c", "e", "players", false);
    assert_eq!(notes.len(), 2);
    assert_eq!(g.get_attribute("e", "players"), None);
    assert_eq!(g.get_attribute("e", "players.max"), None);
    assert_eq!(g.get_attribute("e", "playersx"), Some(AttributeValue::Marker));
    assert!(g.delete_attribute("c", "unknown", "players", false).is_empty());
}

#[test]
fn states_are_copied_out() {
    let mut g = GlobalState::new();
    g.set_online_state("c", "a", true);
    g.set_attribute("c", "b", "x", AttributeValue::Marker);
    let states = g.get_states();
    assert_eq!(states.len(), 2);
    assert!(states.get("a").expect("a is known").online);
    let b: &State = states.get("b").expect("b is known");
    assert!(!b.online);
    assert!(b.attributes.contains_key("x"));
}

#[test]
fn time_between_timestamps() {
    let a = Timestamp { secs: 10, nanos: 500 };
    let b = Timestamp { secs: 12, nanos: 100 };
    assert_eq!(nanos_between(a, b), 1_999_999_600);
    assert_eq!(nanos_between(b, a), -1_999_999_600);
}

#[test]
fn new_states() {
    let s = State::new();
    assert!(!s.online);
    assert_eq!(s.attributes.len(), 0);
    assert!(State::with_online(true).online);
}
