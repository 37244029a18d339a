use status_server::backend::GlobalState;
use status_server::dataminer::{ping_id, DataminerStatus};
use status_server::filters::{Filter, FilterPriority, SingleFilter};
use status_server::minecraft::{java_default_port, JavaConfig, MinecraftStatus, Players, StatusResponse, SECURE_CHAT_MARKER_ID};
use status_server::names::Names;
use status_server::notification::{AttributeValueChange, NotificationReason};
use status_server::state::{AttributeValue, ByteCode, Duration, Timestamp};
use status_server::string_map::StringMap;
use status_server::tasks::SameConfig;
use status_server::website::{hourly, Config as WebsiteConfig, WebsiteStatuse, LAST_SEEN_ID};

fn at(secs: i64) -> Timestamp {
    Timestamp { secs, nanos: 0 }
}

fn site(url: &str) -> WebsiteConfig {
    WebsiteConfig { url: url.to_string(), interval: hourly(), status: SingleFilter::default() }
}

#[test]
fn website_default_config() {
    let c = WebsiteConfig::default();
    assert_eq!(c.url, "https://example.com");
    assert_eq!(c.interval.nanos, 3_600_000_000_000);
    assert!(c.status.whitelist.is_empty());
}

#[test]
fn website_status_codes() {
    let c = WebsiteConfig {
        url: "x".to_string(),
        interval: hourly(),
        status: SingleFilter { whitelist: vec![401], blacklist: vec![204], priority: FilterPriority::Blacklist },
    };
    assert!(c.is_up(Some(200)));
    assert!(c.is_up(Some(299)));
    assert!(!c.is_up(Some(204)));
    assert!(c.is_up(Some(401)));
    assert!(!c.is_up(Some(404)));
    assert!(!c.is_up(Some(301)));
    assert!(!c.is_up(None));
}

#[test]
fn website_checks_update_the_state() {
    let mut g = GlobalState::new();
    let notes = WebsiteStatuse::record_check(&mut g, "site", true, at(100));
    assert_eq!(notes.len(), 2);
    assert_eq!(notes[0].reason, NotificationReason::NewElement(true));
    match &notes[1].reason {
        NotificationReason::AttributeEdit(edit) => {
            assert_eq!(edit.id, LAST_SEEN_ID);
            assert_eq!(edit.change, AttributeValueChange::Create(AttributeValue::Timestamp(at(100))));
        }
        other => panic!("unexpected {:?}", other),
    }
    assert_eq!(g.get_online_state("site"), Some(true));
    assert_eq!(g.get_attribute("site", LAST_SEEN_ID), Some(AttributeValue::Timestamp(at(100))));
    let notes = WebsiteStatuse::record_check(&mut g, "site", false, at(200));
    assert_eq!(notes.len(), 1);
    assert_eq!(notes[0].reason, NotificationReason::OnlineStatusChanged(false));
    assert_eq!(g.get_attribute("site", LAST_SEEN_ID), Some(AttributeValue::Timestamp(at(100))));
    assert!(WebsiteStatuse::record_check(&mut g, "site", false, at(300)).is_empty());
}

#[test]
fn website_reconfiguration_restarts_changed_sites() {
    let mut old = StringMap::new();
    old.insert("a".to_string(), site("https://a.example"));
    old.insert("b".to_string(), site("https://b.example"));
    old.insert("c".to_string(), site("https://c.example"));
    let mut component = WebsiteStatuse::init(old);
    let mut new = StringMap::new();
    new.insert("a".to_string(), site("https://a.example"));
    new.insert("b".to_string(), site("https://b2.example"));
    new.insert("d".to_string(), site("https://d.example"));
    let plan = component.reconfigure(new);
    let mut stop = plan.stop.clone();
    stop.sort();
    let mut start = plan.start.clone();
    start.sort();
    assert_eq!(stop, vec!["b".to_string(), "c".to_string()]);
    assert_eq!(start, vec!["b".to_string(), "d".to_string()]);
    assert_eq!(component.config.len(), 3);
    assert!(site("x").same_as(&site("x")));
    assert!(!site("x").same_as(&site("y")));
}

#[test]
fn reconfiguring_with_the_same_config_changes_nothing() {
    let mut cfg = StringMap::new();
    cfg.insert("a".to_string(), site("https://a.example"));
    let mut again = StringMap::new();
    again.insert("a".to_string(), site("https://a.example"));
    let mut component = WebsiteStatuse::init(cfg);
    let plan = component.reconfigure(again);
    assert!(plan.stop.is_empty());
    assert!(plan.start.is_empty());
}

#[test]
fn dataminer_ping_requests() {
    assert_eq!(ping_id("/miner/ping", Some("id=foo")), Some("foo".to_string()));
    assert_eq!(ping_id("/miner/ping", Some("id=")), Some(String::new()));
    assert_eq!(ping_id("/miner/ping", Some("id=foo&x=1")), None);
    assert_eq!(ping_id("/miner/ping", Some("name=foo")), None);
    assert_eq!(ping_id("/miner/ping", None), None);
    assert_eq!(ping_id("/miner/pong", Some("id=foo")), None);
}

#[test]
fn dataminer_pings_and_timeouts() {
    let mut g = GlobalState::new();
    let notes = DataminerStatus::record_ping(&mut g, "m", at(1000));
    assert_eq!(g.get_online_state("m"), Some(true));
    assert_eq!(notes.len(), 3);
    assert!(DataminerStatus::record_ping(&mut g, "m", at(1010)).len() == 1);
    let timeout = Duration { nanos: 60_000_000_000 };
    let (notes, reset) = DataminerStatus::check_timeout(&mut g, "m", timeout, at(1050));
    assert!(notes.is_empty());
    assert_eq!(reset, None);
    let (notes, reset) = DataminerStatus::check_timeout(&mut g, "m", timeout, at(1071));
    assert_eq!(notes.len(), 1);
    assert_eq!(notes[0].reason, NotificationReason::OnlineStatusChanged(false));
    assert_eq!(reset, Some(at(1010)));
    assert_eq!(g.get_online_state("m"), Some(false));
    let (notes, _) = DataminerStatus::check_timeout(&mut g, "never", timeout, at(0));
    assert_eq!(notes[0].reason, NotificationReason::NewElement(false));
}

#[test]
fn minecraft_pings() {
    assert_eq!(java_default_port(), 25565);
    let mut g = GlobalState::new();
    let note = MinecraftStatus::record_ping(&mut g, "mc", true).expect("new element");
    assert_eq!(note.reason, NotificationReason::NewElement(true));
    assert!(MinecraftStatus::record_ping(&mut g, "mc", true).is_none());
    let note = MinecraftStatus::record_ping(&mut g, "mc", false).expect("went down");
    assert_eq!(note.reason, NotificationReason::OnlineStatusChanged(false));
    let a = JavaConfig { url: "mc.example".to_string(), port: 25565, interval: hourly() };
    let b = JavaConfig { url: "mc.example".to_string(), port: 42, interval: hourly() };
    assert!(!a.same_as(&b));
}

#[test]
fn names_become_attributes() {
    let mut g = GlobalState::new();
    let mut cfg = StringMap::new();
    cfg.insert("foo".to_string(), "Foo".to_string());
    cfg.insert("bar".to_string(), "Bar".to_string());
    let (mut names, notes) = Names::init(&mut g, cfg);
    assert_eq!(notes.len(), 4);
    assert!(notes.iter().all(|n| n.component_id == "names"));
    assert_eq!(g.get_attribute("foo", "name"), Some(AttributeValue::Custom(ByteCode::String("Foo".to_string()))));
    let mut new = StringMap::new();
    new.insert("foo".to_string(), "Foo".to_string());
    new.insert("bar".to_string(), "Barbara".to_string());
    let notes = names.reconfigure(&mut g, new);
    assert_eq!(notes.len(), 1);
    assert_eq!(notes[0].element_id, "bar");
    match &notes[0].reason {
        NotificationReason::AttributeEdit(edit) => assert_eq!(
            edit.change,
            AttributeValueChange::Edit(
                AttributeValue::Custom(ByteCode::String("Bar".to_string())),
                AttributeValue::Custom(ByteCode::String("Barbara".to_string())),
            )
        ),
        other => panic!("unexpected {:?}", other),
    }
    assert_eq!(g.get_attribute("bar", "name"), Some(AttributeValue::Custom(ByteCode::String("Barbara".to_string()))));
    let mut fewer = StringMap::new();
    fewer.insert("foo".to_string(), "Foo".to_string());
    assert!(names.reconfigure(&mut g, fewer).is_empty());
    assert!(g.get_attribute("bar", "name").is_some());
}

#[test]
fn filters_are_default_for_components() {
    let f = Filter::default();
    assert_eq!(f.component.priority, FilterPriority::Whitelist);
}

fn status(players: Option<Players>, description: Option<&str>) -> StatusResponse {
    StatusResponse {
        version: "1.21.4".to_string(),
        protocol: 769,
        players,
        description: description.map(|d| d.to_string()),
        favicon: None,
        enforces_secure_chat: Some(true),
    }
}

#[test]
fn minecraft_status_sets_the_documented_attributes() {
    let mut g = GlobalState::new();
    MinecraftStatus::record_ping(&mut g, "mc", true);
    let players = Players { max: 20, online: 2, sample: Some(vec!["alex".to_string(), "steve".to_string()]) };
    let notes = MinecraftStatus::record_status(&mut g, "mc", status(Some(players), Some("A server")), at(500));
    // last_seen, version, protocol, max, online, sample, description, secure chat, its marker
    assert_eq!(notes.len(), 9);
    assert_eq!(g.get_attribute("mc", SECURE_CHAT_MARKER_ID), Some(AttributeValue::Marker));
    assert!(notes.iter().all(|n| n.component_id == "minecraft" && n.element_id == "mc"));
    assert_eq!(g.get_attribute("mc", "minecraft.last_seen"), Some(AttributeValue::Timestamp(at(500))));
    assert_eq!(g.get_attribute("mc", "minecraft.version"), Some(AttributeValue::Custom(ByteCode::String("1.21.4".to_string()))));
    assert_eq!(g.get_attribute("mc", "minecraft.protocol"), Some(AttributeValue::Custom(ByteCode::Int(769))));
    assert_eq!(g.get_attribute("mc", "minecraft.players.max"), Some(AttributeValue::Custom(ByteCode::Int(20))));
    assert_eq!(g.get_attribute("mc", "minecraft.players.online"), Some(AttributeValue::Custom(ByteCode::Int(2))));
    assert_eq!(
        g.get_attribute("mc", "minecraft.players.sample"),
        Some(AttributeValue::List(vec![
            AttributeValue::Custom(ByteCode::String("alex".to_string())),
            AttributeValue::Custom(ByteCode::String("steve".to_string())),
        ]))
    );
    assert_eq!(g.get_attribute("mc", "minecraft.description"), Some(AttributeValue::Custom(ByteCode::String("A server".to_string()))));
    assert_eq!(g.get_attribute("mc", "minecraft.favicon"), None);
    assert_eq!(g.get_attribute("mc", "minecraft.enforces_secure_chat"), Some(AttributeValue::Custom(ByteCode::Bool(true))));
    assert_eq!(g.get_online_state("mc"), Some(true));

    // The same answer later changes only the last-seen time.
    let players = Players { max: 20, online: 2, sample: Some(vec!["alex".to_string(), "steve".to_string()]) };
    let notes = MinecraftStatus::record_status(&mut g, "mc", status(Some(players), Some("A server")), at(600));
    assert_eq!(notes.len(), 1);
    match &notes[0].reason {
        NotificationReason::AttributeEdit(edit) => assert_eq!(
            edit.change,
            AttributeValueChange::Edit(AttributeValue::Timestamp(at(500)), AttributeValue::Timestamp(at(600)))
        ),
        other => panic!("unexpected {:?}", other),
    }

    // Without players and description those attributes are deleted.
    let notes = MinecraftStatus::record_status(&mut g, "mc", status(None, None), at(600));
    assert_eq!(notes.len(), 4);
    assert!(notes.iter().all(|n| matches!(&n.reason, NotificationReason::AttributeEdit(e) if matches!(e.change, AttributeValueChange::Delete(_)))));
    assert_eq!(g.get_attribute("mc", "minecraft.players.max"), None);
    assert_eq!(g.get_attribute("mc", "minecraft.players.sample"), None);
    assert_eq!(g.get_attribute("mc", "minecraft.description"), None);
    assert_eq!(g.get_attribute("mc", "minecraft.version"), Some(AttributeValue::Custom(ByteCode::String("1.21.4".to_string()))));

    // A server that stops enforcing secure chat loses the marker.
    let mut relaxed = status(None, None);
    relaxed.enforces_secure_chat = Some(false);
    let notes = MinecraftStatus::record_status(&mut g, "mc", relaxed, at(600));
    assert_eq!(notes.len(), 2);
    assert_eq!(g.get_attribute("mc", SECURE_CHAT_MARKER_ID), None);
    assert_eq!(g.get_attribute("mc", "minecraft.enforces_secure_chat"), Some(AttributeValue::Custom(ByteCode::Bool(false))));
}

#[test]
fn minecraft_status_of_an_unknown_server_creates_it_offline() {
    let mut g = GlobalState::new();
    let notes = MinecraftStatus::record_status(&mut g, "new", status(None, None), at(1));
    assert_eq!(notes[0].reason, NotificationReason::NewElement(false));
    assert_eq!(notes.len(), 6);
    assert_eq!(g.get_online_state("new"), Some(false));
}
