use status_server::api::{
    current_states, endpoint, history_answer, serialization_failure, should_handle_path, unhandled_route, welcome, Config as ApiConfig,
    Endpoint,
};
use status_server::api_types::ApiResponse;
use status_server::backend::GlobalState;
use status_server::filters::{AttributeIdMatcher, FilterPriority, SingleFilter};
use status_server::frontend::{route, should_handle, Asset};
use status_server::history_json::{attr_id_to_path, default_path as json_default_path, Config as JsonConfig, SLASH_REPLACEMENT_TOKEN};
use status_server::history_sqlite::{
    attribute_changes_table, attribute_lookup_table, element_lookup_table, online_state_changes_table, Config as SqliteConfig, Mode,
    Query,
};
use status_server::login_page::{socket_url, update, LoginAction, Message};
use status_server::api_types::{LoginResponse, ServerError};
use status_server::sockets::{default_paths, sockets_to_notify, Config as SocketConfig};
use status_server::auth::User;
use status_server::notification::{Notification, NotificationReason};
use status_server::state::AttributeValue;

#[test]
fn api_paths() {
    assert!(should_handle_path("/api/current", "/api/"));
    assert!(should_handle_path("/api", "/api/"));
    assert!(should_handle_path("/api/", "/api/"));
    assert!(should_handle_path("//api/history/online", "api"));
    assert!(!should_handle_path("/api/other", "/api/"));
    assert!(!should_handle_path("/frontend", "/api/"));
    assert_eq!(ApiConfig::default().path, "/api/");
}

#[test]
fn api_endpoints() {
    assert_eq!(endpoint("/api/", "/api/"), Endpoint::Welcome);
    assert_eq!(endpoint("/api/current", "/api/"), Endpoint::Current);
    assert_eq!(endpoint("/api/history/attribute", "/api"), Endpoint::AttributeHistory);
    assert_eq!(endpoint("/api/history/online", "/api/"), Endpoint::OnlineHistory);
    assert_eq!(endpoint("/api", "/api/"), Endpoint::Unhandled);
}

#[test]
fn api_answers() {
    let (code, body) = welcome();
    assert_eq!(code, 200);
    assert_eq!(body, ApiResponse::Success("Welcome to the API!".to_string()));
    let (code, body) = history_answer::<Vec<u8>>(None);
    assert_eq!(code, 404);
    assert_eq!(body, ApiResponse::ClientError("invalid element/attribute id".to_string()));
    let (code, body) = history_answer::<Vec<u8>>(Some(Err("disk full".to_string())));
    assert_eq!(code, 500);
    assert_eq!(body, ApiResponse::ServerError(ServerError { id: "history.internal".to_string(), message: "disk full".to_string() }));
    let (code, body) = history_answer(Some(Ok(vec![1u8])));
    assert_eq!(code, 200);
    assert_eq!(body, ApiResponse::Success(vec![1u8]));
    let (code, e) = unhandled_route();
    assert_eq!(code, 500);
    assert_eq!(e.id, "unhandled.route");
    let (code, e) = serialization_failure("boom".to_string());
    assert_eq!((code, e.id.as_str(), e.message.as_str()), (500, "json.serialize", "boom"));
}

#[test]
fn current_states_apply_both_filters() {
    let mut g = GlobalState::new();
    g.set_attribute("c", "shown", "cpu", AttributeValue::Marker);
    g.set_attribute("c", "shown", "secret.key", AttributeValue::Marker);
    g.set_attribute("c", "hidden", "cpu", AttributeValue::Marker);
    let elements = SingleFilter { whitelist: vec![], blacklist: vec!["hidden".to_string()], priority: FilterPriority::Whitelist };
    let attributes = SingleFilter {
        whitelist: vec![],
        blacklist: vec![AttributeIdMatcher { id: "secret".to_string(), exact: false }],
        priority: FilterPriority::Whitelist,
    };
    let states = current_states(&g.get_states(), &elements, &attributes);
    assert_eq!(states.len(), 1);
    let shown = states.get("shown").expect("shown is reported");
    assert!(shown.attributes.contains_key("cpu"));
    assert!(!shown.attributes.contains_key("secret.key"));
}

#[test]
fn frontend_routes() {
    assert!(should_handle("/"));
    assert!(should_handle(""));
    assert!(should_handle("/static/style.css/"));
    assert!(!should_handle("/api"));
    assert_eq!(route("/"), Some(Asset::Index));
    assert_eq!(route("/static/wasm/frontend_bg.wasm"), Some(Asset::Wasm));
    assert_eq!(route("/static/style.css"), Some(Asset::Style));
    assert_eq!(route("/nothing"), None);
    assert_eq!(Asset::Script.file_path(), "static/wasm/frontend.js");
    assert_eq!(Asset::Wasm.content_type(), "application/wasm");
}

#[test]
fn json_history_paths() {
    assert_eq!(attr_id_to_path("minecraft.players.max"), "minecraft/players/max");
    assert_eq!(attr_id_to_path("a/b.c"), "a.b/c");
    assert_eq!(attr_id_to_path(SLASH_REPLACEMENT_TOKEN), ".");
    for id in ["a/b.c", "minecraft.players.sample", "x//y..z", "", "Token/This.Wild"] {
        assert_eq!(attr_id_to_path(&attr_id_to_path(id)), id);
    }
    assert_eq!(json_default_path(), "history/json");
    assert_eq!(JsonConfig::default().base_path, "history/json");
}

#[test]
fn sqlite_names_and_queries() {
    assert_eq!(element_lookup_table(), "elements");
    assert_eq!(attribute_lookup_table(), "attributes");
    assert_eq!(online_state_changes_table(), "online_state_change");
    assert_eq!(attribute_changes_table(), "attribute_change");
    let config = SqliteConfig::default();
    assert_eq!(config.path, "history.sqlite3");
    let mode = Mode::default();
    assert_eq!(mode.query(Query::FindElement), "SELECT * FROM elements WHERE name=$1");
    assert_eq!(mode.query(Query::AddAttribute), "INSERT INTO attributes(name) VALUES ($1) RETURNING *;");
    assert_eq!(mode.query(Query::OnlineStateChanges), "SELECT * FROM online_state_change WHERE element_id=$2;");
    let schema = mode.schema();
    assert_eq!(schema.len(), 4);
    assert!(schema[0].starts_with("CREATE TABLE IF NOT EXISTS elements ("));
    assert!(schema[3].contains("REFERENCES attributes,"));
}

#[test]
fn login_page_actions() {
    assert!(matches!(update(Message::RequestLogin), LoginAction::SendLogin));
    match update(Message::LoginResultReceived(ApiResponse::Success(LoginResponse { session_id: "abc".to_string() }))) {
        LoginAction::LoggedIn(id) => assert_eq!(id, "abc"),
        _ => panic!("expected a login"),
    }
    assert!(matches!(
        update(Message::LoginResultReceived(ApiResponse::ClientError("bad".to_string()))),
        LoginAction::ReportRefusal(_)
    ));
    assert_eq!(socket_url("example.com:8080", false), "ws://example.com:8080/api/ws");
    assert_eq!(socket_url("example.com", true), "wss://example.com/api/ws");
}

#[test]
fn websocket_paths_and_receivers() {
    let paths = default_paths();
    assert_eq!(paths, vec!["/api/ws", "/api/websocket", "/api/socket", "/ws", "/websocket", "/socket"]);
    let config = SocketConfig::default();
    assert!(config.handles("/ws"));
    assert!(!config.handles("/wss"));
    let n = Notification::new("c".to_string(), "e".to_string(), NotificationReason::OnlineStatusChanged(true));
    let admin = User { is_admin: true, ignores_default_api_rules: false };
    let plain = User::unauthed();
    let r = sockets_to_notify(&config, &n, &vec![(true, plain), (false, plain), (true, admin)]);
    assert_eq!(r, vec![true, false, true]);
}
