use status_server::auth::{generate_session_id, ConfigAuthBackend, Config, ConfigUser, Password, Role, Session, User, SESSION_ID_LENGTH};
use status_server::cli::{trim, Commands, GenerateError};
use status_server::state::{ByteCode, Duration, Timestamp};
use status_server::string_map::StringMap;

fn attrs(pairs: &[(&str, ByteCode)]) -> StringMap<ByteCode> {
    let mut m = StringMap::new();
    for (k, v) in pairs {
        m.insert(k.to_string(), v.clone());
    }
    m
}

fn user(name: &str, password: &str, roles: &[&str], attributes: StringMap<ByteCode>) -> ConfigUser {
    ConfigUser {
        username: name.to_string(),
        password: Password::Plaintext(password.to_string()),
        roles: roles.iter().map(|r| r.to_string()).collect(),
        attributes,
    }
}

fn hour() -> Duration {
    Duration { nanos: 3_600_000_000_000 }
}

fn backend() -> ConfigAuthBackend {
    let mut roles = StringMap::new();
    roles.insert("admin".to_string(), Role { attributes: StringMap::new() });
    roles.insert("viewer".to_string(), Role { attributes: attrs(&[("ignore_api_rules", ByteCode::Bool(true))]) });
    roles.insert("quiet".to_string(), Role { attributes: attrs(&[("ignores_api_rules", ByteCode::Bool(false))]) });
    ConfigAuthBackend::init(Config {
        users: vec![
            user("alice", "secret", &["admin"], StringMap::new()),
            user("bob", "hunter2", &["viewer"], attrs(&[("email", ByteCode::String("bob@example.com".to_string()))])),
            user("carol", "pw", &["viewer"], attrs(&[("ignores_api_rules", ByteCode::Bool(false))])),
            user("dave", "pw", &["quiet", "viewer"], StringMap::new()),
        ],
        roles,
        session_duration: hour(),
    })
}

#[test]
fn plaintext_password_verifies_itself_only() {
    let p = Password::Plaintext("bar".to_string());
    assert_eq!(p.verify("bar").unwrap(), true);
    assert_eq!(p.verify("baz").unwrap(), false);
    assert_eq!(Password::default(), Password::Plaintext(String::new()));
}

#[test]
fn hashed_password_goes_through_argon2() {
    let hash = Commands::generate("  correct horse \n").expect("hashing works");
    assert!(hash.starts_with("$argon2"));
    let p = Password::Hashed(hash);
    assert_eq!(p.verify("correct horse").unwrap(), true);
    assert_eq!(p.verify("wrong").unwrap(), false);
    assert!(Password::Hashed("bar".to_string()).verify("bar").is_err());
}

#[test]
fn generate_refuses_an_empty_password() {
    assert!(matches!(Commands::generate(" \t\n"), Err(GenerateError::EmptyPassword)));
    assert_eq!(trim("\u{3000} a b \u{85}"), "a b");
    assert_eq!(trim(""), "");
}

#[test]
fn session_ids_are_long_and_alphanumeric() {
    let id = generate_session_id();
    assert_eq!(id.chars().count(), SESSION_ID_LENGTH);
    assert!(id.chars().all(|c| c.is_ascii_alphanumeric()));
    assert_ne!(id, generate_session_id());
}

#[test]
fn login_and_session_lookup() {
    let mut b = backend();
    assert_eq!(b.try_login("nobody", "x").unwrap(), None);
    assert_eq!(b.try_login("alice", "wrong").unwrap(), None);
    let id = b.try_login("alice", "secret").unwrap().expect("right password logs in");
    assert_eq!(id.len(), SESSION_ID_LENGTH);
    assert_eq!(b.user_id_from_session(&id), Some("alice".to_string()));
    assert_eq!(b.user_id_from_session("unknown"), None);
}

#[test]
fn expired_sessions_are_dropped() {
    let mut b = backend();
    let id = b.try_login("bob", "hunter2").unwrap().unwrap();
    let far_future = Timestamp { secs: i64::MAX / 2, nanos: 0 };
    assert_eq!(b.user_id_from_session_at(&id, far_future), None);
    assert_eq!(b.user_id_from_session(&id), None);
}

#[test]
fn a_login_lasts_for_the_session_duration() {
    let mut b = backend();
    let t0 = Timestamp { secs: 1_000, nanos: 0 };
    assert_eq!(b.try_login_at("carol", "nope", t0).unwrap(), None);
    let id = b.try_login_at("carol", "pw", t0).unwrap().unwrap();
    let end = Timestamp { secs: 1_000 + 3_600, nanos: 0 };
    assert_eq!(b.user_id_from_session_at(&id, end), Some("carol".to_string()));
    let after = Timestamp { secs: 1_000 + 3_600, nanos: 1 };
    assert_eq!(b.user_id_from_session_at(&id, after), None);
    assert_eq!(b.user_id_from_session_at(&id, end), None);
}

#[test]
fn roles_and_attributes() {
    let b = backend();
    assert_eq!(b.user_roles("alice"), Some(vec!["admin".to_string()]));
    assert_eq!(b.user_roles("nobody"), None);
    assert_eq!(b.has_role("alice", "admin"), Some(true));
    assert_eq!(b.has_role("bob", "admin"), Some(false));
    assert_eq!(b.has_role("nobody", "admin"), None);
    assert_eq!(b.user_get_attribute("bob", "email"), Some(ByteCode::String("bob@example.com".to_string())));
    assert_eq!(b.user_get_attribute("bob", "phone"), None);
    assert!(b.user_attributes("bob").unwrap().contains_key("email"));
    let mut viewers = b.role_users("viewer");
    viewers.sort();
    assert_eq!(viewers, vec!["bob".to_string(), "carol".to_string(), "dave".to_string()]);
    assert_eq!(b.role_get_attribute("viewer", "ignore_api_rules"), Some(ByteCode::Bool(true)));
    assert_eq!(b.role_get_attribute("nobody", "ignore_api_rules"), None);
    assert!(b.role_attributes("admin").is_some());
    assert!(b.role_attributes("nobody").is_none());
}

#[test]
fn a_later_user_entry_replaces_an_earlier_one() {
    let b = ConfigAuthBackend::init(Config {
        users: vec![user("eve", "one", &[], StringMap::new()), user("eve", "two", &["admin"], StringMap::new())],
        roles: StringMap::new(),
        session_duration: hour(),
    });
    assert_eq!(b.user_roles("eve"), Some(vec!["admin".to_string()]));
}

#[test]
fn user_rights() {
    let b = backend();
    assert_eq!(User::for_user(&b, "alice"), User { is_admin: true, ignores_default_api_rules: false });
    assert_eq!(User::for_user(&b, "bob"), User { is_admin: false, ignores_default_api_rules: true });
    // The user's own attribute decides over the role's.
    assert_eq!(User::for_user(&b, "carol"), User { is_admin: false, ignores_default_api_rules: false });
    // The first spelling on the first role is `false`, the second spelling on a later role is `true`.
    assert_eq!(User::for_user(&b, "dave"), User { is_admin: false, ignores_default_api_rules: true });
    assert_eq!(User::for_user(&b, "nobody"), User::unauthed());
    assert_eq!(User::default(), User::unauthed());
}

#[test]
fn rights_from_sessions() {
    let mut auth = Some(backend());
    assert_eq!(User::from_session_id(None, &mut auth), User::unauthed());
    assert_eq!(User::from_session_id(Some("nope"), &mut auth), User::unauthed());
    let id = auth.as_mut().unwrap().try_login("alice", "secret").unwrap().unwrap();
    assert!(User::from_session_id(Some(&id), &mut auth).is_admin);
    let mut none: Option<ConfigAuthBackend> = None;
    assert_eq!(User::from_session_id(Some(&id), &mut none), User::unauthed());
}

#[test]
fn session_struct_holds_its_user() {
    let s = Session { created: Timestamp { secs: 0, nanos: 0 }, user: "alice".to_string() };
    assert_eq!(s.user, "alice");
}
