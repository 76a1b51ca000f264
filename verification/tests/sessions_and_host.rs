use zeroclaw_nats_agent::host::{
    connect_plan, endpoint_metadata, heartbeat_bytes, heartbeat_period_secs, nonempty_session,
    server_list, service_metadata,
};
use zeroclaw_nats_agent::sessions::{memory_session_seed, session_key_from_request, SessionTable};
use zeroclaw_nats_agent::subject::AgentSubject;

#[test]
fn session_key_prefers_configured_session() {
    assert_eq!(session_key_from_request(Some("team"), Some("_INBOX.1")), "nats_team");
    assert_eq!(session_key_from_request(Some(""), Some("_INBOX.1")), "nats__INBOX.1");
    assert_eq!(session_key_from_request(None, Some("_INBOX.2")), "nats__INBOX.2");
    assert_eq!(session_key_from_request(None, None), "nats_anonymous");
    assert_eq!(session_key_from_request(Some(""), None), "nats_anonymous");
}

#[test]
fn memory_seed_strips_prefix() {
    assert_eq!(memory_session_seed("nats_team"), "team");
    assert_eq!(memory_session_seed("nats_"), "");
    assert_eq!(memory_session_seed("other"), "other");
    assert_eq!(memory_session_seed("nat"), "nat");
    // The seed of a generated key is what it was made of.
    let k = session_key_from_request(None, Some("_INBOX.9"));
    assert_eq!(memory_session_seed(&k), "_INBOX.9");
}

#[test]
fn session_table_lookup_after_insert() {
    let mut t: SessionTable<u32> = SessionTable::new();
    assert_eq!(t.get("nats_a"), None);
    t.insert("nats_a".to_string(), 1);
    t.insert("nats_b".to_string(), 2);
    assert_eq!(t.get("nats_a"), Some(&1));
    assert_eq!(t.get("nats_b"), Some(&2));
    t.insert("nats_a".to_string(), 3);
    assert_eq!(t.get("nats_a"), Some(&3));
    assert_eq!(t.get("nats_b"), Some(&2));
    assert_eq!(t.get("nats_c"), None);
    assert_eq!(t.get("nats_é"), None);
}

#[test]
fn server_list_defaults_and_joins() {
    assert_eq!(server_list(&vec![]), "nats://127.0.0.1:4222");
    assert_eq!(server_list(&vec!["nats://a:1".to_string()]), "nats://a:1");
    assert_eq!(
        server_list(&vec!["nats://a:1".to_string(), "nats://b:2".to_string(), "c".to_string()]),
        "nats://a:1,nats://b:2,c"
    );
}

#[test]
fn connect_plan_pairs_user_and_password() {
    let u = Some("u".to_string());
    let p = Some("p".to_string());
    let t = Some("t".to_string());
    let plan = connect_plan(&u, &p, &None);
    assert_eq!(plan.user_password, Some(("u".to_string(), "p".to_string())));
    assert!(plan.token.is_none());
    assert!(plan.with_options);
    let plan = connect_plan(&u, &None, &None);
    assert!(plan.user_password.is_none());
    assert!(plan.with_options);
    let plan = connect_plan(&None, &None, &t);
    assert_eq!(plan.token.as_deref(), Some("t"));
    assert!(plan.with_options);
    let plan = connect_plan(&None, &None, &None);
    assert!(!plan.with_options);
}

#[test]
fn service_and_endpoint_metadata() {
    let s = AgentSubject::new("zeroclaw", "demo", "main");
    let m = service_metadata(&s, &None);
    assert_eq!(
        m,
        vec![
            ("agent".to_string(), "zeroclaw".to_string()),
            ("owner".to_string(), "demo".to_string()),
            ("protocol_version".to_string(), "0.3".to_string()),
        ]
    );
    assert_eq!(service_metadata(&s, &Some(String::new())).len(), 3);
    let m = service_metadata(&s, &Some("s".to_string()));
    assert_eq!(m[3], ("session".to_string(), "s".to_string()));
    let e = endpoint_metadata("8388608", true);
    assert_eq!(
        e,
        vec![
            ("max_payload".to_string(), "8388608".to_string()),
            ("attachments_ok".to_string(), "true".to_string()),
        ]
    );
    assert_eq!(endpoint_metadata("1", false)[1].1, "false");
}

#[test]
fn heartbeat_period_is_at_least_one_second() {
    assert_eq!(heartbeat_period_secs(0), 1);
    assert_eq!(heartbeat_period_secs(1), 1);
    assert_eq!(heartbeat_period_secs(30), 30);
}

#[test]
fn heartbeat_bytes_drop_empty_session() {
    let s = AgentSubject::new("zeroclaw", "demo", "main");
    let with_empty = String::from_utf8(heartbeat_bytes(&s, 5, "id", &Some(String::new()))).unwrap();
    assert!(!with_empty.contains("session"));
    let with = String::from_utf8(heartbeat_bytes(&s, 5, "id", &Some("x".to_string()))).unwrap();
    assert!(with.ends_with(r#","status":"ready","session":"x"}"#));
    assert_eq!(nonempty_session(&Some(String::new())), None);
    assert_eq!(nonempty_session(&Some("a".to_string())), Some("a".to_string()));
}
