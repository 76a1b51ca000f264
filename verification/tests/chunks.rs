use zeroclaw_nats_agent::heartbeat::{build_heartbeat_payload, encode_heartbeat_payload};
use zeroclaw_nats_agent::stream::{
    encode_approval_query, encode_query, encode_query_text, encode_response_delta,
    encode_status_ack,
};
use zeroclaw_nats_agent::subject::AgentSubject;

#[test]
fn status_ack_chunk() {
    let b = encode_status_ack();
    assert_eq!(&b[..], br#"{"type":"status","data":"ack"}"#);
}

#[test]
fn response_delta_chunk_escapes() {
    let b = encode_response_delta("he said \"hi\"\n\\ \u{1}\u{8}\u{c}\r\t é");
    assert_eq!(
        std::str::from_utf8(&b[..]).unwrap(),
        r#"{"type":"response","data":"he said \"hi\"\n\\ \u0001\b\f\r\t é"}"#
    );
    let plain = encode_response_delta("hello");
    assert_eq!(&plain[..], br#"{"type":"response","data":"hello"}"#);
}

#[test]
fn response_delta_matches_serde_json() {
    let delta = "tab\there \u{1f} \u{7f} \"q\" \\";
    let b = encode_response_delta(delta);
    let expected = format!(
        "{{\"type\":\"response\",\"data\":{}}}",
        serde_json::to_string(delta).unwrap()
    );
    assert_eq!(std::str::from_utf8(&b[..]).unwrap(), expected);
}

#[test]
fn query_chunks() {
    let v: serde_json::Value = serde_json::from_str(r#"{"b":1,"a":"x"}"#).unwrap();
    let b = encode_query(&v);
    assert_eq!(
        std::str::from_utf8(&b[..]).unwrap(),
        format!("{{\"type\":\"query\",\"data\":{}}}", serde_json::to_string(&v).unwrap())
    );
    let t = encode_query_text("[1,2]");
    assert_eq!(&t[..], br#"{"type":"query","data":[1,2]}"#);
}

#[test]
fn heartbeat_payload_fields() {
    let s = AgentSubject::new("zeroclaw", "demo", "main");
    let p = build_heartbeat_payload(&s, 30, "inst-1", Some("sess".to_string()));
    assert_eq!(p.agent, "zeroclaw");
    assert_eq!(p.owner, "demo");
    assert_eq!(p.name, "main");
    assert_eq!(p.instance_id, "inst-1");
    assert_eq!(p.protocol_version, "0.3");
    assert_eq!(p.heartbeat_interval_s, 30);
    assert_eq!(p.status, "ready");
    assert_eq!(p.session.as_deref(), Some("sess"));
}

#[test]
fn heartbeat_json_with_and_without_session() {
    let s = AgentSubject::new("zeroclaw", "demo", "main");
    let p = build_heartbeat_payload(&s, 30, "inst-1", None);
    assert_eq!(
        String::from_utf8(encode_heartbeat_payload(&p)).unwrap(),
        r#"{"agent":"zeroclaw","owner":"demo","name":"main","instance_id":"inst-1","protocol_version":"0.3","heartbeat_interval_s":30,"status":"ready"}"#
    );
    let p = build_heartbeat_payload(&s, 0, "i\"d", Some("s1".to_string()));
    assert_eq!(
        String::from_utf8(encode_heartbeat_payload(&p)).unwrap(),
        r#"{"agent":"zeroclaw","owner":"demo","name":"main","instance_id":"i\"d","protocol_version":"0.3","heartbeat_interval_s":0,"status":"ready","session":"s1"}"#
    );
    let p = build_heartbeat_payload(&s, u64::MAX, "x", None);
    let text = String::from_utf8(encode_heartbeat_payload(&p)).unwrap();
    assert!(text.contains("\"heartbeat_interval_s\":18446744073709551615,"));
}

#[test]
fn query_chunk_for_value() {
    let mut m = serde_json::Map::new();
    m.insert("kind".to_string(), serde_json::Value::String("approval".to_string()));
    let b = encode_query(&serde_json::Value::Object(m));
    assert_eq!(&b[..], br#"{"type":"query","data":{"kind":"approval"}}"#);
}

#[test]
fn approval_query_matches_serde_json_value() {
    let (id, tool, summary) = ("r\"1", "rm", "rm -rf /tmp\n");
    let mut m = serde_json::Map::new();
    m.insert("kind".to_string(), serde_json::Value::String("approval".to_string()));
    m.insert("request_id".to_string(), serde_json::Value::String(id.to_string()));
    m.insert("tool".to_string(), serde_json::Value::String(tool.to_string()));
    m.insert("summary".to_string(), serde_json::Value::String(summary.to_string()));
    let expected = encode_query(&serde_json::Value::Object(m));
    let b = encode_approval_query(id, tool, summary);
    assert_eq!(&b[..], &expected[..]);
}

#[test]
fn response_chunk_reads_back() {
    for delta in ["", "plain", "q\"b\\s/n\nt\tc\u{1}\u{1f}\u{7f} é \u{2028}"] {
        let b = encode_response_delta(delta);
        let v: serde_json::Value = serde_json::from_slice(&b[..]).unwrap();
        let obj = v.as_object().unwrap();
        assert_eq!(obj.len(), 2);
        assert_eq!(obj["type"], "response");
        assert_eq!(obj["data"], delta);
    }
}

#[test]
fn heartbeat_reads_back() {
    let s = AgentSubject::new("zero\"claw", "de\nmo", "main");
    for session in [None, Some("s\\1".to_string())] {
        let p = build_heartbeat_payload(&s, 42, "inst\t1", session.clone());
        let v: serde_json::Value = serde_json::from_slice(&encode_heartbeat_payload(&p)).unwrap();
        let obj = v.as_object().unwrap();
        assert_eq!(obj["agent"], "zero\"claw");
        assert_eq!(obj["owner"], "de\nmo");
        assert_eq!(obj["name"], "main");
        assert_eq!(obj["instance_id"], "inst\t1");
        assert_eq!(obj["protocol_version"], "0.3");
        assert_eq!(obj["heartbeat_interval_s"], 42);
        assert_eq!(obj["status"], "ready");
        match &session {
            Some(x) => {
                assert_eq!(obj.len(), 8);
                assert_eq!(obj["session"], x.as_str());
            }
            None => assert_eq!(obj.len(), 7),
        }
    }
}
