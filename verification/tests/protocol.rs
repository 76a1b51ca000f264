use zeroclaw_nats_agent::envelope::{
    envelope_from_json, parse_prompt_payload, trim_white_space, EnvelopeError, JsonAttachment,
    JsonEnvelope,
};
use zeroclaw_nats_agent::subject::{AgentSubject, SERVICE_NAME};

/// Test-side JSON decoder for the prompt envelope: `prompt` is required, and
/// `attachments` defaults to empty.
fn decode_envelope(text: &str) -> Option<JsonEnvelope> {
    let v: serde_json::Value = serde_json::from_str(text).ok()?;
    let obj = v.as_object()?;
    let prompt = obj.get("prompt")?.as_str()?.to_string();
    let attachments = match obj.get("attachments") {
        None => Vec::new(),
        Some(list) => {
            let mut out = Vec::new();
            for a in list.as_array()? {
                out.push(JsonAttachment {
                    filename: a.get("filename")?.as_str()?.to_string(),
                    content: a.get("content")?.as_str()?.to_string(),
                });
            }
            out
        }
    };
    Some(JsonEnvelope { prompt, attachments })
}

fn no_json(_: &str) -> Option<JsonEnvelope> {
    panic!("the decoder must not be asked for plain text")
}

#[test]
fn subject_verb_first_layout() {
    let s = AgentSubject::new("zeroclaw", "demo", "main");
    assert_eq!(s.prompt, "agents.prompt.zeroclaw.demo.main");
    assert_eq!(s.status, "agents.status.zeroclaw.demo.main");
    assert_eq!(s.heartbeat, "agents.hb.zeroclaw.demo.main");
}

#[test]
fn parse_plain_and_json_prompt() {
    let plain = parse_prompt_payload(b"hello", true, decode_envelope).unwrap();
    assert_eq!(plain.prompt, "hello");

    let json = parse_prompt_payload(
        br#"{"prompt":"hi","attachments":[{"filename":"a.txt","content":"aGk="}]}"#,
        true,
        decode_envelope,
    )
    .unwrap();
    assert_eq!(json.prompt, "hi");
    assert_eq!(json.attachments.len(), 1);
    assert_eq!(json.attachments[0].file_name, "a.txt");
}

#[test]
fn subject_default_agent_when_empty() {
    let s = AgentSubject::new("", "default", "main");
    assert_eq!(s.agent, "zeroclaw");
    assert_eq!(s.owner, "default");
    assert_eq!(s.name, "main");
    assert_eq!(s.prompt, "agents.prompt.zeroclaw.default.main");
    assert_eq!(s.heartbeat, "agents.hb.zeroclaw.default.main");
    assert_eq!(SERVICE_NAME, "agents");
}

#[test]
fn attachment_content_is_base64_decoded() {
    let env = parse_prompt_payload(
        br#"{"prompt":"hi","attachments":[{"filename":"a.txt","content":"aGk="}]}"#,
        true,
        decode_envelope,
    )
    .unwrap();
    assert_eq!(env.attachments[0].data, b"hi".to_vec());
    assert!(env.attachments[0].mime_type.is_none());
}

#[test]
fn empty_payload_is_refused() {
    let e = parse_prompt_payload(b"", true, no_json).unwrap_err();
    assert_eq!(e, EnvelopeError::EmptyPayload);
    assert_eq!(e.message(), "empty prompt payload");
}

#[test]
fn invalid_utf8_is_refused() {
    let e = parse_prompt_payload(&[0x68, 0xff, 0x69], true, no_json).unwrap_err();
    assert_eq!(e, EnvelopeError::InvalidUtf8);
    assert_eq!(e.message(), "prompt must be valid UTF-8");
}

#[test]
fn invalid_json_envelope_is_refused() {
    let e = parse_prompt_payload(b"{not json", true, decode_envelope).unwrap_err();
    assert_eq!(e, EnvelopeError::InvalidJson);
    assert_eq!(e.message(), "invalid JSON prompt envelope");
}

#[test]
fn attachments_refused_when_not_supported() {
    let e = parse_prompt_payload(
        br#"{"prompt":"hi","attachments":[{"filename":"a.txt","content":"aGk="}]}"#,
        false,
        decode_envelope,
    )
    .unwrap_err();
    assert_eq!(e, EnvelopeError::AttachmentsNotSupported);
    assert_eq!(e.message(), "attachments not supported by this agent");
    // Without attachments the flag does not matter.
    let ok = parse_prompt_payload(br#"{"prompt":"hi"}"#, false, decode_envelope).unwrap();
    assert_eq!(ok.prompt, "hi");
    assert!(ok.attachments.is_empty());
}

#[test]
fn invalid_base64_is_refused() {
    let e = parse_prompt_payload(
        br#"{"prompt":"hi","attachments":[{"filename":"a.txt","content":"!!!!"}]}"#,
        true,
        decode_envelope,
    )
    .unwrap_err();
    assert_eq!(e, EnvelopeError::InvalidBase64);
    assert_eq!(e.message(), "attachment content must be base64");
}

#[test]
fn envelope_from_json_keeps_order() {
    let j = JsonEnvelope {
        prompt: "p".to_string(),
        attachments: vec![
            JsonAttachment { filename: "x".to_string(), content: "eA==".to_string() },
            JsonAttachment { filename: "y".to_string(), content: "eXk=".to_string() },
        ],
    };
    let env = envelope_from_json(j, true).unwrap();
    assert_eq!(env.prompt, "p");
    assert_eq!(env.attachments.len(), 2);
    assert_eq!(env.attachments[0].file_name, "x");
    assert_eq!(env.attachments[0].data, b"x".to_vec());
    assert_eq!(env.attachments[1].file_name, "y");
    assert_eq!(env.attachments[1].data, b"yy".to_vec());
}

#[test]
fn plain_text_is_kept_untrimmed() {
    let env = parse_prompt_payload(b"  hello there \n", true, no_json).unwrap();
    assert_eq!(env.prompt, "  hello there \n");
    // All white space: trimmed text is empty, so it is plain text.
    let env = parse_prompt_payload(b" \t ", true, no_json).unwrap();
    assert_eq!(env.prompt, " \t ");
}

#[test]
fn json_text_is_trimmed_before_decoding() {
    let seen = std::cell::RefCell::new(String::new());
    let env = parse_prompt_payload(b"\n  {\"prompt\":\"x\"}\t ", true, |t: &str| {
        *seen.borrow_mut() = t.to_string();
        decode_envelope(t)
    })
    .unwrap();
    assert_eq!(env.prompt, "x");
    assert_eq!(*seen.borrow(), "{\"prompt\":\"x\"}");
}

#[test]
fn trim_handles_unicode_white_space() {
    assert_eq!(trim_white_space("\u{3000}\u{a0} a b \u{2028}"), "a b");
    assert_eq!(trim_white_space("   "), "");
    assert_eq!(trim_white_space("x"), "x");
    assert_eq!(trim_white_space("\u{200b}x"), "\u{200b}x");
}
