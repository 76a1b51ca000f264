use zeroclaw_nats_agent::envelope::{JsonAttachment, JsonEnvelope};
use zeroclaw_nats_agent::prompt::{
    admit_prompt, prompt_text_with_attachments, NextInput, PromptStream, StreamAction,
    StreamEvent, StreamPhase, TurnEvent,
};
use zeroclaw_nats_agent::stream::ChunkKind;

fn decode(text: &str) -> Option<JsonEnvelope> {
    let v: serde_json::Value = serde_json::from_str(text).ok()?;
    let prompt = v.get("prompt")?.as_str()?.to_string();
    let mut attachments = Vec::new();
    if let Some(list) = v.get("attachments") {
        for a in list.as_array()? {
            attachments.push(JsonAttachment {
                filename: a.get("filename")?.as_str()?.to_string(),
                content: a.get("content")?.as_str()?.to_string(),
            });
        }
    }
    Some(JsonEnvelope { prompt, attachments })
}

fn published(a: &StreamAction) -> Option<(ChunkKind, String)> {
    match a {
        StreamAction::Publish { kind, payload } => {
            Some((*kind, String::from_utf8(payload.to_vec()).unwrap()))
        }
        _ => None,
    }
}

#[test]
fn admit_checks_size_envelope_and_reply() {
    let r = admit_prompt(b"hello", 3, true, None, Some("_INBOX.1"), decode);
    assert_eq!(r.unwrap_err(), "prompt exceeds max_payload");
    let r = admit_prompt(b"", 10, true, None, Some("_INBOX.1"), decode);
    assert_eq!(r.unwrap_err(), "empty prompt payload");
    let r = admit_prompt(b"hello", 10, true, None, None, decode);
    assert_eq!(r.unwrap_err(), "missing reply subject");
    let r = admit_prompt(b"hello", 10, true, None, Some(""), decode);
    assert_eq!(r.unwrap_err(), "missing reply subject");
    let a = admit_prompt(b"hello", 5, true, Some("team"), Some("_INBOX.1"), decode).unwrap();
    assert_eq!(a.reply, "_INBOX.1");
    assert_eq!(a.session_key, "nats_team");
    assert_eq!(a.prompt_text, "hello");
}

#[test]
fn admitted_prompt_notes_attachments() {
    let a = admit_prompt(
        br#"{"prompt":"hi","attachments":[{"filename":"a.txt","content":"aGk="}]}"#,
        1000,
        true,
        None,
        Some("r"),
        decode,
    )
    .unwrap();
    assert_eq!(
        a.prompt_text,
        "hi\n\n[1 attachment(s) received \u{2014} decode in a future revision]"
    );
    assert_eq!(a.session_key, "nats_r");
    assert_eq!(prompt_text_with_attachments("p", 0), "p");
    assert_eq!(
        prompt_text_with_attachments("p", 12),
        "p\n\n[12 attachment(s) received \u{2014} decode in a future revision]"
    );
}

#[test]
fn stream_happy_path() {
    let mut s = PromptStream::new("do it".to_string());
    assert_eq!(s.phase(), StreamPhase::Preparing);

    let acts = s.step(StreamEvent::AgentReady);
    assert_eq!(acts.len(), 1);
    assert_eq!(
        published(&acts[0]),
        Some((ChunkKind::Status, r#"{"type":"status","data":"ack"}"#.to_string()))
    );
    assert_eq!(s.phase(), StreamPhase::AwaitingAck);

    let acts = s.step(StreamEvent::Published);
    assert!(matches!(&acts[..], [StreamAction::StartTurn { prompt }] if prompt == "do it"));
    assert_eq!(s.phase(), StreamPhase::Streaming);

    let acts = s.step(StreamEvent::Turn(TurnEvent::Chunk { delta: "Hel".to_string() }));
    assert_eq!(
        published(&acts[0]),
        Some((ChunkKind::Response, r#"{"type":"response","data":"Hel"}"#.to_string()))
    );
    let acts = s.step(StreamEvent::Turn(TurnEvent::Thinking { delta: "hmm".to_string() }));
    assert_eq!(published(&acts[0]).unwrap().1, r#"{"type":"response","data":"hmm"}"#);
    let acts = s.step(StreamEvent::Published);
    assert!(acts.is_empty());
    let acts = s.step(StreamEvent::Turn(TurnEvent::Usage));
    assert!(acts.is_empty());
    let acts = s.step(StreamEvent::Turn(TurnEvent::ToolCall { name: "shell".to_string() }));
    assert_eq!(published(&acts[0]).unwrap().1, r#"{"type":"response","data":"\n[tool: shell]\n"}"#);
    let acts = s.step(StreamEvent::Turn(TurnEvent::ToolResult {
        name: "shell".to_string(),
        output: "ok".to_string(),
    }));
    assert_eq!(
        published(&acts[0]).unwrap().1,
        r#"{"type":"response","data":"\n[tool result shell]: ok\n"}"#
    );
    let acts = s.step(StreamEvent::Turn(TurnEvent::ApprovalRequest {
        request_id: "r1".to_string(),
        tool_name: "rm".to_string(),
        arguments_summary: "rm -rf".to_string(),
    }));
    assert_eq!(
        published(&acts[0]),
        Some((
            ChunkKind::Query,
            r#"{"type":"query","data":{"kind":"approval","request_id":"r1","summary":"rm -rf","tool":"rm"}}"#
                .to_string()
        ))
    );

    let acts = s.step(StreamEvent::TurnFinished);
    assert!(matches!(&acts[..], [StreamAction::Terminate]));
    assert_eq!(s.phase(), StreamPhase::Closed);
    assert!(s.step(StreamEvent::Turn(TurnEvent::Chunk { delta: "late".to_string() })).is_empty());
    assert!(s.step(StreamEvent::TurnFinished).is_empty());
}

#[test]
fn tool_result_preview_is_limited() {
    let mut s = PromptStream::new("p".to_string());
    s.step(StreamEvent::AgentReady);
    s.step(StreamEvent::Published);
    let output: String = "é".repeat(600);
    let acts = s.step(StreamEvent::Turn(TurnEvent::ToolResult { name: "t".to_string(), output }));
    let text = published(&acts[0]).unwrap().1;
    assert_eq!(
        text,
        format!("{{\"type\":\"response\",\"data\":\"\\n[tool result t]: {}\\n\"}}", "é".repeat(500))
    );
}

#[test]
fn stream_agent_failure() {
    let mut s = PromptStream::new("p".to_string());
    let acts = s.step(StreamEvent::AgentFailed { detail: "no model".to_string() });
    assert!(matches!(&acts[..], [StreamAction::RespondError { code: 500, message }]
        if message == "agent init failed: no model"));
    assert_eq!(s.phase(), StreamPhase::Closed);
}

#[test]
fn stream_ack_failure() {
    let mut s = PromptStream::new("p".to_string());
    s.step(StreamEvent::AgentReady);
    let acts = s.step(StreamEvent::PublishFailed { detail: "closed".to_string() });
    assert!(matches!(&acts[..], [StreamAction::RespondError { code: 500, message }]
        if message == "failed to send ack: closed"));
    assert_eq!(s.phase(), StreamPhase::Closed);
}

#[test]
fn stream_publish_failure_cancels_then_terminates() {
    let mut s = PromptStream::new("p".to_string());
    s.step(StreamEvent::AgentReady);
    s.step(StreamEvent::Published);
    let acts = s.step(StreamEvent::PublishFailed { detail: "gone".to_string() });
    assert!(matches!(&acts[..], [StreamAction::RespondError { code: 500, message }, StreamAction::Cancel]
        if message == "stream publish failed: gone"));
    assert_eq!(s.phase(), StreamPhase::Draining);
    assert!(s.step(StreamEvent::Turn(TurnEvent::Chunk { delta: "x".to_string() })).is_empty());
    let acts = s.step(StreamEvent::TurnFinished);
    assert!(matches!(&acts[..], [StreamAction::Terminate]));
}

#[test]
fn stream_turn_error_and_panic() {
    let mut s = PromptStream::new("p".to_string());
    s.step(StreamEvent::AgentReady);
    s.step(StreamEvent::Published);
    let acts = s.step(StreamEvent::TurnFailed { detail: "boom".to_string() });
    assert_eq!(acts.len(), 2);
    assert_eq!(published(&acts[0]).unwrap().1, r#"{"type":"response","data":"\n[error]: boom\n"}"#);
    assert!(matches!(acts[1], StreamAction::Terminate));

    let mut s = PromptStream::new("p".to_string());
    s.step(StreamEvent::AgentReady);
    s.step(StreamEvent::Published);
    let acts = s.step(StreamEvent::TurnPanicked { detail: "join".to_string() });
    assert!(matches!(&acts[..], [StreamAction::RespondError { code: 500, message }]
        if message == "agent task panicked: join"));
}

#[test]
fn stream_shape_on_concrete_run() {
    // The documented shape: ack, then response/query chunks, then the terminator.
    let mut s = PromptStream::new("p".to_string());
    let events = vec![
        StreamEvent::Turn(TurnEvent::Chunk { delta: "early".to_string() }),
        StreamEvent::AgentReady,
        StreamEvent::Published,
        StreamEvent::Turn(TurnEvent::Chunk { delta: "a".to_string() }),
        StreamEvent::Published,
        StreamEvent::Turn(TurnEvent::ApprovalRequest {
            request_id: "1".to_string(),
            tool_name: "t".to_string(),
            arguments_summary: "s".to_string(),
        }),
        StreamEvent::TurnFailed { detail: "e".to_string() },
        StreamEvent::TurnFinished,
    ];
    let mut outs = Vec::new();
    for e in events {
        for a in s.step(e) {
            match a {
                StreamAction::Publish { kind, .. } => outs.push(format!("{:?}", kind)),
                StreamAction::Terminate => outs.push("Terminator".to_string()),
                _ => {}
            }
        }
    }
    assert_eq!(outs, vec!["Status", "Response", "Query", "Response", "Terminator"]);
}

#[test]
fn stream_shape_with_error_replies() {
    // A failed chunk publish: ack, chunk, error reply, then the turn's error delta and terminator.
    let mut s = PromptStream::new("p".to_string());
    let events = vec![
        StreamEvent::AgentReady,
        StreamEvent::Published,
        StreamEvent::Turn(TurnEvent::Chunk { delta: "a".to_string() }),
        StreamEvent::PublishFailed { detail: "x".to_string() },
        StreamEvent::TurnFailed { detail: "e".to_string() },
    ];
    let mut outs = Vec::new();
    for e in events {
        for a in s.step(e) {
            match a {
                StreamAction::Publish { kind, .. } => outs.push(format!("{:?}", kind)),
                StreamAction::RespondError { .. } => outs.push("ErrorReply".to_string()),
                StreamAction::Terminate => outs.push("Terminator".to_string()),
                _ => {}
            }
        }
    }
    assert_eq!(outs, vec!["Status", "Response", "ErrorReply", "Response", "Terminator"]);
}

#[test]
fn next_input_follows_phase() {
    let mut s = PromptStream::new("p".to_string());
    assert_eq!(s.next_input(), NextInput::Done);
    s.step(StreamEvent::AgentReady);
    assert_eq!(s.next_input(), NextInput::Done);
    s.step(StreamEvent::Published);
    assert_eq!(s.next_input(), NextInput::TurnEvent);
    s.step(StreamEvent::PublishFailed { detail: "x".to_string() });
    assert_eq!(s.next_input(), NextInput::TurnOutcome);
    s.step(StreamEvent::TurnFinished);
    assert_eq!(s.next_input(), NextInput::Done);
}
