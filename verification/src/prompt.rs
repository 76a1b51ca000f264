//! Prompt endpoint decisions: which requests are admitted, and the state
//! machine that turns agent turn events into stream chunks.
//!
//! The host drives the machine: it performs each [`StreamAction`] (publishing,
//! replying, starting or cancelling the turn) and feeds back what happened as a
//! [`StreamEvent`].

use vstd::prelude::*;
use vstd::string::*;

use crate::envelope::{
    envelope_error_text, outcome_view, parse_prompt_payload, prompt_payload_outcome, EnvelopeError,
    JsonEnvelope, PromptEnvelopeView,
};
use crate::json::{decimal, json_object, json_quoted, json_string_value, law_json_string_reads_back, push_decimal};
use crate::sessions::{session_key_from_request, session_seed, NATS_SESSION_PREFIX};
use crate::stream::{
    ack_chunk, approval_object, bytes_contents, encode_approval_query, encode_response_delta,
    encode_status_ack, query_chunk, response_chunk, ChunkKind,
};

verus! {

// ---------------------------------------------------------------------------
// Admission
// ---------------------------------------------------------------------------
/// A prompt request that passed every check.
#[derive(Debug, Clone)]
pub struct AdmittedPrompt {
    pub reply: String,
    pub session_key: String,
    pub prompt_text: String,
}

pub struct AdmittedPromptView {
    pub reply: Seq<char>,
    pub session_key: Seq<char>,
    pub prompt_text: Seq<char>,
}

impl View for AdmittedPrompt {
    type V = AdmittedPromptView;

    open spec fn view(&self) -> AdmittedPromptView {
        AdmittedPromptView {
            reply: self.reply@,
            session_key: self.session_key@,
            prompt_text: self.prompt_text@,
        }
    }
}

/// The note appended to a prompt that came with attachments.
pub open spec fn attachment_note(n: nat) -> Seq<char> {
    "\n\n["@ + decimal(n) + " attachment(s) received \u{2014} decode in a future revision]"@
}

/// The text handed to the agent: the prompt, with a note when attachments came along.
pub open spec fn prompt_text_for(prompt: Seq<char>, n_attachments: nat) -> Seq<char> {
    if n_attachments == 0 {
        prompt
    } else {
        prompt + attachment_note(n_attachments)
    }
}

/// The prompt text for an envelope with `n_attachments` attachments.
pub fn prompt_text_with_attachments(prompt: &str, n_attachments: usize) -> (t: String)
    ensures
        t@ == prompt_text_for(prompt@, n_attachments as nat),
{
    let mut t = String::from_str(prompt);
    if n_attachments > 0 {
        t.append("\n\n[");
        push_decimal(&mut t, n_attachments as u64);
        t.append(" attachment(s) received \u{2014} decode in a future revision]");
    }
    t
}

/// What admission decides once the envelope has been parsed: the refusal message,
/// or the reply subject, session key and prompt text.
pub open spec fn admission_outcome(
    parsed: Result<PromptEnvelopeView, EnvelopeError>,
    configured_session: Option<&str>,
    reply: Option<&str>,
) -> Result<AdmittedPromptView, Seq<char>> {
    match parsed {
        Err(e) => Err(envelope_error_text(e)),
        Ok(env) => match reply {
            Some(r) if r@.len() > 0 => Ok(
                AdmittedPromptView {
                    reply: r@,
                    session_key: NATS_SESSION_PREFIX@ + session_seed(configured_session, reply),
                    prompt_text: prompt_text_for(env.prompt, env.attachments.len()),
                },
            ),
            _ => Err("missing reply subject"@),
        },
    }
}

pub open spec fn admitted_view(r: Result<AdmittedPrompt, String>) -> Result<
    AdmittedPromptView,
    Seq<char>,
> {
    match r {
        Ok(a) => Ok(a@),
        Err(m) => Err(m@),
    }
}

/// Checks a prompt request: size, envelope, reply subject; and works out the
/// session key and the prompt text. A refusal carries the client-error message.
pub fn admit_prompt<F: Fn(&str) -> Option<JsonEnvelope>>(
    payload: &[u8],
    max_payload_bytes: usize,
    attachments_ok: bool,
    configured_session: Option<&str>,
    reply: Option<&str>,
    decode_json: F,
) -> (r: Result<AdmittedPrompt, String>)
    requires
        forall|t: &str| decode_json.requires((t,)),
    ensures
        payload@.len() > max_payload_bytes ==> admitted_view(r) == Err::<
            AdmittedPromptView,
            Seq<char>,
        >("prompt exceeds max_payload"@),
        payload@.len() <= max_payload_bytes ==> exists|o: Result<PromptEnvelopeView, EnvelopeError>|
            prompt_payload_outcome(payload@, attachments_ok, decode_json, o) && admitted_view(r)
                == #[trigger] admission_outcome(o, configured_session, reply),
{
    if payload.len() > max_payload_bytes {
        return Err(String::from_str("prompt exceeds max_payload"));
    }
    let parsed = parse_prompt_payload(payload, attachments_ok, decode_json);
    let ghost o = outcome_view(parsed);
    let envelope = match parsed {
        Ok(e) => e,
        Err(e) => {
            assert(admission_outcome(o, configured_session, reply) == Err::<
                AdmittedPromptView,
                Seq<char>,
            >(envelope_error_text(e)));
            return Err(e.message());
        },
    };
    let reply_subject: &str = match reply {
        Some(r) if !r.is_empty() => r,
        _ => {
            return Err(String::from_str("missing reply subject"));
        },
    };
    let session_key = session_key_from_request(configured_session, Some(reply_subject));
    let prompt_text = prompt_text_with_attachments(
        envelope.prompt.as_str(),
        envelope.attachments.len(),
    );
    let a = AdmittedPrompt {
        reply: String::from_str(reply_subject),
        session_key,
        prompt_text,
    };
    assert(admission_outcome(o, configured_session, reply) == Ok::<AdmittedPromptView, Seq<char>>(
        a@,
    ));
    Ok(a)
}


// ---------------------------------------------------------------------------
// Turn events and the stream state machine
// ---------------------------------------------------------------------------
/// What the agent reports while it works on a turn.
#[derive(Debug, Clone)]
pub enum TurnEvent {
    Chunk { delta: String },
    Thinking { delta: String },
    ToolCall { name: String },
    ToolResult { name: String, output: String },
    ApprovalRequest { request_id: String, tool_name: String, arguments_summary: String },
    Usage,
}

/// What the host reports back to the machine.
#[derive(Debug, Clone)]
pub enum StreamEvent {
    /// The agent for the session is ready.
    AgentReady,
    /// The agent for the session could not be set up.
    AgentFailed { detail: String },
    /// The last chunk asked for was published.
    Published,
    /// The last chunk asked for could not be published.
    PublishFailed { detail: String },
    /// The agent reported something during its turn.
    Turn(TurnEvent),
    /// The turn ended normally.
    TurnFinished,
    /// The turn ended with an error.
    TurnFailed { detail: String },
    /// The task running the turn died.
    TurnPanicked { detail: String },
}

/// What the machine asks the host to do.
#[derive(Debug)]
pub enum StreamAction {
    /// Answer the request with a service error.
    RespondError { code: u16, message: String },
    /// Publish a chunk on the reply subject.
    Publish { kind: ChunkKind, payload: bytes::Bytes },
    /// Start the agent's turn on this prompt.
    StartTurn { prompt: String },
    /// Cancel the running turn.
    Cancel,
    /// Send the empty-body stream terminator.
    Terminate,
}

pub enum ActionView {
    RespondError { code: u16, message: Seq<char> },
    Publish { kind: ChunkKind, payload: Seq<u8> },
    StartTurn { prompt: Seq<char> },
    Cancel,
    Terminate,
}

impl View for StreamAction {
    type V = ActionView;

    open spec fn view(&self) -> ActionView {
        match self {
            StreamAction::RespondError { code, message } => ActionView::RespondError {
                code: *code,
                message: message@,
            },
            StreamAction::Publish { kind, payload } => ActionView::Publish {
                kind: *kind,
                payload: bytes_contents(*payload),
            },
            StreamAction::StartTurn { prompt } => ActionView::StartTurn { prompt: prompt@ },
            StreamAction::Cancel => ActionView::Cancel,
            StreamAction::Terminate => ActionView::Terminate,
        }
    }
}

/// Where a prompt stream stands.
#[derive(Debug, Clone, Copy, PartialEq, Eq, Structural)]
pub enum StreamPhase {
    /// Waiting for the session's agent.
    Preparing,
    /// The ack chunk is being published.
    AwaitingAck,
    /// The turn runs and its events are streamed.
    Streaming,
    /// Streaming stopped after a failed publish; waiting for the turn to end.
    Draining,
    /// Nothing more is sent.
    Closed,
}

/// The longest tool output shown in a tool-result chunk, in characters.
pub const TOOL_RESULT_PREVIEW_CHARS: usize = 500;

/// At most the first 500 characters of `s`.
pub open spec fn preview(s: Seq<char>) -> Seq<char> {
    if s.len() <= TOOL_RESULT_PREVIEW_CHARS {
        s
    } else {
        s.take(TOOL_RESULT_PREVIEW_CHARS as int)
    }
}

/// The response text for a tool call.
pub open spec fn tool_call_text(name: Seq<char>) -> Seq<char> {
    "\n[tool: "@ + name + "]\n"@
}

/// The response text for a tool result.
pub open spec fn tool_result_text(name: Seq<char>, output: Seq<char>) -> Seq<char> {
    "\n[tool result "@ + name + "]: "@ + preview(output) + "\n"@
}

/// The response text for a turn that ended with an error.
pub open spec fn turn_error_text(detail: Seq<char>) -> Seq<char> {
    "\n[error]: "@ + detail + "\n"@
}

/// A 500 reply whose message is `prefix` followed by the detail.
pub open spec fn server_error(prefix: Seq<char>, detail: Seq<char>) -> ActionView {
    ActionView::RespondError { code: 500, message: prefix + detail }
}

pub open spec fn publish_response(text: Seq<char>) -> ActionView {
    ActionView::Publish { kind: ChunkKind::Response, payload: response_chunk(text) }
}

/// What a turn event is streamed as: usage reports are dropped, text and tool
/// activity become response chunks, approval requests become a query chunk.
pub open spec fn turn_event_actions(e: TurnEvent) -> Seq<ActionView> {
    match e {
        TurnEvent::Chunk { delta } => seq![publish_response(delta@)],
        TurnEvent::Thinking { delta } => seq![publish_response(delta@)],
        TurnEvent::ToolCall { name } => seq![publish_response(tool_call_text(name@))],
        TurnEvent::ToolResult { name, output } => seq![
            publish_response(tool_result_text(name@, output@)),
        ],
        TurnEvent::ApprovalRequest { request_id, tool_name, arguments_summary } => seq![
            ActionView::Publish {
                kind: ChunkKind::Query,
                payload: query_chunk(
                    approval_object(request_id@, tool_name@, arguments_summary@),
                ),
            },
        ],
        TurnEvent::Usage => Seq::empty(),
    }
}

/// One step of the machine: the next phase and the actions asked for.
/// Events that do not fit the phase change nothing.
pub open spec fn step_spec(phase: StreamPhase, prompt: Seq<char>, event: StreamEvent) -> (
    StreamPhase,
    Seq<ActionView>,
) {
    match (phase, event) {
        (StreamPhase::Preparing, StreamEvent::AgentReady) => (
            StreamPhase::AwaitingAck,
            seq![ActionView::Publish { kind: ChunkKind::Status, payload: ack_chunk() }],
        ),
        (StreamPhase::Preparing, StreamEvent::AgentFailed { detail }) => (
            StreamPhase::Closed,
            seq![server_error("agent init failed: "@, detail@)],
        ),
        (StreamPhase::AwaitingAck, StreamEvent::Published) => (
            StreamPhase::Streaming,
            seq![ActionView::StartTurn { prompt }],
        ),
        (StreamPhase::AwaitingAck, StreamEvent::PublishFailed { detail }) => (
            StreamPhase::Closed,
            seq![server_error("failed to send ack: "@, detail@)],
        ),
        (StreamPhase::Streaming, StreamEvent::Turn(e)) => (
            StreamPhase::Streaming,
            turn_event_actions(e),
        ),
        (StreamPhase::Streaming, StreamEvent::PublishFailed { detail }) => (
            StreamPhase::Draining,
            seq![server_error("stream publish failed: "@, detail@), ActionView::Cancel],
        ),
        (StreamPhase::Streaming, StreamEvent::TurnFinished)
        | (StreamPhase::Draining, StreamEvent::TurnFinished) => (
            StreamPhase::Closed,
            seq![ActionView::Terminate],
        ),
        (StreamPhase::Streaming, StreamEvent::TurnFailed { detail })
        | (StreamPhase::Draining, StreamEvent::TurnFailed { detail }) => (
            StreamPhase::Closed,
            seq![publish_response(turn_error_text(detail@)), ActionView::Terminate],
        ),
        (StreamPhase::Streaming, StreamEvent::TurnPanicked { detail })
        | (StreamPhase::Draining, StreamEvent::TurnPanicked { detail }) => (
            StreamPhase::Closed,
            seq![server_error("agent task panicked: "@, detail@)],
        ),
        _ => (phase, Seq::empty()),
    }
}

pub open spec fn views(acts: Seq<StreamAction>) -> Seq<ActionView> {
    acts.map_values(|a: StreamAction| a@)
}

/// What the host waits for once it has fed back every outcome it holds.
#[derive(Debug, Clone, Copy, PartialEq, Eq, Structural)]
pub enum NextInput {
    /// The next event of the running turn (or the end of its events).
    TurnEvent,
    /// How the turn ended.
    TurnOutcome,
    /// Nothing: the stream is over.
    Done,
}

pub open spec fn next_input_for(phase: StreamPhase) -> NextInput {
    match phase {
        StreamPhase::Streaming => NextInput::TurnEvent,
        StreamPhase::Draining => NextInput::TurnOutcome,
        _ => NextInput::Done,
    }
}

/// The stream for one admitted prompt.
pub struct PromptStream {
    phase: StreamPhase,
    prompt_text: String,
}

fn prefixed(prefix: &str, detail: &str) -> (s: String)
    ensures
        s@ == prefix@ + detail@,
{
    let mut s = String::from_str(prefix);
    s.append(detail);
    s
}

fn respond_server_error(prefix: &str, detail: &str) -> (a: StreamAction)
    ensures
        a@ == server_error(prefix@, detail@),
{
    StreamAction::RespondError { code: 500, message: prefixed(prefix, detail) }
}

fn publish_response_text(text: &str) -> (a: StreamAction)
    ensures
        a@ == publish_response(text@),
{
    StreamAction::Publish { kind: ChunkKind::Response, payload: encode_response_delta(text) }
}

fn preview_of(s: &str) -> (p: &str)
    ensures
        p@ == preview(s@),
{
    let n = s.unicode_len();
    if n <= TOOL_RESULT_PREVIEW_CHARS {
        assert(s@.subrange(0, n as int) =~= s@);
        s.substring_char(0, n)
    } else {
        s.substring_char(0, TOOL_RESULT_PREVIEW_CHARS)
    }
}

fn turn_event_to_actions(e: TurnEvent) -> (acts: Vec<StreamAction>)
    ensures
        views(acts@) == turn_event_actions(e),
{
    let ghost ev = e;
    let mut acts: Vec<StreamAction> = Vec::new();
    match e {
        TurnEvent::Chunk { delta } => {
            acts.push(publish_response_text(delta.as_str()));
        },
        TurnEvent::Thinking { delta } => {
            acts.push(publish_response_text(delta.as_str()));
        },
        TurnEvent::ToolCall { name } => {
            let mut t = String::from_str("\n[tool: ");
            t.append(name.as_str());
            t.append("]\n");
            acts.push(publish_response_text(t.as_str()));
        },
        TurnEvent::ToolResult { name, output } => {
            let mut t = String::from_str("\n[tool result ");
            t.append(name.as_str());
            t.append("]: ");
            t.append(preview_of(output.as_str()));
            t.append("\n");
            acts.push(publish_response_text(t.as_str()));
        },
        TurnEvent::ApprovalRequest { request_id, tool_name, arguments_summary } => {
            acts.push(
                StreamAction::Publish {
                    kind: ChunkKind::Query,
                    payload: encode_approval_query(
                        request_id.as_str(),
                        tool_name.as_str(),
                        arguments_summary.as_str(),
                    ),
                },
            );
        },
        TurnEvent::Usage => {},
    }
    assert(views(acts@) =~= turn_event_actions(ev));
    acts
}

impl PromptStream {
    pub closed spec fn spec_phase(&self) -> StreamPhase {
        self.phase
    }

    pub closed spec fn spec_prompt(&self) -> Seq<char> {
        self.prompt_text@
    }

    /// A stream for an admitted prompt, waiting for the session's agent.
    pub fn new(prompt_text: String) -> (s: Self)
        ensures
            s.spec_phase() == StreamPhase::Preparing,
            s.spec_prompt() == prompt_text@,
    {
        PromptStream { phase: StreamPhase::Preparing, prompt_text }
    }

    pub fn phase(&self) -> (p: StreamPhase)
        ensures
            p == self.spec_phase(),
    {
        self.phase
    }

    /// What to wait for when no outcome is pending: turn events while streaming,
    /// the turn's end after a failed publish, nothing otherwise.
    pub fn next_input(&self) -> (w: NextInput)
        ensures
            w == next_input_for(self.spec_phase()),
    {
        match self.phase {
            StreamPhase::Streaming => NextInput::TurnEvent,
            StreamPhase::Draining => NextInput::TurnOutcome,
            _ => NextInput::Done,
        }
    }

    /// Takes in what happened and answers with what to do next.
    pub fn step(&mut self, event: StreamEvent) -> (acts: Vec<StreamAction>)
        ensures
            (final(self).spec_phase(), views(acts@)) == step_spec(
                old(self).spec_phase(),
                old(self).spec_prompt(),
                event,
            ),
            final(self).spec_prompt() == old(self).spec_prompt(),
    {
        let ghost ev = event;
        let ghost before = self.phase;
        let mut acts: Vec<StreamAction> = Vec::new();
        match (self.phase, event) {
            (StreamPhase::Preparing, StreamEvent::AgentReady) => {
                self.phase = StreamPhase::AwaitingAck;
                acts.push(StreamAction::Publish { kind: ChunkKind::Status, payload: encode_status_ack() });
            },
            (StreamPhase::Preparing, StreamEvent::AgentFailed { detail }) => {
                self.phase = StreamPhase::Closed;
                acts.push(respond_server_error("agent init failed: ", detail.as_str()));
            },
            (StreamPhase::AwaitingAck, StreamEvent::Published) => {
                self.phase = StreamPhase::Streaming;
                acts.push(StreamAction::StartTurn { prompt: self.prompt_text.clone() });
            },
            (StreamPhase::AwaitingAck, StreamEvent::PublishFailed { detail }) => {
                self.phase = StreamPhase::Closed;
                acts.push(respond_server_error("failed to send ack: ", detail.as_str()));
            },
            (StreamPhase::Streaming, StreamEvent::Turn(e)) => {
                acts = turn_event_to_actions(e);
            },
            (StreamPhase::Streaming, StreamEvent::PublishFailed { detail }) => {
                self.phase = StreamPhase::Draining;
                acts.push(respond_server_error("stream publish failed: ", detail.as_str()));
                acts.push(StreamAction::Cancel);
            },
            (StreamPhase::Streaming, StreamEvent::TurnFinished)
            | (StreamPhase::Draining, StreamEvent::TurnFinished) => {
                self.phase = StreamPhase::Closed;
                acts.push(StreamAction::Terminate);
            },
            (StreamPhase::Streaming, StreamEvent::TurnFailed { detail })
            | (StreamPhase::Draining, StreamEvent::TurnFailed { detail }) => {
                self.phase = StreamPhase::Closed;
                let mut t = String::from_str("\n[error]: ");
                t.append(detail.as_str());
                t.append("\n");
                acts.push(publish_response_text(t.as_str()));
                acts.push(StreamAction::Terminate);
            },
            (StreamPhase::Streaming, StreamEvent::TurnPanicked { detail })
            | (StreamPhase::Draining, StreamEvent::TurnPanicked { detail }) => {
                self.phase = StreamPhase::Closed;
                acts.push(respond_server_error("agent task panicked: ", detail.as_str()));
            },
            _ => {},
        }
        assert((self.phase, views(acts@)) =~~= step_spec(before, self.prompt_text@, ev));
        acts
    }
}


// ---------------------------------------------------------------------------
// Stream shape
// ---------------------------------------------------------------------------
/// What goes out on the reply subject.
#[derive(Debug, Clone, Copy, PartialEq, Eq, Structural)]
pub enum StreamOutput {
    Chunk(ChunkKind),
    /// A service error reply (async-nats sends it on the reply subject too).
    ErrorReply,
    Terminator,
}

pub open spec fn output_of(a: ActionView) -> Seq<StreamOutput> {
    match a {
        ActionView::Publish { kind, .. } => seq![StreamOutput::Chunk(kind)],
        ActionView::RespondError { .. } => seq![StreamOutput::ErrorReply],
        ActionView::Terminate => seq![StreamOutput::Terminator],
        _ => Seq::empty(),
    }
}

/// The reply-subject traffic that a list of actions produces.
pub open spec fn stream_outputs(acts: Seq<ActionView>) -> Seq<StreamOutput>
    decreases acts.len(),
{
    if acts.len() == 0 {
        Seq::empty()
    } else {
        stream_outputs(acts.drop_last()) + output_of(acts.last())
    }
}

/// The phase reached and the actions asked for after feeding `events` to a new stream.
pub open spec fn run_stream(prompt: Seq<char>, events: Seq<StreamEvent>) -> (StreamPhase, Seq<ActionView>)
    decreases events.len(),
{
    if events.len() == 0 {
        (StreamPhase::Preparing, Seq::empty())
    } else {
        let (p, a) = run_stream(prompt, events.drop_last());
        let (p2, a2) = step_spec(p, prompt, events.last());
        (p2, a + a2)
    }
}

pub open spec fn is_body_chunk(o: StreamOutput) -> bool {
    o == StreamOutput::Chunk(ChunkKind::Response) || o == StreamOutput::Chunk(ChunkKind::Query)
}

/// What may come between the ack and the end: response and query chunks, and error replies.
pub open spec fn is_midstream(o: StreamOutput) -> bool {
    is_body_chunk(o) || o == StreamOutput::ErrorReply
}

/// The stream shape: either a lone error reply, or a leading status ack followed
/// by response and query chunks and error replies, with at most one terminator,
/// which comes last.
pub open spec fn stream_shape(o: Seq<StreamOutput>) -> bool {
    ||| o.len() == 0
    ||| o == seq![StreamOutput::ErrorReply]
    ||| (o[0] == StreamOutput::Chunk(ChunkKind::Status) && forall|i: int|
        1 <= i < o.len() ==> (is_midstream(#[trigger] o[i]) || (o[i] == StreamOutput::Terminator
            && i == o.len() - 1)))
}

spec fn phase_inv(p: StreamPhase, o: Seq<StreamOutput>) -> bool {
    match p {
        StreamPhase::Preparing => o.len() == 0,
        StreamPhase::AwaitingAck => o == seq![StreamOutput::Chunk(ChunkKind::Status)],
        StreamPhase::Streaming | StreamPhase::Draining => o.len() >= 1 && o[0]
            == StreamOutput::Chunk(ChunkKind::Status) && forall|i: int|
            1 <= i < o.len() ==> is_midstream(#[trigger] o[i]),
        StreamPhase::Closed => stream_shape(o),
    }
}

proof fn lemma_outputs_concat(a: Seq<ActionView>, b: Seq<ActionView>)
    ensures
        stream_outputs(a + b) == stream_outputs(a) + stream_outputs(b),
    decreases b.len(),
{
    if b.len() == 0 {
        assert(a + b =~= a);
        assert(stream_outputs(a) + stream_outputs(b) =~= stream_outputs(a));
    } else {
        lemma_outputs_concat(a, b.drop_last());
        assert((a + b).drop_last() =~= a + b.drop_last());
        assert((a + b).last() == b.last());
        assert(stream_outputs(a + b) =~= stream_outputs(a) + stream_outputs(b));
    }
}

proof fn lemma_outputs_one(x: ActionView)
    ensures
        stream_outputs(seq![x]) == output_of(x),
{
    assert(seq![x].drop_last() =~= Seq::<ActionView>::empty());
    assert(seq![x].last() == x);
    assert(stream_outputs(Seq::<ActionView>::empty()) =~= Seq::<StreamOutput>::empty());
    assert(stream_outputs(seq![x]) =~= output_of(x));
}

proof fn lemma_outputs_two(x: ActionView, y: ActionView)
    ensures
        stream_outputs(seq![x, y]) == output_of(x) + output_of(y),
{
    lemma_outputs_one(x);
    assert(seq![x, y].drop_last() =~= seq![x]);
    assert(seq![x, y].last() == y);
}

proof fn lemma_step_keeps_shape(p: StreamPhase, o: Seq<StreamOutput>, prompt: Seq<char>, e: StreamEvent)
    requires
        phase_inv(p, o),
    ensures
        phase_inv(step_spec(p, prompt, e).0, o + stream_outputs(step_spec(p, prompt, e).1)),
{
    let (p2, a2) = step_spec(p, prompt, e);
    let o2 = o + stream_outputs(a2);
    assert(stream_outputs(Seq::<ActionView>::empty()) =~= Seq::<StreamOutput>::empty());
    if a2.len() == 1 {
        assert(a2 =~= seq![a2[0]]);
        lemma_outputs_one(a2[0]);
    } else if a2.len() == 2 {
        assert(a2 =~= seq![a2[0], a2[1]]);
        lemma_outputs_two(a2[0], a2[1]);
    }
    if a2.len() == 0 {
        assert(o2 =~= o);
    }
    match p {
        StreamPhase::Streaming | StreamPhase::Draining | StreamPhase::AwaitingAck => {
            assert(o2[0] == o[0]);
            assert forall|i: int| 1 <= i < o2.len() implies (is_midstream(#[trigger] o2[i]) || (o2[i]
                == StreamOutput::Terminator && i == o2.len() - 1)) by {
                if i < o.len() {
                    assert(o2[i] == o[i]);
                }
            }
        },
        StreamPhase::Preparing => {
            assert(o2 =~= o || o2 =~= seq![StreamOutput::Chunk(ChunkKind::Status)] || o2
                =~= seq![StreamOutput::ErrorReply]);
        },
        StreamPhase::Closed => {
            assert(o2 =~= o);
        },
    }
}

proof fn lemma_run_inv(prompt: Seq<char>, events: Seq<StreamEvent>)
    ensures
        phase_inv(run_stream(prompt, events).0, stream_outputs(run_stream(prompt, events).1)),
    decreases events.len(),
{
    if events.len() == 0 {
        assert(stream_outputs(Seq::<ActionView>::empty()) =~= Seq::<StreamOutput>::empty());
    } else {
        lemma_run_inv(prompt, events.drop_last());
        let (p, a) = run_stream(prompt, events.drop_last());
        let (p2, a2) = step_spec(p, prompt, events.last());
        lemma_outputs_concat(a, a2);
        lemma_step_keeps_shape(p, stream_outputs(a), prompt, events.last());
    }
}

/// Whatever the host reports, in whatever order, what the machine puts on the
/// reply subject has the stream shape: a lone error reply, or the status ack
/// first, then only response and query chunks and error replies, and at most one
/// terminator, after everything else.
pub proof fn law_stream_shape(prompt: Seq<char>, events: Seq<StreamEvent>)
    ensures
        stream_shape(stream_outputs(run_stream(prompt, events).1)),
{
    lemma_run_inv(prompt, events);
}


pub open spec fn is_start(a: ActionView) -> bool {
    a is StartTurn
}

pub open spec fn is_ack(a: ActionView) -> bool {
    a matches ActionView::Publish { kind: ChunkKind::Status, .. }
}

/// Every start of the turn comes after an ack publish.
pub open spec fn starts_after_ack(a: Seq<ActionView>) -> bool {
    forall|i: int|
        0 <= i < a.len() && #[trigger] is_start(a[i]) ==> exists|j: int|
            0 <= j < i && #[trigger] is_ack(a[j])
}

spec fn needs_ack(p: StreamPhase) -> bool {
    p == StreamPhase::AwaitingAck || p == StreamPhase::Streaming || p == StreamPhase::Draining
}

spec fn start_inv(p: StreamPhase, a: Seq<ActionView>) -> bool {
    &&& starts_after_ack(a)
    &&& p == StreamPhase::Preparing ==> forall|i: int| 0 <= i < a.len() ==> !#[trigger] is_start(a[i])
}

proof fn lemma_step_start(p: StreamPhase, a: Seq<ActionView>, prompt: Seq<char>, e: StreamEvent)
    requires
        start_inv(p, a),
        needs_ack(p) ==> exists|j: int| 0 <= j < a.len() && #[trigger] is_ack(a[j]),
    ensures
        start_inv(step_spec(p, prompt, e).0, a + step_spec(p, prompt, e).1),
        needs_ack(step_spec(p, prompt, e).0) ==> exists|j: int|
            0 <= j < (a + step_spec(p, prompt, e).1).len() && #[trigger] is_ack(
                (a + step_spec(p, prompt, e).1)[j],
            ),
{
    let (p2, a2) = step_spec(p, prompt, e);
    let c = a + a2;
    if p == StreamPhase::Preparing {
        if p2 != StreamPhase::Preparing {
            assert(forall|i: int| 0 <= i < a2.len() ==> !is_start(a2[i]));
            assert forall|i: int| 0 <= i < c.len() implies !#[trigger] is_start(c[i]) by {
                if i < a.len() {
                    assert(c[i] == a[i]);
                } else {
                    assert(c[i] == a2[i - a.len()]);
                }
            }
            if let StreamEvent::AgentReady = e {
                assert(is_ack(c[a.len() as int]));
            }
        } else {
            assert(c =~= a);
        }
    } else if p == StreamPhase::Closed {
        assert(c =~= a);
    } else {
        let j0 = choose|j: int| 0 <= j < a.len() && #[trigger] is_ack(a[j]);
        assert(c[j0] == a[j0]);
        assert(is_ack(c[j0]));
        assert forall|i: int| 0 <= i < c.len() && #[trigger] is_start(c[i]) implies exists|j: int|
            0 <= j < i && #[trigger] is_ack(c[j]) by {
            if i < a.len() {
                assert(c[i] == a[i]);
                let j = choose|j: int| 0 <= j < i && #[trigger] is_ack(a[j]);
                assert(c[j] == a[j]);
            } else {
                assert(is_ack(c[j0]));
            }
        }
    }
}

proof fn lemma_run_start(prompt: Seq<char>, events: Seq<StreamEvent>)
    ensures
        start_inv(run_stream(prompt, events).0, run_stream(prompt, events).1),
        needs_ack(run_stream(prompt, events).0) ==> exists|j: int|
            0 <= j < run_stream(prompt, events).1.len() && #[trigger] is_ack(run_stream(prompt, events).1[j]),
    decreases events.len(),
{
    if events.len() > 0 {
        lemma_run_start(prompt, events.drop_last());
        let (p, a) = run_stream(prompt, events.drop_last());
        lemma_step_start(p, a, prompt, events.last());
    }
}

/// The agent's turn is started only once the status ack has been published.
pub proof fn law_turn_starts_after_ack(prompt: Seq<char>, events: Seq<StreamEvent>)
    ensures
        starts_after_ack(run_stream(prompt, events).1),
{
    lemma_run_start(prompt, events);
}


/// A tool result is shown by the first characters of its output: the whole output
/// when it has at most 500 characters, else its first 500, in a response chunk.
pub proof fn law_tool_result_preview_is_prefix(prompt: Seq<char>, name: String, output: String)
    ensures
        ({
            let n: int = if output@.len() <= 500 {
                output@.len() as int
            } else {
                500
            };
            let text = "\n[tool result "@ + name@ + "]: "@ + output@.subrange(0, n) + "\n"@;
            step_spec(
                StreamPhase::Streaming,
                prompt,
                StreamEvent::Turn(TurnEvent::ToolResult { name, output }),
            ) == (
                StreamPhase::Streaming,
                seq![
                    ActionView::Publish {
                        kind: ChunkKind::Response,
                        payload: vstd::utf8::encode_utf8(
                            json_object(
                                seq![("type"@, json_quoted("response"@)), ("data"@, json_quoted(text))],
                            ),
                        ),
                    },
                ],
            )
        }),
{
    if output@.len() <= 500 {
        assert(output@.subrange(0, output@.len() as int) =~= output@);
    } else {
        assert(output@.take(500) =~= output@.subrange(0, 500));
    }
}

/// An approval request is passed on whole: one query chunk whose data object
/// holds the request id, the tool name and the full argument summary, each as a
/// literal that reads back as given.
pub proof fn law_approval_carries_request_verbatim(
    prompt: Seq<char>,
    request_id: String,
    tool_name: String,
    arguments_summary: String,
)
    ensures
        step_spec(
            StreamPhase::Streaming,
            prompt,
            StreamEvent::Turn(
                TurnEvent::ApprovalRequest { request_id, tool_name, arguments_summary },
            ),
        ) == (
            StreamPhase::Streaming,
            seq![
                ActionView::Publish {
                    kind: ChunkKind::Query,
                    payload: vstd::utf8::encode_utf8(
                        json_object(
                            seq![
                                ("type"@, json_quoted("query"@)),
                                (
                                    "data"@,
                                    json_object(
                                        seq![
                                            ("kind"@, json_quoted("approval"@)),
                                            ("request_id"@, json_quoted(request_id@)),
                                            ("summary"@, json_quoted(arguments_summary@)),
                                            ("tool"@, json_quoted(tool_name@)),
                                        ],
                                    ),
                                ),
                            ],
                        ),
                    ),
                },
            ],
        ),
        json_string_value(json_quoted(request_id@)) == Some(request_id@),
        json_string_value(json_quoted(tool_name@)) == Some(tool_name@),
        json_string_value(json_quoted(arguments_summary@)) == Some(arguments_summary@),
{
    law_json_string_reads_back(request_id@);
    law_json_string_reads_back(tool_name@);
    law_json_string_reads_back(arguments_summary@);
}

/// Without a configured session, an admitted request's session key is the
/// prefix followed by the whole reply subject, so requests with different reply
/// subjects get different sessions.
pub proof fn law_session_key_is_whole_reply(
    parsed: Result<PromptEnvelopeView, EnvelopeError>,
    configured_session: Option<&str>,
    reply1: &str,
    reply2: &str,
)
    requires
        parsed is Ok,
        reply1@.len() > 0,
        reply2@.len() > 0,
        configured_session is None || configured_session->0@.len() == 0,
    ensures
        admission_outcome(parsed, configured_session, Some(reply1)) is Ok,
        admission_outcome(parsed, configured_session, Some(reply1))->Ok_0.reply == reply1@,
        admission_outcome(parsed, configured_session, Some(reply1))->Ok_0.session_key
            == NATS_SESSION_PREFIX@ + reply1@,
        reply1@ != reply2@ ==> admission_outcome(parsed, configured_session, Some(reply1))->Ok_0.session_key
            != admission_outcome(parsed, configured_session, Some(reply2))->Ok_0.session_key,
{
    let k1 = NATS_SESSION_PREFIX@ + reply1@;
    let k2 = NATS_SESSION_PREFIX@ + reply2@;
    if k1 == k2 {
        assert(k1.skip(NATS_SESSION_PREFIX@.len() as int) =~= reply1@);
        assert(k2.skip(NATS_SESSION_PREFIX@.len() as int) =~= reply2@);
    }
}


/// Agent text and thinking deltas are streamed verbatim, each as one response
/// chunk whose data literal reads back as the delta; usage reports send nothing.
pub proof fn law_text_events_stream_verbatim(prompt: Seq<char>, delta: String)
    ensures
        step_spec(StreamPhase::Streaming, prompt, StreamEvent::Turn(TurnEvent::Chunk { delta }))
            == step_spec(StreamPhase::Streaming, prompt, StreamEvent::Turn(TurnEvent::Thinking { delta })),
        step_spec(StreamPhase::Streaming, prompt, StreamEvent::Turn(TurnEvent::Chunk { delta })) == (
            StreamPhase::Streaming,
            seq![
                ActionView::Publish {
                    kind: ChunkKind::Response,
                    payload: vstd::utf8::encode_utf8(
                        json_object(
                            seq![("type"@, json_quoted("response"@)), ("data"@, json_quoted(delta@))],
                        ),
                    ),
                },
            ],
        ),
        json_string_value(json_quoted(delta@)) == Some(delta@),
        step_spec(StreamPhase::Streaming, prompt, StreamEvent::Turn(TurnEvent::Usage)) == (
            StreamPhase::Streaming,
            Seq::<ActionView>::empty(),
        ),
{
    law_json_string_reads_back(delta@);
}

/// The prompt handed to the agent is the envelope's prompt, unchanged when there
/// are no attachments and extended only at its end when there are.
pub proof fn law_prompt_text_extends_prompt(prompt: Seq<char>, n_attachments: nat)
    ensures
        n_attachments == 0 ==> prompt_text_for(prompt, n_attachments) == prompt,
        prompt_text_for(prompt, n_attachments).len() >= prompt.len(),
        prompt_text_for(prompt, n_attachments).subrange(0, prompt.len() as int) == prompt,
        n_attachments > 0 ==> prompt_text_for(prompt, n_attachments).len() > prompt.len(),
{
    let t = prompt_text_for(prompt, n_attachments);
    assert(t.subrange(0, prompt.len() as int) =~= prompt);
    if n_attachments > 0 {
        reveal_strlit("\n\n[");
    }
}


/// Failures are answered with a 500 reply that names the failure and ends with
/// its detail; a failed chunk publish also cancels the turn; a turn that fails
/// reports its error in a last response chunk before the terminator, and a
/// finished turn sends only the terminator.
pub proof fn law_failures_reported(prompt: Seq<char>, detail: String, phase: StreamPhase)
    requires
        phase == StreamPhase::Streaming || phase == StreamPhase::Draining,
    ensures
        step_spec(StreamPhase::Preparing, prompt, StreamEvent::AgentFailed { detail }) == (
            StreamPhase::Closed,
            seq![ActionView::RespondError { code: 500, message: "agent init failed: "@ + detail@ }],
        ),
        step_spec(StreamPhase::AwaitingAck, prompt, StreamEvent::PublishFailed { detail }) == (
            StreamPhase::Closed,
            seq![ActionView::RespondError { code: 500, message: "failed to send ack: "@ + detail@ }],
        ),
        step_spec(StreamPhase::Streaming, prompt, StreamEvent::PublishFailed { detail }) == (
            StreamPhase::Draining,
            seq![
                ActionView::RespondError { code: 500, message: "stream publish failed: "@ + detail@ },
                ActionView::Cancel,
            ],
        ),
        step_spec(phase, prompt, StreamEvent::TurnPanicked { detail }) == (
            StreamPhase::Closed,
            seq![ActionView::RespondError { code: 500, message: "agent task panicked: "@ + detail@ }],
        ),
        step_spec(phase, prompt, StreamEvent::TurnFinished) == (
            StreamPhase::Closed,
            seq![ActionView::Terminate],
        ),
        step_spec(phase, prompt, StreamEvent::TurnFailed { detail }) == (
            StreamPhase::Closed,
            seq![
                ActionView::Publish {
                    kind: ChunkKind::Response,
                    payload: vstd::utf8::encode_utf8(
                        json_object(
                            seq![
                                ("type"@, json_quoted("response"@)),
                                ("data"@, json_quoted("\n[error]: "@ + detail@ + "\n"@)),
                            ],
                        ),
                    ),
                },
                ActionView::Terminate,
            ],
        ),
{
}

/// A tool call is announced by name in one response chunk.
pub proof fn law_tool_call_announced(prompt: Seq<char>, name: String)
    ensures
        step_spec(StreamPhase::Streaming, prompt, StreamEvent::Turn(TurnEvent::ToolCall { name })) == (
            StreamPhase::Streaming,
            seq![
                ActionView::Publish {
                    kind: ChunkKind::Response,
                    payload: vstd::utf8::encode_utf8(
                        json_object(
                            seq![
                                ("type"@, json_quoted("response"@)),
                                ("data"@, json_quoted("\n[tool: "@ + name@ + "]\n"@)),
                            ],
                        ),
                    ),
                },
            ],
        ),
{
}

} // verus!
