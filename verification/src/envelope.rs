//! Prompt request envelope handling (plain text or JSON).
//!
//! A prompt payload is either plain UTF-8 text or, when its trimmed text starts
//! with `{`, a JSON envelope `{"prompt": .., "attachments": [{"filename": .., "content": <base64>}]}`.
//! Turning the JSON text into a [`JsonEnvelope`] is the caller's decoder; everything
//! before and after that step is decided here.

use vstd::prelude::*;
use vstd::string::*;
use vstd::utf8::*;

verus! {

broadcast use vstd::utf8::group_utf8_lib;

/// Why a prompt payload was refused.
#[derive(Debug, Clone, Copy, PartialEq, Eq, Structural)]
pub enum EnvelopeError {
    EmptyPayload,
    InvalidUtf8,
    InvalidJson,
    AttachmentsNotSupported,
    InvalidBase64,
}

/// The text a refusal is reported with.
pub open spec fn envelope_error_text(e: EnvelopeError) -> Seq<char> {
    match e {
        EnvelopeError::EmptyPayload => "empty prompt payload"@,
        EnvelopeError::InvalidUtf8 => "prompt must be valid UTF-8"@,
        EnvelopeError::InvalidJson => "invalid JSON prompt envelope"@,
        EnvelopeError::AttachmentsNotSupported => "attachments not supported by this agent"@,
        EnvelopeError::InvalidBase64 => "attachment content must be base64"@,
    }
}

impl EnvelopeError {
    /// The message sent back to the requester for this refusal.
    pub fn message(&self) -> (m: String)
        ensures
            m@ == envelope_error_text(*self),
    {
        match self {
            EnvelopeError::EmptyPayload => String::from_str("empty prompt payload"),
            EnvelopeError::InvalidUtf8 => String::from_str("prompt must be valid UTF-8"),
            EnvelopeError::InvalidJson => String::from_str("invalid JSON prompt envelope"),
            EnvelopeError::AttachmentsNotSupported => String::from_str(
                "attachments not supported by this agent",
            ),
            EnvelopeError::InvalidBase64 => String::from_str("attachment content must be base64"),
        }
    }
}

/// A file handed to the agent together with a prompt.
#[derive(Debug, Clone)]
pub struct MediaAttachment {
    pub file_name: String,
    pub mime_type: Option<String>,
    pub data: Vec<u8>,
}

pub struct MediaAttachmentView {
    pub file_name: Seq<char>,
    pub mime_type: Option<Seq<char>>,
    pub data: Seq<u8>,
}

impl View for MediaAttachment {
    type V = MediaAttachmentView;

    open spec fn view(&self) -> MediaAttachmentView {
        MediaAttachmentView {
            file_name: self.file_name@,
            mime_type: match self.mime_type {
                Some(m) => Some(m@),
                None => None,
            },
            data: self.data@,
        }
    }
}

/// A parsed prompt request.
#[derive(Debug, Clone)]
pub struct PromptEnvelope {
    pub prompt: String,
    pub attachments: Vec<MediaAttachment>,
}

pub struct PromptEnvelopeView {
    pub prompt: Seq<char>,
    pub attachments: Seq<MediaAttachmentView>,
}

impl View for PromptEnvelope {
    type V = PromptEnvelopeView;

    open spec fn view(&self) -> PromptEnvelopeView {
        PromptEnvelopeView {
            prompt: self.prompt@,
            attachments: self.attachments@.map_values(|a: MediaAttachment| a@),
        }
    }
}

/// One attachment as it stands in the JSON envelope: base64 text, not yet decoded.
#[derive(Debug, Clone)]
pub struct JsonAttachment {
    pub filename: String,
    pub content: String,
}

/// The JSON envelope as decoded from the request text.
#[derive(Debug, Clone)]
pub struct JsonEnvelope {
    pub prompt: String,
    pub attachments: Vec<JsonAttachment>,
}

pub struct JsonAttachmentView {
    pub filename: Seq<char>,
    pub content: Seq<char>,
}

pub struct JsonEnvelopeView {
    pub prompt: Seq<char>,
    pub attachments: Seq<JsonAttachmentView>,
}

impl View for JsonAttachment {
    type V = JsonAttachmentView;

    open spec fn view(&self) -> JsonAttachmentView {
        JsonAttachmentView { filename: self.filename@, content: self.content@ }
    }
}

impl View for JsonEnvelope {
    type V = JsonEnvelopeView;

    open spec fn view(&self) -> JsonEnvelopeView {
        JsonEnvelopeView {
            prompt: self.prompt@,
            attachments: self.attachments@.map_values(|a: JsonAttachment| a@),
        }
    }
}

// ---------------------------------------------------------------------------
// Outside calls
// ---------------------------------------------------------------------------
#[verifier::external_type_specification]
#[verifier::external_body]
pub struct ExDecodeError(base64::DecodeError);

/// What base64's `STANDARD` engine decodes the given text to (`None` when it refuses it).
pub uninterp spec fn base64_standard_decoded(input: Seq<u8>) -> Option<Seq<u8>>;

/// Calls `base64::Engine::decode` on `base64::engine::general_purpose::STANDARD`.
/// Claimed: the call succeeds exactly when the named decoding exists, and then
/// returns those bytes.
#[verifier::external_body]
fn base64_decode_standard(input: &[u8]) -> (r: Result<Vec<u8>, base64::DecodeError>)
    ensures
        match r {
            Ok(v) => base64_standard_decoded(input@) == Some(v@),
            Err(_) => base64_standard_decoded(input@) is None,
        },
{
    base64::Engine::decode(&base64::engine::general_purpose::STANDARD, input)
}

/// Calls `std::str::from_utf8`. Claimed: it succeeds exactly on well-formed
/// UTF-8 and then returns the same bytes viewed as text.
#[verifier::external_body]
fn utf8_text(bytes: &[u8]) -> (r: Option<&str>)
    ensures
        r is Some <==> valid_utf8(bytes@),
        r matches Some(s) ==> s.spec_bytes() == bytes@,
{
    std::str::from_utf8(bytes).ok()
}

/// The Unicode `White_Space` property (PropList.txt).
pub open spec fn is_white_space(c: char) -> bool {
    let u = c as u32;
    ||| 0x09 <= u <= 0x0d
    ||| u == 0x20
    ||| u == 0x85
    ||| u == 0xa0
    ||| u == 0x1680
    ||| 0x2000 <= u <= 0x200a
    ||| u == 0x2028
    ||| u == 0x2029
    ||| u == 0x202f
    ||| u == 0x205f
    ||| u == 0x3000
}

/// `char::is_whitespace`: whether `c` has the `White_Space` property.
pub fn char_is_whitespace(c: char) -> (r: bool)
    ensures
        r == is_white_space(c),
{
    let u = c as u32;
    (0x09 <= u && u <= 0x0d) || u == 0x20 || u == 0x85 || u == 0xa0 || u == 0x1680 || (0x2000 <= u
        && u <= 0x200a) || u == 0x2028 || u == 0x2029 || u == 0x202f || u == 0x205f || u == 0x3000
}

// ---------------------------------------------------------------------------
// Trimming
// ---------------------------------------------------------------------------
pub open spec fn trim_start_ws(s: Seq<char>) -> Seq<char>
    decreases s.len(),
{
    if s.len() > 0 && is_white_space(s[0]) {
        trim_start_ws(s.drop_first())
    } else {
        s
    }
}

pub open spec fn trim_end_ws(s: Seq<char>) -> Seq<char>
    decreases s.len(),
{
    if s.len() > 0 && is_white_space(s.last()) {
        trim_end_ws(s.drop_last())
    } else {
        s
    }
}

/// `s` without its leading and trailing white space.
pub open spec fn trim_ws(s: Seq<char>) -> Seq<char> {
    trim_end_ws(trim_start_ws(s))
}

/// `str::trim`: removes leading and trailing white space.
pub fn trim_white_space(s: &str) -> (t: &str)
    ensures
        t@ == trim_ws(s@),
{
    let n = s.unicode_len();
    let mut i: usize = 0;
    assert(s@.subrange(0, n as int) =~= s@);
    while i < n && char_is_whitespace(s.get_char(i))
        invariant
            0 <= i <= n,
            n == s@.len(),
            trim_start_ws(s@) == trim_start_ws(s@.subrange(i as int, n as int)),
        decreases n - i,
    {
        assert(s@.subrange(i as int, n as int).drop_first() =~= s@.subrange(i + 1, n as int));
        i += 1;
    }
    assert(trim_start_ws(s@) == s@.subrange(i as int, n as int));
    let mut j: usize = n;
    while j > i && char_is_whitespace(s.get_char(j - 1))
        invariant
            i <= j <= n,
            n == s@.len(),
            trim_ws(s@) == trim_end_ws(s@.subrange(i as int, j as int)),
        decreases j,
    {
        assert(s@.subrange(i as int, j as int).drop_last() =~= s@.subrange(i as int, j - 1));
        j -= 1;
    }
    s.substring_char(i, j)
}

// ---------------------------------------------------------------------------
// Envelope decisions
// ---------------------------------------------------------------------------
/// The text is a JSON envelope when, trimmed, it starts with `{`.
pub open spec fn is_json_text(text: Seq<char>) -> bool {
    let t = trim_ws(text);
    t.len() > 0 && t[0] == '{'
}

/// An attachment with its content decoded, if the content is base64.
pub open spec fn decoded_attachment(a: JsonAttachmentView) -> Option<MediaAttachmentView> {
    match base64_standard_decoded(encode_utf8(a.content)) {
        Some(d) => Some(MediaAttachmentView { file_name: a.filename, mime_type: None, data: d }),
        None => None,
    }
}

/// What a decoded JSON envelope becomes.
pub open spec fn json_envelope_outcome(j: JsonEnvelopeView, attachments_ok: bool) -> Result<
    PromptEnvelopeView,
    EnvelopeError,
> {
    if j.attachments.len() > 0 && !attachments_ok {
        Err(EnvelopeError::AttachmentsNotSupported)
    } else if exists|i: int|
        0 <= i < j.attachments.len() && #[trigger] decoded_attachment(j.attachments[i]) is None {
        Err(EnvelopeError::InvalidBase64)
    } else {
        Ok(
            PromptEnvelopeView {
                prompt: j.prompt,
                attachments: j.attachments.map_values(
                    |a: JsonAttachmentView| decoded_attachment(a)->0,
                ),
            },
        )
    }
}

/// A plain-text prompt: the whole (untrimmed) text, no attachments.
pub open spec fn plain_envelope(text: Seq<char>) -> PromptEnvelopeView {
    PromptEnvelopeView { prompt: text, attachments: Seq::empty() }
}

/// The abstract form of a parse result.
pub open spec fn outcome_view(r: Result<PromptEnvelope, EnvelopeError>) -> Result<
    PromptEnvelopeView,
    EnvelopeError,
> {
    match r {
        Ok(e) => Ok(e@),
        Err(x) => Err(x),
    }
}

/// What parsing `payload` may give, `decode_json` being the JSON decoder: empty and
/// non-UTF-8 payloads are refused, plain text is taken whole, and JSON text is
/// handed, trimmed, to the decoder, whose answer decides the rest.
pub open spec fn prompt_payload_outcome<F: Fn(&str) -> Option<JsonEnvelope>>(
    payload: Seq<u8>,
    attachments_ok: bool,
    decode_json: F,
    o: Result<PromptEnvelopeView, EnvelopeError>,
) -> bool {
    if payload.len() == 0 {
        o == Err::<PromptEnvelopeView, EnvelopeError>(EnvelopeError::EmptyPayload)
    } else if !valid_utf8(payload) {
        o == Err::<PromptEnvelopeView, EnvelopeError>(EnvelopeError::InvalidUtf8)
    } else if !is_json_text(decode_utf8(payload)) {
        o == Ok::<PromptEnvelopeView, EnvelopeError>(plain_envelope(decode_utf8(payload)))
    } else {
        exists|t: &str, d: Option<JsonEnvelope>|
            t@ == trim_ws(decode_utf8(payload)) && #[trigger] decode_json.ensures((t,), d) && o
                == decoder_outcome(d, attachments_ok)
    }
}

/// The outcome once the JSON decoder has answered `decoded` (`None`: not a valid envelope).
pub open spec fn decoder_outcome(decoded: Option<JsonEnvelope>, attachments_ok: bool) -> Result<
    PromptEnvelopeView,
    EnvelopeError,
> {
    match decoded {
        Some(j) => json_envelope_outcome(j@, attachments_ok),
        None => Err(EnvelopeError::InvalidJson),
    }
}

/// Finishes a JSON envelope: checks that attachments are accepted and decodes
/// each attachment's base64 content.
pub fn envelope_from_json(json: JsonEnvelope, attachments_ok: bool) -> (r: Result<
    PromptEnvelope,
    EnvelopeError,
>)
    ensures
        outcome_view(r) == json_envelope_outcome(json@, attachments_ok),
{
    let ghost j = json@;
    let n = json.attachments.len();
    if n > 0 && !attachments_ok {
        return Err(EnvelopeError::AttachmentsNotSupported);
    }
    let mut attachments: Vec<MediaAttachment> = Vec::new();
    let mut i: usize = 0;
    while i < n
        invariant
            0 <= i <= n,
            n == json.attachments@.len(),
            j == json@,
            n > 0 ==> attachments_ok,
            j.attachments == json.attachments@.map_values(|a: JsonAttachment| a@),
            attachments@.len() == i,
            forall|k: int|
                0 <= k < i ==> decoded_attachment(j.attachments[k]) == Some(
                    #[trigger] attachments@[k]@,
                ),
        decreases n - i,
    {
        let att = &json.attachments[i];
        let decoded = base64_decode_standard(att.content.as_str().as_bytes());
        match decoded {
            Ok(data) => {
                attachments.push(
                    MediaAttachment {
                        file_name: att.filename.clone(),
                        mime_type: None,
                        data,
                    },
                );
            },
            Err(_) => {
                assert(decoded_attachment(j.attachments[i as int]) is None);
                return Err(EnvelopeError::InvalidBase64);
            },
        }
        i += 1;
    }
    let r = PromptEnvelope { prompt: json.prompt, attachments };
    assert forall|k: int| 0 <= k < j.attachments.len() implies #[trigger] decoded_attachment(
        j.attachments[k],
    ) is Some by {
        assert(decoded_attachment(j.attachments[k]) == Some(attachments@[k]@));
    }
    assert(r@.attachments =~= j.attachments.map_values(
        |a: JsonAttachmentView| decoded_attachment(a)->0,
    ));
    Ok(r)
}

/// Parses a prompt payload. Plain text is taken whole; text that starts with
/// `{` once trimmed is handed, trimmed, to `decode_json`, whose answer is then
/// finished by [`envelope_from_json`].
pub fn parse_prompt_payload<F: Fn(&str) -> Option<JsonEnvelope>>(
    payload: &[u8],
    attachments_ok: bool,
    decode_json: F,
) -> (r: Result<PromptEnvelope, EnvelopeError>)
    requires
        forall|t: &str| decode_json.requires((t,)),
    ensures
        prompt_payload_outcome(payload@, attachments_ok, decode_json, outcome_view(r)),
{
    if payload.len() == 0 {
        return Err(EnvelopeError::EmptyPayload);
    }
    let text = match utf8_text(payload) {
        Some(t) => t,
        None => {
            return Err(EnvelopeError::InvalidUtf8);
        },
    };
    proof {
        decode_utf8_encode_utf8(payload@);
        encode_utf8_decode_utf8(text@);
    }
    assert(text@ == decode_utf8(payload@));
    let trimmed = trim_white_space(text);
    if trimmed.unicode_len() > 0 && trimmed.get_char(0) == '{' {
        let decoded = decode_json(trimmed);
        match decoded {
            Some(j) => envelope_from_json(j, attachments_ok),
            None => Err(EnvelopeError::InvalidJson),
        }
    } else {
        let r = PromptEnvelope { prompt: String::from_str(text), attachments: Vec::new() };
        assert(r@.attachments =~= Seq::<MediaAttachmentView>::empty());
        Ok(r)
    }
}


proof fn lemma_trim_start_shape(s: Seq<char>) -> (k: int)
    ensures
        0 <= k <= s.len(),
        trim_start_ws(s) == s.skip(k),
        forall|j: int| 0 <= j < k ==> is_white_space(#[trigger] s[j]),
        k < s.len() ==> !is_white_space(s[k]),
    decreases s.len(),
{
    if s.len() > 0 && is_white_space(s[0]) {
        let d = s.drop_first();
        let k2 = lemma_trim_start_shape(d);
        assert(d.skip(k2) =~= s.skip(k2 + 1));
        assert forall|j: int| 0 <= j < k2 + 1 implies is_white_space(#[trigger] s[j]) by {
            if j > 0 {
                assert(s[j] == d[j - 1]);
            }
        }
        if k2 + 1 < s.len() {
            assert(s[k2 + 1] == d[k2]);
        }
        k2 + 1
    } else {
        assert(s.skip(0) =~= s);
        0
    }
}

proof fn lemma_trim_end_keeps_first(u: Seq<char>)
    requires
        u.len() > 0,
        !is_white_space(u[0]),
    ensures
        trim_end_ws(u).len() > 0,
        trim_end_ws(u)[0] == u[0],
    decreases u.len(),
{
    if is_white_space(u.last()) {
        let d = u.drop_last();
        assert(d[0] == u[0]);
        lemma_trim_end_keeps_first(d);
    }
}

/// A payload whose first non-white-space character is not `{` (or that has none)
/// is plain text: the prompt is the whole, untrimmed text, with no attachments,
/// whatever the JSON decoder would say.
pub proof fn law_plain_text_taken_whole<F: Fn(&str) -> Option<JsonEnvelope>>(
    payload: Seq<u8>,
    attachments_ok: bool,
    decode_json: F,
    o: Result<PromptEnvelopeView, EnvelopeError>,
)
    requires
        payload.len() > 0,
        valid_utf8(payload),
        forall|i: int|
            0 <= i < decode_utf8(payload).len() && #[trigger] decode_utf8(payload)[i] == '{'
                ==> exists|j: int| 0 <= j < i && !is_white_space(decode_utf8(payload)[j]),
        prompt_payload_outcome(payload, attachments_ok, decode_json, o),
    ensures
        o is Ok,
        o->Ok_0.prompt == decode_utf8(payload),
        o->Ok_0.attachments.len() == 0,
{
    let t = decode_utf8(payload);
    let k = lemma_trim_start_shape(t);
    if k < t.len() {
        let u = t.skip(k);
        assert(u[0] == t[k]);
        lemma_trim_end_keeps_first(u);
        if t[k] == '{' {
            let j = choose|j: int| 0 <= j < k && !is_white_space(t[j]);
            assert(is_white_space(t[j]));
        }
        assert(trim_ws(t)[0] != '{');
    } else {
        assert(t.skip(k) =~= Seq::<char>::empty());
        assert(trim_end_ws(Seq::<char>::empty()) =~= Seq::<char>::empty());
    }
    assert(!is_json_text(t));
}


/// A JSON envelope keeps its prompt and its attachments, in order and one for
/// one: each keeps its file name, gets no MIME type, and carries what base64
/// decodes its content to. Attachments are refused when not accepted, and any
/// content base64 refuses refuses the envelope.
pub proof fn law_attachments_decoded_in_order(j: JsonEnvelopeView, attachments_ok: bool)
    ensures
        j.attachments.len() > 0 && !attachments_ok ==> json_envelope_outcome(j, attachments_ok)
            == Err::<PromptEnvelopeView, EnvelopeError>(EnvelopeError::AttachmentsNotSupported),
        (j.attachments.len() == 0 || attachments_ok) && (exists|i: int|
            0 <= i < j.attachments.len() && base64_standard_decoded(
                encode_utf8(#[trigger] j.attachments[i].content),
            ) is None) ==> json_envelope_outcome(j, attachments_ok) == Err::<
            PromptEnvelopeView,
            EnvelopeError,
        >(EnvelopeError::InvalidBase64),
        json_envelope_outcome(j, attachments_ok) matches Ok(e) ==> {
            &&& e.prompt == j.prompt
            &&& e.attachments.len() == j.attachments.len()
            &&& forall|i: int|
                0 <= i < j.attachments.len() ==> {
                    &&& (#[trigger] e.attachments[i]).file_name == j.attachments[i].filename
                    &&& e.attachments[i].mime_type is None
                    &&& Some(e.attachments[i].data) == base64_standard_decoded(
                        encode_utf8(j.attachments[i].content),
                    )
                }
        },
{
    if (j.attachments.len() == 0 || attachments_ok) && (exists|i: int|
        0 <= i < j.attachments.len() && base64_standard_decoded(
            encode_utf8(#[trigger] j.attachments[i].content),
        ) is None) {
        let i = choose|i: int|
            0 <= i < j.attachments.len() && base64_standard_decoded(
                encode_utf8(#[trigger] j.attachments[i].content),
            ) is None;
        assert(decoded_attachment(j.attachments[i]) is None);
    }
    if json_envelope_outcome(j, attachments_ok) is Ok {
        assert forall|i: int| 0 <= i < j.attachments.len() implies #[trigger] decoded_attachment(
            j.attachments[i],
        ) is Some by {
            if decoded_attachment(j.attachments[i]) is None {
                assert(exists|k: int|
                    0 <= k < j.attachments.len() && #[trigger] decoded_attachment(j.attachments[k])
                        is None);
            }
        }
    }
}

} // verus!
