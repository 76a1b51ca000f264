//! Synadia stream chunk encoding: `{"type":<kind>,"data":<json>}` frames.

use vstd::prelude::*;
use vstd::string::*;
use vstd::utf8::*;

use crate::json::{
    json_member, json_members, json_object, json_quoted, json_string, json_string_value, law_json_string_reads_back, push_char,
    push_member,
};

verus! {

#[verifier::external_type_specification]
#[verifier::external_body]
pub struct ExBytes(bytes::Bytes);

#[verifier::external_type_specification]
#[verifier::external_body]
pub struct ExJsonValue(serde_json::Value);

/// The bytes a `bytes::Bytes` holds.
pub uninterp spec fn bytes_contents(b: bytes::Bytes) -> Seq<u8>;

/// Calls `bytes::Bytes::from(String)`. Claimed: the buffer holds the string's
/// UTF-8 bytes (the impl hands over `String::into_bytes`).
#[verifier::external_body]
pub(crate) fn bytes_from_string(s: String) -> (b: bytes::Bytes)
    ensures
        bytes_contents(b) == encode_utf8(s@),
{
    bytes::Bytes::from(s)
}

/// The JSON text serde_json writes for a `Value` (compact; object keys in the
/// order of serde_json's `Map`, which is a sorted `BTreeMap` as long as serde_json's
/// `preserve_order` feature is off, as it is in this build).
pub uninterp spec fn json_value_text(v: serde_json::Value) -> Seq<char>;

/// Calls `serde_json::to_string` on a `serde_json::Value`. Claimed: it succeeds
/// (a `Value` holds only string keys and finite numbers, and the writer is a `Vec`),
/// and returns the named text of the value.
#[verifier::external_body]
fn serde_json_value_text(v: &serde_json::Value) -> (r: Result<String, serde_json::Error>)
    ensures
        r is Ok,
        r->Ok_0@ == json_value_text(*v),
{
    serde_json::to_string(v)
}

/// The kinds of chunk a prompt stream carries.
#[derive(Debug, Clone, Copy, PartialEq, Eq, Structural)]
pub enum ChunkKind {
    Status,
    Response,
    Query,
}

pub open spec fn chunk_type_name(kind: ChunkKind) -> Seq<char> {
    match kind {
        ChunkKind::Status => "status"@,
        ChunkKind::Response => "response"@,
        ChunkKind::Query => "query"@,
    }
}

/// `{"type":"<kind>","data":<data>}` where `data` is JSON text.
pub open spec fn chunk_text(kind: ChunkKind, data: Seq<char>) -> Seq<char> {
    json_object(seq![("type"@, json_quoted(chunk_type_name(kind))), ("data"@, data)])
}

/// The status chunk that opens every stream.
pub open spec fn ack_chunk() -> Seq<u8> {
    encode_utf8(chunk_text(ChunkKind::Status, json_quoted("ack"@)))
}

/// A response chunk carrying `delta`.
pub open spec fn response_chunk(delta: Seq<char>) -> Seq<u8> {
    encode_utf8(chunk_text(ChunkKind::Response, json_quoted(delta)))
}

/// A query chunk carrying the JSON text `data`.
pub open spec fn query_chunk(data: Seq<char>) -> Seq<u8> {
    encode_utf8(chunk_text(ChunkKind::Query, data))
}

fn chunk_type_str(kind: ChunkKind) -> (s: &'static str)
    ensures
        s@ == chunk_type_name(kind),
{
    match kind {
        ChunkKind::Status => "status",
        ChunkKind::Response => "response",
        ChunkKind::Query => "query",
    }
}

fn frame_chunk(kind: ChunkKind, data_json: &str) -> (b: bytes::Bytes)
    ensures
        bytes_contents(b) == encode_utf8(chunk_text(kind, data_json@)),
{
    let ghost m = seq![("type"@, json_quoted(chunk_type_name(kind))), ("data"@, data_json@)];
    let mut s = String::new();
    push_char(&mut s, '{');
    let ty = json_string(chunk_type_str(kind));
    push_member(&mut s, true, "type", ty.as_str());
    push_member(&mut s, false, "data", data_json);
    push_char(&mut s, '}');
    assert(m.drop_last() =~= seq![m[0]]);
    assert(json_members(seq![m[0]]) == json_member(m[0].0, m[0].1));
    assert(json_members(m) == json_member(m[0].0, m[0].1) + seq![','] + json_member(m[1].0, m[1].1));
    assert(s@ =~= chunk_text(kind, data_json@));
    bytes_from_string(s)
}

/// The `{"type":"status","data":"ack"}` chunk.
pub fn encode_status_ack() -> (b: bytes::Bytes)
    ensures
        bytes_contents(b) == ack_chunk(),
{
    let data = json_string("ack");
    frame_chunk(ChunkKind::Status, data.as_str())
}

/// A `{"type":"response","data":<delta>}` chunk.
pub fn encode_response_delta(delta: &str) -> (b: bytes::Bytes)
    ensures
        bytes_contents(b) == response_chunk(delta@),
{
    let data = json_string(delta);
    frame_chunk(ChunkKind::Response, data.as_str())
}

/// A `{"type":"query","data":<data_json>}` chunk around JSON text already written.
pub fn encode_query_text(data_json: &str) -> (b: bytes::Bytes)
    ensures
        bytes_contents(b) == query_chunk(data_json@),
{
    frame_chunk(ChunkKind::Query, data_json)
}

/// A `{"type":"query","data":<data>}` chunk, `data` written by serde_json.
pub fn encode_query(data: &serde_json::Value) -> (b: bytes::Bytes)
    ensures
        bytes_contents(b) == query_chunk(json_value_text(*data)),
{
    match serde_json_value_text(data) {
        Ok(text) => encode_query_text(text.as_str()),
        Err(_) => encode_query_text("null"),
    }
}


/// The approval request object: `kind`, `request_id`, `summary`, `tool`, in the
/// sorted key order in which serde_json writes a `Value` object (its `Map` is a
/// `BTreeMap` while the `preserve_order` feature is off).
pub open spec fn approval_object(request_id: Seq<char>, tool_name: Seq<char>, summary: Seq<char>) -> Seq<
    char,
> {
    json_object(
        seq![
            ("kind"@, json_quoted("approval"@)),
            ("request_id"@, json_quoted(request_id)),
            ("summary"@, json_quoted(summary)),
            ("tool"@, json_quoted(tool_name)),
        ],
    )
}

/// The query chunk asking for approval of a tool call.
pub fn encode_approval_query(request_id: &str, tool_name: &str, summary: &str) -> (b: bytes::Bytes)
    ensures
        bytes_contents(b) == query_chunk(approval_object(request_id@, tool_name@, summary@)),
{
    let ghost m = seq![
        ("kind"@, json_quoted("approval"@)),
        ("request_id"@, json_quoted(request_id@)),
        ("summary"@, json_quoted(summary@)),
        ("tool"@, json_quoted(tool_name@)),
    ];
    let mut s = String::new();
    push_char(&mut s, '{');
    let kind = json_string("approval");
    push_member(&mut s, true, "kind", kind.as_str());
    let id = json_string(request_id);
    push_member(&mut s, false, "request_id", id.as_str());
    let sm = json_string(summary);
    push_member(&mut s, false, "summary", sm.as_str());
    let tool = json_string(tool_name);
    push_member(&mut s, false, "tool", tool.as_str());
    push_char(&mut s, '}');
    let ghost m1 = seq![m[0]];
    let ghost m2 = seq![m[0], m[1]];
    let ghost m3 = seq![m[0], m[1], m[2]];
    assert(m.drop_last() =~= m3);
    assert(m3.drop_last() =~= m2);
    assert(m2.drop_last() =~= m1);
    assert(json_members(m1) == json_member(m[0].0, m[0].1));
    assert(json_members(m2) == json_members(m1) + seq![','] + json_member(m[1].0, m[1].1));
    assert(json_members(m3) == json_members(m2) + seq![','] + json_member(m[2].0, m[2].1));
    assert(json_members(m) == json_members(m3) + seq![','] + json_member(m[3].0, m[3].1));
    assert(s@ =~= approval_object(request_id@, tool_name@, summary@));
    encode_query_text(s.as_str())
}

/// A response chunk is the object `{"type":"response","data":<literal>}` whose
/// data literal reads back as the delta.
pub proof fn law_response_chunk_reads_back(delta: Seq<char>)
    ensures
        response_chunk(delta) == encode_utf8(
            json_object(seq![("type"@, json_quoted("response"@)), ("data"@, json_quoted(delta))]),
        ),
        json_string_value(json_quoted(delta)) == Some(delta),
        json_string_value(json_quoted("response"@)) == Some("response"@),
{
    law_json_string_reads_back(delta);
    law_json_string_reads_back("response"@);
}

} // verus!
