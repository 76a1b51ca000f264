//! Decisions of the NATS host: where to connect, how to authenticate, what the
//! service advertises, and what the heartbeat carries.

use vstd::prelude::*;
use vstd::string::*;

use crate::heartbeat::{
    build_heartbeat_payload, encode_heartbeat_payload, heartbeat_json, heartbeat_view, opt_view,
};
use crate::subject::{AgentSubject, PROTOCOL_VERSION};
use vstd::utf8::encode_utf8;

verus! {

/// The server used when none is configured.
pub const DEFAULT_NATS_SERVER: &'static str = "nats://127.0.0.1:4222";

/// The elements of `parts` separated by `sep`.
pub open spec fn joined(parts: Seq<Seq<char>>, sep: Seq<char>) -> Seq<char>
    decreases parts.len(),
{
    if parts.len() == 0 {
        Seq::empty()
    } else if parts.len() == 1 {
        parts[0]
    } else {
        joined(parts.drop_last(), sep) + sep + parts.last()
    }
}

/// The servers to connect to: the configured ones, or the default server.
pub open spec fn effective_servers(servers: Seq<Seq<char>>) -> Seq<Seq<char>> {
    if servers.len() == 0 {
        seq![DEFAULT_NATS_SERVER@]
    } else {
        servers
    }
}

pub open spec fn string_views(v: Seq<String>) -> Seq<Seq<char>> {
    v.map_values(|s: String| s@)
}

/// The comma-separated server list handed to the NATS client.
pub fn server_list(servers: &Vec<String>) -> (l: String)
    ensures
        l@ == joined(effective_servers(string_views(servers@)), ","@),
{
    if servers.len() == 0 {
        proof {
            assert(effective_servers(string_views(servers@)) =~= seq![DEFAULT_NATS_SERVER@]);
        }
        return String::from_str(DEFAULT_NATS_SERVER);
    }
    let ghost parts = string_views(servers@);
    let mut l = String::new();
    let mut i: usize = 0;
    while i < servers.len()
        invariant
            0 <= i <= servers@.len(),
            parts == string_views(servers@),
            l@ == joined(parts.take(i as int), ","@),
        decreases servers@.len() - i,
    {
        if i > 0 {
            l.append(",");
        }
        l.append(servers[i].as_str());
        proof {
            assert(parts.take(i + 1).drop_last() =~= parts.take(i as int));
            if i == 0 {
                assert(parts.take(1) =~= seq![parts[0]]);
            }
        }
        i += 1;
    }
    assert(parts.take(servers@.len() as int) =~= parts);
    l
}

/// A configured session counts only when it is not empty.
pub open spec fn nonempty(session: Option<String>) -> Option<String> {
    match session {
        Some(s) if s@.len() > 0 => Some(s),
        _ => None,
    }
}

/// The configured session, unless it is empty.
pub fn nonempty_session(session: &Option<String>) -> (r: Option<String>)
    ensures
        r == nonempty(*session),
{
    match session {
        Some(s) if !s.as_str().is_empty() => Some(s.clone()),
        _ => None,
    }
}

/// How the NATS connection authenticates.
#[derive(Debug, Clone)]
pub struct ConnectPlan {
    /// User and password, given both.
    pub user_password: Option<(String, String)>,
    /// Token, if given.
    pub token: Option<String>,
    /// Whether to connect through connection options (some credential is configured)
    /// rather than with the plain connect call.
    pub with_options: bool,
}

/// Credentials go into the connection options; user and password only as a pair.
pub fn connect_plan(username: &Option<String>, password: &Option<String>, token: &Option<String>) -> (p: ConnectPlan)
    ensures
        p.user_password is Some <==> (username is Some && password is Some),
        p.user_password matches Some(up) ==> up.0 == username->0 && up.1 == password->0,
        p.token == *token,
        p.with_options == (username is Some || password is Some || token is Some),
{
    let user_password = match (username, password) {
        (Some(u), Some(pw)) => Some((u.clone(), pw.clone())),
        _ => None,
    };
    ConnectPlan {
        user_password,
        token: token.clone(),
        with_options: username.is_some() || password.is_some() || token.is_some(),
    }
}

pub open spec fn pair_views(v: Seq<(String, String)>) -> Seq<(Seq<char>, Seq<char>)> {
    v.map_values(|p: (String, String)| (p.0@, p.1@))
}

/// Service metadata: agent, owner, protocol version, and the session when one is set.
pub open spec fn service_metadata_spec(subject: AgentSubject, session: Option<String>) -> Seq<
    (Seq<char>, Seq<char>),
> {
    let base = seq![
        ("agent"@, subject.agent@),
        ("owner"@, subject.owner@),
        ("protocol_version"@, PROTOCOL_VERSION@),
    ];
    match nonempty(session) {
        Some(s) => base.push(("session"@, s@)),
        None => base,
    }
}

fn pair(k: &str, v: &str) -> (p: (String, String))
    ensures
        p.0@ == k@,
        p.1@ == v@,
{
    (String::from_str(k), String::from_str(v))
}

/// The metadata the service registers with.
pub fn service_metadata(subject: &AgentSubject, session: &Option<String>) -> (m: Vec<
    (String, String),
>)
    ensures
        pair_views(m@) == service_metadata_spec(*subject, *session),
{
    let mut m: Vec<(String, String)> = Vec::new();
    m.push(pair("agent", subject.agent.as_str()));
    m.push(pair("owner", subject.owner.as_str()));
    m.push(pair("protocol_version", PROTOCOL_VERSION));
    match nonempty_session(session) {
        Some(s) => {
            m.push(pair("session", s.as_str()));
        },
        None => {},
    }
    assert(pair_views(m@) =~= service_metadata_spec(*subject, *session));
    m
}

/// Prompt endpoint metadata: the advertised payload limit and whether attachments are taken.
pub open spec fn endpoint_metadata_spec(max_payload: Seq<char>, attachments_ok: bool) -> Seq<
    (Seq<char>, Seq<char>),
> {
    seq![
        ("max_payload"@, max_payload),
        ("attachments_ok"@, if attachments_ok { "true"@ } else { "false"@ }),
    ]
}

/// The metadata of the prompt endpoint.
pub fn endpoint_metadata(advertised_max_payload: &str, attachments_ok: bool) -> (m: Vec<
    (String, String),
>)
    ensures
        pair_views(m@) == endpoint_metadata_spec(advertised_max_payload@, attachments_ok),
{
    let mut m: Vec<(String, String)> = Vec::new();
    m.push(pair("max_payload", advertised_max_payload));
    m.push(pair("attachments_ok", if attachments_ok { "true" } else { "false" }));
    assert(pair_views(m@) =~= endpoint_metadata_spec(advertised_max_payload@, attachments_ok));
    m
}

/// The heartbeat period in seconds: the configured interval, at least one second.
pub fn heartbeat_period_secs(heartbeat_interval_s: u64) -> (s: u64)
    ensures
        s == if heartbeat_interval_s < 1 { 1 } else { heartbeat_interval_s },
{
    if heartbeat_interval_s < 1 {
        1
    } else {
        heartbeat_interval_s
    }
}

/// The heartbeat bytes published on the heartbeat subject and returned by the
/// status endpoint; an empty configured session is left out.
pub fn heartbeat_bytes(
    subject: &AgentSubject,
    heartbeat_interval_s: u64,
    instance_id: &str,
    session: &Option<String>,
) -> (b: Vec<u8>)
    ensures
        b@ == encode_utf8(
            heartbeat_json(
                heartbeat_view(*subject, heartbeat_interval_s, instance_id@, opt_view(nonempty(*session))),
            ),
        ),
{
    let payload = build_heartbeat_payload(
        subject,
        heartbeat_interval_s,
        instance_id,
        nonempty_session(session),
    );
    encode_heartbeat_payload(&payload)
}

} // verus!
