//! Heartbeat payload (pub/sub heartbeat and status endpoint reply).

use vstd::prelude::*;
use vstd::string::*;
use vstd::utf8::*;

use crate::json::{
    decimal, digits_value, json_object, json_object_text, json_quoted, json_string,
    json_string_value, law_decimal_reads_back, law_json_string_reads_back, member_views,
    push_decimal,
};
use crate::subject::{AgentSubject, PROTOCOL_VERSION};

verus! {

#[derive(Debug, Clone)]
pub struct HeartbeatPayload {
    pub agent: String,
    pub owner: String,
    pub name: String,
    pub instance_id: String,
    pub protocol_version: String,
    pub heartbeat_interval_s: u64,
    pub status: String,
    pub session: Option<String>,
}

pub struct HeartbeatView {
    pub agent: Seq<char>,
    pub owner: Seq<char>,
    pub name: Seq<char>,
    pub instance_id: Seq<char>,
    pub protocol_version: Seq<char>,
    pub heartbeat_interval_s: u64,
    pub status: Seq<char>,
    pub session: Option<Seq<char>>,
}

pub open spec fn opt_view(s: Option<String>) -> Option<Seq<char>> {
    match s {
        Some(x) => Some(x@),
        None => None,
    }
}

impl View for HeartbeatPayload {
    type V = HeartbeatView;

    open spec fn view(&self) -> HeartbeatView {
        HeartbeatView {
            agent: self.agent@,
            owner: self.owner@,
            name: self.name@,
            instance_id: self.instance_id@,
            protocol_version: self.protocol_version@,
            heartbeat_interval_s: self.heartbeat_interval_s,
            status: self.status@,
            session: opt_view(self.session),
        }
    }
}

/// The heartbeat an agent sends: its identity, the protocol version, the
/// interval, status `ready`, and the session, if any.
pub open spec fn heartbeat_view(
    subject: AgentSubject,
    heartbeat_interval_s: u64,
    instance_id: Seq<char>,
    session: Option<Seq<char>>,
) -> HeartbeatView {
    HeartbeatView {
        agent: subject.agent@,
        owner: subject.owner@,
        name: subject.name@,
        instance_id,
        protocol_version: PROTOCOL_VERSION@,
        heartbeat_interval_s,
        status: "ready"@,
        session,
    }
}

/// The heartbeat of the agent behind `subject`: identity, protocol version,
/// interval, status `ready` and the session, if any.
pub fn build_heartbeat_payload(
    subject: &AgentSubject,
    heartbeat_interval_s: u64,
    instance_id: &str,
    session: Option<String>,
) -> (p: HeartbeatPayload)
    ensures
        p@ == heartbeat_view(*subject, heartbeat_interval_s, instance_id@, opt_view(session)),
{
    HeartbeatPayload {
        agent: subject.agent.clone(),
        owner: subject.owner.clone(),
        name: subject.name.clone(),
        instance_id: String::from_str(instance_id),
        protocol_version: String::from_str(PROTOCOL_VERSION),
        heartbeat_interval_s,
        status: String::from_str("ready"),
        session,
    }
}

/// The heartbeat's members, in declaration order; `session` only when there is one.
pub open spec fn heartbeat_members(p: HeartbeatView) -> Seq<(Seq<char>, Seq<char>)> {
    let base = seq![
        ("agent"@, json_quoted(p.agent)),
        ("owner"@, json_quoted(p.owner)),
        ("name"@, json_quoted(p.name)),
        ("instance_id"@, json_quoted(p.instance_id)),
        ("protocol_version"@, json_quoted(p.protocol_version)),
        ("heartbeat_interval_s"@, decimal(p.heartbeat_interval_s as nat)),
        ("status"@, json_quoted(p.status)),
    ];
    match p.session {
        Some(s) => base.push(("session"@, json_quoted(s))),
        None => base,
    }
}

/// The JSON object of a heartbeat.
pub open spec fn heartbeat_json(p: HeartbeatView) -> Seq<char> {
    json_object(heartbeat_members(p))
}

/// The heartbeat as JSON bytes.
pub fn encode_heartbeat_payload(payload: &HeartbeatPayload) -> (b: Vec<u8>)
    ensures
        b@ == encode_utf8(heartbeat_json(payload@)),
{
    let mut members: Vec<(String, String)> = Vec::new();
    members.push((String::from_str("agent"), json_string(payload.agent.as_str())));
    members.push((String::from_str("owner"), json_string(payload.owner.as_str())));
    members.push((String::from_str("name"), json_string(payload.name.as_str())));
    members.push((String::from_str("instance_id"), json_string(payload.instance_id.as_str())));
    members.push(
        (String::from_str("protocol_version"), json_string(payload.protocol_version.as_str())),
    );
    let mut d = String::new();
    push_decimal(&mut d, payload.heartbeat_interval_s);
    members.push((String::from_str("heartbeat_interval_s"), d));
    members.push((String::from_str("status"), json_string(payload.status.as_str())));
    match &payload.session {
        Some(session) => {
            members.push((String::from_str("session"), json_string(session.as_str())));
        },
        None => {},
    }
    assert(member_views(members@) =~= heartbeat_members(payload@));
    let s = json_object_text(&members);
    vstd::slice::slice_to_vec(s.as_str().as_bytes())
}

/// The heartbeat object has one member per field, keyed by the field's name, and
/// each member's value reads back as that field; `session` is there exactly when
/// there is a session.
pub proof fn law_heartbeat_reads_back(p: HeartbeatView)
    ensures
        heartbeat_json(p) == json_object(heartbeat_members(p)),
        heartbeat_members(p)[0].0 == "agent"@ && json_string_value(heartbeat_members(p)[0].1) == Some(p.agent),
        heartbeat_members(p)[1].0 == "owner"@ && json_string_value(heartbeat_members(p)[1].1) == Some(p.owner),
        heartbeat_members(p)[2].0 == "name"@ && json_string_value(heartbeat_members(p)[2].1) == Some(p.name),
        heartbeat_members(p)[3].0 == "instance_id"@ && json_string_value(heartbeat_members(p)[3].1)
            == Some(p.instance_id),
        heartbeat_members(p)[4].0 == "protocol_version"@ && json_string_value(
            heartbeat_members(p)[4].1,
        ) == Some(p.protocol_version),
        heartbeat_members(p)[5].0 == "heartbeat_interval_s"@ && digits_value(heartbeat_members(p)[5].1)
            == Some(p.heartbeat_interval_s as nat),
        heartbeat_members(p)[6].0 == "status"@ && json_string_value(heartbeat_members(p)[6].1) == Some(p.status),
        p.session is None ==> heartbeat_members(p).len() == 7,
        p.session matches Some(s) ==> heartbeat_members(p).len() == 8 && heartbeat_members(p)[7].0
            == "session"@ && json_string_value(heartbeat_members(p)[7].1) == Some(s),
{
    law_json_string_reads_back(p.agent);
    law_json_string_reads_back(p.owner);
    law_json_string_reads_back(p.name);
    law_json_string_reads_back(p.instance_id);
    law_json_string_reads_back(p.protocol_version);
    law_decimal_reads_back(p.heartbeat_interval_s as nat);
    law_json_string_reads_back(p.status);
    if let Some(s) = p.session {
        law_json_string_reads_back(s);
    }
}

} // verus!
