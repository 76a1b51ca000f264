//! Verb-first subject layout (Synadia Agent Protocol v0.3).

use vstd::prelude::*;
use vstd::string::*;

verus! {

/// NATS microservice name for agent discovery.
pub const SERVICE_NAME: &'static str = "agents";

/// Queue group shared by `prompt` and `status` endpoints.
pub const AGENTS_QUEUE_GROUP: &'static str = "agents";

pub const PROMPT_ENDPOINT_NAME: &'static str = "prompt";

pub const STATUS_ENDPOINT_NAME: &'static str = "status";

/// Protocol version advertised in service metadata.
pub const PROTOCOL_VERSION: &'static str = "0.3";

/// Canonical harness identifier for ZeroClaw.
pub const DEFAULT_HARNESS_AGENT: &'static str = "zeroclaw";

#[derive(Debug, Clone)]
pub struct AgentSubject {
    pub agent: String,
    pub owner: String,
    pub name: String,
    pub prompt: String,
    pub status: String,
    pub heartbeat: String,
}

/// The agent segment used in subjects: the configured one, or the default harness when empty.
pub open spec fn effective_agent(agent: Seq<char>) -> Seq<char> {
    if agent.len() == 0 {
        DEFAULT_HARNESS_AGENT@
    } else {
        agent
    }
}

/// `agents.<verb>.<agent>.<owner>.<name>`
pub open spec fn verb_subject(verb: Seq<char>, agent: Seq<char>, owner: Seq<char>, name: Seq<char>) -> Seq<char> {
    "agents."@ + verb + "."@ + agent + "."@ + owner + "."@ + name
}

fn build_subject(verb: &str, agent: &str, owner: &str, name: &str) -> (s: String)
    ensures
        s@ == verb_subject(verb@, agent@, owner@, name@),
{
    let mut s = String::from_str("agents.");
    s.append(verb);
    s.append(".");
    s.append(agent);
    s.append(".");
    s.append(owner);
    s.append(".");
    s.append(name);
    s
}

impl AgentSubject {
    pub open spec fn is_layout_of(self, agent: Seq<char>, owner: Seq<char>, name: Seq<char>) -> bool {
        &&& self.agent@ == effective_agent(agent)
        &&& self.owner@ == owner
        &&& self.name@ == name
        &&& self.prompt@ == verb_subject("prompt"@, self.agent@, owner, name)
        &&& self.status@ == verb_subject("status"@, self.agent@, owner, name)
        &&& self.heartbeat@ == verb_subject("hb"@, self.agent@, owner, name)
    }

    pub fn new(agent: &str, owner: &str, name: &str) -> (s: Self)
        ensures
            s.is_layout_of(agent@, owner@, name@),
    {
        let agent_seg: &str = if agent.is_empty() {
            DEFAULT_HARNESS_AGENT
        } else {
            agent
        };
        AgentSubject {
            prompt: build_subject("prompt", agent_seg, owner, name),
            status: build_subject("status", agent_seg, owner, name),
            heartbeat: build_subject("hb", agent_seg, owner, name),
            agent: String::from_str(agent_seg),
            owner: String::from_str(owner),
            name: String::from_str(name),
        }
    }
}


/// All three subjects are verb-first and share one agent segment: the given
/// agent, or `zeroclaw` when it is empty; owner and name follow unchanged.
pub proof fn law_subjects_share_agent(s: AgentSubject, agent: Seq<char>, owner: Seq<char>, name: Seq<char>)
    requires
        s.is_layout_of(agent, owner, name),
    ensures
        ({
            let a = if agent.len() == 0 {
                "zeroclaw"@
            } else {
                agent
            };
            &&& s.agent@ == a
            &&& s.owner@ == owner
            &&& s.name@ == name
            &&& s.prompt@ == "agents."@ + "prompt"@ + "."@ + a + "."@ + owner + "."@ + name
            &&& s.status@ == "agents."@ + "status"@ + "."@ + a + "."@ + owner + "."@ + name
            &&& s.heartbeat@ == "agents."@ + "hb"@ + "."@ + a + "."@ + owner + "."@ + name
        }),
{
}

} // verus!
