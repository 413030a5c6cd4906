//! Names of agents and of the MCP servers that serve them.
use vstd::prelude::*;
use vstd::string::*;

use crate::text;

verus! {

/// The role that plans, reviews and answers consultations.
pub const ROLE_SUPERVISOR: &'static str = "supervisor";

/// The role that carries tasks out.
pub const ROLE_EXECUTOR: &'static str = "executor";

/// The number of an agent that has no other of its kind beside it.
pub const DEFAULT_AGENT_INDEX: u32 = 1;

/// The name of an agent.
pub open spec fn agent_name(role: Seq<char>, vendor: Seq<char>, index: u32) -> Seq<char> {
    role + ":"@ + vendor + ":"@ + text::decimal(index as nat)
}

/// The name of an agent.
pub fn agent_id(role: &str, vendor: &str, index: u32) -> (out: String)
    ensures
        out@ == agent_name(role@, vendor@, index),
{
    let mut out: String = role.to_owned();
    out.append(":");
    out.append(vendor);
    out.append(":");
    out.append(text::decimal_string(index as u64).as_str());
    out
}

/// The name of the MCP server that serves an agent.
pub open spec fn server_name(role: Seq<char>, index: u32) -> Seq<char> {
    "ferrus-"@ + role + "-"@ + text::decimal(index as nat)
}

/// The name of the MCP server that serves an agent.
pub fn mcp_server_name(role: &str, index: u32) -> (out: String)
    ensures
        out@ == server_name(role@, index),
{
    let mut out: String = "ferrus-".to_owned();
    out.append(role);
    out.append("-");
    out.append(text::decimal_string(index as u64).as_str());
    out
}

/// The name of the session that works on one task in a role.
pub open spec fn session_name(role: Seq<char>, vendor: Seq<char>, task: Seq<char>) -> Seq<char> {
    role + ":"@ + vendor + ":"@ + task
}

/// The name of the session that works on one task in a role.
pub fn task_session_name(role: &str, vendor: &str, task: &str) -> (out: String)
    ensures
        out@ == session_name(role@, vendor@, task@),
{
    let mut out: String = role.to_owned();
    out.append(":");
    out.append(vendor);
    out.append(":");
    out.append(task);
    out
}

/// Sessions of one role and vendor have one name only where they work on one
/// task.
pub proof fn law_session_names_differ(
    role: Seq<char>,
    vendor: Seq<char>,
    one: Seq<char>,
    other: Seq<char>,
)
    ensures
        session_name(role, vendor, one) == session_name(role, vendor, other) <==> one == other,
{
    let head = role + ":"@ + vendor + ":"@;
    if session_name(role, vendor, one) == session_name(role, vendor, other) {
        assert(one =~= session_name(role, vendor, one).skip(head.len() as int));
        assert(other =~= session_name(role, vendor, other).skip(head.len() as int));
    }
}

/// Agents of one role and vendor have one name only where they have one number, and so
/// have the servers of one role; a name starts with the role and ends with the number.
pub proof fn law_numbers_tell_agents_apart(
    role: Seq<char>,
    vendor: Seq<char>,
    one: u32,
    other: u32,
)
    ensures
        agent_name(role, vendor, one) == agent_name(role, vendor, other) <==> one == other,
        server_name(role, one) == server_name(role, other) <==> one == other,
        (role + ":"@ + vendor + ":"@).is_prefix_of(agent_name(role, vendor, one)),
        text::decimal(one as nat).is_suffix_of(agent_name(role, vendor, one)),
        ("ferrus-"@ + role + "-"@).is_prefix_of(server_name(role, one)),
        text::decimal(one as nat).is_suffix_of(server_name(role, one)),
{
    let head = role + ":"@ + vendor + ":"@;
    let start = "ferrus-"@ + role + "-"@;
    text::lemma_decimal_round_trip(one as nat);
    text::lemma_decimal_round_trip(other as nat);
    assert(agent_name(role, vendor, one).skip(head.len() as int) =~= text::decimal(one as nat));
    assert(agent_name(role, vendor, other).skip(head.len() as int) =~= text::decimal(
        other as nat,
    ));
    assert(server_name(role, one).skip(start.len() as int) =~= text::decimal(one as nat));
    assert(server_name(role, other).skip(start.len() as int) =~= text::decimal(other as nat));
    assert(agent_name(role, vendor, one).subrange(0, head.len() as int) =~= head);
    assert(server_name(role, one).subrange(0, start.len() as int) =~= start);
}

} // verus!
