//! Agents: the named configurations that chats run under, and their history.

use vstd::prelude::*;
use vstd::string::*;

use crate::lists::{selects_just, selects_last};
use crate::clock::{show, shown, Instant};
use crate::error::{forbidden, refusal, validation, AppError, Refusal};
use crate::http::clone_text;
use crate::ids::{id_text, id_text_reads_back, id_to_text, ids_among, read_ids};
use crate::json::{
    copy_value,
    empty_object,
    items_at,
    json_in,
    member_at,
    number_value,
    only_strings,
    put,
    read_strings,
    strings_value,
    text_list,
    Json,
};
use crate::order::{
    by_time,
    highest_first,
    newest_first,
    ordered_lists_descend,
    rank_list,
    Dated,
    Ranked,
};
use crate::principal::{AuthContext, Id};
use crate::text::{joined3, listed, opt_text, same, texts};
use crate::trail::{entry_by, note, record_by, AuditEvent};

verus! {

/// Why the caller may not manage an agent. `agent` is who made it, where it is there and not
/// archived; one that came with the platform has no maker.
pub open spec fn manage_refusal(ctx: AuthContext, agent: Option<Option<Id>>) -> Option<Refusal> {
    if ctx.admin {
        None
    } else if ctx.user_id is None {
        Some(Refusal::Forbidden("a user is required"@))
    } else {
        match agent {
            None => Some(Refusal::Validation("agent not found"@)),
            Some(created_by) => if ctx.owns(created_by) {
                None
            } else {
                Some(Refusal::Forbidden("only the agent's owner or an admin may manage it"@))
            },
        }
    }
}

/// Managing an agent, which is changing, deleting and restoring it, is for whoever made it
/// and for administrators.
pub fn require_manage_agent(ctx: &AuthContext, agent: Option<Option<Id>>) -> (r: Result<
    (),
    AppError,
>)
    ensures
        refusal(r) == manage_refusal(*ctx, agent),
{
    if ctx.is_admin() {
        return Ok(());
    }
    if ctx.user_id.is_none() {
        return Err(forbidden("a user is required"));
    }
    match agent {
        None => Err(validation("agent not found")),
        Some(created_by) => {
            if ctx.is_owner(created_by) {
                Ok(())
            } else {
                Err(forbidden("only the agent's owner or an admin may manage it"))
            }
        },
    }
}

/// A tool of a server: the server, the tool, and the tools that the server has, where there
/// is such a server.
pub struct ServedTool {
    pub slug: String,
    pub tool: String,
    pub catalogue: Option<Vec<String>>,
}

/// What is known of a tool that an agent names.
pub enum ToolKind {
    /// It has the form of a server's tool, and names no server.
    Unsplit,
    Served(ServedTool),
    /// A tool of the platform itself.
    Native,
    /// A tool that somebody added.
    Custom,
    Unknown,
}

/// A tool that an agent names.
pub struct NamedTool {
    pub name: String,
    pub kind: ToolKind,
}

pub open spec fn tool_refusal(t: NamedTool) -> Option<Refusal> {
    match t.kind {
        ToolKind::Unsplit => None,
        ToolKind::Native => None,
        ToolKind::Custom => None,
        ToolKind::Unknown => Some(
            Refusal::Validation(
                "unknown tool '"@ + t.name@ + "' — not in the closed registry"@,
            ),
        ),
        ToolKind::Served(s) => match s.catalogue {
            None => Some(
                Refusal::Validation(
                    "unknown MCP server '"@ + s.slug@ + "' in tool grant '"@ + t.name@ + "'"@,
                ),
            ),
            Some(all) => if s.tool@ == "*"@ || texts(all@).contains(s.tool@) {
                None
            } else {
                Some(
                    Refusal::Validation(
                        "tool '"@ + s.tool@ + "' is not in MCP server '"@ + s.slug@
                            + "' catalogue (grant '"@ + t.name@ + "')"@,
                    ),
                )
            },
        },
    }
}

/// The refusal of the first tool that is refused.
pub open spec fn toolset_refusal(tools: Seq<NamedTool>) -> Option<Refusal>
    decreases tools.len(),
{
    if tools.len() == 0 {
        None
    } else if toolset_refusal(tools.drop_last()) is Some {
        toolset_refusal(tools.drop_last())
    } else {
        tool_refusal(tools.last())
    }
}

proof fn toolset_refusal_stays(tools: Seq<NamedTool>, i: int)
    requires
        0 <= i <= tools.len(),
        toolset_refusal(tools.take(i)) is Some,
    ensures
        toolset_refusal(tools) == toolset_refusal(tools.take(i)),
    decreases tools.len() - i,
{
    if i < tools.len() {
        assert(tools.take(i + 1).drop_last() == tools.take(i));
        toolset_refusal_stays(tools, i + 1);
    } else {
        assert(tools.take(i) == tools);
    }
}

fn check_tool(t: &NamedTool) -> (r: Result<(), AppError>)
    ensures
        refusal(r) == tool_refusal(*t),
{
    match &t.kind {
        ToolKind::Unsplit => Ok(()),
        ToolKind::Native => Ok(()),
        ToolKind::Custom => Ok(()),
        ToolKind::Unknown => Err(
            AppError::Validation(
                joined3("unknown tool '", t.name.as_str(), "' — not in the closed registry"),
            ),
        ),
        ToolKind::Served(s) => match &s.catalogue {
            None => {
                let mut m = joined3("unknown MCP server '", s.slug.as_str(), "' in tool grant '");
                m.append(t.name.as_str());
                m.append("'");
                Err(AppError::Validation(m))
            },
            Some(all) => {
                if same(s.tool.as_str(), "*") || listed(all, s.tool.as_str()) {
                    Ok(())
                } else {
                    let mut m = joined3("tool '", s.tool.as_str(), "' is not in MCP server '");
                    m.append(s.slug.as_str());
                    m.append("' catalogue (grant '");
                    m.append(t.name.as_str());
                    m.append("')");
                    Err(AppError::Validation(m))
                }
            },
        },
    }
}

/// Accepts the tools of an agent: each has to be one that can be granted. A name that means
/// nothing is refused when it is written, not passed over when it is used.
pub fn validate_toolset(tools: &Vec<NamedTool>) -> (r: Result<(), AppError>)
    ensures
        refusal(r) == toolset_refusal(tools@),
{
    let mut i: usize = 0;
    while i < tools.len()
        invariant
            i <= tools@.len(),
            toolset_refusal(tools@.take(i as int)) is None,
        decreases tools@.len() - i,
    {
        assert(tools@.take(i as int + 1).drop_last() == tools@.take(i as int));
        match check_tool(&tools[i]) {
            Ok(_) => {},
            Err(e) => {
                proof {
                    toolset_refusal_stays(tools@, i as int + 1);
                }
                return Err(e);
            },
        }
        i = i + 1;
    }
    assert(tools@.take(i as int) == tools@);
    Ok(())
}

/// A set of tools is accepted exactly when each of its tools is.
pub proof fn toolset_is_checked_tool_by_tool(tools: Seq<NamedTool>)
    ensures
        toolset_refusal(tools) is None <==> forall|i: int|
            0 <= i < tools.len() ==> tool_refusal(#[trigger] tools[i]) is None,
    decreases tools.len(),
{
    if tools.len() > 0 {
        let before = tools.drop_last();
        toolset_is_checked_tool_by_tool(before);
        assert forall|i: int| toolset_refusal(tools) is None && 0 <= i < tools.len() implies
            tool_refusal(#[trigger] tools[i]) is None by {
            if i < before.len() {
                assert(before[i] == tools[i]);
            }
        }
        if forall|i: int| 0 <= i < tools.len() ==> tool_refusal(#[trigger] tools[i]) is None {
            assert forall|i: int| 0 <= i < before.len() implies tool_refusal(
                #[trigger] before[i],
            ) is None by {
                assert(before[i] == tools[i]);
            }
            assert(tools.last() == tools[tools.len() - 1]);
        }
    }
}

pub open spec fn is_mode(m: Seq<char>) -> bool {
    m == "general"@ || m == "legal"@ || m == "research"@
}

/// The refusal of the first mode that there is none of.
pub open spec fn mode_refusal(modes: Seq<Seq<char>>) -> Option<Refusal>
    decreases modes.len(),
{
    if modes.len() == 0 {
        None
    } else if is_mode(modes[0]) {
        mode_refusal(modes.skip(1))
    } else {
        Some(
            Refusal::Validation(
                "mode must be one of general/legal/research (got '"@ + modes[0] + "')"@,
            ),
        )
    }
}

pub open spec fn modes_refusal(modes: Seq<Seq<char>>) -> Option<Refusal> {
    if modes.len() == 0 {
        Some(Refusal::Validation("an agent must be available in at least one workmode"@))
    } else {
        mode_refusal(modes)
    }
}

/// An agent is available in one or more of the modes of working.
pub fn validate_modes(modes: &Vec<String>) -> (r: Result<(), AppError>)
    ensures
        refusal(r) == modes_refusal(texts(modes@)),
{
    let n: usize = modes.len();
    assert(texts(modes@).len() == n);
    if n == 0 {
        return Err(validation("an agent must be available in at least one workmode"));
    }
    let mut i: usize = 0;
    assert(texts(modes@).skip(0) == texts(modes@));
    while i < n
        invariant
            n == modes@.len(),
            0 < n,
            i <= n,
            mode_refusal(texts(modes@)) == mode_refusal(texts(modes@).skip(i as int)),
        decreases n - i,
    {
        let m = modes[i].as_str();
        assert(texts(modes@).skip(i as int)[0] == m@);
        assert(texts(modes@).skip(i as int).skip(1) == texts(modes@).skip(i as int + 1));
        if !same(m, "general") && !same(m, "legal") && !same(m, "research") {
            return Err(
                AppError::Validation(
                    joined3("mode must be one of general/legal/research (got '", m, "')"),
                ),
            );
        }
        i = i + 1;
    }
    Ok(())
}

pub struct CreateAgent {
    pub name: String,
    pub description: Option<String>,
    pub system_prompt: String,
    pub params: Option<serde_json::Value>,
    pub tools: Vec<String>,
    pub project_knowledge_ids: Vec<Id>,
    pub sector: Option<String>,
    pub modes: Vec<String>,
}

pub struct CreatedId {
    pub id: Id,
}

/// What an agent is made of.
pub struct Agent {
    pub name: String,
    pub description: Option<String>,
    pub system_prompt: String,
    pub params: serde_json::Value,
    pub sector: Option<String>,
    pub modes: Vec<String>,
    pub tools: Vec<String>,
    pub project_knowledge_ids: Vec<Id>,
}

/// An agent that is to be stored, and who made it.
pub struct NewAgent {
    pub created_by: Id,
    pub agent: Agent,
}

pub open spec fn creation_refusal(
    ctx: AuthContext,
    tools: Seq<NamedTool>,
    modes: Seq<Seq<char>>,
) -> Option<Refusal> {
    if ctx.user_id is None {
        Some(Refusal::Forbidden("a user is required"@))
    } else if toolset_refusal(tools) is Some {
        toolset_refusal(tools)
    } else {
        modes_refusal(modes)
    }
}

/// Makes an agent, which belongs to its maker. `known` is what is known of the tools that the
/// body names.
pub fn create_agent(ctx: &AuthContext, body: CreateAgent, known: &Vec<NamedTool>) -> (r: Result<
    NewAgent,
    AppError,
>)
    ensures
        refusal(r) == creation_refusal(*ctx, known@, texts(body.modes@)),
        r matches Ok(n) ==> {
            &&& ctx.user_id == Some(n.created_by)
            &&& n.agent.name == body.name
            &&& n.agent.description == body.description
            &&& n.agent.system_prompt == body.system_prompt
            &&& n.agent.sector == body.sector
            &&& n.agent.modes == body.modes
            &&& n.agent.tools == body.tools
            &&& n.agent.project_knowledge_ids == body.project_knowledge_ids
            &&& match body.params {
                Some(p) => n.agent.params == p,
                None => json_in(n.agent.params) == Json::Object(Map::empty()),
            }
        },
{
    let me = match ctx.user_id {
        Some(id) => id,
        None => {
            return Err(forbidden("a user is required"));
        },
    };
    match validate_toolset(known) {
        Ok(_) => {},
        Err(e) => {
            return Err(e);
        },
    }
    match validate_modes(&body.modes) {
        Ok(_) => {},
        Err(e) => {
            return Err(e);
        },
    }
    let params = match body.params {
        Some(p) => p,
        None => empty_object(),
    };
    Ok(
        NewAgent {
            created_by: me,
            agent: Agent {
                name: body.name,
                description: body.description,
                system_prompt: body.system_prompt,
                params,
                sector: body.sector,
                modes: body.modes,
                tools: body.tools,
                project_knowledge_ids: body.project_knowledge_ids,
            },
        },
    )
}

/// Whoever made an agent manages it.
pub proof fn makers_manage(ctx: AuthContext, created_by: Id)
    requires
        ctx.is(created_by),
    ensures
        manage_refusal(ctx, Some(Some(created_by))) is None,
{
}

/// The caller sees an agent: it came with the platform, it is the caller's own, or the caller
/// administers the platform.
pub open spec fn sees_agent(ctx: AuthContext, created_by: Option<Id>) -> bool {
    ctx.admin || created_by is None || ctx.owns(created_by)
}

pub fn is_visible(ctx: &AuthContext, created_by: Option<Id>) -> (r: bool)
    ensures
        r == sees_agent(*ctx, created_by),
{
    ctx.is_admin() || created_by.is_none() || ctx.is_owner(created_by)
}

/// Whether the caller is shown the means to manage an agent.
pub open spec fn manages(ctx: AuthContext, created_by: Option<Id>) -> bool {
    ctx.admin || ctx.owns(created_by)
}

pub fn can_manage(ctx: &AuthContext, created_by: Option<Id>) -> (r: bool)
    ensures
        r == manages(*ctx, created_by),
{
    ctx.is_admin() || ctx.is_owner(created_by)
}

/// Whoever is shown the means to manage an agent sees it and may use them, and nobody else
/// may.
pub proof fn managing_is_shown_to_those_who_may(ctx: AuthContext, created_by: Option<Id>)
    ensures
        manages(ctx, created_by) <==> manage_refusal(ctx, Some(created_by)) is None,
        manages(ctx, created_by) ==> sees_agent(ctx, created_by),
{
}

/// A stored agent.
pub struct AgentRow {
    pub id: Id,
    pub created_by: Option<Id>,
    pub agent: Agent,
}

pub struct AgentSummary {
    pub id: Id,
    pub name: String,
    pub description: Option<String>,
    pub tools: Vec<String>,
    pub sector: Option<String>,
    pub modes: Vec<String>,
    pub can_manage: bool,
}

/// The agents that the caller sees, in their order.
pub open spec fn seen_agents(ctx: AuthContext, rows: Seq<AgentRow>) -> Seq<AgentRow>
    decreases rows.len(),
{
    if rows.len() == 0 {
        Seq::empty()
    } else {
        let before = seen_agents(ctx, rows.drop_last());
        if sees_agent(ctx, rows.last().created_by) {
            before.push(rows.last())
        } else {
            before
        }
    }
}

pub open spec fn summarises(ctx: AuthContext, row: AgentRow, s: AgentSummary) -> bool {
    &&& s.id == row.id
    &&& s.name == row.agent.name
    &&& s.description == row.agent.description
    &&& s.tools == row.agent.tools
    &&& s.sector == row.agent.sector
    &&& s.modes == row.agent.modes
    &&& s.can_manage == manages(ctx, row.created_by)
}

/// The agents that the caller sees, the newest first.
pub fn list_agents(ctx: &AuthContext, rows: Vec<Dated<AgentRow>>) -> (r: Vec<AgentSummary>)
    ensures
        r@.len() == seen_agents(*ctx, newest_first(rows@)).len(),
        forall|i: int|
            0 <= i < r@.len() ==> summarises(*ctx, seen_agents(*ctx, newest_first(rows@))[i], #[trigger] r@[i]),
{
    let rows = by_time(rows);
    let n: usize = rows.len();
    let mut rest = rows;
    let mut out: Vec<AgentSummary> = Vec::new();
    let mut i: usize = 0;
    assert(rows@.take(0) == Seq::<AgentRow>::empty());
    while i < n
        invariant
            n == rows@.len(),
            i <= n,
            rest@ == rows@.skip(i as int),
            out@.len() == seen_agents(*ctx, rows@.take(i as int)).len(),
            forall|k: int|
                0 <= k < out@.len() ==> summarises(
                    *ctx,
                    seen_agents(*ctx, rows@.take(i as int))[k],
                    #[trigger] out@[k],
                ),
        decreases n - i,
    {
        let row = rest.remove(0);
        assert(row == rows@[i as int]);
        assert(rest@ =~= rows@.skip(i as int + 1));
        assert(rows@.take(i as int + 1).drop_last() == rows@.take(i as int));
        if is_visible(ctx, row.created_by) {
            out.push(
                AgentSummary {
                    id: row.id,
                    name: row.agent.name,
                    description: row.agent.description,
                    tools: row.agent.tools,
                    sector: row.agent.sector,
                    modes: row.agent.modes,
                    can_manage: can_manage(ctx, row.created_by),
                },
            );
        }
        i = i + 1;
    }
    assert(rows@.take(n as int) == rows@);
    out
}

pub struct SkillRef {
    pub id: Id,
    pub name: String,
}

pub struct AgentDetail {
    pub id: Id,
    pub agent: Agent,
    pub skills: Vec<SkillRef>,
    pub can_manage: bool,
}

/// Everything about one agent, for anybody who is signed in.
pub fn get_agent(ctx: &AuthContext, row: Option<AgentRow>, skills: Vec<SkillRef>) -> (r: Result<
    AgentDetail,
    AppError,
>)
    ensures
        match (r, row) {
            (Ok(d), Some(row)) => {
                &&& d.id == row.id
                &&& d.agent == row.agent
                &&& d.skills == skills
                &&& d.can_manage == manages(*ctx, row.created_by)
            },
            (Err(e), None) => e@ == Refusal::Validation("agent not found"@),
            _ => false,
        },
{
    match row {
        Some(row) => Ok(
            AgentDetail {
                id: row.id,
                can_manage: can_manage(ctx, row.created_by),
                agent: row.agent,
                skills,
            },
        ),
        None => Err(validation("agent not found")),
    }
}

pub struct UpdateAgent {
    pub name: Option<String>,
    pub description: Option<String>,
    pub system_prompt: Option<String>,
    pub params: Option<serde_json::Value>,
    pub tools: Option<Vec<String>>,
    pub project_knowledge_ids: Option<Vec<Id>>,
    pub sector: Option<String>,
    pub modes: Option<Vec<String>>,
}

pub open spec fn update_refusal(
    ctx: AuthContext,
    row: Option<AgentRow>,
    body: UpdateAgent,
    known: Seq<NamedTool>,
) -> Option<Refusal> {
    let created_by = match row {
        Some(row) => Some(row.created_by),
        None => None,
    };
    if manage_refusal(ctx, created_by) is Some {
        manage_refusal(ctx, created_by)
    } else if body.tools is Some && toolset_refusal(known) is Some {
        toolset_refusal(known)
    } else if body.modes is Some && modes_refusal(texts(body.modes->0@)) is Some {
        modes_refusal(texts(body.modes->0@))
    } else if row is None {
        Some(Refusal::Validation("agent not found"@))
    } else {
        None
    }
}

/// What was there, or what replaces it.
pub open spec fn replaced<T>(was: T, by: Option<T>) -> T {
    match by {
        Some(v) => v,
        None => was,
    }
}

pub(crate) fn replace<T>(was: T, by: Option<T>) -> (r: T)
    ensures
        r == replaced(was, by),
{
    match by {
        Some(v) => v,
        None => was,
    }
}

/// An agent after a change: what is not given stays, and a list that is given replaces the
/// whole list. `known` is what is known of the tools that the body names.
pub fn update_agent(
    ctx: &AuthContext,
    row: Option<AgentRow>,
    body: UpdateAgent,
    known: &Vec<NamedTool>,
) -> (r: Result<Agent, AppError>)
    ensures
        refusal(r) == update_refusal(*ctx, row, body, known@),
        r matches Ok(a) ==> row matches Some(row) && {
            &&& a.name == replaced(row.agent.name, body.name)
            &&& a.description == (match body.description {
                Some(d) => Some(d),
                None => row.agent.description,
            })
            &&& a.system_prompt == replaced(row.agent.system_prompt, body.system_prompt)
            &&& a.params == replaced(row.agent.params, body.params)
            &&& a.sector == (match body.sector {
                Some(d) => Some(d),
                None => row.agent.sector,
            })
            &&& a.modes == replaced(row.agent.modes, body.modes)
            &&& a.tools == replaced(row.agent.tools, body.tools)
            &&& a.project_knowledge_ids == replaced(
                row.agent.project_knowledge_ids,
                body.project_knowledge_ids,
            )
        },
{
    let made_by = match &row {
        Some(row) => Some(row.created_by),
        None => None,
    };
    match require_manage_agent(ctx, made_by) {
        Ok(_) => {},
        Err(e) => {
            return Err(e);
        },
    }
    if body.tools.is_some() {
        match validate_toolset(known) {
            Ok(_) => {},
            Err(e) => {
                return Err(e);
            },
        }
    }
    match &body.modes {
        Some(modes) => match validate_modes(modes) {
            Ok(_) => {},
            Err(e) => {
                return Err(e);
            },
        },
        None => {},
    }
    let agent = match row {
        Some(row) => row.agent,
        None => {
            return Err(validation("agent not found"));
        },
    };
    Ok(
        Agent {
            name: replace(agent.name, body.name),
            description: match body.description {
                Some(d) => Some(d),
                None => agent.description,
            },
            system_prompt: replace(agent.system_prompt, body.system_prompt),
            params: replace(agent.params, body.params),
            sector: match body.sector {
                Some(s) => Some(s),
                None => agent.sector,
            },
            modes: replace(agent.modes, body.modes),
            tools: replace(agent.tools, body.tools),
            project_knowledge_ids: replace(
                agent.project_knowledge_ids,
                body.project_knowledge_ids,
            ),
        },
    )
}

/// Archives an agent, which has to be there still.
pub fn delete_agent(ctx: &AuthContext, agent: Option<Option<Id>>) -> (r: Result<(), AppError>)
    ensures
        refusal(r) == (if manage_refusal(*ctx, agent) is Some {
            manage_refusal(*ctx, agent)
        } else if agent is None {
            Some(Refusal::Validation("agent not found"@))
        } else {
            None
        }),
{
    match require_manage_agent(ctx, agent) {
        Ok(_) => {},
        Err(e) => {
            return Err(e);
        },
    }
    if agent.is_none() {
        return Err(validation("agent not found"));
    }
    Ok(())
}

/// The configuration of an agent as it was once saved.
pub struct AgentVersion {
    pub version_number: i32,
    pub source: String,
    pub name: String,
    pub description: Option<String>,
    pub system_prompt: String,
    pub params: serde_json::Value,
    pub tools: serde_json::Value,
    pub project_knowledge_ids: serde_json::Value,
    pub created_by: Option<Id>,
}

/// The number of the next version: versions are numbered from one.
pub open spec fn next_version(latest: Option<i32>) -> int {
    match latest {
        Some(n) => n + 1,
        None => 1,
    }
}

/// The texts of identifiers, in their order.
pub open spec fn id_texts(ids: Seq<Id>) -> Seq<Seq<char>> {
    ids.map_values(|id: Id| id_text(id))
}

pub(crate) fn write_ids(ids: &Vec<Id>) -> (r: Vec<String>)
    ensures
        texts(r@) == id_texts(ids@),
{
    let mut out: Vec<String> = Vec::new();
    let mut i: usize = 0;
    while i < ids.len()
        invariant
            i <= ids@.len(),
            out@.len() == i,
            forall|k: int| 0 <= k < i ==> (#[trigger] out@[k])@ == id_text(ids@[k]),
        decreases ids@.len() - i,
    {
        out.push(id_to_text(ids[i]));
        i = i + 1;
    }
    assert(texts(out@) =~= id_texts(ids@));
    out
}

/// A version holds an agent as it was when the version was taken.
pub open spec fn snapshots(
    v: AgentVersion,
    number: int,
    agent: Agent,
    source: Seq<char>,
    created_by: Option<Id>,
) -> bool {
    &&& v.version_number == number
    &&& v.source@ == source
    &&& v.name@ == agent.name@
    &&& opt_text(v.description) == opt_text(agent.description)
    &&& v.system_prompt@ == agent.system_prompt@
    &&& json_in(v.params) == json_in(agent.params)
    &&& json_in(v.tools) == text_list(texts(agent.tools@))
    &&& json_in(v.project_knowledge_ids) == text_list(id_texts(agent.project_knowledge_ids@))
    &&& v.created_by == created_by
}

/// An agent as it is now, as the next version in its history.
pub fn snapshot_version(
    latest: Option<i32>,
    agent: &Agent,
    source: &str,
    created_by: Option<Id>,
) -> (r: AgentVersion)
    requires
        next_version(latest) <= i32::MAX,
    ensures
        snapshots(r, next_version(latest), *agent, source@, created_by),
{
    let number: i32 = match latest {
        Some(n) => n + 1,
        None => 1,
    };
    let ids = write_ids(&agent.project_knowledge_ids);
    AgentVersion {
        version_number: number,
        source: source.to_owned(),
        name: agent.name.clone(),
        description: clone_text(&agent.description),
        system_prompt: agent.system_prompt.clone(),
        params: copy_value(&agent.params),
        tools: strings_value(&agent.tools),
        project_knowledge_ids: strings_value(&ids),
        created_by,
    }
}

pub struct AgentVersionSummary {
    pub version_number: i32,
    pub source: String,
    pub created_at: String,
    pub created_by: Option<Id>,
}

/// One line of an agent's history.
pub fn version_summary(v: AgentVersion, created_at: Instant) -> (r: AgentVersionSummary)
    ensures
        r.version_number == v.version_number,
        r.source == v.source,
        r.created_at@ == shown(created_at),
        r.created_by == v.created_by,
{
    AgentVersionSummary {
        version_number: v.version_number,
        source: v.source,
        created_at: show(created_at),
        created_by: v.created_by,
    }
}

pub struct AgentVersionDetail {
    pub version: AgentVersion,
    pub created_at: String,
}

/// The versions, without when they were taken.
pub open spec fn versions_in(rows: Seq<(AgentVersion, Instant)>) -> Seq<AgentVersion> {
    rows.map_values(|x: (AgentVersion, Instant)| x.0)
}

/// The version of an agent with that number, in full. `rows` are the versions of the agent, each
/// with when it was taken.
pub fn get_agent_version(rows: Vec<(AgentVersion, Instant)>, number: i32) -> (r: Result<
    AgentVersionDetail,
    AppError,
>)
    ensures
        refusal(r) == (if version_at(versions_in(rows@), number) is None {
            Some(Refusal::Validation("agent version not found"@))
        } else {
            None
        }),
        r matches Ok(d) ==> version_at(versions_in(rows@), number) == Some(d.version) && exists|i: int|
            0 <= i < rows@.len() && (#[trigger] rows@[i]).0 == d.version && d.created_at@ == shown(
                rows@[i].1,
            ),
{
    let ghost all = versions_in(rows@);
    let mut found: Option<usize> = None;
    let mut i: usize = 0;
    assert(all.take(0) == Seq::<AgentVersion>::empty());
    while i < rows.len()
        invariant
            i <= rows@.len(),
            all == versions_in(rows@),
            match found {
                Some(k) => k < i && version_at(all.take(i as int), number) == Some(all[k as int]),
                None => version_at(all.take(i as int), number) is None,
            },
        decreases rows@.len() - i,
    {
        assert(all.take(i as int + 1).drop_last() == all.take(i as int));
        if found.is_none() && rows[i].0.version_number == number {
            found = Some(i);
        }
        i = i + 1;
    }
    assert(all.take(i as int) == all);
    match found {
        Some(k) => {
            let mut rest = rows;
            let (version, created_at) = rest.remove(k);
            assert(rows@[k as int].0 == version);
            Ok(AgentVersionDetail { version, created_at: show(created_at) })
        },
        None => Err(validation("agent version not found")),
    }
}

/// The texts that a stored list holds: none where it is no list of texts.
pub open spec fn stored_texts(j: Json) -> Seq<Seq<char>> {
    match items_at(j) {
        Some(l) => if only_strings(l) {
            l.map_values(|o: Option<Seq<char>>| o->0)
        } else {
            Seq::empty()
        },
        None => Seq::empty(),
    }
}

fn read_texts(v: &serde_json::Value) -> (r: Vec<String>)
    ensures
        texts(r@) == stored_texts(json_in(*v)),
{
    match read_strings(v) {
        Some(l) => {
            proof {
                text_list_reads_back(texts(l@));
            }
            l
        },
        None => {
            let none: Vec<String> = Vec::new();
            assert(texts(none@) =~= Seq::<Seq<char>>::empty());
            none
        },
    }
}

/// A list of texts reads back as the texts that it holds.
pub proof fn text_list_reads_back(s: Seq<Seq<char>>)
    ensures
        stored_texts(text_list(s)) == s,
{
    let items = items_at(text_list(s))->0;
    assert forall|i: int| 0 <= i < items.len() implies #[trigger] items[i] == Some(s[i]) by {}
    assert(only_strings(items));
    assert(items.map_values(|o: Option<Seq<char>>| o->0) =~= s);
}

/// What a version says an agent is made of. Its sector and modes are not part of the history.
pub struct Restored {
    pub name: String,
    pub description: Option<String>,
    pub system_prompt: String,
    pub params: serde_json::Value,
    pub tools: Vec<String>,
    pub project_knowledge_ids: Vec<Id>,
}

pub open spec fn restores(v: AgentVersion, a: Restored) -> bool {
    &&& a.name@ == v.name@
    &&& opt_text(a.description) == opt_text(v.description)
    &&& a.system_prompt@ == v.system_prompt@
    &&& json_in(a.params) == json_in(v.params)
    &&& texts(a.tools@) == stored_texts(json_in(v.tools))
    &&& a.project_knowledge_ids@ == ids_among(stored_texts(json_in(v.project_knowledge_ids)))
}

/// The version of that number, the first where there are several.
pub open spec fn version_at(versions: Seq<AgentVersion>, number: i32) -> Option<AgentVersion>
    decreases versions.len(),
{
    if versions.len() == 0 {
        None
    } else if version_at(versions.drop_last(), number) is Some {
        version_at(versions.drop_last(), number)
    } else if versions.last().version_number == number {
        Some(versions.last())
    } else {
        None
    }
}

fn find_version(versions: &Vec<AgentVersion>, number: i32) -> (r: Option<usize>)
    ensures
        match r {
            Some(i) => i < versions@.len() && version_at(versions@, number) == Some(
                versions@[i as int],
            ),
            None => version_at(versions@, number) is None,
        },
{
    let mut found: Option<usize> = None;
    let mut i: usize = 0;
    assert(versions@.take(0) == Seq::<AgentVersion>::empty());
    while i < versions.len()
        invariant
            i <= versions@.len(),
            match found {
                Some(k) => k < i && version_at(versions@.take(i as int), number) == Some(
                    versions@[k as int],
                ),
                None => version_at(versions@.take(i as int), number) is None,
            },
        decreases versions@.len() - i,
    {
        assert(versions@.take(i as int + 1).drop_last() == versions@.take(i as int));
        if found.is_none() && versions[i].version_number == number {
            found = Some(i);
        }
        i = i + 1;
    }
    assert(versions@.take(versions@.len() as int) == versions@);
    found
}

/// The highest number of a version.
pub open spec fn latest_version(versions: Seq<AgentVersion>) -> Option<i32>
    decreases versions.len(),
{
    if versions.len() == 0 {
        None
    } else {
        match latest_version(versions.drop_last()) {
            Some(n) => if versions.last().version_number > n {
                Some(versions.last().version_number)
            } else {
                Some(n)
            },
            None => Some(versions.last().version_number),
        }
    }
}

fn find_latest(versions: &Vec<AgentVersion>) -> (r: Option<i32>)
    ensures
        r == latest_version(versions@),
{
    let mut best: Option<i32> = None;
    let mut i: usize = 0;
    assert(versions@.take(0) == Seq::<AgentVersion>::empty());
    while i < versions.len()
        invariant
            i <= versions@.len(),
            best == latest_version(versions@.take(i as int)),
        decreases versions@.len() - i,
    {
        assert(versions@.take(i as int + 1).drop_last() == versions@.take(i as int));
        let number: i32 = versions[i].version_number;
        best = match best {
            Some(n) => if number > n {
                Some(number)
            } else {
                Some(n)
            },
            None => Some(number),
        };
        i = i + 1;
    }
    assert(versions@.take(versions@.len() as int) == versions@);
    best
}

proof fn latest_is_highest(versions: Seq<AgentVersion>, i: int)
    requires
        0 <= i < versions.len(),
    ensures
        latest_version(versions) matches Some(n) && versions[i].version_number <= n,
    decreases versions.len(),
{
    if i < versions.len() - 1 {
        latest_is_highest(versions.drop_last(), i);
    }
}

proof fn version_at_is_there(versions: Seq<AgentVersion>, number: i32)
    ensures
        version_at(versions, number) matches Some(v) ==> v.version_number == number && exists|i: int|
            0 <= i < versions.len() && #[trigger] versions[i] == v,
    decreases versions.len(),
{
    if versions.len() > 0 {
        version_at_is_there(versions.drop_last(), number);
        if version_at(versions.drop_last(), number) is Some {
            let v = version_at(versions, number)->0;
            let i = choose|i: int|
                0 <= i < versions.drop_last().len() && #[trigger] versions.drop_last()[i] == v;
            assert(versions[i] == v);
        } else if versions.last().version_number == number {
            assert(versions[versions.len() - 1] == versions.last());
        }
    }
}

pub open spec fn version_refusal(
    ctx: AuthContext,
    agent: Option<Option<Id>>,
    version: Option<AgentVersion>,
) -> Option<Refusal> {
    if manage_refusal(ctx, agent) is Some {
        manage_refusal(ctx, agent)
    } else if version is None {
        Some(Refusal::Validation("agent version not found"@))
    } else {
        None
    }
}

/// What the version of that number says an agent is to go back to. `versions` are those of the
/// agent.
pub fn version_to_restore(
    ctx: &AuthContext,
    agent: Option<Option<Id>>,
    versions: &Vec<AgentVersion>,
    number: i32,
) -> (r: Result<Restored, AppError>)
    ensures
        refusal(r) == version_refusal(*ctx, agent, version_at(versions@, number)),
        r matches Ok(a) ==> version_at(versions@, number) matches Some(v) && restores(v, a),
{
    match require_manage_agent(ctx, agent) {
        Ok(_) => {},
        Err(e) => {
            return Err(e);
        },
    }
    match find_version(versions, number) {
        None => Err(validation("agent version not found")),
        Some(i) => {
            let v = &versions[i];
            let tools = read_texts(&v.tools);
            let ids = read_texts(&v.project_knowledge_ids);
            Ok(
                Restored {
                    name: v.name.clone(),
                    description: clone_text(&v.description),
                    system_prompt: v.system_prompt.clone(),
                    params: copy_value(&v.params),
                    tools,
                    project_knowledge_ids: read_ids(&ids),
                },
            )
        },
    }
}

/// An agent, where it is there and not archived, and the versions that were taken of it.
pub struct AgentHistory {
    pub agent: Option<Agent>,
    pub versions: Vec<AgentVersion>,
}

pub open spec fn rollback_refusal(known: Seq<NamedTool>, agent_there: bool) -> Option<Refusal> {
    if toolset_refusal(known) is Some {
        toolset_refusal(known)
    } else if !agent_there {
        Some(Refusal::Validation("agent not found"@))
    } else {
        None
    }
}

/// The agent is what a version says of it, and in all else what it was; and that it is so is one
/// more version, behind those there were.
pub open spec fn rolled_back(
    before: AgentHistory,
    after: AgentHistory,
    version: Restored,
    number: int,
    by: Option<Id>,
) -> bool {
    &&& number == next_version(latest_version(before.versions@))
    &&& after.versions@.len() == before.versions@.len() + 1
    &&& after.versions@.drop_last() == before.versions@
    &&& before.agent matches Some(was) && after.agent matches Some(a) && {
        &&& a.name == version.name
        &&& a.description == version.description
        &&& a.system_prompt == version.system_prompt
        &&& a.params == version.params
        &&& a.tools == version.tools
        &&& a.project_knowledge_ids == version.project_knowledge_ids
        &&& a.sector == was.sector
        &&& a.modes == was.modes
        &&& snapshots(after.versions@.last(), number, a, "rollback"@, by)
    }
}

/// Puts an agent back to a version, and keeps that as a version of its own: the number of the
/// new one. The tools of the version are checked again, so that going back brings in no tool
/// that can no longer be granted. Where that is refused nothing changes.
pub fn rollback_agent_version(
    h: &mut AgentHistory,
    version: Restored,
    known: &Vec<NamedTool>,
    by: Option<Id>,
) -> (r: Result<i32, AppError>)
    requires
        next_version(latest_version(old(h).versions@)) <= i32::MAX,
    ensures
        refusal(r) == rollback_refusal(known@, old(h).agent is Some),
        r is Err ==> *final(h) == *old(h),
        r matches Ok(number) ==> rolled_back(*old(h), *final(h), version, number as int, by),
{
    match validate_toolset(known) {
        Ok(_) => {},
        Err(e) => {
            return Err(e);
        },
    }
    if h.agent.is_none() {
        return Err(validation("agent not found"));
    }
    let was = h.agent.take().unwrap();
    let agent = Agent {
        name: version.name,
        description: version.description,
        system_prompt: version.system_prompt,
        params: version.params,
        sector: was.sector,
        modes: was.modes,
        tools: version.tools,
        project_knowledge_ids: version.project_knowledge_ids,
    };
    let ghost before = h.versions@;
    let v = snapshot_version(find_latest(&h.versions), &agent, "rollback", by);
    let number: i32 = v.version_number;
    h.agent = Some(agent);
    h.versions.push(v);
    assert(h.versions@.drop_last() =~= before);
    Ok(number)
}

proof fn written_ids_read_back(ids: Seq<Id>)
    ensures
        ids_among(id_texts(ids)) == ids,
    decreases ids.len(),
{
    if ids.len() > 0 {
        written_ids_read_back(ids.drop_last());
        assert(id_texts(ids).drop_last() =~= id_texts(ids.drop_last()));
        id_text_reads_back(ids.last());
        assert(ids.drop_last().push(ids.last()) =~= ids);
    } else {
        assert(ids_among(id_texts(ids)) =~= ids);
    }
}

/// Going back to a version gives an agent exactly the prompt, the parameters, the tools and
/// the knowledge that it had when the version was taken.
pub proof fn restoring_undoes_later_changes(
    agent: Agent,
    v: AgentVersion,
    number: int,
    source: Seq<char>,
    by: Option<Id>,
    a: Restored,
)
    requires
        snapshots(v, number, agent, source, by),
        restores(v, a),
    ensures
        a.name@ == agent.name@,
        opt_text(a.description) == opt_text(agent.description),
        a.system_prompt@ == agent.system_prompt@,
        json_in(a.params) == json_in(agent.params),
        texts(a.tools@) == texts(agent.tools@),
        a.project_knowledge_ids@ == agent.project_knowledge_ids@,
{
    text_list_reads_back(texts(agent.tools@));
    text_list_reads_back(id_texts(agent.project_knowledge_ids@));
    written_ids_read_back(agent.project_knowledge_ids@);
}

/// After an agent went back to a version, it is shown with the name, the description, the
/// prompt, the parameters, the tools and the knowledge of that version, and with the sector and
/// the modes it had. What it went back to is the version that counts one more than the highest
/// there was; it agrees with the one that was gone back to, says that it comes from going back,
/// and no version that was there before is any different.
pub proof fn going_back_is_a_version_of_its_own(
    before: AgentHistory,
    after: AgentHistory,
    vnum: i32,
    restored: Restored,
    number: i32,
    by: Option<Id>,
    shown: AgentDetail,
    other: i32,
)
    requires
        version_at(before.versions@, vnum) is Some,
        restores(version_at(before.versions@, vnum)->0, restored),
        rolled_back(before, after, restored, number as int, by),
        after.agent == Some(shown.agent),
    ensures
        ({
            let v = version_at(before.versions@, vnum)->0;
            let n = version_at(after.versions@, number)->0;
            let tools = stored_texts(json_in(v.tools));
            let ids = ids_among(stored_texts(json_in(v.project_knowledge_ids)));
            &&& shown.agent.name@ == v.name@
            &&& opt_text(shown.agent.description) == opt_text(v.description)
            &&& shown.agent.system_prompt@ == v.system_prompt@
            &&& json_in(shown.agent.params) == json_in(v.params)
            &&& texts(shown.agent.tools@).to_set() == tools.to_set()
            &&& shown.agent.project_knowledge_ids@.to_set() == ids.to_set()
            &&& before.agent matches Some(was) && shown.agent.sector == was.sector
                && shown.agent.modes == was.modes
            &&& number == next_version(latest_version(before.versions@))
            &&& version_at(before.versions@, number) is None
            &&& version_at(after.versions@, number) is Some
            &&& n.version_number == number
            &&& n.source@ == "rollback"@
            &&& n.name@ == v.name@
            &&& opt_text(n.description) == opt_text(v.description)
            &&& n.system_prompt@ == v.system_prompt@
            &&& json_in(n.params) == json_in(v.params)
            &&& stored_texts(json_in(n.tools)) == tools
            &&& ids_among(stored_texts(json_in(n.project_knowledge_ids))) == ids
            &&& other != number ==> version_at(after.versions@, other) == version_at(
                before.versions@,
                other,
            )
        }),
{
    let agent = shown.agent;
    text_list_reads_back(texts(agent.tools@));
    text_list_reads_back(id_texts(agent.project_knowledge_ids@));
    written_ids_read_back(agent.project_knowledge_ids@);
    version_at_is_there(before.versions@, number);
    if version_at(before.versions@, number) is Some {
        let v = version_at(before.versions@, number)->0;
        let i = choose|i: int|
            0 <= i < before.versions@.len() && #[trigger] before.versions@[i] == v;
        latest_is_highest(before.versions@, i);
    }
}

/// Every version has a number of its own, above those before it.
pub proof fn versions_are_numbered_upwards(latest: Option<i32>)
    ensures
        latest matches Some(n) ==> next_version(latest) > n,
        latest is None ==> next_version(latest) == 1,
{
}

/// What is written down of a change to an agent.
pub fn audit_agent(ctx: &AuthContext, action: &str, agent_id: Id) -> (e: AuditEvent)
    ensures
        e@ == entry_by(*ctx, action@, "agent"@, agent_id),
{
    record_by(ctx, action, "agent", agent_id)
}

/// What is written down of an agent that was put back to an earlier version.
pub open spec fn rolled_back_doc(restored_from: i32, new_version: i32) -> Json {
    Json::Object(
        Map::empty().insert("restored_from"@, Json::Number(restored_from as int)).insert(
            "new_version"@,
            Json::Number(new_version as int),
        ),
    )
}

pub fn rolled_back_event(ctx: &AuthContext, id: Id, restored_from: i32, new_version: i32) -> (e:
    AuditEvent)
    ensures
        e@ == entry_by(*ctx, "agent.rolled_back"@, "agent"@, id).noting(
            rolled_back_doc(restored_from, new_version),
        ),
{
    let mut doc = empty_object();
    put(&mut doc, "restored_from", number_value(restored_from as i64));
    put(&mut doc, "new_version", number_value(new_version as i64));
    note(record_by(ctx, "agent.rolled_back", "agent", id), doc)
}

pub open spec fn version_shown(v: AgentVersion, at: Instant, r: AgentVersionSummary) -> bool {
    &&& r.version_number == v.version_number
    &&& r.source == v.source
    &&& r.created_at@ == shown(at)
    &&& r.created_by == v.created_by
}

impl Ranked for (AgentVersion, Instant) {
    /// The versions with the highest numbers come first.
    open spec fn rank(self) -> (int, int) {
        (self.0.version_number as int, 0)
    }

    fn outranks(&self, other: &(AgentVersion, Instant)) -> (r: bool) {
        self.0.version_number > other.0.version_number
    }
}

/// An agent's history, line by line.
pub fn list_agent_versions(rows: Vec<(AgentVersion, Instant)>) -> (r: Vec<AgentVersionSummary>)
    ensures
        r@.len() == highest_first(rows@).len(),
        forall|i: int|
            0 <= i < r@.len() ==> version_shown(highest_first(rows@)[i].0, highest_first(rows@)[i].1, #[trigger] r@[i]),
{
    let rows = rank_list(rows);
    let n: usize = rows.len();
    let mut rest = rows;
    let mut out: Vec<AgentVersionSummary> = Vec::new();
    let mut i: usize = 0;
    while i < n
        invariant
            n == rows@.len(),
            i <= n,
            rest@ == rows@.skip(i as int),
            out@.len() == i,
            forall|k: int|
                0 <= k < i ==> version_shown(rows@[k].0, rows@[k].1, #[trigger] out@[k]),
        decreases n - i,
    {
        let row = rest.remove(0);
        assert(row == rows@[i as int]);
        assert(rest@ =~= rows@.skip(i as int + 1));
        out.push(version_summary(row.0, row.1));
        i = i + 1;
    }
    out
}

/// The caller sees the agents that came with the platform and the caller's own; an administrator
/// sees all.
pub proof fn agents_are_seen_by_their_makers(ctx: AuthContext, s: Seq<AgentRow>)
    ensures
        seen_agents(ctx, s)
            == s.filter(
                |x: AgentRow| ctx.admin
                    || x.created_by is None
                    || (x.created_by is Some && ctx.user_id == x.created_by)
            ),
        forall|x: AgentRow|
            #[trigger] seen_agents(ctx, s).contains(x)
                <==> s.contains(x)
                    && (
                        ctx.admin
                            || x.created_by is None
                            || (x.created_by is Some && ctx.user_id == x.created_by)
                    ),
    decreases s.len(),
{
    let p = |x: AgentRow| ctx.admin
            || x.created_by is None
            || (x.created_by is Some && ctx.user_id == x.created_by);
    selects_last(s, p);
    selects_just(s, p);
    if s.len() > 0 {
        agents_are_seen_by_their_makers(ctx, s.drop_last());
    }
    assert(seen_agents(ctx, s) =~= s.filter(p));
    assert forall|x: AgentRow|
        #[trigger] seen_agents(ctx, s).contains(x)
            <==> s.contains(x)
                && (
                    ctx.admin
                        || x.created_by is None
                        || (x.created_by is Some && ctx.user_id == x.created_by)
                ) by {
        assert(s.filter(p).contains(x) <==> s.contains(x) && p(x));
    }
}

/// A version is found by its number.
pub proof fn versions_are_found_by_number(number: i32, s: Seq<AgentVersion>) -> (at: int)
    ensures
        match version_at(s, number) {
            Some(v) => 0 <= at < s.len()
                && (s[at].version_number == number)
                && v == s[at]
                && forall|k: int|
                #![trigger s[k]]
                0 <= k < at ==> !(s[k].version_number == number),
            None => forall|k: int| #![trigger s[k]] 0 <= k < s.len() ==> !(
                s[k].version_number == number
            ),
        },
    decreases s.len(),
{
    if s.len() == 0 {
        0
    } else {
        let front = s.drop_last();
        let at = versions_are_found_by_number(number, front);
        assert forall|k: int| #![trigger s[k]] 0 <= k < front.len() implies s[k] == front[k] by {}
        if version_at(front, number) is Some {
            assert(s[at] == front[at]);
            at
        } else {
            s.len() - 1
        }
    }
}

/// The versions of an agent are listed by their number, the highest first.
pub proof fn newer_versions_come_first(rows: Seq<(AgentVersion, Instant)>, i: int, j: int)
    requires
        0 <= i < j < rows.len(),
    ensures
        highest_first(rows)[i].0.version_number >= highest_first(rows)[j].0.version_number,
{
    ordered_lists_descend(rows, i, j);
}

/// An agent is managed by administrators, whether it is there or not, and by whoever made it.
/// It is seen by them and, where nobody made it, by everybody.
pub proof fn who_manages_an_agent(ctx: AuthContext, created_by: Option<Id>)
    ensures
        manage_refusal(ctx, Some(created_by)) is None
            <==> ctx.admin || (created_by is Some && ctx.user_id == created_by),
        manage_refusal(ctx, None) is None <==> ctx.admin,
        manages(ctx, created_by) <==> ctx.admin || (created_by is Some && ctx.user_id == created_by),
        sees_agent(ctx, created_by)
            <==> ctx.admin || created_by is None || ctx.user_id == created_by,
{
}

/// A tool is granted where the platform has it, or where the server it names offers it.
pub proof fn which_tools_are_granted(t: NamedTool)
    ensures
        tool_refusal(t) is None
            <==> match t.kind {
                ToolKind::Unsplit | ToolKind::Native | ToolKind::Custom => true,
                ToolKind::Unknown => false,
                ToolKind::Served(s) => s.catalogue matches Some(all)
                    && (
                        s.tool@ == "*"@
                            || exists|i: int| 0 <= i < all@.len() && (
                                #[trigger] all@[i]
                            )@ == s.tool@
                    ),
            },
{
    if let ToolKind::Served(s) = t.kind {
        if let Some(all) = s.catalogue {
            let names = texts(all@);
            if names.contains(s.tool@) {
                let i = choose|i: int| 0 <= i < names.len() && names[i] == s.tool@;
                assert(all@[i]@ == s.tool@);
            }
            if exists|i: int| 0 <= i < all@.len() && (#[trigger] all@[i])@ == s.tool@ {
                let i = choose|i: int| 0 <= i < all@.len() && (#[trigger] all@[i])@ == s.tool@;
                assert(names[i] == s.tool@);
            }
        }
    }
}

/// Modes are taken where each of them is one that there is; else the first that is none is named.
pub proof fn modes_are_checked_in_turn(s: Seq<Seq<char>>) -> (at: int)
    ensures
        mode_refusal(s) is None <==> forall|k: int|
            #![trigger s[k]]
            0 <= k < s.len() ==> (s[k] == "general"@ || s[k] == "legal"@ || s[k] == "research"@),
        mode_refusal(s) is Some ==> {
            &&& 0 <= at < s.len()
            &&& !((s[at] == "general"@ || s[at] == "legal"@ || s[at] == "research"@))
            &&& mode_refusal(s)
                    == Some(
                        Refusal::Validation(
                            "mode must be one of general/legal/research (got '"@ + s[at] + "')"@
                        )
                    )
            &&& forall|k: int|
                    #![trigger s[k]]
                    0 <= k < at ==> (s[k] == "general"@ || s[k] == "legal"@ || s[k] == "research"@)
        },
    decreases s.len(),
{
    if s.len() == 0 {
        0
    } else {
        let rest = s.skip(1);
        let at = modes_are_checked_in_turn(rest);
        assert forall|k: int| #![trigger s[k]] 1 <= k < s.len() implies s[k] == rest[k - 1] by {}
        if !(s[0] == "general"@ || s[0] == "legal"@ || s[0] == "research"@) {
            0
        } else {
            if mode_refusal(rest) is Some {
                assert(s[at + 1] == rest[at]);
            }
            at + 1
        }
    }
}

/// An agent is made by somebody with an account, with tools that can be granted, and for one mode at
/// least, each of them one that there is.
pub proof fn what_an_agent_needs(ctx: AuthContext, tools: Seq<NamedTool>, modes: Seq<Seq<char>>)
    ensures
        modes_refusal(modes) is None
            <==> modes.len() > 0
                && forall|k: int|
                    #![trigger modes[k]]
                    0 <= k < modes.len()
                        ==> (
                            modes[k] == "general"@
                                || modes[k] == "legal"@
                                || modes[k] == "research"@
                        ),
        creation_refusal(ctx, tools, modes) is None
            <==> ctx.user_id is Some
                && toolset_refusal(tools) is None
                && modes.len() > 0
                && forall|k: int|
                    #![trigger modes[k]]
                    0 <= k < modes.len()
                        ==> (
                            modes[k] == "general"@
                                || modes[k] == "legal"@
                                || modes[k] == "research"@
                        ),
{
    modes_are_checked_in_turn(modes);
}

/// An agent is changed by whoever manages it, where it is there and what is set can be had.
pub proof fn who_changes_an_agent(
    ctx: AuthContext,
    row: Option<AgentRow>,
    body: UpdateAgent,
    known: Seq<NamedTool>,
)
    ensures
        update_refusal(ctx, row, body, known) is None
            <==> (
                row matches Some(a)
                    && (ctx.admin || (a.created_by is Some && ctx.user_id == a.created_by))
            )
                && (body.tools is Some ==> toolset_refusal(known) is None)
                && (body.modes matches Some(m) ==> modes_refusal(texts(m@)) is None),
{
}

/// A version is had by whoever manages its agent, and rolled back to where its tools can still be
/// granted.
pub proof fn which_versions_are_had(
    ctx: AuthContext,
    agent: Option<Option<Id>>,
    version: Option<AgentVersion>,
    known: Seq<NamedTool>,
    there: bool,
)
    ensures
        version_refusal(ctx, agent, version) is None
            <==> version is Some
                && (ctx.admin || (agent matches Some(a) && (a is Some && ctx.user_id == a))),
        rollback_refusal(known, there) is None <==> there && toolset_refusal(known) is None,
{
}

/// Tools are granted where each of them can be; else the first that cannot decides.
pub proof fn tools_are_checked_in_turn(s: Seq<NamedTool>) -> (at: int)
    ensures
        toolset_refusal(s) is None <==> forall|k: int|
            #![trigger s[k]]
            0 <= k < s.len() ==> tool_refusal(s[k]) is None,
        toolset_refusal(s) is Some ==> {
            &&& 0 <= at < s.len()
            &&& !(tool_refusal(s[at]) is None)
            &&& toolset_refusal(s) == tool_refusal(s[at])
            &&& forall|k: int| #![trigger s[k]] 0 <= k < at ==> tool_refusal(s[k]) is None
        },
    decreases s.len(),
{
    if s.len() == 0 {
        0
    } else {
        let front = s.drop_last();
        let at = tools_are_checked_in_turn(front);
        assert forall|k: int| #![trigger s[k]] 0 <= k < front.len() implies s[k] == front[k] by {}
        if toolset_refusal(front) is Some {
            assert(s[at] == front[at]);
            at
        } else {
            assert forall|k: int|
                #![trigger s[k]]
                0 <= k < front.len()
                implies tool_refusal(s[k]) is None by {
                assert(front[k] == s[k]);
            }
            s.len() - 1
        }
    }
}

/// The latest version is the highest number that any version has.
pub proof fn the_latest_version_is_the_highest(s: Seq<AgentVersion>)
    ensures
        latest_version(s) is None <==> s.len() == 0,
        latest_version(s) matches Some(n) ==> {
            &&& exists|k: int| 0 <= k < s.len() && (#[trigger] s[k]).version_number == n
            &&& forall|k: int| 0 <= k < s.len() ==> (#[trigger] s[k]).version_number <= n
        },
    decreases s.len(),
{
    if s.len() > 0 {
        let front = s.drop_last();
        the_latest_version_is_the_highest(front);
        if let Some(n) = latest_version(front) {
            let k = choose|k: int| 0 <= k < front.len() && (#[trigger] front[k]).version_number == n;
            assert(s[k] == front[k]);
            assert forall|k: int|
                0 <= k < front.len()
                implies (#[trigger] s[k]).version_number <= n by {
                assert(s[k] == front[k]);
            }
        }
        assert(s[s.len() - 1] == s.last());
    }
}

/// What stands in `rolled_back_doc` under each name; there is no other name in it.
pub proof fn what_rolled_back_doc_holds(restored_from: i32, new_version: i32)
    ensures
        member_at(rolled_back_doc(restored_from, new_version), "restored_from"@)
            == Some(Json::Number(restored_from as int)),
        member_at(rolled_back_doc(restored_from, new_version), "new_version"@)
            == Some(Json::Number(new_version as int)),
        forall|name: Seq<char>|
            #[trigger] member_at(rolled_back_doc(restored_from, new_version), name) is Some
                ==> name == "restored_from"@ || name == "new_version"@,
{
    reveal_strlit("restored_from");
    reveal_strlit("new_version");
    assert("restored_from"@.len() != "new_version"@.len());
}

/// An agent is shown as it is stored.
pub proof fn agents_are_shown_whole(ctx: AuthContext, row: AgentRow, s: AgentSummary)
    ensures
        summarises(ctx, row, s) ==> {
            &&& s.id == row.id
            &&& s.name == row.agent.name
            &&& s.description == row.agent.description
            &&& s.tools == row.agent.tools
            &&& s.sector == row.agent.sector
            &&& s.modes == row.agent.modes
            &&& s.can_manage == manages(ctx, row.created_by)
        },
{
}

/// A version of an agent is shown as it is stored.
pub proof fn versions_are_shown_whole(v: AgentVersion, at: Instant, r: AgentVersionSummary)
    ensures
        version_shown(v, at, r) ==> {
            &&& r.version_number == v.version_number
            &&& r.source == v.source
            &&& r.created_at@ == shown(at)
            &&& r.created_by == v.created_by
        },
{
}

/// What a change does not set stays as it was.
pub proof fn what_is_not_set_stays<T>(was: T, by: Option<T>)
    ensures
        by matches Some(v) ==> replaced(was, by) == v,
        by is None ==> replaced(was, by) == was,
{
}

/// A version keeps all of the agent, under its number, with where it comes from and who made it.
pub proof fn versions_keep_the_whole_agent(
    v: AgentVersion,
    number: int,
    agent: Agent,
    source: Seq<char>,
    created_by: Option<Id>,
)
    ensures
        snapshots(v, number, agent, source, created_by) ==> {
            &&& v.version_number == number
            &&& v.source@ == source
            &&& v.name@ == agent.name@
            &&& opt_text(v.description) == opt_text(agent.description)
            &&& v.system_prompt@ == agent.system_prompt@
            &&& json_in(v.params) == json_in(agent.params)
            &&& json_in(v.tools) == text_list(texts(agent.tools@))
            &&& json_in(v.project_knowledge_ids)
                    == text_list(id_texts(agent.project_knowledge_ids@))
            &&& v.created_by == created_by
        },
{
}

/// A version is restored with all that it kept.
pub proof fn versions_are_restored_whole(v: AgentVersion, a: Restored)
    ensures
        restores(v, a) ==> {
            &&& a.name@ == v.name@
            &&& opt_text(a.description) == opt_text(v.description)
            &&& a.system_prompt@ == v.system_prompt@
            &&& json_in(a.params) == json_in(v.params)
            &&& texts(a.tools@) == stored_texts(json_in(v.tools))
            &&& a.project_knowledge_ids@
                    == ids_among(stored_texts(json_in(v.project_knowledge_ids)))
        },
{
}

/// Going back adds a version of its own to those there are, and leaves the agent its sector and its
/// modes.
pub proof fn going_back_adds_a_version(
    before: AgentHistory,
    after: AgentHistory,
    version: Restored,
    number: int,
    by: Option<Id>,
)
    ensures
        rolled_back(before, after, version, number, by) ==> {
            &&& number == next_version(latest_version(before.versions@))
            &&& after.versions@.len() == before.versions@.len() + 1
            &&& after.versions@.drop_last() == before.versions@
            &&& before.agent matches Some(was)
                    && after.agent matches Some(a)
                    && {
                        &&& a.name == version.name
                        &&& a.description == version.description
                        &&& a.system_prompt == version.system_prompt
                        &&& a.params == version.params
                        &&& a.tools == version.tools
                        &&& a.project_knowledge_ids == version.project_knowledge_ids
                        &&& a.sector == was.sector
                        &&& a.modes == was.modes
                        &&& snapshots(after.versions@.last(), number, a, "rollback"@, by)
                    }
        },
{
}

/// The first version is number one, and each later one has the next number. A stored list of texts is
/// read where it holds nothing but texts.
pub proof fn versions_are_numbered_from_one(n: i32, l: Seq<Json>, j: Json)
    ensures
        next_version(None) == 1,
        next_version(Some(n)) == n + 1,
        (forall|i: int| #![trigger l[i]] 0 <= i < l.len() ==> l[i] is Text)
            ==> stored_texts(Json::List(l)).len() == l.len()
                && forall|i: int|
                    0 <= i < l.len() ==> #[trigger] stored_texts(Json::List(l))[i] == l[i]->Text_0,
        (exists|i: int| #![trigger l[i]] 0 <= i < l.len() && !(l[i] is Text))
            ==> stored_texts(Json::List(l)).len() == 0,
        !(j is List) ==> stored_texts(j).len() == 0,
{
    let items = items_at(Json::List(l))->0;
    if forall|i: int| #![trigger l[i]] 0 <= i < l.len() ==> l[i] is Text {
        assert forall|i: int| 0 <= i < items.len() implies #[trigger] items[i] is Some by {
            assert(l[i] is Text);
        }
    }
    if exists|i: int| #![trigger l[i]] 0 <= i < l.len() && !(l[i] is Text) {
        let i = choose|i: int| #![trigger l[i]] 0 <= i < l.len() && !(l[i] is Text);
        assert(items[i] is None);
    }
}

/// The versions of a history are seen each in its place.
pub proof fn histories_are_seen_in_order(rows: Seq<(AgentVersion, Instant)>, ids: Seq<Id>)
    ensures
        versions_in(rows).len() == rows.len(),
        forall|i: int| 0 <= i < rows.len() ==> #[trigger] versions_in(rows)[i] == rows[i].0,
        id_texts(ids).len() == ids.len(),
        forall|i: int| 0 <= i < ids.len() ==> #[trigger] id_texts(ids)[i] == id_text(ids[i]),
{
}

/// Of several things that are wrong, `modes_refusal` tells the first.
pub proof fn modes_refusal_tells_the_first_thing(modes: Seq<Seq<char>>)
    ensures
        modes.len() == 0
            ==> modes_refusal(modes)
                == Some(Refusal::Validation("an agent must be available in at least one workmode"@)),
        !(modes.len() == 0) ==> modes_refusal(modes) == mode_refusal(modes),
{
}

/// Of several things that are wrong, `creation_refusal` tells the first.
pub proof fn creation_refusal_tells_the_first_thing(
    ctx: AuthContext,
    tools: Seq<NamedTool>,
    modes: Seq<Seq<char>>,
)
    ensures
        ctx.user_id is None
            ==> creation_refusal(ctx, tools, modes)
                == Some(Refusal::Forbidden("a user is required"@)),
        !(ctx.user_id is None) && toolset_refusal(tools) is Some
            ==> creation_refusal(ctx, tools, modes) == toolset_refusal(tools),
        !(ctx.user_id is None) && !(toolset_refusal(tools) is Some)
            ==> creation_refusal(ctx, tools, modes) == modes_refusal(modes),
{
}

/// Of several things that are wrong, `version_refusal` tells the first.
pub proof fn version_refusal_tells_the_first_thing(
    ctx: AuthContext,
    agent: Option<Option<Id>>,
    version: Option<AgentVersion>,
)
    ensures
        manage_refusal(ctx, agent) is Some
            ==> version_refusal(ctx, agent, version) == manage_refusal(ctx, agent),
        !(manage_refusal(ctx, agent) is Some) && version is None
            ==> version_refusal(ctx, agent, version)
                == Some(Refusal::Validation("agent version not found"@)),
        !(manage_refusal(ctx, agent) is Some) && !(version is None)
            ==> version_refusal(ctx, agent, version) is None,
{
}

/// Of several things that are wrong, `rollback_refusal` tells the first.
pub proof fn rollback_refusal_tells_the_first_thing(known: Seq<NamedTool>, agent_there: bool)
    ensures
        toolset_refusal(known) is Some
            ==> rollback_refusal(known, agent_there) == toolset_refusal(known),
        !(toolset_refusal(known) is Some) && !agent_there
            ==> rollback_refusal(known, agent_there)
                == Some(Refusal::Validation("agent not found"@)),
        !(toolset_refusal(known) is Some) && agent_there
            ==> rollback_refusal(known, agent_there) is None,
{
}

/// Without an account nobody manages an agent; one that is not there is not found, and that of somebody
/// else is forbidden.
pub proof fn agents_of_others_are_refused(ctx: AuthContext, agent: Option<Option<Id>>)
    ensures
        !ctx.admin && ctx.user_id is None
            ==> manage_refusal(ctx, agent) == Some(Refusal::Forbidden("a user is required"@)),
        !ctx.admin && ctx.user_id is Some && agent is None
            ==> manage_refusal(ctx, agent) == Some(Refusal::Validation("agent not found"@)),
        !ctx.admin
            && ctx.user_id is Some
            && (agent matches Some(a) && (a is None || ctx.user_id != a))
            ==> manage_refusal(ctx, agent)
                == Some(Refusal::Forbidden("only the agent's owner or an admin may manage it"@)),
{
}

} // verus!
