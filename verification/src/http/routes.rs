//! The routes of the HTTP surface: what each needs of its caller, and how much
//! it accepts.

use vstd::prelude::*;
use vstd::string::*;

use crate::text::{same, starts_with};

verus! {

#[derive(Clone, Copy, Debug, PartialEq, Eq, Structural)]
pub enum Method {
    Get,
    Post,
    Put,
    Patch,
    Delete,
}

/// What a route needs of its caller. A public route needs nothing, or checks for
/// itself; a break-glass route needs a live emergency grant and does not depend on
/// the identity provider; a protected route needs an authenticated account.
#[derive(Clone, Copy, Debug, PartialEq, Eq, Structural)]
pub enum Access {
    Public,
    BreakGlass,
    Protected,
}

/// One method on one path. A part of the path in braces stands for anything.
#[derive(Clone, Copy)]
pub struct Route {
    pub method: Method,
    pub path: &'static str,
}

/// Routes as contracts see them.
pub open spec fn seen(v: Seq<Route>) -> Seq<(Method, Seq<char>)> {
    v.map_values(|r: Route| (r.method, r.path@))
}

fn on(method: Method, path: &'static str) -> (r: Route)
    ensures
        r.method == method,
        r.path@ == path@,
{
    Route { method, path }
}


/// Routes that are open ahead of any authentication.
pub open spec fn public_table() -> Seq<(Method, Seq<char>)> {
    seq![
        (Method::Get, "/health"@),
        (Method::Get, "/health/ready"@),
        (Method::Get, "/metrics"@),
        (Method::Get, "/api/branding/theme"@),
        (Method::Get, "/api/auth/config"@),
        (Method::Post, "/api/auth/register"@),
        (Method::Post, "/api/auth/login"@),
        (Method::Post, "/api/auth/logout"@),
        (Method::Post, "/api/auth/mfa/verify"@),
        (Method::Post, "/api/telemetry"@),
        (Method::Get, "/api/mcp/oauth/callback"@),
        (Method::Post, "/api/device/pair"@),
        (Method::Get, "/ws"@),
    ]
}

fn public_routes() -> (r: Vec<Route>)
    ensures
        seen(r@) == public_table(),
{
    let r: Vec<Route> = vec![
        on(Method::Get, "/health"),
        on(Method::Get, "/health/ready"),
        on(Method::Get, "/metrics"),
        on(Method::Get, "/api/branding/theme"),
        on(Method::Get, "/api/auth/config"),
        on(Method::Post, "/api/auth/register"),
        on(Method::Post, "/api/auth/login"),
        on(Method::Post, "/api/auth/logout"),
        on(Method::Post, "/api/auth/mfa/verify"),
        on(Method::Post, "/api/telemetry"),
        on(Method::Get, "/api/mcp/oauth/callback"),
        on(Method::Post, "/api/device/pair"),
        on(Method::Get, "/ws"),
    ];
    assert(seen(r@) =~= public_table());
    r
}

/// Routes of the emergency administrator.
pub open spec fn breakglass_table() -> Seq<(Method, Seq<char>)> {
    seq![
        (Method::Get, "/api/admin/ping"@),
        (Method::Get, "/api/admin/breakglass/grants"@),
        (Method::Put, "/api/admin/integrations/{kind}"@),
        (Method::Get, "/api/admin/super/session"@),
        (Method::Get, "/api/admin/super/integrations"@),
        (Method::Get, "/api/admin/super/config"@),
        (Method::Put, "/api/admin/super/config/{key}"@),
        (Method::Delete, "/api/admin/super/config/{key}"@),
        (Method::Get, "/api/admin/super/users"@),
        (Method::Get, "/api/admin/super/users/{id}/chats"@),
        (Method::Post, "/api/admin/super/users/{id}/deactivate"@),
        (Method::Delete, "/api/admin/super/users/{id}/data"@),
        (Method::Get, "/api/admin/super/chats/{id}/messages"@),
        (Method::Post, "/api/admin/desktop-installer"@),
        (Method::Get, "/api/admin/desktop-installer"@),
        (Method::Delete, "/api/admin/desktop-installer"@),
    ]
}

fn breakglass_routes() -> (r: Vec<Route>)
    ensures
        seen(r@) == breakglass_table(),
{
    let r: Vec<Route> = vec![
        on(Method::Get, "/api/admin/ping"),
        on(Method::Get, "/api/admin/breakglass/grants"),
        on(Method::Put, "/api/admin/integrations/{kind}"),
        on(Method::Get, "/api/admin/super/session"),
        on(Method::Get, "/api/admin/super/integrations"),
        on(Method::Get, "/api/admin/super/config"),
        on(Method::Put, "/api/admin/super/config/{key}"),
        on(Method::Delete, "/api/admin/super/config/{key}"),
        on(Method::Get, "/api/admin/super/users"),
        on(Method::Get, "/api/admin/super/users/{id}/chats"),
        on(Method::Post, "/api/admin/super/users/{id}/deactivate"),
        on(Method::Delete, "/api/admin/super/users/{id}/data"),
        on(Method::Get, "/api/admin/super/chats/{id}/messages"),
        on(Method::Post, "/api/admin/desktop-installer"),
        on(Method::Get, "/api/admin/desktop-installer"),
        on(Method::Delete, "/api/admin/desktop-installer"),
    ];
    assert(seen(r@) =~= breakglass_table());
    r
}

/// Protected routes of a caller's own account.
pub open spec fn account_table() -> Seq<(Method, Seq<char>)> {
    seq![
        (Method::Get, "/api/whoami"@),
        (Method::Get, "/api/notices"@),
        (Method::Post, "/api/ws-ticket"@),
        (Method::Get, "/api/users"@),
        (Method::Get, "/api/me/profile"@),
        (Method::Patch, "/api/me/profile"@),
        (Method::Post, "/api/me/avatar"@),
        (Method::Delete, "/api/me/avatar"@),
        (Method::Get, "/api/users/{id}/avatar"@),
        (Method::Post, "/api/me/api-keys"@),
        (Method::Get, "/api/me/api-keys"@),
        (Method::Delete, "/api/me/api-keys/{id}"@),
        (Method::Post, "/api/me/devices/pairing-code"@),
        (Method::Get, "/api/me/devices"@),
        (Method::Delete, "/api/me/devices/{id}"@),
        (Method::Delete, "/api/me/account"@),
        (Method::Get, "/api/me/providers"@),
        (Method::Post, "/api/me/providers/llm"@),
        (Method::Post, "/api/me/providers/llm/test"@),
        (Method::Put, "/api/me/providers/llm/{id}"@),
        (Method::Delete, "/api/me/providers/llm/{id}"@),
        (Method::Get, "/api/me/llm-providers"@),
        (Method::Put, "/api/me/chats/{chat_id}/llm-provider"@),
        (Method::Put, "/api/me/providers/{role}"@),
        (Method::Delete, "/api/me/providers/{role}"@),
        (Method::Post, "/api/me/providers/{role}/test"@),
        (Method::Get, "/api/config/branding"@),
        (Method::Get, "/api/branding/{kind}"@),
        (Method::Get, "/api/me/mcp-connections"@),
        (Method::Post, "/api/me/mcp-connections/{server_id}/connect"@),
        (Method::Delete, "/api/me/mcp-connections/{server_id}"@),
        (Method::Post, "/api/auth/password"@),
        (Method::Post, "/api/auth/mfa/setup"@),
        (Method::Post, "/api/auth/mfa/confirm"@),
        (Method::Post, "/api/auth/mfa/disable"@),
        (Method::Get, "/api/auth/mfa/status"@),
        (Method::Post, "/api/auth/mfa/recovery/regenerate"@),
        (Method::Get, "/api/desktop/installer/meta"@),
        (Method::Get, "/api/desktop/installer"@),
        (Method::Get, "/api/desktop/latest.json"@),
    ]
}

fn account_routes() -> (r: Vec<Route>)
    ensures
        seen(r@) == account_table(),
{
    let r: Vec<Route> = vec![
        on(Method::Get, "/api/whoami"),
        on(Method::Get, "/api/notices"),
        on(Method::Post, "/api/ws-ticket"),
        on(Method::Get, "/api/users"),
        on(Method::Get, "/api/me/profile"),
        on(Method::Patch, "/api/me/profile"),
        on(Method::Post, "/api/me/avatar"),
        on(Method::Delete, "/api/me/avatar"),
        on(Method::Get, "/api/users/{id}/avatar"),
        on(Method::Post, "/api/me/api-keys"),
        on(Method::Get, "/api/me/api-keys"),
        on(Method::Delete, "/api/me/api-keys/{id}"),
        on(Method::Post, "/api/me/devices/pairing-code"),
        on(Method::Get, "/api/me/devices"),
        on(Method::Delete, "/api/me/devices/{id}"),
        on(Method::Delete, "/api/me/account"),
        on(Method::Get, "/api/me/providers"),
        on(Method::Post, "/api/me/providers/llm"),
        on(Method::Post, "/api/me/providers/llm/test"),
        on(Method::Put, "/api/me/providers/llm/{id}"),
        on(Method::Delete, "/api/me/providers/llm/{id}"),
        on(Method::Get, "/api/me/llm-providers"),
        on(Method::Put, "/api/me/chats/{chat_id}/llm-provider"),
        on(Method::Put, "/api/me/providers/{role}"),
        on(Method::Delete, "/api/me/providers/{role}"),
        on(Method::Post, "/api/me/providers/{role}/test"),
        on(Method::Get, "/api/config/branding"),
        on(Method::Get, "/api/branding/{kind}"),
        on(Method::Get, "/api/me/mcp-connections"),
        on(Method::Post, "/api/me/mcp-connections/{server_id}/connect"),
        on(Method::Delete, "/api/me/mcp-connections/{server_id}"),
        on(Method::Post, "/api/auth/password"),
        on(Method::Post, "/api/auth/mfa/setup"),
        on(Method::Post, "/api/auth/mfa/confirm"),
        on(Method::Post, "/api/auth/mfa/disable"),
        on(Method::Get, "/api/auth/mfa/status"),
        on(Method::Post, "/api/auth/mfa/recovery/regenerate"),
        on(Method::Get, "/api/desktop/installer/meta"),
        on(Method::Get, "/api/desktop/installer"),
        on(Method::Get, "/api/desktop/latest.json"),
    ];
    assert(seen(r@) =~= account_table());
    r
}

/// Protected routes of chats, messages and voice.
pub open spec fn chat_table() -> Seq<(Method, Seq<char>)> {
    seq![
        (Method::Post, "/api/chat-attachments"@),
        (Method::Get, "/api/chat-attachments/{id}"@),
        (Method::Get, "/api/chats"@),
        (Method::Patch, "/api/chats/{id}"@),
        (Method::Delete, "/api/chats/{id}"@),
        (Method::Get, "/api/chats/{id}/messages"@),
        (Method::Post, "/api/chats/{id}/share"@),
        (Method::Get, "/api/chat-shares"@),
        (Method::Delete, "/api/chat-shares/{chat_id}/{group_chat_id}"@),
        (Method::Get, "/api/chats/{id}/kb-links"@),
        (Method::Post, "/api/chats/{id}/kb-links"@),
        (Method::Delete, "/api/chats/{id}/kb-links/{kb}"@),
        (Method::Get, "/api/chats/{id}/artefacts"@),
        (Method::Get, "/api/chats/{id}/export"@),
        (Method::Post, "/api/messages/{id}/feedback"@),
        (Method::Get, "/api/messages/{id}/feedback"@),
        (Method::Delete, "/api/messages/{id}/feedback"@),
        (Method::Post, "/api/voice/transcribe"@),
        (Method::Post, "/api/voice/speech"@),
        (Method::Post, "/api/group-chats"@),
        (Method::Get, "/api/group-chats"@),
        (Method::Get, "/api/group-chats/search"@),
        (Method::Get, "/api/group-chats/{id}"@),
        (Method::Post, "/api/group-chats/{id}/members"@),
        (Method::Delete, "/api/group-chats/{id}/members/{user_id}"@),
        (Method::Post, "/api/group-chats/{id}/messages"@),
        (Method::Get, "/api/group-chats/{id}/messages"@),
        (Method::Post, "/api/group-chats/{id}/messages/{message_id}/reactions"@),
        (Method::Get, "/api/group-chats/{id}/notes"@),
        (Method::Post, "/api/group-chats/{id}/notes"@),
        (Method::Put, "/api/group-chats/{id}/notes/{note_id}"@),
        (Method::Delete, "/api/group-chats/{id}/notes/{note_id}"@),
        (Method::Post, "/api/dms/{user_id}"@),
        (Method::Post, "/api/message-attachments"@),
        (Method::Get, "/api/message-attachments/{id}"@),
    ]
}

fn chat_routes() -> (r: Vec<Route>)
    ensures
        seen(r@) == chat_table(),
{
    let r: Vec<Route> = vec![
        on(Method::Post, "/api/chat-attachments"),
        on(Method::Get, "/api/chat-attachments/{id}"),
        on(Method::Get, "/api/chats"),
        on(Method::Patch, "/api/chats/{id}"),
        on(Method::Delete, "/api/chats/{id}"),
        on(Method::Get, "/api/chats/{id}/messages"),
        on(Method::Post, "/api/chats/{id}/share"),
        on(Method::Get, "/api/chat-shares"),
        on(Method::Delete, "/api/chat-shares/{chat_id}/{group_chat_id}"),
        on(Method::Get, "/api/chats/{id}/kb-links"),
        on(Method::Post, "/api/chats/{id}/kb-links"),
        on(Method::Delete, "/api/chats/{id}/kb-links/{kb}"),
        on(Method::Get, "/api/chats/{id}/artefacts"),
        on(Method::Get, "/api/chats/{id}/export"),
        on(Method::Post, "/api/messages/{id}/feedback"),
        on(Method::Get, "/api/messages/{id}/feedback"),
        on(Method::Delete, "/api/messages/{id}/feedback"),
        on(Method::Post, "/api/voice/transcribe"),
        on(Method::Post, "/api/voice/speech"),
        on(Method::Post, "/api/group-chats"),
        on(Method::Get, "/api/group-chats"),
        on(Method::Get, "/api/group-chats/search"),
        on(Method::Get, "/api/group-chats/{id}"),
        on(Method::Post, "/api/group-chats/{id}/members"),
        on(Method::Delete, "/api/group-chats/{id}/members/{user_id}"),
        on(Method::Post, "/api/group-chats/{id}/messages"),
        on(Method::Get, "/api/group-chats/{id}/messages"),
        on(Method::Post, "/api/group-chats/{id}/messages/{message_id}/reactions"),
        on(Method::Get, "/api/group-chats/{id}/notes"),
        on(Method::Post, "/api/group-chats/{id}/notes"),
        on(Method::Put, "/api/group-chats/{id}/notes/{note_id}"),
        on(Method::Delete, "/api/group-chats/{id}/notes/{note_id}"),
        on(Method::Post, "/api/dms/{user_id}"),
        on(Method::Post, "/api/message-attachments"),
        on(Method::Get, "/api/message-attachments/{id}"),
    ];
    assert(seen(r@) =~= chat_table());
    r
}

/// Protected routes of agents and what they are made of, and of what runs by itself.
pub open spec fn agent_table() -> Seq<(Method, Seq<char>)> {
    seq![
        (Method::Get, "/api/agent-runs"@),
        (Method::Get, "/api/agent-runs/pending"@),
        (Method::Post, "/api/agent-runs/{id}/approve"@),
        (Method::Post, "/api/agent-runs/{id}/reject"@),
        (Method::Post, "/api/agent-runs/{id}/cancel"@),
        (Method::Get, "/api/agent-runs/{id}"@),
        (Method::Post, "/api/agents"@),
        (Method::Get, "/api/agents"@),
        (Method::Get, "/api/agents/{id}"@),
        (Method::Patch, "/api/agents/{id}"@),
        (Method::Delete, "/api/agents/{id}"@),
        (Method::Post, "/api/agents/{id}/skills/{skill_id}"@),
        (Method::Delete, "/api/agents/{id}/skills/{skill_id}"@),
        (Method::Get, "/api/agents/{id}/versions"@),
        (Method::Get, "/api/agents/{id}/versions/{vnum}"@),
        (Method::Post, "/api/agents/{id}/versions/{vnum}/rollback"@),
        (Method::Post, "/api/skills"@),
        (Method::Get, "/api/skills"@),
        (Method::Get, "/api/skills/{id}"@),
        (Method::Patch, "/api/skills/{id}"@),
        (Method::Delete, "/api/skills/{id}"@),
        (Method::Post, "/api/skills/{id}/test"@),
        (Method::Post, "/api/skills/{id}/enabled"@),
        (Method::Post, "/api/prompts"@),
        (Method::Get, "/api/prompts"@),
        (Method::Get, "/api/prompts/{id}"@),
        (Method::Post, "/api/prompts/{id}/render"@),
        (Method::Post, "/api/memory"@),
        (Method::Get, "/api/memory"@),
        (Method::Patch, "/api/memory/{id}"@),
        (Method::Delete, "/api/memory/{id}"@),
        (Method::Get, "/api/memory/recall"@),
        (Method::Get, "/api/agents/{id}/feedback/summary"@),
        (Method::Post, "/api/automations"@),
        (Method::Get, "/api/automations"@),
        (Method::Get, "/api/automations/calendar"@),
        (Method::Get, "/api/automations/{id}"@),
        (Method::Patch, "/api/automations/{id}"@),
        (Method::Delete, "/api/automations/{id}"@),
        (Method::Post, "/api/automations/{id}/run"@),
        (Method::Get, "/api/automations/{id}/runs"@),
        (Method::Post, "/api/workflows"@),
        (Method::Get, "/api/workflows"@),
        (Method::Get, "/api/workflows/triggers"@),
        (Method::Get, "/api/workflows/{id}"@),
        (Method::Patch, "/api/workflows/{id}"@),
        (Method::Delete, "/api/workflows/{id}"@),
        (Method::Get, "/api/workflows/{id}/runs"@),
        (Method::Get, "/api/integrations"@),
        (Method::Get, "/api/tools/catalog"@),
    ]
}

fn agent_routes() -> (r: Vec<Route>)
    ensures
        seen(r@) == agent_table(),
{
    let r: Vec<Route> = vec![
        on(Method::Get, "/api/agent-runs"),
        on(Method::Get, "/api/agent-runs/pending"),
        on(Method::Post, "/api/agent-runs/{id}/approve"),
        on(Method::Post, "/api/agent-runs/{id}/reject"),
        on(Method::Post, "/api/agent-runs/{id}/cancel"),
        on(Method::Get, "/api/agent-runs/{id}"),
        on(Method::Post, "/api/agents"),
        on(Method::Get, "/api/agents"),
        on(Method::Get, "/api/agents/{id}"),
        on(Method::Patch, "/api/agents/{id}"),
        on(Method::Delete, "/api/agents/{id}"),
        on(Method::Post, "/api/agents/{id}/skills/{skill_id}"),
        on(Method::Delete, "/api/agents/{id}/skills/{skill_id}"),
        on(Method::Get, "/api/agents/{id}/versions"),
        on(Method::Get, "/api/agents/{id}/versions/{vnum}"),
        on(Method::Post, "/api/agents/{id}/versions/{vnum}/rollback"),
        on(Method::Post, "/api/skills"),
        on(Method::Get, "/api/skills"),
        on(Method::Get, "/api/skills/{id}"),
        on(Method::Patch, "/api/skills/{id}"),
        on(Method::Delete, "/api/skills/{id}"),
        on(Method::Post, "/api/skills/{id}/test"),
        on(Method::Post, "/api/skills/{id}/enabled"),
        on(Method::Post, "/api/prompts"),
        on(Method::Get, "/api/prompts"),
        on(Method::Get, "/api/prompts/{id}"),
        on(Method::Post, "/api/prompts/{id}/render"),
        on(Method::Post, "/api/memory"),
        on(Method::Get, "/api/memory"),
        on(Method::Patch, "/api/memory/{id}"),
        on(Method::Delete, "/api/memory/{id}"),
        on(Method::Get, "/api/memory/recall"),
        on(Method::Get, "/api/agents/{id}/feedback/summary"),
        on(Method::Post, "/api/automations"),
        on(Method::Get, "/api/automations"),
        on(Method::Get, "/api/automations/calendar"),
        on(Method::Get, "/api/automations/{id}"),
        on(Method::Patch, "/api/automations/{id}"),
        on(Method::Delete, "/api/automations/{id}"),
        on(Method::Post, "/api/automations/{id}/run"),
        on(Method::Get, "/api/automations/{id}/runs"),
        on(Method::Post, "/api/workflows"),
        on(Method::Get, "/api/workflows"),
        on(Method::Get, "/api/workflows/triggers"),
        on(Method::Get, "/api/workflows/{id}"),
        on(Method::Patch, "/api/workflows/{id}"),
        on(Method::Delete, "/api/workflows/{id}"),
        on(Method::Get, "/api/workflows/{id}/runs"),
        on(Method::Get, "/api/integrations"),
        on(Method::Get, "/api/tools/catalog"),
    ];
    assert(seen(r@) =~= agent_table());
    r
}

/// Protected routes of projects, libraries, documents and research.
pub open spec fn knowledge_table() -> Seq<(Method, Seq<char>)> {
    seq![
        (Method::Post, "/api/projects"@),
        (Method::Get, "/api/projects"@),
        (Method::Delete, "/api/projects/{id}"@),
        (Method::Post, "/api/projects/{id}/knowledge"@),
        (Method::Post, "/api/projects/{id}/documents"@),
        (Method::Get, "/api/projects/{id}/documents"@),
        (Method::Get, "/api/knowledge-docs/{id}/source"@),
        (Method::Get, "/api/project-knowledge"@),
        (Method::Post, "/api/kb"@),
        (Method::Get, "/api/kb"@),
        (Method::Get, "/api/kb/{id}"@),
        (Method::Patch, "/api/kb/{id}"@),
        (Method::Delete, "/api/kb/{id}"@),
        (Method::Post, "/api/kb/{id}/documents"@),
        (Method::Delete, "/api/kb/{id}/documents/{doc}"@),
        (Method::Get, "/api/kb/{id}/grants"@),
        (Method::Put, "/api/kb/{id}/grants"@),
        (Method::Delete, "/api/kb/{id}/grants/{grant}"@),
        (Method::Post, "/api/kb/{id}/promote"@),
        (Method::Get, "/api/projects/{id}/kb-links"@),
        (Method::Post, "/api/projects/{id}/kb-links"@),
        (Method::Delete, "/api/projects/{id}/kb-links/{kb}"@),
        (Method::Post, "/api/projects/{id}/workspace/documents"@),
        (Method::Get, "/api/projects/{id}/workspace/documents"@),
        (Method::Get, "/api/documents/{id}"@),
        (Method::Delete, "/api/documents/{id}"@),
        (Method::Get, "/api/documents/{id}/versions/{vid}/download"@),
        (Method::Get, "/api/documents/{id}/versions/{vid}/text"@),
        (Method::Post, "/api/documents/{id}/versions/{vid}/pdf"@),
        (Method::Get, "/api/documents/{id}/edits"@),
        (Method::Post, "/api/documents/{id}/edits/accept-all"@),
        (Method::Post, "/api/documents/{id}/edits/reject-all"@),
        (Method::Post, "/api/documents/{id}/edits/{w_id}/accept"@),
        (Method::Post, "/api/documents/{id}/edits/{w_id}/reject"@),
        (Method::Post, "/api/tabular-reviews"@),
        (Method::Get, "/api/projects/{id}/tabular-reviews"@),
        (Method::Get, "/api/tabular-reviews/{id}"@),
        (Method::Post, "/api/tabular-reviews/{id}/run"@),
        (Method::Post, "/api/tabular-reviews/{id}/cancel"@),
        (Method::Post, "/api/tabular-reviews/{id}/rerun-errors"@),
        (Method::Post, "/api/tabular-reviews/{id}/cells/{document_id}/{column_key}/rerun"@),
        (Method::Get, "/api/tabular-reviews/{id}/export"@),
        (Method::Post, "/api/tabular-reviews/{id}/chat"@),
        (Method::Post, "/api/verify-draft"@),
        (Method::Get, "/api/verification-runs"@),
        (Method::Get, "/api/verification-runs/{id}"@),
        (Method::Get, "/api/verification-runs/{id}/report"@),
        (Method::Post, "/api/verification-runs/{id}/repair"@),
        (Method::Get, "/api/artefacts/{id}/download"@),
        (Method::Post, "/api/artefacts/{id}/convert"@),
        (Method::Post, "/api/artefacts/{id}/create-page"@),
        (Method::Post, "/api/research/prepare"@),
        (Method::Post, "/api/research/start"@),
        (Method::Post, "/api/research/templates"@),
        (Method::Get, "/api/research/templates"@),
        (Method::Get, "/api/research/templates/{id}"@),
        (Method::Patch, "/api/research/templates/{id}"@),
        (Method::Delete, "/api/research/templates/{id}"@),
        (Method::Post, "/api/exports"@),
        (Method::Get, "/api/exports"@),
        (Method::Get, "/api/exports/{id}"@),
        (Method::Get, "/api/exports/{id}/download"@),
    ]
}

fn knowledge_routes() -> (r: Vec<Route>)
    ensures
        seen(r@) == knowledge_table(),
{
    let r: Vec<Route> = vec![
        on(Method::Post, "/api/projects"),
        on(Method::Get, "/api/projects"),
        on(Method::Delete, "/api/projects/{id}"),
        on(Method::Post, "/api/projects/{id}/knowledge"),
        on(Method::Post, "/api/projects/{id}/documents"),
        on(Method::Get, "/api/projects/{id}/documents"),
        on(Method::Get, "/api/knowledge-docs/{id}/source"),
        on(Method::Get, "/api/project-knowledge"),
        on(Method::Post, "/api/kb"),
        on(Method::Get, "/api/kb"),
        on(Method::Get, "/api/kb/{id}"),
        on(Method::Patch, "/api/kb/{id}"),
        on(Method::Delete, "/api/kb/{id}"),
        on(Method::Post, "/api/kb/{id}/documents"),
        on(Method::Delete, "/api/kb/{id}/documents/{doc}"),
        on(Method::Get, "/api/kb/{id}/grants"),
        on(Method::Put, "/api/kb/{id}/grants"),
        on(Method::Delete, "/api/kb/{id}/grants/{grant}"),
        on(Method::Post, "/api/kb/{id}/promote"),
        on(Method::Get, "/api/projects/{id}/kb-links"),
        on(Method::Post, "/api/projects/{id}/kb-links"),
        on(Method::Delete, "/api/projects/{id}/kb-links/{kb}"),
        on(Method::Post, "/api/projects/{id}/workspace/documents"),
        on(Method::Get, "/api/projects/{id}/workspace/documents"),
        on(Method::Get, "/api/documents/{id}"),
        on(Method::Delete, "/api/documents/{id}"),
        on(Method::Get, "/api/documents/{id}/versions/{vid}/download"),
        on(Method::Get, "/api/documents/{id}/versions/{vid}/text"),
        on(Method::Post, "/api/documents/{id}/versions/{vid}/pdf"),
        on(Method::Get, "/api/documents/{id}/edits"),
        on(Method::Post, "/api/documents/{id}/edits/accept-all"),
        on(Method::Post, "/api/documents/{id}/edits/reject-all"),
        on(Method::Post, "/api/documents/{id}/edits/{w_id}/accept"),
        on(Method::Post, "/api/documents/{id}/edits/{w_id}/reject"),
        on(Method::Post, "/api/tabular-reviews"),
        on(Method::Get, "/api/projects/{id}/tabular-reviews"),
        on(Method::Get, "/api/tabular-reviews/{id}"),
        on(Method::Post, "/api/tabular-reviews/{id}/run"),
        on(Method::Post, "/api/tabular-reviews/{id}/cancel"),
        on(Method::Post, "/api/tabular-reviews/{id}/rerun-errors"),
        on(Method::Post, "/api/tabular-reviews/{id}/cells/{document_id}/{column_key}/rerun"),
        on(Method::Get, "/api/tabular-reviews/{id}/export"),
        on(Method::Post, "/api/tabular-reviews/{id}/chat"),
        on(Method::Post, "/api/verify-draft"),
        on(Method::Get, "/api/verification-runs"),
        on(Method::Get, "/api/verification-runs/{id}"),
        on(Method::Get, "/api/verification-runs/{id}/report"),
        on(Method::Post, "/api/verification-runs/{id}/repair"),
        on(Method::Get, "/api/artefacts/{id}/download"),
        on(Method::Post, "/api/artefacts/{id}/convert"),
        on(Method::Post, "/api/artefacts/{id}/create-page"),
        on(Method::Post, "/api/research/prepare"),
        on(Method::Post, "/api/research/start"),
        on(Method::Post, "/api/research/templates"),
        on(Method::Get, "/api/research/templates"),
        on(Method::Get, "/api/research/templates/{id}"),
        on(Method::Patch, "/api/research/templates/{id}"),
        on(Method::Delete, "/api/research/templates/{id}"),
        on(Method::Post, "/api/exports"),
        on(Method::Get, "/api/exports"),
        on(Method::Get, "/api/exports/{id}"),
        on(Method::Get, "/api/exports/{id}/download"),
    ];
    assert(seen(r@) =~= knowledge_table());
    r
}

/// Protected routes of administrators and team leads.
pub open spec fn admin_table() -> Seq<(Method, Seq<char>)> {
    seq![
        (Method::Get, "/api/admin/users/{id}/api-keys"@),
        (Method::Delete, "/api/admin/users/{id}/api-keys/{key_id}"@),
        (Method::Get, "/api/admin/users/{id}/devices"@),
        (Method::Delete, "/api/admin/users/{id}/devices/{device_id}"@),
        (Method::Get, "/api/admin/projects/{id}/export"@),
        (Method::Get, "/api/admin/announcements"@),
        (Method::Post, "/api/admin/announcements"@),
        (Method::Put, "/api/admin/announcements/{id}"@),
        (Method::Delete, "/api/admin/announcements/{id}"@),
        (Method::Get, "/api/admin/welcome"@),
        (Method::Put, "/api/admin/welcome"@),
        (Method::Get, "/api/admin/config"@),
        (Method::Put, "/api/admin/config/{key}"@),
        (Method::Get, "/api/admin/providers"@),
        (Method::Post, "/api/admin/providers/llm"@),
        (Method::Post, "/api/admin/providers/llm/test"@),
        (Method::Put, "/api/admin/providers/llm/{id}"@),
        (Method::Delete, "/api/admin/providers/llm/{id}"@),
        (Method::Put, "/api/admin/providers/llm/{id}/default"@),
        (Method::Put, "/api/admin/providers/{role}"@),
        (Method::Post, "/api/admin/providers/{role}/test"@),
        (Method::Get, "/api/admin/voice-live"@),
        (Method::Put, "/api/admin/voice-live"@),
        (Method::Get, "/api/admin/embedding-index"@),
        (Method::Post, "/api/admin/embedding-index/reindex"@),
        (Method::Get, "/api/admin/users"@),
        (Method::Post, "/api/admin/users/{id}/deactivate"@),
        (Method::Post, "/api/admin/users/{id}/reactivate"@),
        (Method::Post, "/api/admin/users/{id}/mfa/reset"@),
        (Method::Get, "/api/admin/analytics"@),
        (Method::Get, "/api/admin/groundedness"@),
        (Method::Get, "/api/admin/feedback"@),
        (Method::Post, "/api/admin/grants"@),
        (Method::Get, "/api/admin/grants"@),
        (Method::Delete, "/api/admin/grants/{id}"@),
        (Method::Post, "/api/groups"@),
        (Method::Get, "/api/groups"@),
        (Method::Get, "/api/groups/{id}"@),
        (Method::Delete, "/api/groups/{id}"@),
        (Method::Post, "/api/groups/{id}/members"@),
        (Method::Delete, "/api/groups/{id}/members/{user_id}"@),
        (Method::Get, "/api/groups/{id}/feature-flags"@),
        (Method::Put, "/api/groups/{id}/feature-flags/{feature}"@),
        (Method::Delete, "/api/groups/{id}/feature-flags/{feature}"@),
        (Method::Get, "/api/power/directory"@),
        (Method::Get, "/api/power/analytics"@),
        (Method::Get, "/api/admin/integrations"@),
        (Method::Get, "/api/admin/integrations/{kind}"@),
        (Method::Get, "/api/admin/mcp-servers"@),
        (Method::Post, "/api/admin/mcp-servers"@),
        (Method::Delete, "/api/admin/mcp-servers/{id}"@),
        (Method::Patch, "/api/admin/mcp-servers/{id}"@),
        (Method::Post, "/api/admin/mcp-servers/{id}/approve"@),
        (Method::Post, "/api/admin/mcp-servers/{id}/oauth/discover"@),
        (Method::Put, "/api/admin/mcp-servers/{id}/oauth/client"@),
        (Method::Delete, "/api/admin/mcp-servers/{id}/oauth/client"@),
        (Method::Put, "/api/admin/mcp-servers/{id}/oauth/catalog-source"@),
        (Method::Put, "/api/admin/tools/native/{name}"@),
        (Method::Delete, "/api/admin/tools/native/{name}"@),
        (Method::Post, "/api/admin/tools/custom"@),
        (Method::Put, "/api/admin/tools/custom/{id}"@),
        (Method::Delete, "/api/admin/tools/custom/{id}"@),
        (Method::Post, "/api/admin/tools/custom/{id}/enable"@),
        (Method::Post, "/api/admin/tools/custom/{id}/disable"@),
        (Method::Post, "/api/admin/tools/custom/{id}/test-run"@),
    ]
}

fn admin_routes() -> (r: Vec<Route>)
    ensures
        seen(r@) == admin_table(),
{
    let r: Vec<Route> = vec![
        on(Method::Get, "/api/admin/users/{id}/api-keys"),
        on(Method::Delete, "/api/admin/users/{id}/api-keys/{key_id}"),
        on(Method::Get, "/api/admin/users/{id}/devices"),
        on(Method::Delete, "/api/admin/users/{id}/devices/{device_id}"),
        on(Method::Get, "/api/admin/projects/{id}/export"),
        on(Method::Get, "/api/admin/announcements"),
        on(Method::Post, "/api/admin/announcements"),
        on(Method::Put, "/api/admin/announcements/{id}"),
        on(Method::Delete, "/api/admin/announcements/{id}"),
        on(Method::Get, "/api/admin/welcome"),
        on(Method::Put, "/api/admin/welcome"),
        on(Method::Get, "/api/admin/config"),
        on(Method::Put, "/api/admin/config/{key}"),
        on(Method::Get, "/api/admin/providers"),
        on(Method::Post, "/api/admin/providers/llm"),
        on(Method::Post, "/api/admin/providers/llm/test"),
        on(Method::Put, "/api/admin/providers/llm/{id}"),
        on(Method::Delete, "/api/admin/providers/llm/{id}"),
        on(Method::Put, "/api/admin/providers/llm/{id}/default"),
        on(Method::Put, "/api/admin/providers/{role}"),
        on(Method::Post, "/api/admin/providers/{role}/test"),
        on(Method::Get, "/api/admin/voice-live"),
        on(Method::Put, "/api/admin/voice-live"),
        on(Method::Get, "/api/admin/embedding-index"),
        on(Method::Post, "/api/admin/embedding-index/reindex"),
        on(Method::Get, "/api/admin/users"),
        on(Method::Post, "/api/admin/users/{id}/deactivate"),
        on(Method::Post, "/api/admin/users/{id}/reactivate"),
        on(Method::Post, "/api/admin/users/{id}/mfa/reset"),
        on(Method::Get, "/api/admin/analytics"),
        on(Method::Get, "/api/admin/groundedness"),
        on(Method::Get, "/api/admin/feedback"),
        on(Method::Post, "/api/admin/grants"),
        on(Method::Get, "/api/admin/grants"),
        on(Method::Delete, "/api/admin/grants/{id}"),
        on(Method::Post, "/api/groups"),
        on(Method::Get, "/api/groups"),
        on(Method::Get, "/api/groups/{id}"),
        on(Method::Delete, "/api/groups/{id}"),
        on(Method::Post, "/api/groups/{id}/members"),
        on(Method::Delete, "/api/groups/{id}/members/{user_id}"),
        on(Method::Get, "/api/groups/{id}/feature-flags"),
        on(Method::Put, "/api/groups/{id}/feature-flags/{feature}"),
        on(Method::Delete, "/api/groups/{id}/feature-flags/{feature}"),
        on(Method::Get, "/api/power/directory"),
        on(Method::Get, "/api/power/analytics"),
        on(Method::Get, "/api/admin/integrations"),
        on(Method::Get, "/api/admin/integrations/{kind}"),
        on(Method::Get, "/api/admin/mcp-servers"),
        on(Method::Post, "/api/admin/mcp-servers"),
        on(Method::Delete, "/api/admin/mcp-servers/{id}"),
        on(Method::Patch, "/api/admin/mcp-servers/{id}"),
        on(Method::Post, "/api/admin/mcp-servers/{id}/approve"),
        on(Method::Post, "/api/admin/mcp-servers/{id}/oauth/discover"),
        on(Method::Put, "/api/admin/mcp-servers/{id}/oauth/client"),
        on(Method::Delete, "/api/admin/mcp-servers/{id}/oauth/client"),
        on(Method::Put, "/api/admin/mcp-servers/{id}/oauth/catalog-source"),
        on(Method::Put, "/api/admin/tools/native/{name}"),
        on(Method::Delete, "/api/admin/tools/native/{name}"),
        on(Method::Post, "/api/admin/tools/custom"),
        on(Method::Put, "/api/admin/tools/custom/{id}"),
        on(Method::Delete, "/api/admin/tools/custom/{id}"),
        on(Method::Post, "/api/admin/tools/custom/{id}/enable"),
        on(Method::Post, "/api/admin/tools/custom/{id}/disable"),
        on(Method::Post, "/api/admin/tools/custom/{id}/test-run"),
    ];
    assert(seen(r@) =~= admin_table());
    r
}

/// The routes that need an authenticated account.
pub open spec fn protected_table() -> Seq<(Method, Seq<char>)> {
    account_table() + chat_table() + agent_table() + knowledge_table() + admin_table()
}

/// What a route needs of its caller; nothing is known of a route that is in no
/// table.
pub open spec fn access(method: Method, path: Seq<char>) -> Option<Access> {
    if public_table().contains((method, path)) {
        Some(Access::Public)
    } else if breakglass_table().contains((method, path)) {
        Some(Access::BreakGlass)
    } else if protected_table().contains((method, path)) {
        Some(Access::Protected)
    } else {
        None
    }
}

fn holds(v: &Vec<Route>, method: Method, path: &str) -> (r: bool)
    ensures
        r == seen(v@).contains((method, path@)),
{
    let mut i: usize = 0;
    while i < v.len()
        invariant
            i <= v@.len(),
            forall|k: int| 0 <= k < i ==> seen(v@)[k] != (method, path@),
        decreases v@.len() - i,
    {
        let x = v[i];
        if x.method == method && same(x.path, path) {
            assert(seen(v@)[i as int] == (method, path@));
            return true;
        }
        i = i + 1;
    }
    false
}

proof fn contains_in_concat(a: Seq<(Method, Seq<char>)>, b: Seq<(Method, Seq<char>)>, x: (
    Method,
    Seq<char>,
))
    ensures
        (a + b).contains(x) <==> a.contains(x) || b.contains(x),
{
    if a.contains(x) {
        let i = choose|i: int| 0 <= i < a.len() && a[i] == x;
        assert((a + b)[i] == x);
    }
    if b.contains(x) {
        let i = choose|i: int| 0 <= i < b.len() && b[i] == x;
        assert((a + b)[a.len() + i] == x);
    }
    if (a + b).contains(x) {
        let i = choose|i: int| 0 <= i < (a + b).len() && (a + b)[i] == x;
        if i < a.len() {
            assert(a[i] == x);
        } else {
            assert(b[i - a.len()] == x);
        }
    }
}

/// What a route of the application needs of its caller.
pub fn access_of(method: Method, path: &str) -> (r: Option<Access>)
    ensures
        r == access(method, path@),
{
    let public = public_routes();
    if holds(&public, method, path) {
        return Some(Access::Public);
    }
    let breakglass = breakglass_routes();
    if holds(&breakglass, method, path) {
        return Some(Access::BreakGlass);
    }
    proof {
        let x = (method, path@);
        contains_in_concat(account_table(), chat_table(), x);
        contains_in_concat(account_table() + chat_table(), agent_table(), x);
        contains_in_concat(account_table() + chat_table() + agent_table(), knowledge_table(), x);
        contains_in_concat(
            account_table() + chat_table() + agent_table() + knowledge_table(),
            admin_table(),
            x,
        );
    }
    let account = account_routes();
    let chat = chat_routes();
    let agent = agent_routes();
    let knowledge = knowledge_routes();
    let admin = admin_routes();
    if holds(&account, method, path) || holds(&chat, method, path) || holds(&agent, method, path)
        || holds(&knowledge, method, path) || holds(&admin, method, path) {
        return Some(Access::Protected);
    }
    None
}

proof fn under_api()
    ensures
        forall|s: Seq<char>|
            s.len() >= 5 && s[0] == '/' && s[1] == 'a' && s[2] == 'p' && s[3] == 'i' && s[4] == '/' ==> #[trigger] starts_with(s, "/api/"@),
{
    reveal_strlit("/api/");
    assert forall|s: Seq<char>| s.len() >= 5 && s[0] == '/' && s[1] == 'a' && s[2] == 'p' && s[3] == 'i' && s[4] == '/' implies #[trigger] starts_with(s, "/api/"@) by {
        assert(s.subrange(0, 5) =~= "/api/"@);
    }
}

proof fn under_admin()
    ensures
        forall|s: Seq<char>|
            s.len() >= 11 && s[0] == '/' && s[1] == 'a' && s[2] == 'p' && s[3] == 'i' && s[4] == '/' && s[5] == 'a' && s[6] == 'd' && s[7] == 'm' && s[8] == 'i' && s[9] == 'n' && s[10] == '/' ==> #[trigger] starts_with(s, "/api/admin/"@),
{
    reveal_strlit("/api/admin/");
    assert forall|s: Seq<char>| s.len() >= 11 && s[0] == '/' && s[1] == 'a' && s[2] == 'p' && s[3] == 'i' && s[4] == '/' && s[5] == 'a' && s[6] == 'd' && s[7] == 'm' && s[8] == 'i' && s[9] == 'n' && s[10] == '/' implies #[trigger] starts_with(s, "/api/admin/"@) by {
        assert(s.subrange(0, 11) =~= "/api/admin/"@);
    }
}

/// What tells the paths of the public routes from all others, by a few of their characters:
/// they do not lie under the application's path, or are among the few that do.
spec fn reads_public(s: Seq<char>) -> bool {
    ||| s.len() > 1 && s[1] != 'a'
    ||| s.len() > 14 && (s[5] == 'a' && s[6] == 'u' && s[7] == 't' && s[8] == 'h') && (s[10] == 'c' || s[10] == 'r' || s[10] == 'l' || (s[10] == 'm' && s[14]
        == 'v'))
    ||| s.len() == 19 && (s[5] == 'b' && s[6] == 'r' && s[7] == 'a' && s[8] == 'n')
    ||| s.len() > 8 && ((s[5] == 't' && s[6] == 'e' && s[7] == 'l' && s[8] == 'e') || (s[5] == 'd' && s[6] == 'e' && s[7] == 'v' && s[8] == 'i') || (s[5] == 'm' && s[6] == 'c' && s[7] == 'p' && s[8] == '/'))
}

/// What tells the routes of the emergency administrator from all others, by a few characters of
/// their paths.
spec fn reads_emergency(method: Method, s: Seq<char>) -> bool {
    &&& s.len() > 14
    &&& s[1] == 'a'
    &&& (s[5] == 'a' && s[6] == 'd' && s[7] == 'm' && s[8] == 'i')
    &&& (s[11] == 'p' && s[12] == 'i' && s[13] == 'n' && s[14] == 'g') || (s[11] == 'b' && s[12] == 'r' && s[13] == 'e' && s[14] == 'a') || (s[11] == 's' && s[12] == 'u' && s[13] == 'p' && s[14] == 'e') || (s[11] == 'd' && s[12] == 'e' && s[13] == 's' && s[14] == 'k') || (method == Method::Put && (s[11] == 'i' && s[12] == 'n' && s[13] == 't' && s[14] == 'e'))
}

proof fn public_literals()
    ensures
        forall|i: int|
            0 <= i < public_table().len() ==> reads_public(#[trigger] public_table()[i].1),
{
    reveal_strlit("/health");
    reveal_strlit("/health/ready");
    reveal_strlit("/metrics");
    reveal_strlit("/api/branding/theme");
    reveal_strlit("/api/auth/config");
    reveal_strlit("/api/auth/register");
    reveal_strlit("/api/auth/login");
    reveal_strlit("/api/auth/logout");
    reveal_strlit("/api/auth/mfa/verify");
    reveal_strlit("/api/telemetry");
    reveal_strlit("/api/mcp/oauth/callback");
    reveal_strlit("/api/device/pair");
    reveal_strlit("/ws");
}

proof fn breakglass_literals()
    ensures
        forall|i: int|
            0 <= i < breakglass_table().len() ==> reads_emergency(
                breakglass_table()[i].0,
                #[trigger] breakglass_table()[i].1,
            ) && starts_with(breakglass_table()[i].1, "/api/admin/"@),
{
    under_admin();
    reveal_strlit("/api/admin/ping");
    reveal_strlit("/api/admin/breakglass/grants");
    reveal_strlit("/api/admin/integrations/{kind}");
    reveal_strlit("/api/admin/super/session");
    reveal_strlit("/api/admin/super/integrations");
    reveal_strlit("/api/admin/super/config");
    reveal_strlit("/api/admin/super/config/{key}");
    reveal_strlit("/api/admin/super/users");
    reveal_strlit("/api/admin/super/users/{id}/chats");
    reveal_strlit("/api/admin/super/users/{id}/deactivate");
    reveal_strlit("/api/admin/super/users/{id}/data");
    reveal_strlit("/api/admin/super/chats/{id}/messages");
    reveal_strlit("/api/admin/desktop-installer");
}

proof fn account_literals()
    ensures
        forall|i: int|
            0 <= i < account_table().len() ==> !reads_public(#[trigger] account_table()[i].1) && !reads_emergency(
                account_table()[i].0,
                account_table()[i].1,
            ) && starts_with(account_table()[i].1, "/api/"@),
{
    under_api();
    reveal_strlit("/api/whoami");
    reveal_strlit("/api/notices");
    reveal_strlit("/api/ws-ticket");
    reveal_strlit("/api/users");
    reveal_strlit("/api/me/profile");
    reveal_strlit("/api/me/avatar");
    reveal_strlit("/api/users/{id}/avatar");
    reveal_strlit("/api/me/api-keys");
    reveal_strlit("/api/me/api-keys/{id}");
    reveal_strlit("/api/me/devices/pairing-code");
    reveal_strlit("/api/me/devices");
    reveal_strlit("/api/me/devices/{id}");
    reveal_strlit("/api/me/account");
    reveal_strlit("/api/me/providers");
    reveal_strlit("/api/me/providers/llm");
    reveal_strlit("/api/me/providers/llm/test");
    reveal_strlit("/api/me/providers/llm/{id}");
    reveal_strlit("/api/me/llm-providers");
    reveal_strlit("/api/me/chats/{chat_id}/llm-provider");
    reveal_strlit("/api/me/providers/{role}");
    reveal_strlit("/api/me/providers/{role}/test");
    reveal_strlit("/api/config/branding");
    reveal_strlit("/api/branding/{kind}");
    reveal_strlit("/api/me/mcp-connections");
    reveal_strlit("/api/me/mcp-connections/{server_id}/connect");
    reveal_strlit("/api/me/mcp-connections/{server_id}");
    reveal_strlit("/api/auth/password");
    reveal_strlit("/api/auth/mfa/setup");
    reveal_strlit("/api/auth/mfa/confirm");
    reveal_strlit("/api/auth/mfa/disable");
    reveal_strlit("/api/auth/mfa/status");
    reveal_strlit("/api/auth/mfa/recovery/regenerate");
    reveal_strlit("/api/desktop/installer/meta");
    reveal_strlit("/api/desktop/installer");
    reveal_strlit("/api/desktop/latest.json");
}

proof fn chat_literals()
    ensures
        forall|i: int|
            0 <= i < chat_table().len() ==> !reads_public(#[trigger] chat_table()[i].1) && !reads_emergency(
                chat_table()[i].0,
                chat_table()[i].1,
            ) && starts_with(chat_table()[i].1, "/api/"@),
{
    under_api();
    reveal_strlit("/api/chat-attachments");
    reveal_strlit("/api/chat-attachments/{id}");
    reveal_strlit("/api/chats");
    reveal_strlit("/api/chats/{id}");
    reveal_strlit("/api/chats/{id}/messages");
    reveal_strlit("/api/chats/{id}/share");
    reveal_strlit("/api/chat-shares");
    reveal_strlit("/api/chat-shares/{chat_id}/{group_chat_id}");
    reveal_strlit("/api/chats/{id}/kb-links");
    reveal_strlit("/api/chats/{id}/kb-links/{kb}");
    reveal_strlit("/api/chats/{id}/artefacts");
    reveal_strlit("/api/chats/{id}/export");
    reveal_strlit("/api/messages/{id}/feedback");
    reveal_strlit("/api/voice/transcribe");
    reveal_strlit("/api/voice/speech");
    reveal_strlit("/api/group-chats");
    reveal_strlit("/api/group-chats/search");
    reveal_strlit("/api/group-chats/{id}");
    reveal_strlit("/api/group-chats/{id}/members");
    reveal_strlit("/api/group-chats/{id}/members/{user_id}");
    reveal_strlit("/api/group-chats/{id}/messages");
    reveal_strlit("/api/group-chats/{id}/messages/{message_id}/reactions");
    reveal_strlit("/api/group-chats/{id}/notes");
    reveal_strlit("/api/group-chats/{id}/notes/{note_id}");
    reveal_strlit("/api/dms/{user_id}");
    reveal_strlit("/api/message-attachments");
    reveal_strlit("/api/message-attachments/{id}");
}

proof fn agent_literals()
    ensures
        forall|i: int|
            0 <= i < agent_table().len() ==> !reads_public(#[trigger] agent_table()[i].1) && !reads_emergency(
                agent_table()[i].0,
                agent_table()[i].1,
            ) && starts_with(agent_table()[i].1, "/api/"@),
{
    under_api();
    reveal_strlit("/api/agent-runs");
    reveal_strlit("/api/agent-runs/pending");
    reveal_strlit("/api/agent-runs/{id}/approve");
    reveal_strlit("/api/agent-runs/{id}/reject");
    reveal_strlit("/api/agent-runs/{id}/cancel");
    reveal_strlit("/api/agent-runs/{id}");
    reveal_strlit("/api/agents");
    reveal_strlit("/api/agents/{id}");
    reveal_strlit("/api/agents/{id}/skills/{skill_id}");
    reveal_strlit("/api/agents/{id}/versions");
    reveal_strlit("/api/agents/{id}/versions/{vnum}");
    reveal_strlit("/api/agents/{id}/versions/{vnum}/rollback");
    reveal_strlit("/api/skills");
    reveal_strlit("/api/skills/{id}");
    reveal_strlit("/api/skills/{id}/test");
    reveal_strlit("/api/skills/{id}/enabled");
    reveal_strlit("/api/prompts");
    reveal_strlit("/api/prompts/{id}");
    reveal_strlit("/api/prompts/{id}/render");
    reveal_strlit("/api/memory");
    reveal_strlit("/api/memory/{id}");
    reveal_strlit("/api/memory/recall");
    reveal_strlit("/api/agents/{id}/feedback/summary");
    reveal_strlit("/api/automations");
    reveal_strlit("/api/automations/calendar");
    reveal_strlit("/api/automations/{id}");
    reveal_strlit("/api/automations/{id}/run");
    reveal_strlit("/api/automations/{id}/runs");
    reveal_strlit("/api/workflows");
    reveal_strlit("/api/workflows/triggers");
    reveal_strlit("/api/workflows/{id}");
    reveal_strlit("/api/workflows/{id}/runs");
    reveal_strlit("/api/integrations");
    reveal_strlit("/api/tools/catalog");
}

proof fn knowledge_literals()
    ensures
        forall|i: int|
            0 <= i < knowledge_table().len() ==> !reads_public(#[trigger] knowledge_table()[i].1) && !reads_emergency(
                knowledge_table()[i].0,
                knowledge_table()[i].1,
            ) && starts_with(knowledge_table()[i].1, "/api/"@),
{
    under_api();
    reveal_strlit("/api/projects");
    reveal_strlit("/api/projects/{id}");
    reveal_strlit("/api/projects/{id}/knowledge");
    reveal_strlit("/api/projects/{id}/documents");
    reveal_strlit("/api/knowledge-docs/{id}/source");
    reveal_strlit("/api/project-knowledge");
    reveal_strlit("/api/kb");
    reveal_strlit("/api/kb/{id}");
    reveal_strlit("/api/kb/{id}/documents");
    reveal_strlit("/api/kb/{id}/documents/{doc}");
    reveal_strlit("/api/kb/{id}/grants");
    reveal_strlit("/api/kb/{id}/grants/{grant}");
    reveal_strlit("/api/kb/{id}/promote");
    reveal_strlit("/api/projects/{id}/kb-links");
    reveal_strlit("/api/projects/{id}/kb-links/{kb}");
    reveal_strlit("/api/projects/{id}/workspace/documents");
    reveal_strlit("/api/documents/{id}");
    reveal_strlit("/api/documents/{id}/versions/{vid}/download");
    reveal_strlit("/api/documents/{id}/versions/{vid}/text");
    reveal_strlit("/api/documents/{id}/versions/{vid}/pdf");
    reveal_strlit("/api/documents/{id}/edits");
    reveal_strlit("/api/documents/{id}/edits/accept-all");
    reveal_strlit("/api/documents/{id}/edits/reject-all");
    reveal_strlit("/api/documents/{id}/edits/{w_id}/accept");
    reveal_strlit("/api/documents/{id}/edits/{w_id}/reject");
    reveal_strlit("/api/tabular-reviews");
    reveal_strlit("/api/projects/{id}/tabular-reviews");
    reveal_strlit("/api/tabular-reviews/{id}");
    reveal_strlit("/api/tabular-reviews/{id}/run");
    reveal_strlit("/api/tabular-reviews/{id}/cancel");
    reveal_strlit("/api/tabular-reviews/{id}/rerun-errors");
    reveal_strlit("/api/tabular-reviews/{id}/cells/{document_id}/{column_key}/rerun");
    reveal_strlit("/api/tabular-reviews/{id}/export");
    reveal_strlit("/api/tabular-reviews/{id}/chat");
    reveal_strlit("/api/verify-draft");
    reveal_strlit("/api/verification-runs");
    reveal_strlit("/api/verification-runs/{id}");
    reveal_strlit("/api/verification-runs/{id}/report");
    reveal_strlit("/api/verification-runs/{id}/repair");
    reveal_strlit("/api/artefacts/{id}/download");
    reveal_strlit("/api/artefacts/{id}/convert");
    reveal_strlit("/api/artefacts/{id}/create-page");
    reveal_strlit("/api/research/prepare");
    reveal_strlit("/api/research/start");
    reveal_strlit("/api/research/templates");
    reveal_strlit("/api/research/templates/{id}");
    reveal_strlit("/api/exports");
    reveal_strlit("/api/exports/{id}");
    reveal_strlit("/api/exports/{id}/download");
}

proof fn admin_literals()
    ensures
        forall|i: int|
            0 <= i < admin_table().len() ==> !reads_public(#[trigger] admin_table()[i].1) && !reads_emergency(
                admin_table()[i].0,
                admin_table()[i].1,
            ) && starts_with(admin_table()[i].1, "/api/"@),
{
    under_api();
    reveal_strlit("/api/admin/users/{id}/api-keys");
    reveal_strlit("/api/admin/users/{id}/api-keys/{key_id}");
    reveal_strlit("/api/admin/users/{id}/devices");
    reveal_strlit("/api/admin/users/{id}/devices/{device_id}");
    reveal_strlit("/api/admin/projects/{id}/export");
    reveal_strlit("/api/admin/announcements");
    reveal_strlit("/api/admin/announcements/{id}");
    reveal_strlit("/api/admin/welcome");
    reveal_strlit("/api/admin/config");
    reveal_strlit("/api/admin/config/{key}");
    reveal_strlit("/api/admin/providers");
    reveal_strlit("/api/admin/providers/llm");
    reveal_strlit("/api/admin/providers/llm/test");
    reveal_strlit("/api/admin/providers/llm/{id}");
    reveal_strlit("/api/admin/providers/llm/{id}/default");
    reveal_strlit("/api/admin/providers/{role}");
    reveal_strlit("/api/admin/providers/{role}/test");
    reveal_strlit("/api/admin/voice-live");
    reveal_strlit("/api/admin/embedding-index");
    reveal_strlit("/api/admin/embedding-index/reindex");
    reveal_strlit("/api/admin/users");
    reveal_strlit("/api/admin/users/{id}/deactivate");
    reveal_strlit("/api/admin/users/{id}/reactivate");
    reveal_strlit("/api/admin/users/{id}/mfa/reset");
    reveal_strlit("/api/admin/analytics");
    reveal_strlit("/api/admin/groundedness");
    reveal_strlit("/api/admin/feedback");
    reveal_strlit("/api/admin/grants");
    reveal_strlit("/api/admin/grants/{id}");
    reveal_strlit("/api/groups");
    reveal_strlit("/api/groups/{id}");
    reveal_strlit("/api/groups/{id}/members");
    reveal_strlit("/api/groups/{id}/members/{user_id}");
    reveal_strlit("/api/groups/{id}/feature-flags");
    reveal_strlit("/api/groups/{id}/feature-flags/{feature}");
    reveal_strlit("/api/power/directory");
    reveal_strlit("/api/power/analytics");
    reveal_strlit("/api/admin/integrations");
    reveal_strlit("/api/admin/integrations/{kind}");
    reveal_strlit("/api/admin/mcp-servers");
    reveal_strlit("/api/admin/mcp-servers/{id}");
    reveal_strlit("/api/admin/mcp-servers/{id}/approve");
    reveal_strlit("/api/admin/mcp-servers/{id}/oauth/discover");
    reveal_strlit("/api/admin/mcp-servers/{id}/oauth/client");
    reveal_strlit("/api/admin/mcp-servers/{id}/oauth/catalog-source");
    reveal_strlit("/api/admin/tools/native/{name}");
    reveal_strlit("/api/admin/tools/custom");
    reveal_strlit("/api/admin/tools/custom/{id}");
    reveal_strlit("/api/admin/tools/custom/{id}/enable");
    reveal_strlit("/api/admin/tools/custom/{id}/disable");
    reveal_strlit("/api/admin/tools/custom/{id}/test-run");
}

/// A protected route reads as one, whichever table it is in.
proof fn protected_reads_so(method: Method, path: Seq<char>)
    requires
        protected_table().contains((method, path)),
    ensures
        !reads_public(path),
        !reads_emergency(method, path),
        starts_with(path, "/api/"@),
{
    let x = (method, path);
    contains_in_concat(account_table(), chat_table(), x);
    contains_in_concat(account_table() + chat_table(), agent_table(), x);
    contains_in_concat(account_table() + chat_table() + agent_table(), knowledge_table(), x);
    contains_in_concat(
        account_table() + chat_table() + agent_table() + knowledge_table(),
        admin_table(),
        x,
    );
    account_literals();
    chat_literals();
    agent_literals();
    knowledge_literals();
    admin_literals();
    if account_table().contains(x) {
        assert(account_table()[account_table().index_of(x)].1 == path);
    } else if chat_table().contains(x) {
        assert(chat_table()[chat_table().index_of(x)].1 == path);
    } else if agent_table().contains(x) {
        assert(agent_table()[agent_table().index_of(x)].1 == path);
    } else if knowledge_table().contains(x) {
        assert(knowledge_table()[knowledge_table().index_of(x)].1 == path);
    } else {
        assert(admin_table()[admin_table().index_of(x)].1 == path);
    }
}

/// Every route of the emergency administrator lies under the administrators' path.
pub proof fn breakglass_routes_are_administrative(method: Method, path: Seq<char>)
    requires
        access(method, path) == Some(Access::BreakGlass),
    ensures
        starts_with(path, "/api/admin/"@),
{
    breakglass_literals();
    assert(breakglass_table()[breakglass_table().index_of((method, path))].1 == path);
}

/// Every route that needs an authenticated account lies under the application's
/// path.
pub proof fn protected_routes_lie_under_api(method: Method, path: Seq<char>)
    requires
        access(method, path) == Some(Access::Protected),
    ensures
        starts_with(path, "/api/"@),
{
    protected_reads_so(method, path);
}

/// A route is in one class only: none is open to the public and protected at once,
/// and none that needs an emergency grant is open without one.
pub proof fn routes_are_in_one_class(method: Method, path: Seq<char>)
    ensures
        public_table().contains((method, path)) ==> !breakglass_table().contains((method, path))
            && !protected_table().contains((method, path)),
        breakglass_table().contains((method, path)) ==> !protected_table().contains(
            (method, path),
        ),
{
    let x = (method, path);
    if public_table().contains(x) {
        public_literals();
        assert(public_table()[public_table().index_of(x)].1 == path);
    }
    if breakglass_table().contains(x) {
        breakglass_literals();
        assert(breakglass_table()[breakglass_table().index_of(x)].1 == path);
    }
    if protected_table().contains(x) {
        protected_reads_so(method, path);
    }
}

/// The largest client error report, in bytes.
pub const REPORT_LIMIT: usize = 16 * 1024;

/// The largest avatar, in bytes.
pub const AVATAR_LIMIT: usize = 2 * 1024 * 1024;

/// The largest voice recording, in bytes.
pub const RECORDING_LIMIT: usize = 32 * 1024 * 1024;

/// The largest document, in bytes.
pub const DOCUMENT_LIMIT: usize = 64 * 1024 * 1024;

/// The largest body that the routes of a path accept, where that is not the
/// server's usual.
pub open spec fn body_limit(path: Seq<char>) -> Option<usize> {
    if path == "/api/telemetry"@ {
        Some(REPORT_LIMIT)
    } else if path == "/api/me/avatar"@ {
        Some(AVATAR_LIMIT)
    } else if path == "/api/voice/transcribe"@ {
        Some(RECORDING_LIMIT)
    } else if path == "/api/chat-attachments"@ || path == "/api/projects/{id}/documents"@ || path
        == "/api/kb/{id}/documents"@ || path == "/api/projects/{id}/workspace/documents"@ {
        Some(DOCUMENT_LIMIT)
    } else {
        None
    }
}

pub fn body_limit_of(path: &str) -> (r: Option<usize>)
    ensures
        r == body_limit(path@),
{
    if same(path, "/api/telemetry") {
        Some(REPORT_LIMIT)
    } else if same(path, "/api/me/avatar") {
        Some(AVATAR_LIMIT)
    } else if same(path, "/api/voice/transcribe") {
        Some(RECORDING_LIMIT)
    } else if same(path, "/api/chat-attachments") || same(path, "/api/projects/{id}/documents")
        || same(path, "/api/kb/{id}/documents") || same(
        path,
        "/api/projects/{id}/workspace/documents",
    ) {
        Some(DOCUMENT_LIMIT)
    } else {
        None
    }
}

/// Reports, pictures, recordings and documents have limits of their own, and nothing else has.
pub proof fn bodies_are_limited_where_they_are_large(path: Seq<char>)
    ensures
        body_limit("/api/telemetry"@) == Some(16_384usize),
        body_limit("/api/me/avatar"@) == Some(2_097_152usize),
        body_limit("/api/voice/transcribe"@) == Some(33_554_432usize),
        body_limit("/api/chat-attachments"@) == Some(67_108_864usize),
        body_limit("/api/projects/{id}/documents"@) == Some(67_108_864usize),
        body_limit("/api/kb/{id}/documents"@) == Some(67_108_864usize),
        body_limit("/api/projects/{id}/workspace/documents"@) == Some(67_108_864usize),
        body_limit(path) is Some
            ==> path == "/api/telemetry"@
                || path == "/api/me/avatar"@
                || path == "/api/voice/transcribe"@
                || path == "/api/chat-attachments"@
                || path == "/api/projects/{id}/documents"@
                || path == "/api/kb/{id}/documents"@
                || path == "/api/projects/{id}/workspace/documents"@,
{
    reveal_strlit("/api/telemetry");
    reveal_strlit("/api/me/avatar");
    reveal_strlit("/api/voice/transcribe");
    reveal_strlit("/api/chat-attachments");
    reveal_strlit("/api/projects/{id}/documents");
    reveal_strlit("/api/kb/{id}/documents");
    reveal_strlit("/api/projects/{id}/workspace/documents");
    assert("/api/telemetry"@[5] != "/api/me/avatar"@[5]);
    assert("/api/telemetry"@.len() != "/api/voice/transcribe"@.len());
    assert("/api/telemetry"@.len() != "/api/chat-attachments"@.len());
    assert("/api/telemetry"@.len() != "/api/projects/{id}/documents"@.len());
    assert("/api/telemetry"@.len() != "/api/kb/{id}/documents"@.len());
    assert("/api/telemetry"@.len() != "/api/projects/{id}/workspace/documents"@.len());
    assert("/api/me/avatar"@.len() != "/api/voice/transcribe"@.len());
    assert("/api/me/avatar"@.len() != "/api/chat-attachments"@.len());
    assert("/api/me/avatar"@.len() != "/api/projects/{id}/documents"@.len());
    assert("/api/me/avatar"@.len() != "/api/kb/{id}/documents"@.len());
    assert("/api/me/avatar"@.len() != "/api/projects/{id}/workspace/documents"@.len());
    assert("/api/voice/transcribe"@[5] != "/api/chat-attachments"@[5]);
    assert("/api/voice/transcribe"@.len() != "/api/projects/{id}/documents"@.len());
    assert("/api/voice/transcribe"@.len() != "/api/kb/{id}/documents"@.len());
    assert("/api/voice/transcribe"@.len() != "/api/projects/{id}/workspace/documents"@.len());
    assert("/api/chat-attachments"@.len() != "/api/projects/{id}/documents"@.len());
    assert("/api/chat-attachments"@.len() != "/api/kb/{id}/documents"@.len());
    assert("/api/chat-attachments"@.len() != "/api/projects/{id}/workspace/documents"@.len());
    assert("/api/projects/{id}/documents"@.len() != "/api/kb/{id}/documents"@.len());
    assert("/api/projects/{id}/documents"@.len() != "/api/projects/{id}/workspace/documents"@.len());
    assert("/api/kb/{id}/documents"@.len() != "/api/projects/{id}/workspace/documents"@.len());
}

/// A route is open as the first list says that has it, and there is none that no list has.
pub proof fn routes_are_open_as_listed(method: Method, path: Seq<char>)
    ensures
        access(method, path) == Some(Access::Public) <==> public_table().contains((method, path)),
        access(method, path) == Some(Access::BreakGlass)
            <==> !public_table().contains((method, path))
                && breakglass_table().contains((method, path)),
        access(method, path) is None
            <==> !public_table().contains((method, path))
                && !breakglass_table().contains((method, path))
                && !protected_table().contains((method, path)),
{
}

/// A route is seen with its method and its path.
pub proof fn routes_are_seen_whole(v: Seq<Route>)
    ensures
        seen(v).len() == v.len(),
        forall|i: int| 0 <= i < v.len() ==> #[trigger] seen(v)[i] == (v[i].method, v[i].path@),
{
}

} // verus!
