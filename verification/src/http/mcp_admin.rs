//! The registry of tool servers: what one has to be, how it is authenticated to, and what
//! it takes to approve it.

use vstd::prelude::*;
use vstd::string::*;

use crate::clock::{spell, spelled, Instant};
use crate::error::{forbidden, refusal, validation, AppError, Refusal};
use crate::grants::{refusal_in, Permissions};
use crate::json::{
    count_value,
    empty_object,
    flag_value,
    items_at,
    json_in,
    member_at,
    put,
    read_items,
    text_value,
    Json,
};
use crate::order::{highest_first, ordered_lists_descend, rank_list, Ranked};
use crate::principal::{AuthContext, Id};
use crate::text::{
    blank, contains, filled, has_text, joined3, opt_str, opt_text, same, texts, trim_filled, trimmed,
};
use crate::trail::{entry_by, note, record_by, AuditEvent};

verus! {

/// A registered server.
pub struct ServerRow {
    pub id: Id,
    pub slug: String,
    pub name: String,
    pub transport: String,
    pub url: Option<String>,
    pub status: String,
    pub enabled: bool,
    pub tools_catalog: Option<serde_json::Value>,
    pub last_health_at: Option<Instant>,
    pub created_at: Instant,
    pub auth_type: String,
    pub auth_header_name: Option<String>,
    pub auth_value_enc: Option<String>,
    pub requires_egress: bool,
}

/// A server as administrators see it: that it has a secret, never the secret.
pub struct ServerOut {
    pub id: Id,
    pub slug: String,
    pub name: String,
    pub transport: String,
    pub url: Option<String>,
    pub status: String,
    pub enabled: bool,
    pub connected: bool,
    pub tool_count: i64,
    pub last_health_at: Option<String>,
    pub created_at: String,
    pub auth_type: String,
    pub auth_header_name: Option<String>,
    pub has_secret: bool,
    pub requires_egress: bool,
}

/// How many tools a catalogue lists: none where it is no list.
pub open spec fn tools_in(catalog: Option<serde_json::Value>) -> nat {
    match catalog {
        Some(v) => match items_at(json_in(v)) {
            Some(l) => l.len(),
            None => 0,
        },
        None => 0,
    }
}

/// What administrators see of a stored server.
pub open spec fn server_shown(row: ServerRow, connected: bool, r: ServerOut) -> bool {
    &&& r.id == row.id
    &&& r.slug == row.slug
    &&& r.name == row.name
    &&& r.transport == row.transport
    &&& r.url == row.url
    &&& r.status == row.status
    &&& r.enabled == row.enabled
    &&& r.connected == connected
    &&& r.tool_count == (if tools_in(row.tools_catalog) <= i64::MAX {
        tools_in(row.tools_catalog) as int
    } else {
        i64::MAX as int
    })
    &&& opt_text(r.last_health_at) == (match row.last_health_at {
        Some(t) => Some(spelled(t)),
        None => None,
    })
    &&& r.created_at@ == spelled(row.created_at)
    &&& r.auth_type == row.auth_type
    &&& r.auth_header_name == row.auth_header_name
    &&& r.has_secret == (row.auth_value_enc is Some)
    &&& r.requires_egress == row.requires_egress
}

/// A server as it is listed.
pub fn server_out(row: ServerRow, connected: bool) -> (r: ServerOut)
    ensures
        server_shown(row, connected, r),
{
    let tool_count: i64 = match &row.tools_catalog {
        Some(v) => match read_items(v) {
            Some(l) => {
                let n: u64 = l.len() as u64;
                if n <= 9223372036854775807 {
                    n as i64
                } else {
                    i64::MAX
                }
            },
            None => 0,
        },
        None => 0,
    };
    ServerOut {
        id: row.id,
        slug: row.slug,
        name: row.name,
        transport: row.transport,
        url: row.url,
        status: row.status,
        enabled: row.enabled,
        connected,
        tool_count,
        last_health_at: match row.last_health_at {
            Some(t) => Some(spell(t)),
            None => None,
        },
        created_at: spell(row.created_at),
        auth_type: row.auth_type,
        auth_header_name: row.auth_header_name,
        has_secret: row.auth_value_enc.is_some(),
        requires_egress: row.requires_egress,
    }
}

pub struct RegisterBody {
    pub slug: String,
    pub name: String,
    pub transport: String,
    pub command: Option<Vec<String>>,
    pub url: Option<String>,
    pub auth_type: Option<String>,
    pub auth_header_name: Option<String>,
    pub auth_value: Option<String>,
    pub requires_egress: bool,
}

/// How a server is authenticated to. The secret is in the clear here and encrypted before
/// it is stored.
pub struct ServerAuth {
    pub auth_type: String,
    pub header_name: Option<String>,
    pub secret: Option<String>,
}

/// The scheme that is asked for.
pub open spec fn scheme_of(asked: Option<Seq<char>>) -> Seq<char> {
    match asked {
        Some(s) => s,
        None => "none"@,
    }
}

pub open spec fn takes_secret(scheme: Seq<char>) -> bool {
    scheme == "bearer"@ || scheme == "api_key"@ || scheme == "header"@
}

pub open spec fn auth_refusal(
    has_key: bool,
    asked: Option<Seq<char>>,
    header_name: Option<Seq<char>>,
    value: Option<Seq<char>>,
) -> Option<Refusal> {
    let at = scheme_of(asked);
    if at == "none"@ {
        None
    } else if !takes_secret(at) {
        Some(Refusal::Validation("auth_type must be none|bearer|api_key|header, got '"@ + at + "'"@))
    } else if filled(value) is None {
        Some(Refusal::Validation("auth_type '"@ + at + "' requires a non-empty auth_value"@))
    } else if at != "bearer"@ && filled(header_name) is None {
        Some(Refusal::Validation("auth_type '"@ + at + "' requires auth_header_name"@))
    } else if !has_key {
        Some(
            Refusal::Validation(
                "server encryption key not configured (set message_encryption_key)"@,
            ),
        )
    } else {
        None
    }
}

/// Settles how a server is authenticated to. A bearer token goes into `Authorization`; a
/// key or a header needs a header's name; every secret needs a key to encrypt it with.
pub fn normalise_auth(
    has_key: bool,
    auth_type: Option<&str>,
    header_name: Option<&str>,
    value: Option<&str>,
) -> (r: Result<ServerAuth, AppError>)
    ensures
        refusal(r) == auth_refusal(
            has_key,
            opt_str(auth_type),
            opt_str(header_name),
            opt_str(value),
        ),
        r matches Ok(a) ==> {
            let at = scheme_of(opt_str(auth_type));
            &&& a.auth_type@ == at
            &&& opt_text(a.header_name) == (if at == "none"@ {
                None
            } else if at == "bearer"@ {
                Some("Authorization"@)
            } else {
                filled(opt_str(header_name))
            })
            &&& opt_text(a.secret) == (if at == "none"@ {
                None
            } else {
                filled(opt_str(value))
            })
        },
{
    let at = match auth_type {
        Some(s) => s,
        None => "none",
    };
    if same(at, "none") {
        return Ok(ServerAuth { auth_type: "none".to_owned(), header_name: None, secret: None });
    }
    if !same(at, "bearer") && !same(at, "api_key") && !same(at, "header") {
        return Err(
            AppError::Validation(
                joined3("auth_type must be none|bearer|api_key|header, got '", at, "'"),
            ),
        );
    }
    let secret = match trim_filled(value) {
        Some(s) => s,
        None => {
            return Err(
                AppError::Validation(
                    joined3("auth_type '", at, "' requires a non-empty auth_value"),
                ),
            );
        },
    };
    let hname = if same(at, "bearer") {
        "Authorization".to_owned()
    } else {
        match trim_filled(header_name) {
            Some(h) => h,
            None => {
                return Err(
                    AppError::Validation(joined3("auth_type '", at, "' requires auth_header_name")),
                );
            },
        }
    };
    if !has_key {
        return Err(
            validation("server encryption key not configured (set message_encryption_key)"),
        );
    }
    Ok(ServerAuth { auth_type: at.to_owned(), header_name: Some(hname), secret: Some(secret) })
}

/// What is put on every request to a server.
pub enum HttpAuth {
    Bearer(String),
    Header { name: String, value: String },
}

pub open spec fn http_auth_refusal(
    has_key: bool,
    auth_type: Seq<char>,
    header_name: Option<Seq<char>>,
    has_secret: bool,
    decrypt_refusal: Option<Refusal>,
) -> Option<Refusal> {
    if auth_type == "none"@ {
        None
    } else if !has_secret {
        Some(Refusal::Validation("auth secret missing"@))
    } else if !has_key {
        Some(Refusal::Validation("server encryption key not configured"@))
    } else if decrypt_refusal is Some {
        decrypt_refusal
    } else if auth_type == "bearer"@ {
        None
    } else if auth_type == "api_key"@ || auth_type == "header"@ {
        if header_name is None {
            Some(Refusal::Validation("auth header name missing"@))
        } else {
            None
        }
    } else {
        Some(Refusal::Validation("invalid auth_type '"@ + auth_type + "'"@))
    }
}

/// What the decrypted secret is, or why it could not be decrypted.
pub open spec fn decrypt_failure(secret: Result<String, AppError>) -> Option<Refusal> {
    match secret {
        Ok(_) => None,
        Err(e) => Some(e@),
    }
}

/// What is put on every request holds the secret, under the header that the scheme has.
pub open spec fn auth_holds(
    a: Option<HttpAuth>,
    auth_type: Seq<char>,
    header_name: Option<Seq<char>>,
    secret: Seq<char>,
) -> bool {
    match a {
        None => auth_type == "none"@,
        Some(HttpAuth::Bearer(s)) => auth_type != "none"@ && auth_type == "bearer"@ && s@ == secret,
        Some(HttpAuth::Header { name, value }) => {
            &&& auth_type != "none"@
            &&& auth_type != "bearer"@
            &&& header_name == Some(name@)
            &&& value@ == secret
        },
    }
}

/// Builds what is put on every request to a server from what is stored. `secret` is what
/// came of decrypting the stored one.
pub fn build_http_auth(
    has_key: bool,
    auth_type: &str,
    header_name: Option<&str>,
    has_secret: bool,
    secret: Result<String, AppError>,
) -> (r: Result<Option<HttpAuth>, AppError>)
    ensures
        refusal(r) == http_auth_refusal(
            has_key,
            auth_type@,
            opt_str(header_name),
            has_secret,
            decrypt_failure(secret),
        ),
        r matches Ok(a) ==> auth_holds(
            a,
            auth_type@,
            opt_str(header_name),
            match secret {
                Ok(s) => s@,
                Err(_) => Seq::empty(),
            },
        ),
        r matches Ok(a) ==> a is Some ==> secret is Ok,
{
    if same(auth_type, "none") {
        return Ok(None);
    }
    if !has_secret {
        return Err(validation("auth secret missing"));
    }
    if !has_key {
        return Err(validation("server encryption key not configured"));
    }
    let value = match secret {
        Ok(s) => s,
        Err(e) => {
            return Err(e);
        },
    };
    if same(auth_type, "bearer") {
        return Ok(Some(HttpAuth::Bearer(value)));
    }
    if same(auth_type, "api_key") || same(auth_type, "header") {
        return match header_name {
            Some(n) => Ok(Some(HttpAuth::Header { name: n.to_owned(), value })),
            None => Err(validation("auth header name missing")),
        };
    }
    Err(AppError::Validation(joined3("invalid auth_type '", auth_type, "'")))
}

/// The header that is stored for a server.
pub open spec fn stored_header(at: Seq<char>, header_name: Option<Seq<char>>) -> Option<Seq<char>> {
    if at == "none"@ {
        None
    } else if at == "bearer"@ {
        Some("Authorization"@)
    } else {
        filled(header_name)
    }
}

/// What was settled when a server was registered is accepted when it is approved, and comes back
/// as it was: with the secret that was registered, and under the header that was. `built` is
/// what is built from what was stored.
pub proof fn registered_auth_can_be_used(
    asked: Option<Seq<char>>,
    header_name: Option<Seq<char>>,
    value: Option<Seq<char>>,
    secret: Seq<char>,
    built: Option<HttpAuth>,
)
    requires
        auth_refusal(true, asked, header_name, value) is None,
        scheme_of(asked) != "none"@ ==> filled(value) == Some(secret),
        auth_holds(
            built,
            scheme_of(asked),
            stored_header(scheme_of(asked), header_name),
            secret,
        ),
    ensures
        ({
            let at = scheme_of(asked);
            &&& http_auth_refusal(
                true,
                at,
                stored_header(at, header_name),
                at != "none"@,
                None,
            ) is None
            &&& at == "none"@ <==> built is None
            &&& at == "bearer"@ ==> (built matches Some(HttpAuth::Bearer(s)) && filled(value)
                == Some(s@))
            &&& at != "none"@ && at != "bearer"@ ==> (built matches Some(
                HttpAuth::Header { name, value: v },
            ) && filled(header_name) == Some(name@) && filled(value) == Some(v@))
        }),
{
    reveal_strlit("none");
    reveal_strlit("bearer");
    assert("none"@.len() != "bearer"@.len());
}

impl Ranked for (ServerRow, bool) {
    /// The newest come first.
    open spec fn rank(self) -> (int, int) {
        (self.0.created_at as int, 0)
    }

    fn outranks(&self, other: &(ServerRow, bool)) -> (r: bool) {
        self.0.created_at > other.0.created_at
    }
}

/// The servers there are, for whoever manages them, the newest first. With each comes whether it
/// is connected.
pub fn list(permissions: Permissions, rows: Vec<(ServerRow, bool)>) -> (r: Result<
    Vec<ServerOut>,
    AppError,
>)
    ensures
        refusal(r) == refusal_in(permissions.mcp_manage),
        r matches Ok(v) ==> {
            let newest = highest_first(rows@);
            &&& v@.len() == newest.len()
            &&& forall|i: int|
                0 <= i < v@.len() ==> server_shown(newest[i].0, newest[i].1, #[trigger] v@[i])
        },
{
    match permissions.mcp_manage {
        Some(e) => {
            return Err(e);
        },
        None => {},
    }
    let rows = rank_list(rows);
    let n: usize = rows.len();
    let mut rest = rows;
    let mut out: Vec<ServerOut> = Vec::new();
    let mut i: usize = 0;
    while i < n
        invariant
            n == rows@.len(),
            i <= n,
            rest@ == rows@.skip(i as int),
            out@.len() == i,
            forall|k: int| 0 <= k < i ==> server_shown(rows@[k].0, rows@[k].1, #[trigger] out@[k]),
        decreases n - i,
    {
        let (row, connected) = rest.remove(0);
        assert((row, connected) == rows@[i as int]);
        assert(rest@ =~= rows@.skip(i as int + 1));
        out.push(server_out(row, connected));
        i = i + 1;
    }
    Ok(out)
}

pub open spec fn register_refusal(
    permissions: Permissions,
    has_key: bool,
    body: RegisterBody,
    endpoint_refusal: Option<Refusal>,
) -> Option<Refusal> {
    if permissions.mcp_manage is Some {
        refusal_in(permissions.mcp_manage)
    } else if trimmed(body.slug@).len() == 0 || has_text(body.slug@, "__"@) {
        Some(Refusal::Validation("slug must be non-empty and must not contain '__'"@))
    } else if body.transport@ == "stdio"@ {
        if body.command matches Some(c) && c@.len() > 0 {
            None
        } else {
            Some(Refusal::Validation("a stdio server requires a non-empty command"@))
        }
    } else if body.transport@ == "http"@ {
        if body.url is None {
            Some(Refusal::Validation("an http server requires a url"@))
        } else if endpoint_refusal is Some {
            endpoint_refusal
        } else {
            auth_refusal(
                has_key,
                opt_text(body.auth_type),
                opt_text(body.auth_header_name),
                opt_text(body.auth_value),
            )
        }
    } else {
        Some(Refusal::Validation("transport must be stdio|http, got '"@ + body.transport@ + "'"@))
    }
}

/// Registers a server: a program that is started, or an address. `endpoint_refusal` is
/// what is wrong with the address. A program is not authenticated to.
pub fn register(
    permissions: Permissions,
    has_key: bool,
    body: &RegisterBody,
    endpoint_refusal: Option<AppError>,
) -> (r: Result<ServerAuth, AppError>)
    ensures
        refusal(r) == register_refusal(permissions, has_key, *body, refusal_in(endpoint_refusal)),
        r matches Ok(a) ==> if body.transport@ == "stdio"@ {
            a.auth_type@ == "none"@ && a.header_name is None && a.secret is None
        } else {
            let at = scheme_of(opt_text(body.auth_type));
            &&& a.auth_type@ == at
            &&& opt_text(a.header_name) == stored_header(at, opt_text(body.auth_header_name))
            &&& opt_text(a.secret) == (if at == "none"@ {
                None
            } else {
                filled(opt_text(body.auth_value))
            })
        },
{
    match permissions.mcp_manage {
        Some(e) => {
            return Err(e);
        },
        None => {},
    }
    if blank(body.slug.as_str()) || contains(body.slug.as_str(), "__") {
        return Err(validation("slug must be non-empty and must not contain '__'"));
    }
    let transport = body.transport.as_str();
    if same(transport, "stdio") {
        let given = match &body.command {
            Some(c) => c.len() > 0,
            None => false,
        };
        if !given {
            return Err(validation("a stdio server requires a non-empty command"));
        }
        return Ok(ServerAuth { auth_type: "none".to_owned(), header_name: None, secret: None });
    }
    if same(transport, "http") {
        if body.url.is_none() {
            return Err(validation("an http server requires a url"));
        }
        match endpoint_refusal {
            Some(e) => {
                return Err(e);
            },
            None => {},
        }
        return normalise_auth(
            has_key,
            crate::text::as_text(&body.auth_type),
            crate::text::as_text(&body.auth_header_name),
            crate::text::as_text(&body.auth_value),
        );
    }
    Err(AppError::Validation(joined3("transport must be stdio|http, got '", transport, "'")))
}

/// What a failed insertion means: a slug that is taken is the caller's mistake.
pub fn insert_failure(message: &str, slug: &str) -> (r: AppError)
    ensures
        r@ == (if has_text(message@, "mcp_servers_slug_key"@) {
            Refusal::Validation("an MCP server with slug '"@ + slug@ + "' already exists"@)
        } else {
            Refusal::Other(message@)
        }),
{
    if contains(message, "mcp_servers_slug_key") {
        AppError::Validation(joined3("an MCP server with slug '", slug, "' already exists"))
    } else {
        AppError::Other(message.to_owned())
    }
}

/// How a server is reached.
pub enum Transport {
    Stdio { command: Vec<String> },
    Http { url: String, auth: Option<HttpAuth> },
}

/// A registered server, as far as approving it reads it.
pub struct ApproveRow {
    pub transport: String,
    /// The stored command, where it is a list of strings.
    pub command: Option<Vec<String>>,
    pub url: Option<String>,
    pub auth_type: String,
    pub auth_header_name: Option<String>,
    pub auth_value_enc: Option<String>,
}

pub open spec fn approve_refusal(
    permissions: Permissions,
    enabled: bool,
    has_key: bool,
    row: Option<ApproveRow>,
    endpoint_refusal: Option<Refusal>,
    decrypt_refusal: Option<Refusal>,
) -> Option<Refusal> {
    if permissions.mcp_manage is Some {
        refusal_in(permissions.mcp_manage)
    } else if !enabled {
        Some(
            Refusal::Forbidden(
                "enable MCP (integration.mcp.enabled, super-admin) before approving servers"@,
            ),
        )
    } else {
        match row {
            None => Some(Refusal::Validation("MCP server not found"@)),
            Some(s) => if s.transport@ == "stdio"@ {
                None
            } else if s.transport@ == "http"@ {
                if s.url is None {
                    Some(Refusal::Validation("http server missing url"@))
                } else if endpoint_refusal is Some {
                    endpoint_refusal
                } else {
                    http_auth_refusal(
                        has_key,
                        s.auth_type@,
                        opt_text(s.auth_header_name),
                        s.auth_value_enc is Some,
                        decrypt_refusal,
                    )
                }
            } else {
                Some(Refusal::Validation("invalid transport"@))
            },
        }
    }
}

/// How an approved server is connected to. Connecting reaches it, so tool servers have to
/// be switched on first, and its address is checked once more.
pub fn approve(
    permissions: Permissions,
    enabled: bool,
    has_key: bool,
    row: Option<ApproveRow>,
    endpoint_refusal: Option<AppError>,
    secret: Result<String, AppError>,
) -> (r: Result<Transport, AppError>)
    ensures
        refusal(r) == approve_refusal(
            permissions,
            enabled,
            has_key,
            row,
            refusal_in(endpoint_refusal),
            decrypt_failure(secret),
        ),
        r matches Ok(t) ==> match t {
            Transport::Stdio { command } => row->0.transport@ == "stdio"@ && texts(command@) == (
            match row->0.command {
                Some(c) => texts(c@),
                None => Seq::empty(),
            }),
            Transport::Http { url, auth } => row->0.transport@ == "http"@ && opt_text(row->0.url)
                == Some(url@) && auth_holds(
                auth,
                row->0.auth_type@,
                opt_text(row->0.auth_header_name),
                match secret {
                    Ok(s) => s@,
                    Err(_) => Seq::empty(),
                },
            ),
        },
{
    match permissions.mcp_manage {
        Some(e) => {
            return Err(e);
        },
        None => {},
    }
    if !enabled {
        return Err(
            forbidden(
                "enable MCP (integration.mcp.enabled, super-admin) before approving servers",
            ),
        );
    }
    let s = match row {
        Some(s) => s,
        None => {
            return Err(validation("MCP server not found"));
        },
    };
    if same(s.transport.as_str(), "stdio") {
        let command: Vec<String> = match s.command {
            Some(c) => c,
            None => Vec::new(),
        };
        assert(s.command is None ==> texts(command@) =~= Seq::<Seq<char>>::empty());
        return Ok(Transport::Stdio { command });
    }
    if same(s.transport.as_str(), "http") {
        let url = match s.url {
            Some(u) => u,
            None => {
                return Err(validation("http server missing url"));
            },
        };
        match endpoint_refusal {
            Some(e) => {
                return Err(e);
            },
            None => {},
        }
        return match build_http_auth(
            has_key,
            s.auth_type.as_str(),
            crate::text::as_text(&s.auth_header_name),
            s.auth_value_enc.is_some(),
            secret,
        ) {
            Ok(auth) => Ok(Transport::Http { url, auth }),
            Err(e) => Err(e),
        };
    }
    Err(validation("invalid transport"))
}

/// What is written down of a server of tools.
pub fn audit_server(ctx: &AuthContext, action: &str, id: Id, payload: serde_json::Value) -> (e: AuditEvent)
    ensures
        e@ == entry_by(*ctx, action@, "mcp_server"@, id).noting(json_in(payload)),
{
    note(record_by(ctx, action, "mcp_server", id), payload)
}

/// What is noted of a server that was registered: how it is reached and how it is asked. The
/// secret is no part of it.
pub open spec fn registered_doc(
    slug: Seq<char>,
    transport: Seq<char>,
    auth_type: Seq<char>,
    requires_egress: bool,
) -> Json {
    Json::Object(
        Map::empty().insert("slug"@, Json::Text(slug)).insert(
            "transport"@,
            Json::Text(transport),
        ).insert("auth_type"@, Json::Text(auth_type)).insert(
            "requires_egress"@,
            Json::Flag(requires_egress),
        ),
    )
}

pub fn registered_event(ctx: &AuthContext, id: Id, body: &RegisterBody, auth: &ServerAuth) -> (e:
    AuditEvent)
    ensures
        e@ == entry_by(*ctx, "mcp.server.registered"@, "mcp_server"@, id).noting(
            registered_doc(
                body.slug@,
                body.transport@,
                auth.auth_type@,
                body.requires_egress,
            ),
        ),
{
    let mut doc = empty_object();
    put(&mut doc, "slug", text_value(body.slug.as_str()));
    put(&mut doc, "transport", text_value(body.transport.as_str()));
    put(&mut doc, "auth_type", text_value(auth.auth_type.as_str()));
    put(&mut doc, "requires_egress", flag_value(body.requires_egress));
    audit_server(ctx, "mcp.server.registered", id, doc)
}

/// What is noted of a server that was approved: how many tools it offers, and that it is asked
/// with an account of its own where it is.
pub open spec fn approved_doc(tools: int, oauth: bool) -> Json {
    let counted = Map::empty().insert("tools"@, Json::Number(tools));
    Json::Object(
        if oauth {
            counted.insert("auth"@, Json::Text("oauth"@))
        } else {
            counted
        },
    )
}

pub fn approved_event(ctx: &AuthContext, id: Id, tools: usize, oauth: bool) -> (e: AuditEvent)
    ensures
        e@ == entry_by(*ctx, "mcp.server.approved"@, "mcp_server"@, id).noting(
            approved_doc(tools as int, oauth),
        ),
{
    let mut doc = empty_object();
    put(&mut doc, "tools", count_value(tools));
    if oauth {
        put(&mut doc, "auth", text_value("oauth"));
    }
    audit_server(ctx, "mcp.server.approved", id, doc)
}

/// The trail never holds what a server is asked with: whatever is noted of a registration is how
/// the server is named, reached and asked.
pub proof fn secrets_are_not_in_the_trail(
    slug: Seq<char>,
    transport: Seq<char>,
    auth_type: Seq<char>,
    requires_egress: bool,
    member: Seq<char>,
)
    requires
        member_at(registered_doc(slug, transport, auth_type, requires_egress), member) is Some,
    ensures
        member == "slug"@ || member == "transport"@ || member == "auth_type"@ || member
            == "requires_egress"@,
{
}

/// Servers are listed by when they were added, the latest first.
pub proof fn newer_servers_come_first(rows: Seq<(ServerRow, bool)>, i: int, j: int)
    requires
        0 <= i < j < rows.len(),
    ensures
        highest_first(rows)[i].0.created_at >= highest_first(rows)[j].0.created_at,
{
    ordered_lists_descend(rows, i, j);
}

/// A server without a scheme takes no secret. With one it takes a secret that is not blank and a key
/// to encrypt it, and under every scheme but one the name of a header.
pub proof fn which_secrets_are_taken(
    has_key: bool,
    asked: Option<Seq<char>>,
    header_name: Option<Seq<char>>,
    value: Option<Seq<char>>,
)
    ensures
        auth_refusal(has_key, asked, header_name, value) is None
            <==> asked is None
                || asked == Some("none"@)
                || (
                    has_key
                        && (value matches Some(v) && trimmed(v).len() > 0)
                        && (
                            asked == Some("bearer"@)
                                || (
                                    (asked == Some("api_key"@) || asked == Some("header"@))
                                        && (header_name matches Some(v) && trimmed(v).len() > 0)
                                )
                        )
                ),
{
}

/// A server without a scheme needs no secret. With one it needs a secret that is there and can be
/// decrypted, and under every scheme but one the name of a header.
pub proof fn which_secrets_are_used(
    has_key: bool,
    auth_type: Seq<char>,
    header_name: Option<Seq<char>>,
    has_secret: bool,
    decrypt_refusal: Option<Refusal>,
)
    ensures
        http_auth_refusal(has_key, auth_type, header_name, has_secret, decrypt_refusal) is None
            <==> (
                auth_type == "none"@
                    || (
                        has_secret
                            && has_key
                            && decrypt_refusal is None
                            && (
                                auth_type == "bearer"@
                                    || (
                                        (auth_type == "api_key"@ || auth_type == "header"@)
                                            && header_name is Some
                                    )
                            )
                    )
            ),
{
}

/// A server is registered by those who manage servers, under a slug that is not blank and has no two
/// underscores in a row: one with a command, or one at an address with a scheme that can be had.
pub proof fn which_servers_are_registered(
    permissions: Permissions,
    has_key: bool,
    body: RegisterBody,
    endpoint_refusal: Option<Refusal>,
)
    ensures
        register_refusal(permissions, has_key, body, endpoint_refusal) is None
            <==> permissions.mcp_manage is None
                && trimmed(body.slug@).len() > 0
                && !has_text(body.slug@, "__"@)
                && (
                    (body.transport@ == "stdio"@ && (body.command matches Some(c) && c@.len() > 0))
                        || (
                            body.transport@ == "http"@
                                && body.url is Some
                                && endpoint_refusal is None
                                && auth_refusal(
                                    has_key,
                                    opt_text(body.auth_type),
                                    opt_text(body.auth_header_name),
                                    opt_text(body.auth_value),
                                ) is None
                        )
                ),
{
    reveal_strlit("stdio");
    reveal_strlit("http");
    assert("stdio"@.len() != "http"@.len());
}

/// A server is approved by those who manage servers, where servers are on and it is there: one with
/// a command as it is, one at an address where that may be reached and its secret can be had.
pub proof fn which_servers_are_approved(
    permissions: Permissions,
    enabled: bool,
    has_key: bool,
    row: Option<ApproveRow>,
    endpoint_refusal: Option<Refusal>,
    decrypt_refusal: Option<Refusal>,
)
    ensures
        approve_refusal(
            permissions,
            enabled,
            has_key,
            row,
            endpoint_refusal,
            decrypt_refusal,
        ) is None
            <==> permissions.mcp_manage is None
                && enabled
                && (
                    row matches Some(s)
                        && (
                            s.transport@ == "stdio"@
                                || (
                                    s.transport@ == "http"@
                                        && s.url is Some
                                        && endpoint_refusal is None
                                        && (
                                            s.auth_type@ == "none"@
                                                || (
                                                    s.auth_value_enc is Some
                                                        && has_key
                                                        && decrypt_refusal is None
                                                        && (
                                                            s.auth_type@ == "bearer"@
                                                                || (
                                                                    (
                                                                        s.auth_type@ == "api_key"@
                                                                            || s.auth_type@
                                                                                == "header"@
                                                                    )
                                                                        && s.auth_header_name is Some
                                                                )
                                                        )
                                                )
                                        )
                                )
                        )
                ),
{
}

/// A server is shown as it is stored, with whether it has a secret but never the secret.
pub proof fn servers_are_shown_whole(row: ServerRow, connected: bool, r: ServerOut)
    ensures
        server_shown(row, connected, r) ==> {
            &&& r.id == row.id
            &&& r.slug == row.slug
            &&& r.name == row.name
            &&& r.transport == row.transport
            &&& r.url == row.url
            &&& r.status == row.status
            &&& r.enabled == row.enabled
            &&& r.connected == connected
            &&& r.tool_count
                    == (
                        if tools_in(row.tools_catalog)
                            <= i64::MAX {
                                tools_in(row.tools_catalog) as int
                            } else { i64::MAX as int }
                    )
            &&& opt_text(r.last_health_at)
                    == (match row.last_health_at { Some(t) => Some(spelled(t)), None => None, })
            &&& r.created_at@ == spelled(row.created_at)
            &&& r.auth_type == row.auth_type
            &&& r.auth_header_name == row.auth_header_name
            &&& r.has_secret == (row.auth_value_enc is Some)
            &&& r.requires_egress == row.requires_egress
        },
{
}

/// A server has as many tools as its catalogue lists, and none where it has no catalogue.
pub proof fn tools_are_counted(
    catalog: Option<serde_json::Value>,
    secret: Result<String, AppError>,
    tools: int,
    oauth: bool,
)
    ensures
        (catalog matches Some(v) && json_in(v) is List)
            ==> tools_in(catalog) == json_in(catalog->0)->List_0.len(),
        !(catalog matches Some(v) && json_in(v) is List) ==> tools_in(catalog) == 0,
        decrypt_failure(secret) is None <==> secret is Ok,
        member_at(approved_doc(tools, oauth), "tools"@) == Some(Json::Number(tools)),
        member_at(approved_doc(tools, oauth), "auth"@)
            == (if oauth { Some(Json::Text("oauth"@)) } else { None }),
{
    reveal_strlit("tools");
    reveal_strlit("auth");
    assert("tools"@.len() != "auth"@.len());
}

/// What stands in `registered_doc` under each name; there is no other name in it.
pub proof fn what_registered_doc_holds(
    slug: Seq<char>,
    transport: Seq<char>,
    auth_type: Seq<char>,
    requires_egress: bool,
)
    ensures
        member_at(registered_doc(slug, transport, auth_type, requires_egress), "slug"@)
            == Some(Json::Text(slug)),
        member_at(registered_doc(slug, transport, auth_type, requires_egress), "transport"@)
            == Some(Json::Text(transport)),
        member_at(registered_doc(slug, transport, auth_type, requires_egress), "auth_type"@)
            == Some(Json::Text(auth_type)),
        member_at(registered_doc(slug, transport, auth_type, requires_egress), "requires_egress"@)
            == Some(Json::Flag(requires_egress)),
        forall|name: Seq<char>|
            #[trigger] member_at(
                registered_doc(slug, transport, auth_type, requires_egress),
                name,
            ) is Some
                ==> name == "slug"@
                    || name == "transport"@
                    || name == "auth_type"@
                    || name == "requires_egress"@,
{
    reveal_strlit("slug");
    reveal_strlit("transport");
    reveal_strlit("auth_type");
    reveal_strlit("requires_egress");
    assert("slug"@.len() != "transport"@.len());
    assert("slug"@.len() != "auth_type"@.len());
    assert("slug"@.len() != "requires_egress"@.len());
    assert("transport"@[0] != "auth_type"@[0]);
    assert("transport"@.len() != "requires_egress"@.len());
    assert("auth_type"@.len() != "requires_egress"@.len());
}

/// A secret goes with the scheme that is stored: as a bearer's, or under the header that is named; with
/// no scheme there is none.
pub proof fn secrets_go_where_the_scheme_says(
    a: Option<HttpAuth>,
    t: Seq<char>,
    h: Option<Seq<char>>,
    secret: Seq<char>,
    at: Seq<char>,
)
    ensures
        auth_holds(a, "none"@, h, secret) ==> a is None,
        auth_holds(a, "bearer"@, h, secret)
            ==> (a matches Some(HttpAuth::Bearer(s)) && s@ == secret),
        t != "none"@ && t != "bearer"@ && auth_holds(a, t, h, secret)
            ==> (
                a matches Some(HttpAuth::Header { name, value })
                    && h == Some(name@)
                    && value@ == secret
            ),
        stored_header("none"@, h) is None,
        stored_header("bearer"@, h) == Some("Authorization"@),
        at != "none"@ && at != "bearer"@ ==> stored_header(at, h) == filled(h),
        scheme_of(None) == "none"@,
        scheme_of(Some(at)) == at,
{
    reveal_strlit("none");
    reveal_strlit("bearer");
    assert("none"@.len() != "bearer"@.len());
}

/// Of several things that are wrong, `auth_refusal` tells the first.
pub proof fn auth_refusal_tells_the_first_thing(
    has_key: bool,
    asked: Option<Seq<char>>,
    header_name: Option<Seq<char>>,
    value: Option<Seq<char>>,
)
    ensures
        (
            {
                let at = scheme_of(asked); at == "none"@
                    ==> auth_refusal(has_key, asked, header_name, value) is None
            }
        ),
        (
            {
                let at = scheme_of(asked); !(at == "none"@) && !takes_secret(at)
                    ==> auth_refusal(has_key, asked, header_name, value)
                        == Some(
                            Refusal::Validation(
                                "auth_type must be none|bearer|api_key|header, got '"@ + at + "'"@
                            )
                        )
            }
        ),
        (
            {
                let at = scheme_of(asked); !(at == "none"@)
                    && takes_secret(at)
                    && filled(value) is None
                    ==> auth_refusal(has_key, asked, header_name, value)
                        == Some(
                            Refusal::Validation(
                                "auth_type '"@ + at + "' requires a non-empty auth_value"@
                            )
                        )
            }
        ),
        (
            {
                let at = scheme_of(asked); !(at == "none"@)
                    && takes_secret(at)
                    && !(filled(value) is None)
                    && (at != "bearer"@ && filled(header_name) is None)
                    ==> auth_refusal(has_key, asked, header_name, value)
                        == Some(
                            Refusal::Validation(
                                "auth_type '"@ + at + "' requires auth_header_name"@
                            )
                        )
            }
        ),
        (
            {
                let at = scheme_of(asked); !(at == "none"@)
                    && takes_secret(at)
                    && !(filled(value) is None)
                    && !(at != "bearer"@ && filled(header_name) is None)
                    && !has_key
                    ==> auth_refusal(has_key, asked, header_name, value)
                        == Some(
                            Refusal::Validation(
                                "server encryption key not configured (set message_encryption_key)"@
                            )
                        )
            }
        ),
        (
            {
                let at = scheme_of(asked); !(at == "none"@)
                    && takes_secret(at)
                    && !(filled(value) is None)
                    && !(at != "bearer"@ && filled(header_name) is None)
                    && has_key
                    ==> auth_refusal(has_key, asked, header_name, value) is None
            }
        ),
{
}

} // verus!
