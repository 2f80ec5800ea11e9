//! Connecting to tool servers under one's own identity: an administrator approves who issues
//! tokens, people connect and disconnect, and the callback completes what they began.

use vstd::prelude::*;
use vstd::string::*;

use crate::lists::{selects_just, selects_last};
use crate::address::{url_with, with_path_and_query};
use crate::error::{forbidden, not_found, refusal, told, validation, AppError, Refusal};
use crate::grants::{refusal_in, Permissions};
use crate::http::mcp_admin::audit_server;
use crate::json::{empty_object, member_at, put, text_value, Json};
use crate::principal::{same_id, AuthContext, Id};
use crate::text::{copy_texts, filled, joined3, opt_text, same, texts, trim_filled, trimmed};
use crate::trail::{entry_by, AuditEvent};

verus! {

/// A server that people connect to.
pub struct ServerRow {
    pub id: Id,
    pub slug: String,
    pub url: String,
    pub auth_type: String,
}

/// A stored server.
pub struct StoredServer {
    pub id: Id,
    pub slug: String,
    pub url: Option<String>,
    pub auth_type: String,
}

pub open spec fn server_refusal(row: Option<StoredServer>) -> Option<Refusal> {
    match row {
        None => Some(Refusal::NotFound("MCP server not found"@)),
        Some(s) => if s.url is None {
            Some(Refusal::Validation("MCP server has no URL"@))
        } else {
            None
        },
    }
}

/// A server that is there and has an address.
pub fn load_server(row: Option<StoredServer>) -> (r: Result<ServerRow, AppError>)
    ensures
        refusal(r) == server_refusal(row),
        r matches Ok(s) ==> row matches Some(x) && s.id == x.id && s.slug == x.slug && opt_text(
            x.url,
        ) == Some(s.url@) && s.auth_type == x.auth_type,
{
    match row {
        None => Err(not_found("MCP server not found")),
        Some(x) => match x.url {
            Some(url) => Ok(ServerRow { id: x.id, slug: x.slug, url, auth_type: x.auth_type }),
            None => Err(validation("MCP server has no URL")),
        },
    }
}

/// Why the caller does not get to manage a server.
pub open spec fn managed_refusal(permissions: Permissions, row: Option<StoredServer>) -> Option<
    Refusal,
> {
    if permissions.mcp_manage is Some {
        refusal_in(permissions.mcp_manage)
    } else {
        server_refusal(row)
    }
}

/// A server whose issuer is looked up, whose client is deleted or whose catalogue's source is
/// chosen, for whoever manages tool servers.
pub fn managed_server(permissions: Permissions, row: Option<StoredServer>) -> (r: Result<
    ServerRow,
    AppError,
>)
    ensures
        refusal(r) == managed_refusal(permissions, row),
        r matches Ok(s) ==> row matches Some(x) && s.id == x.id && s.slug == x.slug && opt_text(
            x.url,
        ) == Some(s.url@) && s.auth_type == x.auth_type,
{
    match permissions.mcp_manage {
        Some(e) => Err(e),
        None => load_server(row),
    }
}

pub struct DiscoverBody {
    pub allowed_issuer_origin: Option<String>,
}

pub struct DiscoverResponse {
    pub issuer: String,
    pub dcr_available: bool,
    pub scopes_supported: Vec<String>,
    pub s256_ok: bool,
    pub callback_url: String,
    pub warnings: Vec<String>,
}

pub struct PutClientBody {
    pub allowed_issuer_origin: Option<String>,
    /// Register by itself at the server.
    pub use_dcr: bool,
    pub client_id: Option<String>,
    pub client_secret: Option<String>,
    /// What to ask for; what the server offers where nothing is said.
    pub scopes: Option<Vec<String>>,
}

pub struct PutClientResponse {
    pub issuer: String,
    pub registration_source: String,
    pub has_secret: bool,
    pub scopes: Vec<String>,
}

pub open spec fn put_gate_refusal(
    permissions: Permissions,
    has_key: bool,
    row: Option<StoredServer>,
) -> Option<Refusal> {
    if permissions.mcp_manage is Some {
        refusal_in(permissions.mcp_manage)
    } else if !has_key {
        Some(
            Refusal::Validation(
                "server encryption key not configured (set message_encryption_key)"@,
            ),
        )
    } else if server_refusal(row) is Some {
        server_refusal(row)
    } else if row->0.auth_type@ != "oauth"@ {
        Some(Refusal::Validation("set the server's auth type to OAuth first"@))
    } else {
        None
    }
}

/// What approving an issuer needs before it is looked at: the permission to manage tool
/// servers, a key to encrypt with, and a server that people sign in to.
pub fn put_client_gate(permissions: Permissions, has_key: bool, row: Option<StoredServer>) -> (r:
    Result<ServerRow, AppError>)
    ensures
        refusal(r) == put_gate_refusal(permissions, has_key, row),
        r matches Ok(s) ==> row matches Some(x) && s.id == x.id && s.slug == x.slug && opt_text(
            x.url,
        ) == Some(s.url@) && s.auth_type == x.auth_type,
{
    match permissions.mcp_manage {
        Some(e) => {
            return Err(e);
        },
        None => {},
    }
    if !has_key {
        return Err(
            validation("server encryption key not configured (set message_encryption_key)"),
        );
    }
    let server = match load_server(row) {
        Ok(s) => s,
        Err(e) => {
            return Err(e);
        },
    };
    if !same(server.auth_type.as_str(), "oauth") {
        return Err(validation("set the server's auth type to OAuth first"));
    }
    Ok(server)
}

/// What was found out about an issuer.
pub struct Discovery {
    pub issuer: String,
    /// Whether it takes clients that register themselves.
    pub dcr_available: bool,
    pub s256_ok: bool,
    pub scopes_supported: Vec<String>,
    pub warnings: Vec<String>,
}

/// What an administrator is shown of the authorisation server before approving it, with the
/// address that it has to send people back to.
pub fn discover(disc: Discovery, callback_url: String) -> (r: DiscoverResponse)
    ensures
        r.issuer == disc.issuer,
        r.dcr_available == disc.dcr_available,
        r.scopes_supported == disc.scopes_supported,
        r.s256_ok == disc.s256_ok,
        r.callback_url == callback_url,
        r.warnings == disc.warnings,
{
    DiscoverResponse {
        issuer: disc.issuer,
        dcr_available: disc.dcr_available,
        scopes_supported: disc.scopes_supported,
        s256_ok: disc.s256_ok,
        callback_url,
        warnings: disc.warnings,
    }
}

/// A client that an issuer registered by itself, with what it takes to manage it.
pub struct Registration {
    pub client_id: String,
    pub client_secret: Option<String>,
    pub client_uri: Option<String>,
    pub access_token: Option<String>,
}

/// The scopes that are asked for: as given, or as the issuer offers.
pub open spec fn scopes_of(asked: Option<Vec<String>>, offered: Seq<Seq<char>>) -> Seq<Seq<char>> {
    match asked {
        Some(s) => texts(s@),
        None => offered,
    }
}

/// The scopes to ask an issuer for.
pub fn scopes_to_ask(asked: &Option<Vec<String>>, disc: &Discovery) -> (r: Vec<String>)
    ensures
        texts(r@) == scopes_of(*asked, texts(disc.scopes_supported@)),
{
    match asked {
        Some(s) => copy_texts(s),
        None => copy_texts(&disc.scopes_supported),
    }
}

/// A client that was approved for a server before, by its issuer. Its secret is encrypted.
pub struct StoredClient {
    pub issuer: String,
    pub secret_enc: Option<String>,
}

/// The secret of an approved client.
pub enum ClientSecret {
    /// It has none.
    Absent,
    /// The one that is stored, encrypted as it is.
    Kept(String),
    /// A new one, in the clear until it is stored.
    Given(String),
}

/// The secret that is stored for a client of that issuer.
pub open spec fn secret_at(stored: Option<StoredClient>, issuer: Seq<char>) -> Option<Seq<char>> {
    match stored {
        Some(s) => if s.issuer@ == issuer {
            opt_text(s.secret_enc)
        } else {
            None
        },
        None => None,
    }
}

/// The secret that a client comes to where `given` is said of it: none is said, and the one
/// that is stored stays; a blank one is said, and there is none; or another takes its place.
pub open spec fn secret_after(
    given: Option<Seq<char>>,
    stored: Option<Seq<char>>,
    s: ClientSecret,
) -> bool {
    match (given, s) {
        (None, ClientSecret::Kept(k)) => stored == Some(k@),
        (None, ClientSecret::Absent) => stored is None,
        (Some(_), ClientSecret::Given(g)) => filled(given) == Some(g@),
        (Some(_), ClientSecret::Absent) => filled(given) is None,
        _ => false,
    }
}

/// An approved client, with what is new of its secrets in the clear until they are stored.
pub struct ApprovedClient {
    pub client_id: String,
    pub client_secret: ClientSecret,
    pub source: String,
    pub registration_uri: Option<String>,
    pub registration_token: Option<String>,
    pub response: PutClientResponse,
}

pub open spec fn client_refusal(
    s256_ok: bool,
    use_dcr: bool,
    client_id: Option<Seq<char>>,
    registration_refusal: Option<Refusal>,
) -> Option<Refusal> {
    if !s256_ok {
        Some(
            Refusal::Validation(
                "authorisation server does not advertise PKCE S256; cannot approve"@,
            ),
        )
    } else if use_dcr {
        registration_refusal
    } else if filled(client_id) is None {
        Some(
            Refusal::Validation("a client_id is required (or use dynamic registration)"@),
        )
    } else {
        None
    }
}

/// What came of registering by itself.
pub open spec fn registration_failure(reg: Result<Registration, AppError>) -> Option<Refusal> {
    match reg {
        Ok(_) => None,
        Err(e) => Some(e@),
    }
}

fn stored_secret(stored: Option<StoredClient>, issuer: &str) -> (r: Option<String>)
    ensures
        opt_text(r) == secret_at(stored, issuer@),
{
    match stored {
        Some(s) => {
            if same(s.issuer.as_str(), issuer) {
                s.secret_enc
            } else {
                None
            }
        },
        None => None,
    }
}

/// Approves an issuer, with a client that it registered by itself or one that is given.
/// `registration` is what came of the former, and read only where that is asked for. `stored`
/// is the client that the server has, whose secret stays where none is given.
pub fn put_client(
    body: PutClientBody,
    disc: &Discovery,
    stored: Option<StoredClient>,
    registration: Result<Registration, AppError>,
) -> (r: Result<ApprovedClient, AppError>)
    ensures
        refusal(r) == client_refusal(
            disc.s256_ok,
            body.use_dcr,
            opt_text(body.client_id),
            registration_failure(registration),
        ),
        r matches Ok(c) ==> {
            &&& c.response.issuer@ == disc.issuer@
            &&& c.response.registration_source@ == c.source@
            &&& c.response.has_secret == !(c.client_secret is Absent)
            &&& texts(c.response.scopes@) == scopes_of(
                body.scopes,
                texts(disc.scopes_supported@),
            )
            &&& if body.use_dcr {
                registration matches Ok(g) && {
                    &&& c.source@ == "dcr"@
                    &&& c.client_id@ == g.client_id@
                    &&& match c.client_secret {
                        ClientSecret::Given(s) => opt_text(g.client_secret) == Some(s@),
                        ClientSecret::Absent => g.client_secret is None,
                        ClientSecret::Kept(_) => false,
                    }
                    &&& opt_text(c.registration_uri) == opt_text(g.client_uri)
                    &&& opt_text(c.registration_token) == opt_text(g.access_token)
                }
            } else {
                &&& c.source@ == "manual"@
                &&& filled(opt_text(body.client_id)) == Some(c.client_id@)
                &&& secret_after(
                    opt_text(body.client_secret),
                    secret_at(stored, disc.issuer@),
                    c.client_secret,
                )
                &&& c.registration_uri is None
                &&& c.registration_token is None
            }
        },
{
    if !disc.s256_ok {
        return Err(
            validation("authorisation server does not advertise PKCE S256; cannot approve"),
        );
    }
    let scopes = scopes_to_ask(&body.scopes, disc);
    let issuer = disc.issuer.clone();
    if body.use_dcr {
        return match registration {
            Err(e) => Err(e),
            Ok(g) => {
                let has_secret = g.client_secret.is_some();
                let client_secret = match g.client_secret {
                    Some(s) => ClientSecret::Given(s),
                    None => ClientSecret::Absent,
                };
                Ok(
                    ApprovedClient {
                        client_id: g.client_id,
                        client_secret,
                        source: "dcr".to_owned(),
                        registration_uri: g.client_uri,
                        registration_token: g.access_token,
                        response: PutClientResponse {
                            issuer,
                            registration_source: "dcr".to_owned(),
                            has_secret,
                            scopes,
                        },
                    },
                )
            },
        };
    }
    let client_id = match trim_filled(crate::text::as_text(&body.client_id)) {
        Some(c) => c,
        None => {
            return Err(validation("a client_id is required (or use dynamic registration)"));
        },
    };
    let client_secret = match &body.client_secret {
        Some(_) => match trim_filled(crate::text::as_text(&body.client_secret)) {
            Some(s) => ClientSecret::Given(s),
            None => ClientSecret::Absent,
        },
        None => match stored_secret(stored, disc.issuer.as_str()) {
            Some(s) => ClientSecret::Kept(s),
            None => ClientSecret::Absent,
        },
    };
    let has_secret = match &client_secret {
        ClientSecret::Absent => false,
        _ => true,
    };
    Ok(
        ApprovedClient {
            client_id,
            client_secret,
            source: "manual".to_owned(),
            registration_uri: None,
            registration_token: None,
            response: PutClientResponse {
                issuer,
                registration_source: "manual".to_owned(),
                has_secret,
                scopes,
            },
        },
    )
}

/// What is undone at an issuer when its client is deleted: a registration that can be
/// managed, by its address and its token.
pub fn delete_client(uri: Option<String>, token: Option<String>) -> (r: Option<(String, String)>)
    ensures
        match r {
            Some(x) => opt_text(uri) == Some(x.0@) && opt_text(token) == Some(x.1@),
            None => uri is None || token is None,
        },
{
    match (uri, token) {
        (Some(u), Some(t)) => Some((u, t)),
        _ => None,
    }
}

/// A connection to a server.
#[derive(Clone, Copy, Debug, PartialEq, Eq, Structural)]
pub struct ServerConnection {
    pub id: Id,
    pub active: bool,
}

/// The connection is one of the server's, and live.
pub open spec fn is_live(connections: Seq<ServerConnection>, id: Id) -> bool {
    exists|i: int| 0 <= i < connections.len() && (#[trigger] connections[i]).id == id
        && connections[i].active
}

/// The connections that a catalogue is read through, one flag for each.
pub open spec fn sources_after(connections: Seq<ServerConnection>, chosen: Id) -> Seq<bool> {
    connections.map_values(|c: ServerConnection| c.id == chosen)
}

fn find_live(connections: &Vec<ServerConnection>, id: Id) -> (r: bool)
    ensures
        r == is_live(connections@, id),
{
    let mut i: usize = 0;
    while i < connections.len()
        invariant
            i <= connections@.len(),
            forall|k: int|
                0 <= k < i ==> !((#[trigger] connections@[k]).id == id && connections@[k].active),
        decreases connections@.len() - i,
    {
        if connections[i].id == id && connections[i].active {
            assert(connections@[i as int].id == id);
            return true;
        }
        i = i + 1;
    }
    false
}

/// Chooses the connection that a server's catalogue is read through, which has to be one of
/// the server's and live; no other is from then on.
pub fn set_catalog_source(connections: &Vec<ServerConnection>, chosen: Id) -> (r: Result<
    Vec<bool>,
    AppError,
>)
    ensures
        refusal(r) == (if is_live(connections@, chosen) {
            None
        } else {
            Some(Refusal::Validation("connection is not an active connection for this server"@))
        }),
        r matches Ok(flags) ==> flags@ == sources_after(connections@, chosen),
{
    if !find_live(connections, chosen) {
        return Err(validation("connection is not an active connection for this server"));
    }
    let mut flags: Vec<bool> = Vec::new();
    let mut i: usize = 0;
    while i < connections.len()
        invariant
            i <= connections@.len(),
            flags@ == sources_after(connections@, chosen).take(i as int),
        decreases connections@.len() - i,
    {
        flags.push(connections[i].id == chosen);
        assert(sources_after(connections@, chosen).take(i as int + 1).drop_last() == sources_after(
            connections@,
            chosen,
        ).take(i as int));
        i = i + 1;
    }
    assert(sources_after(connections@, chosen).take(i as int) == sources_after(connections@, chosen));
    Ok(flags)
}

/// A server's catalogue has one source, where its connections are told apart.
pub proof fn one_catalog_source(connections: Seq<ServerConnection>, chosen: Id, a: int, b: int)
    requires
        forall|i: int, j: int|
            0 <= i < j < connections.len() ==> (#[trigger] connections[i]).id != (
            #[trigger] connections[j]).id,
        0 <= a < connections.len(),
        0 <= b < connections.len(),
        sources_after(connections, chosen)[a],
        sources_after(connections, chosen)[b],
    ensures
        a == b,
{
    assert(connections[a].id == chosen && connections[b].id == chosen);
}

/// What approving a server that people sign in to needs: a client, and a live connection
/// that was chosen as its catalogue's source.
pub fn approve_oauth(row: Option<StoredServer>, has_client: bool, source: Option<Id>) -> (r: Result<
    Id,
    AppError,
>)
    ensures
        refusal(r) == (if server_refusal(row) is Some {
            server_refusal(row)
        } else if !has_client {
            Some(Refusal::Validation("configure an OAuth client before approving"@))
        } else if source is None {
            Some(
                Refusal::Validation(
                    "connect and designate a catalogue-source connection before approving this OAuth server"@,
                ),
            )
        } else {
            None
        }),
        r matches Ok(id) ==> source == Some(id),
{
    match load_server(row) {
        Ok(_) => {},
        Err(e) => {
            return Err(e);
        },
    }
    if !has_client {
        return Err(validation("configure an OAuth client before approving"));
    }
    match source {
        Some(id) => Ok(id),
        None => Err(
            validation(
                "connect and designate a catalogue-source connection before approving this OAuth server",
            ),
        ),
    }
}

/// A person's connection to a server.
pub struct MyConnection {
    pub server_id: Id,
    pub slug: String,
    pub name: String,
    pub status: String,
    pub subject_label: Option<String>,
    pub scopes: Vec<String>,
}

/// A server and the caller's connection to it, where there is one; `readable` is whether
/// the caller may see the server.
pub struct ConnectionRow {
    pub server_id: Id,
    pub slug: String,
    pub name: String,
    pub conn_status: Option<String>,
    pub subject_label: Option<String>,
    pub scopes: Option<Vec<String>>,
    pub readable: bool,
}

/// What a connection's state is called.
pub open spec fn status_shown(stored: Option<Seq<char>>) -> Seq<char> {
    if stored == Some("active"@) {
        "connected"@
    } else if stored == Some("reauth_required"@) {
        "reauth_required"@
    } else {
        "disconnected"@
    }
}

fn show_status(stored: &Option<String>) -> (r: String)
    ensures
        r@ == status_shown(opt_text(*stored)),
{
    match stored {
        Some(s) => {
            if same(s.as_str(), "active") {
                return "connected".to_owned();
            }
            if same(s.as_str(), "reauth_required") {
                return "reauth_required".to_owned();
            }
        },
        None => {},
    }
    "disconnected".to_owned()
}

/// The servers that the caller may see.
pub open spec fn visible(rows: Seq<ConnectionRow>) -> Seq<ConnectionRow>
    decreases rows.len(),
{
    if rows.len() == 0 {
        Seq::empty()
    } else {
        let before = visible(rows.drop_last());
        if rows.last().readable {
            before.push(rows.last())
        } else {
            before
        }
    }
}

pub open spec fn connection_shown(row: ConnectionRow, o: MyConnection) -> bool {
    &&& o.server_id == row.server_id
    &&& o.slug == row.slug
    &&& o.name == row.name
    &&& o.status@ == status_shown(opt_text(row.conn_status))
    &&& o.subject_label == row.subject_label
    &&& texts(o.scopes@) == (match row.scopes {
        Some(s) => texts(s@),
        None => Seq::empty(),
    })
}

/// The servers that people sign in to, as far as the caller may see them, with the state of
/// the caller's connection to each.
pub fn list_my_connections(rows: Vec<ConnectionRow>) -> (r: Vec<MyConnection>)
    ensures
        r@.len() == visible(rows@).len(),
        forall|i: int| 0 <= i < r@.len() ==> connection_shown(visible(rows@)[i], #[trigger] r@[i]),
{
    let n: usize = rows.len();
    let mut rest = rows;
    let mut out: Vec<MyConnection> = Vec::new();
    let mut i: usize = 0;
    assert(rows@.take(0) == Seq::<ConnectionRow>::empty());
    while i < n
        invariant
            n == rows@.len(),
            i <= n,
            rest@ == rows@.skip(i as int),
            out@.len() == visible(rows@.take(i as int)).len(),
            forall|k: int|
                0 <= k < out@.len() ==> connection_shown(
                    visible(rows@.take(i as int))[k],
                    #[trigger] out@[k],
                ),
        decreases n - i,
    {
        let row = rest.remove(0);
        proof {
            assert(row == rows@[i as int]);
            assert(rest@ =~= rows@.skip(i as int + 1));
            assert(rows@.take(i as int + 1).drop_last() == rows@.take(i as int));
        }
        if row.readable {
            let status = show_status(&row.conn_status);
            let scopes: Vec<String> = match row.scopes {
                Some(s) => s,
                None => Vec::new(),
            };
            assert(row.scopes is None ==> texts(scopes@) =~= Seq::<Seq<char>>::empty());
            out.push(
                MyConnection {
                    server_id: row.server_id,
                    slug: row.slug,
                    name: row.name,
                    status,
                    subject_label: row.subject_label,
                    scopes,
                },
            );
        }
        i = i + 1;
    }
    assert(rows@.take(n as int) == rows@);
    out
}

pub struct ConnectBody {
    /// For runs without anybody present: the deployment's connection, not the caller's.
    pub service: bool,
}

pub struct ConnectResponse {
    pub authorize_url: String,
}

pub open spec fn connect_refusal(
    ctx: AuthContext,
    row: Option<StoredServer>,
    read_refusal: Option<Refusal>,
    has_client: bool,
    service: bool,
    manage_refusal: Option<Refusal>,
) -> Option<Refusal> {
    if ctx.user_id is None {
        Some(Refusal::Forbidden("authentication required"@))
    } else if server_refusal(row) is Some {
        server_refusal(row)
    } else if row->0.auth_type@ != "oauth"@ {
        Some(Refusal::Validation("this server is not an OAuth server"@))
    } else if read_refusal is Some {
        read_refusal
    } else if !has_client {
        Some(Refusal::Validation("this server has no approved OAuth client yet"@))
    } else if service {
        manage_refusal
    } else {
        None
    }
}

/// Begins to connect: whose connection it is to be. A connection of the deployment's own is
/// for whoever manages tool servers.
pub fn connect(
    ctx: &AuthContext,
    row: Option<StoredServer>,
    read_refusal: Option<AppError>,
    has_client: bool,
    body: &ConnectBody,
    permissions: Permissions,
) -> (r: Result<Option<Id>, AppError>)
    ensures
        refusal(r) == connect_refusal(
            *ctx,
            row,
            refusal_in(read_refusal),
            has_client,
            body.service,
            refusal_in(permissions.mcp_manage),
        ),
        r matches Ok(whose) ==> whose == (if body.service {
            None
        } else {
            ctx.user_id
        }),
{
    if ctx.user_id.is_none() {
        return Err(forbidden("authentication required"));
    }
    let server = match load_server(row) {
        Ok(s) => s,
        Err(e) => {
            return Err(e);
        },
    };
    if !same(server.auth_type.as_str(), "oauth") {
        return Err(validation("this server is not an OAuth server"));
    }
    match read_refusal {
        Some(e) => {
            return Err(e);
        },
        None => {},
    }
    if !has_client {
        return Err(validation("this server has no approved OAuth client yet"));
    }
    if body.service {
        match permissions.mcp_manage {
            Some(e) => {
                return Err(e);
            },
            None => {},
        }
        Ok(None)
    } else {
        Ok(ctx.user_id)
    }
}

/// Ends the caller's connection: who they are, and the server. Without a connection there
/// is nothing to end.
pub fn disconnect(ctx: &AuthContext, row: Option<StoredServer>) -> (r: Result<
    (Id, ServerRow),
    AppError,
>)
    ensures
        refusal(r) == (if ctx.user_id is None {
            Some(Refusal::Forbidden("authentication required"@))
        } else {
            server_refusal(row)
        }),
        r matches Ok(x) ==> ctx.user_id == Some(x.0) && (row matches Some(s) && x.1.id == s.id
            && x.1.slug == s.slug && opt_text(s.url) == Some(x.1.url@)),
{
    let uid = match ctx.user_id {
        Some(id) => id,
        None => {
            return Err(forbidden("authentication required"));
        },
    };
    match load_server(row) {
        Ok(s) => Ok((uid, s)),
        Err(e) => Err(e),
    }
}

pub struct CallbackParams {
    pub code: Option<String>,
    pub state: Option<String>,
    pub iss: Option<String>,
    pub error: Option<String>,
    pub error_description: Option<String>,
}

/// What a callback brings to be exchanged for a token.
pub struct CallbackGrant {
    pub code: String,
    pub state: String,
    pub iss: Option<String>,
}

/// Why a callback is not exchanged. `limit` is what the limiter of callbacks says, which is
/// asked before anything is read of it.
pub open spec fn callback_refusal(limit: Option<Refusal>, p: CallbackParams) -> Option<Refusal> {
    match (limit, p.error) {
        (Some(_), _) => limit,
        (None, Some(err)) => Some(
            Refusal::Validation(
                "provider returned '"@ + err@ + "': "@ + (match p.error_description {
                    Some(d) => d@,
                    None => Seq::empty(),
                }),
            ),
        ),
        (None, None) => if p.code is None {
            Some(Refusal::Validation("callback missing code"@))
        } else if p.state is None {
            Some(Refusal::Validation("callback missing state"@))
        } else {
            None
        },
    }
}

/// What a callback brings to be exchanged, unless there are too many callbacks or it brings an
/// error.
pub fn run_callback(limit: Option<AppError>, p: CallbackParams) -> (r: Result<
    CallbackGrant,
    AppError,
>)
    ensures
        refusal(r) == callback_refusal(refusal_in(limit), p),
        r matches Ok(g) ==> {
            &&& p.code == Some(g.code)
            &&& p.state == Some(g.state)
            &&& p.iss == g.iss
        },
{
    match limit {
        Some(e) => {
            return Err(e);
        },
        None => {},
    }
    match p.error {
        Some(err) => {
            let desc = match p.error_description {
                Some(d) => d,
                None => String::new(),
            };
            let mut m = joined3("provider returned '", err.as_str(), "': ");
            m.append(desc.as_str());
            return Err(AppError::Validation(m));
        },
        None => {},
    }
    let code = match p.code {
        Some(c) => c,
        None => {
            return Err(validation("callback missing code"));
        },
    };
    match p.state {
        Some(state) => Ok(CallbackGrant { code, state, iss: p.iss }),
        None => Err(validation("callback missing state")),
    }
}

/// The connections in the profile of an installation, with one more field.
pub open spec fn profile_url(base: Seq<char>, key: Seq<char>, val: Seq<char>) -> Option<Seq<char>> {
    url_with(base, "/profile"@, ("tab"@, "connections"@), (key, val))
}

/// Where the browser is sent: the profile of this installation, or of a server that runs
/// locally where the configured address cannot be read.
pub open spec fn landing(base: Seq<char>, key: Seq<char>, val: Seq<char>) -> Seq<char> {
    match profile_url(base, key, val) {
        Some(u) => u,
        None => profile_url("http://localhost:8080"@, key, val)->0,
    }
}

fn profile_at(base: &str, key: &str, val: &str) -> (r: Option<String>)
    ensures
        opt_text(r) == profile_url(base@, key@, val@),
        base@ == "http://localhost:8080"@ ==> r is Some,
{
    with_path_and_query(base, "/profile", ("tab", "connections"), (key, val))
}

pub fn redirect_url(base: &str, key: &str, val: &str) -> (r: String)
    ensures
        r@ == landing(base@, key@, val@),
{
    match profile_at(base, key, val) {
        Some(u) => u,
        None => profile_at("http://localhost:8080", key, val).unwrap(),
    }
}

/// Where a callback sends the browser. `refused` is why it was not exchanged, and `exchanged`
/// what became of it where it was: the name of the server, or what went wrong.
pub open spec fn callback_lands(
    base: Seq<char>,
    refused: Option<Refusal>,
    exchanged: Result<Seq<char>, Refusal>,
) -> Seq<char> {
    match (refused, exchanged) {
        (Some(e), _) => landing(base, "mcp_connect_error"@, told(e)),
        (None, Ok(slug)) => landing(base, "mcp_connected"@, slug),
        (None, Err(e)) => landing(base, "mcp_connect_error"@, told(e)),
    }
}

/// Where a callback sends the browser: every outcome is a place to go, a failure too.
/// `begun` is what `run_callback` said of it, and `exchanged` is read only where that was
/// nothing against it.
pub fn callback(base: &str, begun: Result<(), AppError>, exchanged: Result<String, AppError>) -> (r:
    String)
    ensures
        r@ == callback_lands(
            base@,
            refusal(begun),
            match exchanged {
                Ok(slug) => Ok(slug@),
                Err(e) => Err(e@),
            },
        ),
{
    match begun {
        Ok(_) => match exchanged {
            Ok(slug) => redirect_url(base, "mcp_connected", slug.as_str()),
            Err(e) => redirect_url(base, "mcp_connect_error", e.text()),
        },
        Err(e) => redirect_url(base, "mcp_connect_error", e.text()),
    }
}

/// A callback beyond the limit is not exchanged, whatever it brings, and sends the browser where
/// it is told so.
pub proof fn limited_callbacks_are_not_exchanged(
    base: Seq<char>,
    limit: Refusal,
    p: CallbackParams,
    exchanged: Result<Seq<char>, Refusal>,
)
    ensures
        callback_refusal(Some(limit), p) == Some(limit),
        callback_lands(base, callback_refusal(Some(limit), p), exchanged) == landing(
            base,
            "mcp_connect_error"@,
            told(limit),
        ),
{
}

/// What is noted of an approved client: who issues its tokens, and how it was come by. The client's
/// secret is no part of it.
pub open spec fn client_doc(issuer: Seq<char>, source: Seq<char>) -> Json {
    Json::Object(
        Map::empty().insert("issuer"@, Json::Text(issuer)).insert("source"@, Json::Text(source)),
    )
}

pub fn client_event(ctx: &AuthContext, server_id: Id, client: &ApprovedClient) -> (e: AuditEvent)
    ensures
        e@ == entry_by(*ctx, "mcp.oauth.client_registered"@, "mcp_server"@, server_id).noting(
            client_doc(client.response.issuer@, client.source@),
        ),
{
    let mut doc = empty_object();
    put(&mut doc, "issuer", text_value(client.response.issuer.as_str()));
    put(&mut doc, "source", text_value(client.source.as_str()));
    audit_server(ctx, "mcp.oauth.client_registered", server_id, doc)
}

pub open spec fn changed_doc(what: Seq<char>) -> Json {
    Json::Object(Map::empty().insert("action"@, Json::Text(what)))
}

/// The entry of a changed arrangement; `what` is `"client_deleted"` or `"catalog_source_set"`.
pub fn changed_event(ctx: &AuthContext, server_id: Id, what: &str) -> (e: AuditEvent)
    ensures
        e@ == entry_by(*ctx, "mcp.oauth.config_changed"@, "mcp_server"@, server_id).noting(
            changed_doc(what@),
        ),
{
    let mut doc = empty_object();
    put(&mut doc, "action", text_value(what));
    audit_server(ctx, "mcp.oauth.config_changed", server_id, doc)
}

/// A connection to a server: somebody's own, or the one that everybody uses.
#[derive(Clone, Copy, Debug, PartialEq, Eq, Structural)]
pub struct ConnectionSlot {
    pub id: Id,
    pub server_id: Id,
    pub user_id: Option<Id>,
}

/// Each account has one connection to a server at most, and so has everybody together.
pub open spec fn one_connection_each(slots: Seq<ConnectionSlot>) -> bool {
    forall|i: int, j: int|
        0 <= i < j < slots.len() ==> (#[trigger] slots[i]).server_id != (
        #[trigger] slots[j]).server_id || slots[i].user_id != slots[j].user_id
}

/// The first connection of that account to that server.
pub open spec fn slot_of(slots: Seq<ConnectionSlot>, server_id: Id, user_id: Option<Id>) -> Option<Id>
    decreases slots.len(),
{
    if slots.len() == 0 {
        None
    } else {
        match slot_of(slots.drop_last(), server_id, user_id) {
            Some(id) => Some(id),
            None => if slots.last().server_id == server_id && slots.last().user_id == user_id {
                Some(slots.last().id)
            } else {
                None
            },
        }
    }
}

proof fn slot_of_stays(slots: Seq<ConnectionSlot>, server_id: Id, user_id: Option<Id>, i: int)
    requires
        0 <= i <= slots.len(),
        slot_of(slots.take(i), server_id, user_id) is Some,
    ensures
        slot_of(slots, server_id, user_id) == slot_of(slots.take(i), server_id, user_id),
    decreases slots.len() - i,
{
    if i < slots.len() {
        assert(slots.take(i + 1).drop_last() == slots.take(i));
        slot_of_stays(slots, server_id, user_id, i + 1);
    } else {
        assert(slots.take(i) == slots);
    }
}

proof fn no_slot(slots: Seq<ConnectionSlot>, server_id: Id, user_id: Option<Id>)
    requires
        slot_of(slots, server_id, user_id) is None,
    ensures
        forall|i: int|
            0 <= i < slots.len() ==> (#[trigger] slots[i]).server_id != server_id || slots[i].user_id
                != user_id,
    decreases slots.len(),
{
    if slots.len() > 0 {
        no_slot(slots.drop_last(), server_id, user_id);
        assert forall|i: int| 0 <= i < slots.len() implies (#[trigger] slots[i]).server_id != server_id
            || slots[i].user_id != user_id by {
            if i < slots.len() - 1 {
                assert(slots.drop_last()[i] == slots[i]);
            }
        }
    }
}

/// Begins a connection. One that there is already is begun anew; otherwise there is a new one,
/// under `new_id`.
pub fn mint_pending_connection(
    slots: &mut Vec<ConnectionSlot>,
    server_id: Id,
    user_id: Option<Id>,
    new_id: Id,
) -> (r: Id)
    ensures
        match slot_of(old(slots)@, server_id, user_id) {
            Some(id) => r == id && final(slots)@ == old(slots)@,
            None => r == new_id && final(slots)@ == old(slots)@.push(
                ConnectionSlot { id: new_id, server_id, user_id },
            ),
        },
{
    let mut i: usize = 0;
    assert(slots@.take(0) == Seq::<ConnectionSlot>::empty());
    while i < slots.len()
        invariant
            i <= slots@.len(),
            slots@ == old(slots)@,
            slot_of(slots@.take(i as int), server_id, user_id) is None,
        decreases slots@.len() - i,
    {
        assert(slots@.take(i as int + 1).drop_last() == slots@.take(i as int));
        if slots[i].server_id == server_id && same_id(slots[i].user_id, user_id) {
            proof {
                slot_of_stays(slots@, server_id, user_id, i as int + 1);
            }
            return slots[i].id;
        }
        i = i + 1;
    }
    assert(slots@.take(slots@.len() as int) == slots@);
    slots.push(ConnectionSlot { id: new_id, server_id, user_id });
    new_id
}

/// Beginning a connection leaves each account with one at most.
pub proof fn connections_stay_apart(
    slots: Seq<ConnectionSlot>,
    server_id: Id,
    user_id: Option<Id>,
    new_id: Id,
)
    requires
        one_connection_each(slots),
        slot_of(slots, server_id, user_id) is None,
    ensures
        one_connection_each(slots.push(ConnectionSlot { id: new_id, server_id, user_id })),
{
    no_slot(slots, server_id, user_id);
}

/// A person is shown every server that they may read, and no other.
pub proof fn readable_servers_are_shown(s: Seq<ConnectionRow>)
    ensures
        visible(s) == s.filter(|x: ConnectionRow| x.readable),
        forall|x: ConnectionRow|
            #[trigger] visible(s).contains(x) <==> s.contains(x) && (x.readable),
    decreases s.len(),
{
    let p = |x: ConnectionRow| x.readable;
    selects_last(s, p);
    selects_just(s, p);
    if s.len() > 0 {
        readable_servers_are_shown(s.drop_last());
    }
    assert(visible(s) =~= s.filter(p));
    assert forall|x: ConnectionRow|
        #[trigger] visible(s).contains(x) <==> s.contains(x) && (x.readable) by {
        assert(s.filter(p).contains(x) <==> s.contains(x) && p(x));
    }
}

/// A connection is found by its server and its account.
pub proof fn connections_are_found_by_account(
    server_id: Id,
    user_id: Option<Id>,
    s: Seq<ConnectionSlot>,
) -> (at: int)
    ensures
        match slot_of(s, server_id, user_id) {
            Some(v) => 0 <= at < s.len()
                && (s[at].server_id == server_id && s[at].user_id == user_id)
                && v == s[at].id
                && forall|k: int|
                #![trigger s[k]]
                0 <= k < at ==> !(s[k].server_id == server_id && s[k].user_id == user_id),
            None => forall|k: int| #![trigger s[k]] 0 <= k < s.len() ==> !(
                s[k].server_id == server_id && s[k].user_id == user_id
            ),
        },
    decreases s.len(),
{
    if s.len() == 0 {
        0
    } else {
        let front = s.drop_last();
        let at = connections_are_found_by_account(server_id, user_id, front);
        assert forall|k: int| #![trigger s[k]] 0 <= k < front.len() implies s[k] == front[k] by {}
        if slot_of(front, server_id, user_id) is Some {
            assert(s[at] == front[at]);
            at
        } else {
            s.len() - 1
        }
    }
}

/// A server's client is arranged by those who manage servers, with a key, where the server has an
/// address and takes such clients, and asks for the challenge that is used; it is registered, or it
/// has a name.
pub proof fn who_arranges_clients(
    permissions: Permissions,
    has_key: bool,
    row: Option<StoredServer>,
    s256_ok: bool,
    use_dcr: bool,
    client_id: Option<Seq<char>>,
    registration_refusal: Option<Refusal>,
)
    ensures
        server_refusal(row) is None <==> (row matches Some(s) && s.url is Some),
        managed_refusal(permissions, row) is None
            <==> permissions.mcp_manage is None && (row matches Some(s) && s.url is Some),
        put_gate_refusal(permissions, has_key, row) is None
            <==> permissions.mcp_manage is None
                && has_key
                && (row matches Some(s) && s.url is Some && s.auth_type@ == "oauth"@),
        client_refusal(s256_ok, use_dcr, client_id, registration_refusal) is None
            <==> s256_ok
                && (use_dcr ==> registration_refusal is None)
                && (!use_dcr ==> (client_id matches Some(v) && trimmed(v).len() > 0)),
{
}

/// Somebody with an account connects to a server that takes such clients, has one and may be read; for
/// everybody, those who manage servers alone. A provider's answer has a code and a state and no error.
pub proof fn who_connects(
    ctx: AuthContext,
    row: Option<StoredServer>,
    read_refusal: Option<Refusal>,
    has_client: bool,
    service: bool,
    manage_refusal: Option<Refusal>,
    limit: Option<Refusal>,
    p: CallbackParams,
)
    ensures
        connect_refusal(ctx, row, read_refusal, has_client, service, manage_refusal) is None
            <==> ctx.user_id is Some
                && (row matches Some(s) && s.url is Some && s.auth_type@ == "oauth"@)
                && read_refusal is None
                && has_client
                && (service ==> manage_refusal is None),
        callback_refusal(limit, p) is None
            <==> limit is None && p.error is None && p.code is Some && p.state is Some,
{
}

/// What stands in `client_doc` under each name; there is no other name in it.
pub proof fn what_client_doc_holds(issuer: Seq<char>, source: Seq<char>)
    ensures
        member_at(client_doc(issuer, source), "issuer"@) == Some(Json::Text(issuer)),
        member_at(client_doc(issuer, source), "source"@) == Some(Json::Text(source)),
        forall|name: Seq<char>|
            #[trigger] member_at(client_doc(issuer, source), name) is Some
                ==> name == "issuer"@ || name == "source"@,
{
    reveal_strlit("issuer");
    reveal_strlit("source");
    assert("issuer"@[0] != "source"@[0]);
}

/// What stands in `changed_doc` under each name; there is no other name in it.
pub proof fn what_changed_doc_holds(what: Seq<char>)
    ensures
        member_at(changed_doc(what), "action"@) == Some(Json::Text(what)),
        forall|name: Seq<char>|
            #[trigger] member_at(changed_doc(what), name) is Some ==> name == "action"@,
{
}

/// A connection is shown as it is stored.
pub proof fn connections_are_shown_whole(row: ConnectionRow, o: MyConnection)
    ensures
        connection_shown(row, o) ==> {
            &&& o.server_id == row.server_id
            &&& o.slug == row.slug
            &&& o.name == row.name
            &&& o.status@ == status_shown(opt_text(row.conn_status))
            &&& o.subject_label == row.subject_label
            &&& texts(o.scopes@)
                    == (match row.scopes { Some(s) => texts(s@), None => Seq::empty(), })
        },
{
}

/// A client's secret is kept where none is given and the issuer is the same; one that is given replaces
/// it, and one that is given blank removes it.
pub proof fn secrets_are_kept_for_their_issuer(
    asked: Option<Vec<String>>,
    offered: Seq<Seq<char>>,
    stored: Option<StoredClient>,
    issuer: Seq<char>,
    given: Option<Seq<char>>,
    kept: Option<Seq<char>>,
    s: ClientSecret,
    reg: Result<Registration, AppError>,
)
    ensures
        asked matches Some(v) ==> scopes_of(asked, offered) == texts(v@),
        asked is None ==> scopes_of(asked, offered) == offered,
        (stored matches Some(c) && c.issuer@ == issuer)
            ==> secret_at(stored, issuer) == opt_text(stored->0.secret_enc),
        !(stored matches Some(c) && c.issuer@ == issuer) ==> secret_at(stored, issuer) is None,
        secret_after(given, kept, s) && given is None && kept is Some
            ==> (s matches ClientSecret::Kept(k) && kept == Some(k@)),
        secret_after(given, kept, s) && given is None && kept is None ==> s is Absent,
        secret_after(given, kept, s) && (given matches Some(g) && trimmed(g).len() > 0)
            ==> (s matches ClientSecret::Given(x) && x@ == trimmed(given->0)),
        secret_after(given, kept, s) && (given matches Some(g) && trimmed(g).len() == 0)
            ==> s is Absent,
        registration_failure(reg) is None <==> reg is Ok,
{
}

/// A connection is live where it is there and active. It is shown as connected, to be renewed, or not
/// connected.
pub proof fn connections_are_live_or_not(
    connections: Seq<ServerConnection>,
    id: Id,
    stored: Option<Seq<char>>,
)
    ensures
        is_live(connections, id)
            <==> exists|i: int|
                #![trigger connections[i]]
                0 <= i < connections.len() && connections[i].id == id && connections[i].active,
        status_shown(Some("active"@)) == "connected"@,
        status_shown(Some("reauth_required"@)) == "reauth_required"@,
        stored != Some("active"@) && stored != Some("reauth_required"@)
            ==> status_shown(stored) == "disconnected"@,
{
    reveal_strlit("active");
    reveal_strlit("reauth_required");
    assert("active"@.len() != "reauth_required"@.len());
}

/// After a callback somebody lands on their profile, with the server that was connected or with what
/// went wrong. One connection is the source of the catalogue.
pub proof fn callbacks_land_on_the_profile(
    base: Seq<char>,
    slug: Seq<char>,
    e: Refusal,
    x: Result<Seq<char>, Refusal>,
    connections: Seq<ServerConnection>,
    chosen: Id,
)
    ensures
        callback_lands(base, Some(e), x) == landing(base, "mcp_connect_error"@, told(e)),
        callback_lands(base, None, Ok(slug)) == landing(base, "mcp_connected"@, slug),
        callback_lands(base, None, Err(e)) == landing(base, "mcp_connect_error"@, told(e)),
        url_with(
            base,
            "/profile"@,
            ("tab"@, "connections"@),
            ("mcp_connected"@, slug),
        ) matches Some(u)
            ==> landing(base, "mcp_connected"@, slug) == u,
        sources_after(connections, chosen).len() == connections.len(),
        forall|i: int|
            0 <= i < connections.len()
                ==> (
                    #[trigger] sources_after(connections, chosen)[i]
                        <==> connections[i].id == chosen
                ),
{
}

/// Of several things that are wrong, `managed_refusal` tells the first.
pub proof fn managed_refusal_tells_the_first_thing(
    permissions: Permissions,
    row: Option<StoredServer>,
)
    ensures
        permissions.mcp_manage is Some
            ==> managed_refusal(permissions, row) == refusal_in(permissions.mcp_manage),
        !(permissions.mcp_manage is Some)
            ==> managed_refusal(permissions, row) == server_refusal(row),
{
}

/// Of several things that are wrong, `put_gate_refusal` tells the first.
pub proof fn put_gate_refusal_tells_the_first_thing(
    permissions: Permissions,
    has_key: bool,
    row: Option<StoredServer>,
)
    ensures
        permissions.mcp_manage is Some
            ==> put_gate_refusal(permissions, has_key, row) == refusal_in(permissions.mcp_manage),
        !(permissions.mcp_manage is Some) && !has_key
            ==> put_gate_refusal(permissions, has_key, row)
                == Some(
                    Refusal::Validation(
                        "server encryption key not configured (set message_encryption_key)"@
                    )
                ),
        !(permissions.mcp_manage is Some) && has_key && server_refusal(row) is Some
            ==> put_gate_refusal(permissions, has_key, row) == server_refusal(row),
        !(permissions.mcp_manage is Some)
            && has_key
            && !(server_refusal(row) is Some)
            && row->0.auth_type@ != "oauth"@
            ==> put_gate_refusal(permissions, has_key, row)
                == Some(Refusal::Validation("set the server's auth type to OAuth first"@)),
        !(permissions.mcp_manage is Some)
            && has_key
            && !(server_refusal(row) is Some)
            && !(row->0.auth_type@ != "oauth"@)
            ==> put_gate_refusal(permissions, has_key, row) is None,
{
}

/// Of several things that are wrong, `client_refusal` tells the first.
pub proof fn client_refusal_tells_the_first_thing(
    s256_ok: bool,
    use_dcr: bool,
    client_id: Option<Seq<char>>,
    registration_refusal: Option<Refusal>,
)
    ensures
        !s256_ok
            ==> client_refusal(s256_ok, use_dcr, client_id, registration_refusal)
                == Some(
                    Refusal::Validation(
                        "authorisation server does not advertise PKCE S256; cannot approve"@
                    )
                ),
        s256_ok && use_dcr
            ==> client_refusal(s256_ok, use_dcr, client_id, registration_refusal)
                == registration_refusal,
        s256_ok && !use_dcr && filled(client_id) is None
            ==> client_refusal(s256_ok, use_dcr, client_id, registration_refusal)
                == Some(
                    Refusal::Validation("a client_id is required (or use dynamic registration)"@)
                ),
        s256_ok && !use_dcr && !(filled(client_id) is None)
            ==> client_refusal(s256_ok, use_dcr, client_id, registration_refusal) is None,
{
}

/// Of several things that are wrong, `connect_refusal` tells the first.
pub proof fn connect_refusal_tells_the_first_thing(
    ctx: AuthContext,
    row: Option<StoredServer>,
    read_refusal: Option<Refusal>,
    has_client: bool,
    service: bool,
    manage_refusal: Option<Refusal>,
)
    ensures
        ctx.user_id is None
            ==> connect_refusal(ctx, row, read_refusal, has_client, service, manage_refusal)
                == Some(Refusal::Forbidden("authentication required"@)),
        !(ctx.user_id is None) && server_refusal(row) is Some
            ==> connect_refusal(ctx, row, read_refusal, has_client, service, manage_refusal)
                == server_refusal(row),
        !(ctx.user_id is None) && !(server_refusal(row) is Some) && row->0.auth_type@ != "oauth"@
            ==> connect_refusal(ctx, row, read_refusal, has_client, service, manage_refusal)
                == Some(Refusal::Validation("this server is not an OAuth server"@)),
        !(ctx.user_id is None)
            && !(server_refusal(row) is Some)
            && !(row->0.auth_type@ != "oauth"@)
            && read_refusal is Some
            ==> connect_refusal(ctx, row, read_refusal, has_client, service, manage_refusal)
                == read_refusal,
        !(ctx.user_id is None)
            && !(server_refusal(row) is Some)
            && !(row->0.auth_type@ != "oauth"@)
            && !(read_refusal is Some)
            && !has_client
            ==> connect_refusal(ctx, row, read_refusal, has_client, service, manage_refusal)
                == Some(Refusal::Validation("this server has no approved OAuth client yet"@)),
        !(ctx.user_id is None)
            && !(server_refusal(row) is Some)
            && !(row->0.auth_type@ != "oauth"@)
            && !(read_refusal is Some)
            && has_client
            && service
            ==> connect_refusal(ctx, row, read_refusal, has_client, service, manage_refusal)
                == manage_refusal,
        !(ctx.user_id is None)
            && !(server_refusal(row) is Some)
            && !(row->0.auth_type@ != "oauth"@)
            && !(read_refusal is Some)
            && has_client
            && !service
            ==> connect_refusal(ctx, row, read_refusal, has_client, service, manage_refusal) is None,
{
}

/// A server that is not there is not found, and one without an address cannot be used.
pub proof fn why_servers_are_refused(s: StoredServer)
    ensures
        server_refusal(None) == Some(Refusal::NotFound("MCP server not found"@)),
        s.url is None
            ==> server_refusal(Some(s)) == Some(Refusal::Validation("MCP server has no URL"@)),
{
}

} // verus!
