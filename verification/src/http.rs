//! What each part of the HTTP surface decides, and what the transport itself
//! decides: policies, tokens and the caller's own identity.

use vstd::prelude::*;
use vstd::string::*;

use crate::lists::selects_last;
use crate::error::{refusal, AppError, Refusal};
use crate::principal::{AuthContext, Id, PlatformRole};
use crate::text::{
    after_prefix,
    beginnings_and_ends,
    begins,
    chars_of,
    clip,
    clipped,
    cut,
    cut_at,
    find_at,
    find_at_is_first,
    find_from,
    has_text,
    has_text_between,
    is_blank,
    joined,
    opt_str,
    opt_text,
    same,
    split,
    split_on,
    starts_with,
    strip_prefix,
    text_between,
    texts,
    trim,
    trimmed,
    trimmed_empty_iff_blank,
};

pub mod agent_runs;
pub mod agents;
pub mod announcements;
pub mod api_keys;
pub mod artefacts;
pub mod auth;
pub mod automations;
pub mod chat_attachments;
pub mod chats;
pub mod config_admin;
pub mod conflict_names;
pub mod desktop;
pub mod devices;
pub mod diary;
pub mod documents;
pub mod enquiries;
pub mod export;
pub mod feedback;
pub mod groundedness;
pub mod groundedness_admin;
pub mod health;
pub mod integrations;
pub mod kb;
pub mod limits;
pub mod mcp_admin;
pub mod mcp_oauth;
pub mod memory;
pub mod message_attachments;
pub mod messaging;
pub mod notify_targets;
pub mod power;
pub mod profile;
pub mod projects;
pub mod prompts;
pub mod routes;

verus! {

/// The first so many of a list.
pub open spec fn first<T>(s: Seq<T>, n: nat) -> Seq<T> {
    if s.len() <= n {
        s
    } else {
        s.take(n as int)
    }
}

/// The token in an `Authorization` header, with or without its scheme.
pub open spec fn bare_token(raw: Seq<char>) -> Seq<char> {
    match after_prefix(raw, "Bearer "@) {
        Some(t) => trimmed(t),
        None => match after_prefix(raw, "bearer "@) {
            Some(t) => trimmed(t),
            None => trimmed(raw),
        },
    }
}

/// Whether a request carries one of the platform's own tokens rather than an
/// identity provider's. Decided on the token's prefix alone, never on whether the
/// token is good.
pub fn is_platform_token(authorization: Option<&str>, prefix: &str) -> (r: bool)
    ensures
        r == (authorization matches Some(raw) && starts_with(bare_token(raw@), prefix@)),
{
    let raw = match authorization {
        Some(raw) => raw,
        None => {
            return false;
        },
    };
    let token = match strip_prefix(raw, "Bearer ") {
        Some(t) => t,
        None => match strip_prefix(raw, "bearer ") {
            Some(t) => t,
            None => raw.to_owned(),
        },
    };
    let bare = trim(token.as_str());
    begins(bare.as_str(), prefix)
}

/// What only some editions have is refused where it is off.
pub fn require_capability(enabled: bool, label: &str) -> (r: Result<(), AppError>)
    ensures
        refusal(r) == (if enabled {
            None
        } else {
            Some(Refusal::Forbidden(label@ + " is an Enterprise feature"@))
        }),
{
    if enabled {
        Ok(())
    } else {
        Err(AppError::Forbidden(joined(label, " is an Enterprise feature")))
    }
}

/// A path that a browser navigates to, rather than one that a program calls.
pub open spec fn is_page(path: Seq<char>) -> bool {
    &&& !starts_with(path, "/api"@)
    &&& !starts_with(path, "/v1"@)
    &&& !starts_with(path, "/ws"@)
    &&& !starts_with(path, "/health"@)
    &&& !starts_with(path, "/metrics"@)
}

/// The status of a response: a page that was answered "not found" with the
/// application's HTML is a page of the application, and found.
pub fn spa_ok_status(get: bool, path: &str, status: u16, content_type: Option<&str>) -> (r: u16)
    ensures
        r == (if get && is_page(path@) && status == 404 && (content_type matches Some(t)
            && starts_with(t@, "text/html"@)) {
            200
        } else {
            status
        }),
{
    let page = !begins(path, "/api") && !begins(path, "/v1") && !begins(path, "/ws") && !begins(
        path,
        "/health",
    ) && !begins(path, "/metrics");
    let html = match content_type {
        Some(t) => begins(t, "text/html"),
        None => false,
    };
    if get && page && status == 404 && html {
        200
    } else {
        status
    }
}

/// The headers that every response carries, with the deployment's content policy.
pub open spec fn baseline_headers(csp: Seq<char>) -> Seq<(Seq<char>, Seq<char>)> {
    seq![
        ("x-content-type-options"@, "nosniff"@),
        ("x-frame-options"@, "DENY"@),
        ("referrer-policy"@, "no-referrer"@),
        ("strict-transport-security"@, "max-age=63072000"@),
        ("content-security-policy"@, csp),
    ]
}

/// The policy that is sent: the deployment's, where it can be the value of a header, and else one
/// that lets nothing in from elsewhere.
pub open spec fn policy_sent(csp: Seq<char>) -> Seq<char> {
    if is_header_text(csp) {
        csp
    } else {
        "default-src 'self'"@
    }
}

/// A header as contracts see it.
pub open spec fn header_view(h: (String, String)) -> (Seq<char>, Seq<char>) {
    (h.0@, h.1@)
}

pub fn security_headers(csp: &str) -> (r: Vec<(String, String)>)
    ensures
        r@.map_values(|h: (String, String)| header_view(h)) == baseline_headers(
            policy_sent(csp@),
        ),
{
    let policy = if is_header_value(csp) {
        csp
    } else {
        "default-src 'self'"
    };
    let mut out: Vec<(String, String)> = Vec::new();
    out.push(("x-content-type-options".to_owned(), "nosniff".to_owned()));
    out.push(("x-frame-options".to_owned(), "DENY".to_owned()));
    out.push(("referrer-policy".to_owned(), "no-referrer".to_owned()));
    out.push(("strict-transport-security".to_owned(), "max-age=63072000".to_owned()));
    out.push(("content-security-policy".to_owned(), policy.to_owned()));
    assert(out@.map_values(|h: (String, String)| header_view(h)) =~= baseline_headers(policy@));
    out
}

/// A text that may be the value of a header: no control characters but the tab.
pub open spec fn is_header_text(s: Seq<char>) -> bool {
    forall|i: int| 0 <= i < s.len() ==> #[trigger] s[i] == '\t' || (s[i] >= ' ' && s[i] != '\u{7f}')
}

/// `HeaderValue::from_str` accepts a text whose bytes are a tab, or at least 32
/// and not 127; the bytes of a character beyond ASCII are all above that.
#[verifier::external_body]
fn is_header_value(s: &str) -> (r: bool)
    ensures
        r == is_header_text(s@),
{
    axum::http::HeaderValue::from_str(s).is_ok()
}

/// The origins among those configured that can be one, trimmed, in their order.
pub open spec fn usable_origins(origins: Seq<Seq<char>>) -> Seq<Seq<char>>
    decreases origins.len(),
{
    if origins.len() == 0 {
        Seq::empty()
    } else {
        let before = usable_origins(origins.drop_last());
        if is_header_text(trimmed(origins.last())) {
            before.push(trimmed(origins.last()))
        } else {
            before
        }
    }
}

/// The origins from which a desktop client is admitted. With none, cross-origin
/// requests stay denied.
pub fn desktop_cors(origins: &Vec<String>) -> (r: Vec<String>)
    ensures
        texts(r@) == usable_origins(texts(origins@)),
{
    let mut out: Vec<String> = Vec::new();
    let mut i: usize = 0;
    assert(texts(origins@).take(0) == Seq::<Seq<char>>::empty());
    while i < origins.len()
        invariant
            i <= origins@.len(),
            texts(out@) == usable_origins(texts(origins@).take(i as int)),
        decreases origins@.len() - i,
    {
        assert(texts(origins@).take(i as int + 1).drop_last() == texts(origins@).take(i as int));
        let o = trim(origins[i].as_str());
        if is_header_value(o.as_str()) {
            let ghost had = out@;
            out.push(o);
            assert(texts(out@) == texts(had).push(o@));
        }
        i = i + 1;
    }
    assert(texts(origins@).take(origins@.len() as int) == texts(origins@));
    out
}

/// The position where the authority of an address ends: the first slash, question
/// mark or hash at or after `from`, or the end.
pub open spec fn authority_end(s: Seq<char>, from: int) -> int
    decreases s.len() - from,
{
    if from < 0 || from >= s.len() {
        s.len() as int
    } else if s[from] == '/' || s[from] == '?' || s[from] == '#' {
        from
    } else {
        authority_end(s, from + 1)
    }
}

/// The scheme and authority of an address that has both.
pub open spec fn origin(url: Seq<char>) -> Option<Seq<char>> {
    match find_at(url, "://"@, 0) {
        Some(i) => if i > 0 && authority_end(url, i + 3) > i + 3 {
            Some(url.take(authority_end(url, i + 3)))
        } else {
            None
        },
        None => None,
    }
}

/// The origin of an address: its scheme and authority, as they are written.
pub fn origin_of(url: &str) -> (r: Option<String>)
    ensures
        opt_text(r) == origin(url@),
{
    let v = chars_of(url);
    let n: usize = v.len();
    let mark: Vec<char> = vec![':', '/', '/'];
    proof {
        reveal_strlit("://");
        assert(mark@ == "://"@);
        find_at_is_first(url@, "://"@, 0);
    }
    let start: usize = match find_from(&v, &mark, 0) {
        Some(i) => i,
        None => {
            return None;
        },
    };
    if start == 0 {
        return None;
    }
    let mut end: usize = start + 3;
    while end < n && v[end] != '/' && v[end] != '?' && v[end] != '#'
        invariant
            n == v@.len(),
            start + 3 <= end <= n,
            authority_end(v@, start + 3) == authority_end(v@, end as int),
        decreases n - end,
    {
        end = end + 1;
    }
    if end == start + 3 {
        return None;
    }
    let r = text_between(&v, 0, end);
    assert(r@ == url@.take(end as int));
    Some(r)
}

/// The external origin that the login flow reaches: the identity provider's, where
/// one is configured and it is not where the application itself is served.
pub open spec fn auth_origin(
    public_url: Seq<char>,
    keycloak_url: Seq<char>,
    keycloak_configured: bool,
) -> Option<Seq<char>> {
    if keycloak_configured && origin(keycloak_url) != origin(public_url) {
        origin(keycloak_url)
    } else {
        None
    }
}

/// What an external origin adds to a directive.
pub open spec fn also(origin: Option<Seq<char>>) -> Seq<char> {
    match origin {
        Some(o) => " "@ + o,
        None => Seq::empty(),
    }
}

/// The content policy with an external login origin, or without.
pub open spec fn policy(external: Option<Seq<char>>) -> Seq<char> {
    "default-src 'self'; img-src 'self' data: blob:; style-src 'self' 'unsafe-inline'; script-src 'self' 'sha256-fHEyTuBQgebpyWZPwX0cILbtpEM+jmMNnAHGBZyIbvQ='; worker-src 'self'; "@
        + "connect-src 'self'"@ + also(external)
        + "; object-src 'none'; base-uri 'self'; frame-ancestors 'none'; "@
        + "frame-src 'self' blob:"@ + also(external)
}

/// Builds the content policy. The identity provider's origin is added to what the
/// page may connect to and frame; otherwise everything stays with the page's own.
pub fn build_csp_inner(public_url: &str, keycloak_url: &str, keycloak_configured: bool) -> (r:
    String)
    ensures
        r@ == policy(auth_origin(public_url@, keycloak_url@, keycloak_configured)),
{
    let own = origin_of(public_url);
    let auth = if keycloak_configured {
        match origin_of(keycloak_url) {
            Some(o) => {
                let served_here = match &own {
                    Some(p) => same(o.as_str(), p.as_str()),
                    None => false,
                };
                if served_here {
                    String::new()
                } else {
                    joined(" ", o.as_str())
                }
            },
            None => String::new(),
        }
    } else {
        String::new()
    };
    let mut out =
        "default-src 'self'; img-src 'self' data: blob:; style-src 'self' 'unsafe-inline'; script-src 'self' 'sha256-fHEyTuBQgebpyWZPwX0cILbtpEM+jmMNnAHGBZyIbvQ='; worker-src 'self'; ".to_owned();
    out.append("connect-src 'self'");
    out.append(auth.as_str());
    out.append("; object-src 'none'; base-uri 'self'; frame-ancestors 'none'; ");
    out.append("frame-src 'self' blob:");
    out.append(auth.as_str());
    out
}

/// The deployment's settings that the content policy depends on.
pub struct CspConfig {
    pub public_url: String,
    pub keycloak_url: String,
    pub keycloak_configured: bool,
}

pub fn build_csp(boot: &CspConfig) -> (r: String)
    ensures
        r@ == policy(
            auth_origin(boot.public_url@, boot.keycloak_url@, boot.keycloak_configured),
        ),
{
    build_csp_inner(boot.public_url.as_str(), boot.keycloak_url.as_str(), boot.keycloak_configured)
}

/// Documents are framed from object URLs, and the policy lets them be under every
/// login configuration.
pub proof fn policy_frames_object_urls(external: Option<Seq<char>>)
    ensures
        has_text(policy(external), "frame-src 'self' blob:"@),
{
    let before =
        "default-src 'self'; img-src 'self' data: blob:; style-src 'self' 'unsafe-inline'; script-src 'self' 'sha256-fHEyTuBQgebpyWZPwX0cILbtpEM+jmMNnAHGBZyIbvQ='; worker-src 'self'; "@
        + "connect-src 'self'"@ + also(external)
        + "; object-src 'none'; base-uri 'self'; frame-ancestors 'none'; "@;
    has_text_between(before, "frame-src 'self' blob:"@, also(external));
}

/// An external login origin may be connected to.
pub proof fn policy_reaches_login(external: Seq<char>)
    ensures
        has_text(policy(Some(external)), "connect-src 'self'"@ + (" "@ + external)),
{
    let before =
        "default-src 'self'; img-src 'self' data: blob:; style-src 'self' 'unsafe-inline'; script-src 'self' 'sha256-fHEyTuBQgebpyWZPwX0cILbtpEM+jmMNnAHGBZyIbvQ='; worker-src 'self'; "@;
    let part = "connect-src 'self'"@ + (" "@ + external);
    let after = "; object-src 'none'; base-uri 'self'; frame-ancestors 'none'; "@
        + "frame-src 'self' blob:"@ + also(Some(external));
    has_text_between(before, part, after);
    assert(before + part + after == policy(Some(external)));
}

/// Without a configured identity provider the policy depends on no address: it is
/// the page's own only.
pub proof fn local_login_policy_is_fixed(a: Seq<char>, b: Seq<char>, c: Seq<char>, d: Seq<char>)
    ensures
        policy(auth_origin(a, b, false)) == policy(auth_origin(c, d, false)),
        policy(auth_origin(a, b, false)) == policy(None),
{
}

/// Whether two byte strings are equal, without stopping at the first difference:
/// how long it takes tells nothing of where they differ. Only their lengths may
/// be told apart at once.
pub fn ct_eq(a: &[u8], b: &[u8]) -> (r: bool)
    ensures
        r == (a@ == b@),
{
    if a.len() != b.len() {
        return false;
    }
    let mut diff: u8 = 0;
    let mut i: usize = 0;
    assert(a@.take(0) == b@.take(0));
    while i < a.len()
        invariant
            i <= a@.len(),
            a@.len() == b@.len(),
            diff == 0 <==> a@.take(i as int) == b@.take(i as int),
        decreases a@.len() - i,
    {
        let x: u8 = a[i];
        let y: u8 = b[i];
        let ghost before = diff;
        diff = diff | (x ^ y);
        proof {
            assert((before | (x ^ y)) == 0 <==> (before == 0 && x == y)) by (bit_vector);
            assert(a@.take(i as int + 1) == a@.take(i as int).push(x));
            assert(b@.take(i as int + 1) == b@.take(i as int).push(y));
            if a@.take(i as int + 1) == b@.take(i as int + 1) {
                assert(a@.take(i as int) == a@.take(i as int + 1).drop_last());
                assert(b@.take(i as int) == b@.take(i as int + 1).drop_last());
                assert(a@.take(i as int + 1).last() == x);
                assert(b@.take(i as int + 1).last() == y);
            }
        }
        i = i + 1;
    }
    assert(a@.take(a@.len() as int) == a@);
    assert(b@.take(b@.len() as int) == b@);
    diff == 0
}

/// The value of the first `token` among the fields of a query.
pub open spec fn token_field(fields: Seq<Seq<char>>) -> Option<Seq<char>>
    decreases fields.len(),
{
    if fields.len() == 0 {
        None
    } else {
        match token_field(fields.drop_last()) {
            Some(v) => Some(v),
            None => match cut_at(fields.last(), '=') {
                Some(kv) => if kv.0 == "token"@ {
                    Some(kv.1)
                } else {
                    None
                },
                None => None,
            },
        }
    }
}

proof fn token_field_prefix(fields: Seq<Seq<char>>, i: int)
    requires
        0 <= i <= fields.len(),
        token_field(fields.take(i)) is Some,
    ensures
        token_field(fields) == token_field(fields.take(i)),
    decreases fields.len() - i,
{
    if i < fields.len() {
        assert(fields.take(i + 1).drop_last() == fields.take(i));
        token_field_prefix(fields, i + 1);
    } else {
        assert(fields.take(i) == fields);
    }
}

/// The token in a query string.
fn query_token(query: &str) -> (r: Option<String>)
    ensures
        opt_text(r) == token_field(split_on(query@, '&')),
{
    let parts = split(query, '&');
    let ghost fields = texts(parts@);
    let mut i: usize = 0;
    assert(fields.take(0) == Seq::<Seq<char>>::empty());
    while i < parts.len()
        invariant
            i <= parts@.len(),
            fields == texts(parts@),
            fields == split_on(query@, '&'),
            token_field(fields.take(i as int)) is None,
        decreases parts@.len() - i,
    {
        proof {
            assert(fields.take(i as int + 1).drop_last() == fields.take(i as int));
            assert(fields.take(i as int + 1).last() == parts@[i as int]@);
        }
        match cut(parts[i].as_str(), '=') {
            Some((k, v)) => {
                if same(k.as_str(), "token") {
                    proof {
                        token_field_prefix(fields, i as int + 1);
                    }
                    return Some(v);
                }
            },
            None => {},
        }
        i = i + 1;
    }
    assert(fields.take(parts@.len() as int) == fields);
    None
}

/// How a scrape of the metrics is answered.
#[derive(Clone, Copy, Debug, PartialEq, Eq, Structural)]
pub enum MetricsAnswer {
    NotFound,
    Unauthorized,
    Serve,
}

/// A scrape is served to whoever presents the configured token, as a bearer token
/// or in the query. Without a configured token there is nothing to see.
pub open spec fn metrics_answer(
    configured: Seq<char>,
    authorization: Option<Seq<char>>,
    query: Option<Seq<char>>,
) -> MetricsAnswer {
    let want = trimmed(configured);
    if want.len() == 0 {
        MetricsAnswer::NotFound
    } else if (authorization matches Some(a) && after_prefix(a, "Bearer "@) == Some(want)) || (
    query matches Some(q) && token_field(split_on(q, '&')) == Some(want)) {
        MetricsAnswer::Serve
    } else {
        MetricsAnswer::Unauthorized
    }
}

fn same_secret(given: &str, want: &str) -> (r: bool)
    ensures
        r == (given@ == want@),
{
    proof {
        vstd::utf8::encode_utf8_decode_utf8(given@);
        vstd::utf8::encode_utf8_decode_utf8(want@);
    }
    ct_eq(given.as_bytes(), want.as_bytes())
}

pub fn metrics_endpoint(
    metrics_token: &str,
    authorization: Option<&str>,
    query: Option<&str>,
) -> (r: MetricsAnswer)
    ensures
        r == metrics_answer(metrics_token@, opt_str(authorization), opt_str(query)),
{
    let want = trim(metrics_token);
    if want.as_str().is_empty() {
        return MetricsAnswer::NotFound;
    }
    let by_header = match authorization {
        Some(a) => match strip_prefix(a, "Bearer ") {
            Some(t) => same_secret(t.as_str(), want.as_str()),
            None => false,
        },
        None => false,
    };
    let by_query = match query {
        Some(q) => match query_token(q) {
            Some(t) => same_secret(t.as_str(), want.as_str()),
            None => false,
        },
        None => false,
    };
    if by_header || by_query {
        MetricsAnswer::Serve
    } else {
        MetricsAnswer::Unauthorized
    }
}

/// Metrics are closed unless somebody opens them: with a blank token configured,
/// no request is served.
pub proof fn metrics_fail_closed(
    configured: Seq<char>,
    authorization: Option<Seq<char>>,
    query: Option<Seq<char>>,
)
    requires
        crate::text::is_blank(configured),
    ensures
        metrics_answer(configured, authorization, query) == MetricsAnswer::NotFound,
{
    crate::text::trimmed_empty_iff_blank(configured);
}

/// How a request for a socket ticket is answered.
#[derive(Clone, Copy, Debug, PartialEq, Eq, Structural)]
pub enum TicketGate {
    NoUser,
    RateLimited,
    Issue(Id),
}

/// A ticket is issued to a known user, so many times a minute.
pub fn ws_ticket(ctx: &AuthContext, within_rate: bool) -> (r: TicketGate)
    ensures
        r == (match ctx.user_id {
            None => TicketGate::NoUser,
            Some(id) => if within_rate {
                TicketGate::Issue(id)
            } else {
                TicketGate::RateLimited
            },
        }),
{
    match ctx.user_id {
        None => TicketGate::NoUser,
        Some(id) => {
            if within_rate {
                TicketGate::Issue(id)
            } else {
                TicketGate::RateLimited
            }
        },
    }
}

/// A live break-glass grant.
pub struct Grant {
    pub grant_id: String,
    pub ttl_secs: i64,
    pub label: Option<String>,
    pub reason: Option<String>,
}

/// A grant as it is shown to other holders: by its fingerprint, the first eight
/// characters of its token, and never by the token.
pub struct GrantOut {
    pub fp: String,
    pub ttl_secs: i64,
    pub label: Option<String>,
    pub reason: Option<String>,
}

pub open spec fn grant_shown(g: Grant, o: GrantOut) -> bool {
    &&& o.fp@ == clipped(g.grant_id@, 8)
    &&& o.ttl_secs == g.ttl_secs
    &&& opt_text(o.label) == opt_text(g.label)
    &&& opt_text(o.reason) == opt_text(g.reason)
}

pub fn breakglass_grants(grants: &Vec<Grant>) -> (r: Vec<GrantOut>)
    ensures
        r@.len() == grants@.len(),
        forall|i: int| 0 <= i < r@.len() ==> grant_shown(grants@[i], #[trigger] r@[i]),
{
    let mut out: Vec<GrantOut> = Vec::new();
    let mut i: usize = 0;
    while i < grants.len()
        invariant
            i <= grants@.len(),
            out@.len() == i,
            forall|k: int| 0 <= k < i ==> grant_shown(grants@[k], #[trigger] out@[k]),
        decreases grants@.len() - i,
    {
        let g = &grants[i];
        out.push(
            GrantOut {
                fp: clip(g.grant_id.as_str(), 8),
                ttl_secs: g.ttl_secs,
                label: clone_text(&g.label),
                reason: clone_text(&g.reason),
            },
        );
        i = i + 1;
    }
    out
}

/// A copy of an optional text.
pub(crate) fn clone_text(o: &Option<String>) -> (r: Option<String>)
    ensures
        opt_text(r) == opt_text(*o),
{
    match o {
        Some(s) => Some(s.clone()),
        None => None,
    }
}

/// What the host reports of its features, resolved for the caller.
#[derive(Clone, Copy, Debug, PartialEq, Eq, Structural)]
pub struct HostFeatures {
    pub code_interpreter: bool,
    pub mcp: bool,
    pub voice: bool,
    pub voice_live: bool,
    pub streaming_stt: bool,
    pub workflows: bool,
    pub groundedness: bool,
    pub groundedness_repair_knob: bool,
    pub messaging: bool,
    pub public_api: bool,
    pub white_label: bool,
    pub compliance_audit: bool,
    pub moderation: bool,
    pub message_review: bool,
    pub data_owner_approval: bool,
    pub federated_sso: bool,
    pub custom_rbac: bool,
    pub enterprise_connectors: bool,
}

/// What the application shows of itself to the caller.
#[derive(Clone, Copy, Debug, PartialEq, Eq, Structural)]
pub struct Capabilities {
    pub code_interpreter: bool,
    pub voice: bool,
    pub voice_live: bool,
    pub dictation_streaming: bool,
    pub workflows: bool,
    pub groundedness: bool,
    pub groundedness_repair: bool,
    pub mcp: bool,
    pub messaging: bool,
    pub public_api: bool,
    pub white_label: bool,
    pub compliance_audit: bool,
    pub moderation: bool,
    pub message_review: bool,
    pub data_owner_approval: bool,
    pub federated_sso: bool,
    pub custom_rbac: bool,
    pub enterprise_connectors: bool,
}

/// The client's dials of a live voice session.
#[derive(Clone, Copy, Debug, PartialEq, Eq, Structural)]
pub struct VoiceLiveOpts {
    pub ptt_default: bool,
    pub aec_required: bool,
    pub silence_threshold_ms: i64,
}

/// The stored account of the caller.
pub struct AccountRow {
    pub display_name: String,
    pub avatar_updated_at: Option<i64>,
}

/// The caller's identity and what is open to them.
pub struct WhoAmI {
    pub user_id: Option<Id>,
    pub email: Option<String>,
    pub display_name: Option<String>,
    pub role: PlatformRole,
    pub break_glass: bool,
    pub mfa_enroll_only: bool,
    pub is_moderator: bool,
    pub avatar_updated_at: Option<i64>,
    pub llm_configured: bool,
    pub permissions: Vec<String>,
    pub capabilities: Capabilities,
    /// How the caller's model reasons, and whether it sees images.
    pub reasoning: serde_json::Value,
    pub vision: serde_json::Value,
    pub voice_live_opts: Option<VoiceLiveOpts>,
}

/// Repair needs the feature and its own switch; dictation streams where there is
/// voice and an engine that streams. The rest is as the host reports it.
pub open spec fn capabilities_of(h: HostFeatures) -> Capabilities {
    Capabilities {
        code_interpreter: h.code_interpreter,
        voice: h.voice,
        voice_live: h.voice_live,
        dictation_streaming: h.voice && h.streaming_stt,
        workflows: h.workflows,
        groundedness: h.groundedness,
        groundedness_repair: h.groundedness && h.groundedness_repair_knob,
        mcp: h.mcp,
        messaging: h.messaging,
        public_api: h.public_api,
        white_label: h.white_label,
        compliance_audit: h.compliance_audit,
        moderation: h.moderation,
        message_review: h.message_review,
        data_owner_approval: h.data_owner_approval,
        federated_sso: h.federated_sso,
        custom_rbac: h.custom_rbac,
        enterprise_connectors: h.enterprise_connectors,
    }
}

/// Everything that identifying the caller reads.
pub struct WhoAmIInput {
    pub email: Option<String>,
    pub token_name: Option<String>,
    pub account: Option<AccountRow>,
    pub moderates: bool,
    pub llm_configured: bool,
    pub permissions: Option<Vec<String>>,
    pub features: HostFeatures,
    pub reasoning: serde_json::Value,
    pub vision: serde_json::Value,
    pub voice: VoiceLiveOpts,
}

/// The name that the caller chose, where an account of theirs is stored, and the
/// one their token gives otherwise.
pub open spec fn shown_name(ctx: AuthContext, i: WhoAmIInput) -> Option<Seq<char>> {
    match i.account {
        Some(row) => if ctx.user_id is Some {
            Some(row.display_name@)
        } else {
            opt_text(i.token_name)
        },
        None => opt_text(i.token_name),
    }
}

/// Who the caller is and what is open to them. Moderation is an assignment of an
/// account, never implied by a role; what an account says goes before what the
/// token says; permissions that cannot be resolved are none.
pub fn whoami(ctx: &AuthContext, input: WhoAmIInput) -> (r: WhoAmI)
    ensures
        r.user_id == ctx.user_id,
        r.email == input.email,
        opt_text(r.display_name) == shown_name(*ctx, input),
        r.role == ctx.role,
        r.break_glass == ctx.break_glass,
        r.mfa_enroll_only == ctx.mfa_enroll_only,
        r.is_moderator == (ctx.user_id is Some && input.moderates),
        r.avatar_updated_at == (match input.account {
            Some(row) => if ctx.user_id is Some {
                row.avatar_updated_at
            } else {
                None
            },
            None => None,
        }),
        r.llm_configured == input.llm_configured,
        texts(r.permissions@) == (match input.permissions {
            Some(p) => texts(p@),
            None => Seq::empty(),
        }),
        r.capabilities == capabilities_of(input.features),
        r.reasoning == input.reasoning,
        r.vision == input.vision,
        r.voice_live_opts == (if input.features.voice_live {
            Some(input.voice)
        } else {
            None
        }),
{
    let mut display_name = input.token_name;
    let mut avatar_updated_at: Option<i64> = None;
    if ctx.user_id.is_some() {
        match input.account {
            Some(row) => {
                display_name = Some(row.display_name);
                avatar_updated_at = row.avatar_updated_at;
            },
            None => {},
        }
    }
    let permissions: Vec<String> = match input.permissions {
        Some(p) => p,
        None => Vec::new(),
    };
    assert(input.permissions is None ==> texts(permissions@) =~= Seq::<Seq<char>>::empty());
    let h = input.features;
    let voice_live_opts = if h.voice_live {
        Some(input.voice)
    } else {
        None
    };
    let capabilities = Capabilities {
        code_interpreter: h.code_interpreter,
        voice: h.voice,
        voice_live: h.voice_live,
        dictation_streaming: h.voice && h.streaming_stt,
        workflows: h.workflows,
        groundedness: h.groundedness,
        groundedness_repair: h.groundedness && h.groundedness_repair_knob,
        mcp: h.mcp,
        messaging: h.messaging,
        public_api: h.public_api,
        white_label: h.white_label,
        compliance_audit: h.compliance_audit,
        moderation: h.moderation,
        message_review: h.message_review,
        data_owner_approval: h.data_owner_approval,
        federated_sso: h.federated_sso,
        custom_rbac: h.custom_rbac,
        enterprise_connectors: h.enterprise_connectors,
    };
    WhoAmI {
        user_id: ctx.user_id,
        email: input.email,
        display_name,
        role: ctx.role,
        break_glass: ctx.break_glass,
        mfa_enroll_only: ctx.mfa_enroll_only,
        is_moderator: ctx.user_id.is_some() && input.moderates,
        avatar_updated_at,
        llm_configured: input.llm_configured,
        permissions,
        capabilities,
        reasoning: input.reasoning,
        vision: input.vision,
        voice_live_opts,
    }
}

/// The origins that are let in are those that can stand in a header, without the white space round
/// them, in their order.
pub proof fn origins_are_kept_where_they_can_be_headers(s: Seq<Seq<char>>)
    ensures
        usable_origins(s)
            == s.filter(
                |x: Seq<char>| (
                    forall|i: int|
                        0 <= i < trimmed(x).len()
                            ==> #[trigger] trimmed(x)[i] == '\t'
                                || (trimmed(x)[i] >= ' ' && trimmed(x)[i] != '\u{7f}')
                )
            ).map_values(|x: Seq<char>| trimmed(x)),
    decreases s.len(),
{
    let p = |x: Seq<char>| (
            forall|i: int|
                0 <= i < trimmed(x).len()
                    ==> #[trigger] trimmed(x)[i] == '\t'
                        || (trimmed(x)[i] >= ' ' && trimmed(x)[i] != '\u{7f}')
        );
    selects_last(s, p);
    if s.len() > 0 {
        origins_are_kept_where_they_can_be_headers(s.drop_last());
    }
    assert(usable_origins(s) =~= s.filter(p).map_values(|x: Seq<char>| trimmed(x)));
}

/// The beginning of a list: all of it where it is short, else as many items as are asked for, and
/// each as it stood.
pub proof fn beginnings_are_as_they_stood<T>(s: Seq<T>, n: nat)
    ensures
        first(s, n).len() == (if s.len() < n {
            s.len()
        } else {
            n
        }),
        forall|i: int| 0 <= i < first(s, n).len() ==> #[trigger] first(s, n)[i] == s[i],
{
}

/// The authority of an address ends at the first mark behind it, or with the address.
pub proof fn authorities_end_at_a_mark(s: Seq<char>, from: int)
    requires
        0 <= from <= s.len(),
    ensures
        from <= authority_end(s, from) <= s.len(),
        authority_end(s, from) < s.len() ==> ({
            let c = s[authority_end(s, from)];
            c == '/' || c == '?' || c == '#'
        }),
        forall|k: int|
            #![trigger s[k]]
            from <= k < authority_end(s, from) ==> s[k] != '/' && s[k] != '?' && s[k] != '#',
    decreases s.len() - from,
{
    if from < s.len() && s[from] != '/' && s[from] != '?' && s[from] != '#' {
        authorities_end_at_a_mark(s, from + 1);
    }
}

/// The token of a query is the value of its first field of that name.
pub proof fn the_first_token_counts(s: Seq<Seq<char>>) -> (at: int)
    ensures
        match token_field(s) {
            Some(v) => 0 <= at < s.len()
                && ((cut_at(s[at], '=') matches Some(kv) && kv.0 == "token"@))
                && v == (cut_at(s[at], '=')->0).1
                && forall|k: int|
                #![trigger s[k]]
                0 <= k < at ==> !((cut_at(s[k], '=') matches Some(kv) && kv.0 == "token"@)),
            None => forall|k: int| #![trigger s[k]] 0 <= k < s.len() ==> !(
                (cut_at(s[k], '=') matches Some(kv) && kv.0 == "token"@)
            ),
        },
    decreases s.len(),
{
    if s.len() == 0 {
        0
    } else {
        let front = s.drop_last();
        let at = the_first_token_counts(front);
        assert forall|k: int| #![trigger s[k]] 0 <= k < front.len() implies s[k] == front[k] by {}
        if token_field(front) is Some {
            assert(s[at] == front[at]);
            at
        } else {
            s.len() - 1
        }
    }
}

/// A grant is shown by the beginning of its name, and whole besides.
pub proof fn grants_are_shown_whole(g: Grant, o: GrantOut)
    ensures
        grant_shown(g, o) ==> {
            &&& o.fp@ == clipped(g.grant_id@, 8)
            &&& o.ttl_secs == g.ttl_secs
            &&& opt_text(o.label) == opt_text(g.label)
            &&& opt_text(o.reason) == opt_text(g.reason)
        },
{
}

/// A token is read without its scheme, in capitals or not, and without the blanks around it.
pub proof fn tokens_come_without_their_scheme(t: Seq<char>)
    ensures
        bare_token("Bearer "@ + t) == trimmed(t),
        bare_token("bearer "@ + t) == trimmed(t),
        !starts_with(t, "Bearer "@) && !starts_with(t, "bearer "@) ==> bare_token(t) == trimmed(t),
{
    reveal_strlit("Bearer ");
    reveal_strlit("bearer ");
    beginnings_and_ends(t, "Bearer "@);
    beginnings_and_ends(t, "bearer "@);
    let s = "bearer "@ + t;
    assert(s[0] == 'b');
    if starts_with(s, "Bearer "@) {
        assert(s.subrange(0, 7)[0] == s[0]);
    }
}

/// A path is one of the pages unless it begins as the platform's own do.
pub proof fn pages_are_what_is_not_served(path: Seq<char>)
    ensures
        is_page(path)
            <==> !starts_with(path, "/api"@)
                && !starts_with(path, "/v1"@)
                && !starts_with(path, "/ws"@)
                && !starts_with(path, "/health"@)
                && !starts_with(path, "/metrics"@),
{
}

/// Every answer goes out with five headers, the last of them the policy that it was given.
pub proof fn every_answer_is_guarded(csp: Seq<char>)
    ensures
        baseline_headers(csp).len() == 5,
        baseline_headers(csp)[0] == ("x-content-type-options"@, "nosniff"@),
        baseline_headers(csp)[1] == ("x-frame-options"@, "DENY"@),
        baseline_headers(csp)[2] == ("referrer-policy"@, "no-referrer"@),
        baseline_headers(csp)[3] == ("strict-transport-security"@, "max-age=63072000"@),
        baseline_headers(csp)[4] == ("content-security-policy"@, csp),
{
}

/// A policy is sent as it is where it fits a header, which takes tabs and what is neither a control
/// character nor erased; else the plainest is sent.
pub proof fn policies_fit_a_header(csp: Seq<char>)
    ensures
        is_header_text(csp) ==> policy_sent(csp) == csp,
        !is_header_text(csp) ==> policy_sent(csp) == "default-src 'self'"@,
        is_header_text(csp)
            <==> forall|i: int|
                #![trigger csp[i]]
                0 <= i < csp.len() ==> csp[i] == '\t' || (' ' <= csp[i] && csp[i] != '\u{7f}'),
{
}

/// The origin of an address is its beginning up to the end of the authority; there is one where a
/// scheme and an authority are given.
pub proof fn origins_are_beginnings(url: Seq<char>)
    ensures
        origin(url) matches Some(o) ==> {
            let i = find_at(url, "://"@, 0)->0;
            &&& find_at(url, "://"@, 0) is Some
            &&& 0 < i
            &&& i + 3 < o.len() <= url.len()
            &&& o == url.take(o.len() as int)
            &&& forall|k: int|
                #![trigger o[k]]
                i + 3 <= k < o.len() ==> o[k] != '/' && o[k] != '?' && o[k] != '#'
            &&& o.len() < url.len() ==> url[o.len() as int] == '/' || url[o.len() as int] == '?'
                || url[o.len() as int] == '#'
        },
        origin(url) is None ==> (find_at(url, "://"@, 0) matches Some(i) ==> i == 0 || i + 3
            >= url.len() || url[i + 3] == '/' || url[i + 3] == '?' || url[i + 3] == '#'),
{
    reveal_strlit("://");
    find_at_is_first(url, "://"@, 0);
    if let Some(i) = find_at(url, "://"@, 0) {
        assert(i + 3 <= url.len());
        authorities_end_at_a_mark(url, i + 3);
        if let Some(o) = origin(url) {
            assert forall|k: int| #![trigger o[k]] i + 3 <= k < o.len() implies o[k] != '/' && o[k]
                != '?' && o[k] != '#' by {
                assert(url[k] == o[k]);
            }
        }
    }
}

/// An origin that is allowed besides is added behind a blank.
pub proof fn other_origins_are_added(origin: Option<Seq<char>>)
    ensures
        origin matches Some(o) ==> also(origin) == " "@ + o,
        origin is None ==> also(origin).len() == 0,
{
}

/// A client is told of each feature as the host has it: of dictation where there is voice and it
/// streams, of repair where there are checks and it is on.
pub proof fn features_are_told_as_they_are(h: HostFeatures)
    ensures
        capabilities_of(h).code_interpreter == h.code_interpreter,
        capabilities_of(h).voice == h.voice,
        capabilities_of(h).voice_live == h.voice_live,
        capabilities_of(h).workflows == h.workflows,
        capabilities_of(h).groundedness == h.groundedness,
        capabilities_of(h).mcp == h.mcp,
        capabilities_of(h).messaging == h.messaging,
        capabilities_of(h).public_api == h.public_api,
        capabilities_of(h).white_label == h.white_label,
        capabilities_of(h).compliance_audit == h.compliance_audit,
        capabilities_of(h).moderation == h.moderation,
        capabilities_of(h).message_review == h.message_review,
        capabilities_of(h).data_owner_approval == h.data_owner_approval,
        capabilities_of(h).federated_sso == h.federated_sso,
        capabilities_of(h).custom_rbac == h.custom_rbac,
        capabilities_of(h).enterprise_connectors == h.enterprise_connectors,
        capabilities_of(h).dictation_streaming <==> h.voice && h.streaming_stt,
        capabilities_of(h).groundedness_repair <==> h.groundedness && h.groundedness_repair_knob,
{
}

/// Somebody is called as their account has it, or as their token does where there is no account.
pub proof fn names_come_from_the_account(ctx: AuthContext, i: WhoAmIInput)
    ensures
        ctx.user_id is Some && i.account is Some
            ==> shown_name(ctx, i) == Some(i.account->0.display_name@),
        ctx.user_id is None || i.account is None ==> shown_name(ctx, i) == opt_text(i.token_name),
{
}

/// The origin of the login is allowed besides where there is one of its own, other than the
/// platform's.
pub proof fn other_logins_have_an_origin(
    public_url: Seq<char>,
    keycloak_url: Seq<char>,
    configured: bool,
)
    ensures
        auth_origin(public_url, keycloak_url, configured) is Some
            <==> configured
                && origin(keycloak_url) is Some
                && origin(keycloak_url) != origin(public_url),
        auth_origin(public_url, keycloak_url, configured) is Some
            ==> auth_origin(public_url, keycloak_url, configured) == origin(keycloak_url),
{
}

/// Metrics are served to whoever has the token that is set, in the header or in the query, and are not
/// there where none is set.
pub proof fn who_reads_metrics(
    configured: Seq<char>,
    authorization: Option<Seq<char>>,
    query: Option<Seq<char>>,
)
    ensures
        metrics_answer(configured, authorization, query) is NotFound <==> is_blank(configured),
        metrics_answer(configured, authorization, query) is Serve
            <==> !is_blank(configured)
                && (
                    (authorization matches Some(a) && a == "Bearer "@ + trimmed(configured))
                        || (
                            query matches Some(q)
                                && token_field(split_on(q, '&')) == Some(trimmed(configured))
                        )
                ),
{
    trimmed_empty_iff_blank(configured);
    if let Some(a) = authorization {
        beginnings_and_ends(a, "Bearer "@);
        beginnings_and_ends(trimmed(configured), "Bearer "@);
    }
}

/// A header is seen with its name and its value.
pub proof fn headers_are_seen_whole(h: (String, String))
    ensures
        header_view(h) == (h.0@, h.1@),
{
}

} // verus!
