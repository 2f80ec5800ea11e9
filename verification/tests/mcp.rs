use fosnie::grants::Permissions;
use fosnie::http::mcp_admin as admin;
use fosnie::http::mcp_oauth as oauth;
use fosnie::{AppError, AuthContext, PlatformRole};

fn permitted() -> Permissions {
    Permissions {
        announcements_manage: None,
        config_manage: None,
        feedback_view: None,
        groundedness_view: None,
        mcp_manage: None,
        telephony_manage: None,
        users_manage: None,
        users_view: None,
    }
}

fn ctx(id: Option<u128>) -> AuthContext {
    AuthContext {
        user_id: id,
        role: PlatformRole::User,
        admin: false,
        break_glass: false,
        mfa_enroll_only: false,
    }
}

fn told<T>(r: Result<T, AppError>) -> String {
    match r {
        Err(AppError::Validation(m)) => m,
        Err(AppError::Forbidden(m)) => m,
        Err(AppError::NotFound(m)) => m,
        Err(AppError::Other(m)) => m,
        _ => panic!("not refused"),
    }
}

fn body(slug: &str, transport: &str) -> admin::RegisterBody {
    admin::RegisterBody {
        slug: slug.into(),
        name: "n".into(),
        transport: transport.into(),
        command: Some(vec!["run".into()]),
        url: Some("https://mcp.example".into()),
        auth_type: None,
        auth_header_name: None,
        auth_value: None,
        requires_egress: false,
    }
}

#[test]
fn a_server_is_registered_by_its_transport() {
    assert!(admin::register(permitted(), true, &body("crm", "http"), None).is_ok());
    assert!(admin::register(permitted(), true, &body("crm", "stdio"), None).is_ok());
    assert_eq!(
        told(admin::register(permitted(), true, &body("a__b", "http"), None)),
        "slug must be non-empty and must not contain '__'"
    );
    assert_eq!(
        told(admin::register(permitted(), true, &body("crm", "smoke"), None)),
        "transport must be stdio|http, got 'smoke'"
    );
    let mut b = body("crm", "stdio");
    b.command = Some(Vec::new());
    assert_eq!(told(admin::register(permitted(), true, &b, None)), "a stdio server requires a non-empty command");
    let mut b = body("crm", "http");
    b.url = None;
    assert_eq!(told(admin::register(permitted(), true, &b, None)), "an http server requires a url");
}

#[test]
fn secrets_need_a_key() {
    let a = admin::normalise_auth(true, Some("bearer"), None, Some("tok")).unwrap();
    assert_eq!((a.auth_type.as_str(), a.secret.as_deref()), ("bearer", Some("tok")));
    assert!(admin::normalise_auth(false, Some("bearer"), None, Some("tok")).is_err());
    assert_eq!(
        told(admin::normalise_auth(true, Some("bearer"), None, Some(" "))),
        "auth_type 'bearer' requires a non-empty auth_value"
    );
    assert_eq!(
        told(admin::normalise_auth(true, Some("magic"), None, None)),
        "auth_type must be none|bearer|api_key|header, got 'magic'"
    );
    let h = admin::build_http_auth(true, "bearer", None, true, Ok("tok".into())).unwrap();
    assert!(matches!(h, Some(admin::HttpAuth::Bearer(t)) if t == "tok"));
    assert!(admin::build_http_auth(true, "none", None, false, Ok("x".into())).unwrap().is_none());
    assert_eq!(
        told(admin::build_http_auth(true, "bearer", None, false, Ok("x".into()))),
        "auth secret missing"
    );
}

#[test]
fn a_taken_slug_is_named() {
    match admin::insert_failure("violates unique constraint \"mcp_servers_slug_key\"", "crm") {
        AppError::Validation(m) => assert_eq!(m, "an MCP server with slug 'crm' already exists"),
        _ => panic!("another refusal"),
    }
    assert!(matches!(admin::insert_failure("disk full", "crm"), AppError::Other(m) if m == "disk full"));
}

#[test]
fn a_server_is_listed_without_its_secret() {
    let row = |id: u128, created_at: i128| admin::ServerRow {
        id,
        slug: "s".into(),
        name: "n".into(),
        transport: "http".into(),
        url: None,
        status: "active".into(),
        enabled: true,
        tools_catalog: None,
        last_health_at: None,
        created_at,
        auth_type: "none".into(),
        auth_header_name: None,
        auth_value_enc: None,
        requires_egress: false,
    };
    let out = admin::list(permitted(), vec![(row(1, 5), false), (row(2, 9), true)]).unwrap();
    assert_eq!((out[0].id, out[0].connected, out[1].id, out[1].tool_count), (2, true, 1, 0));
    let p = Permissions { mcp_manage: Some(AppError::Forbidden("no".into())), ..permitted() };
    assert_eq!(told(admin::list(p, Vec::new())), "no");
    let out = admin::server_out(
        admin::ServerRow {
            id: 1,
            slug: "crm".into(),
            name: "n".into(),
            transport: "http".into(),
            url: None,
            status: "active".into(),
            enabled: true,
            tools_catalog: Some(serde_json::Value::from(vec![1, 2, 3])),
            last_health_at: Some(0),
            created_at: 0,
            auth_type: "bearer".into(),
            auth_header_name: None,
            auth_value_enc: Some("sealed".into()),
            requires_egress: false,
        },
        true,
    );
    assert_eq!((out.tool_count, out.has_secret), (3, true));
    assert_eq!(out.created_at, "1970-01-01 0:00:00.0 +00:00:00");
}

#[test]
fn an_approved_server_has_a_transport() {
    let row = || admin::ApproveRow {
        transport: "stdio".into(),
        command: Some(vec!["run".into()]),
        url: None,
        auth_type: "none".into(),
        auth_header_name: None,
        auth_value_enc: None,
    };
    let t = admin::approve(permitted(), true, true, Some(row()), None, Ok(String::new())).unwrap();
    assert!(matches!(t, admin::Transport::Stdio { command } if command == vec!["run".to_string()]));
    assert!(admin::approve(permitted(), false, true, Some(row()), None, Ok(String::new())).is_err());
    assert_eq!(told(admin::approve(permitted(), true, true, None, None, Ok(String::new()))), "MCP server not found");
}

fn server(auth: &str) -> Option<oauth::StoredServer> {
    Some(oauth::StoredServer {
        id: 1,
        slug: "crm".into(),
        url: Some("https://mcp.example".into()),
        auth_type: auth.into(),
    })
}

fn discovery(s256_ok: bool) -> oauth::Discovery {
    oauth::Discovery {
        issuer: "https://iss".into(),
        dcr_available: true,
        s256_ok,
        scopes_supported: vec!["read".into()],
        warnings: vec!["no revocation endpoint".into()],
    }
}

fn client(use_dcr: bool, id: Option<&str>) -> oauth::PutClientBody {
    oauth::PutClientBody {
        allowed_issuer_origin: None,
        use_dcr,
        client_id: id.map(|c| c.to_string()),
        client_secret: Some(" ".into()),
        scopes: None,
    }
}

#[test]
fn a_client_needs_proof_keys_and_a_name() {
    let none = || Err(AppError::Other("unused".into()));
    let c = oauth::put_client(client(false, Some(" me ")), &discovery(true), None, none()).unwrap();
    assert_eq!((c.client_id.as_str(), c.source.as_str()), ("me", "manual"));
    assert!(matches!(c.client_secret, oauth::ClientSecret::Absent));
    assert_eq!(
        told(oauth::put_client(client(false, None), &discovery(true), None, none())),
        "a client_id is required (or use dynamic registration)"
    );
    assert!(oauth::put_client(client(false, Some("me")), &discovery(false), None, none()).is_err());
    let reg = Ok(oauth::Registration {
        client_id: "dyn".into(),
        client_secret: None,
        client_uri: None,
        access_token: None,
    });
    assert_eq!(oauth::put_client(client(true, None), &discovery(true), None, reg).unwrap().source, "dcr");
}

#[test]
fn a_secret_that_is_not_given_stays() {
    let put = |secret: Option<&str>, issuer: &str| {
        let body = oauth::PutClientBody { client_secret: secret.map(|s| s.to_string()), ..client(false, Some("me")) };
        let stored = oauth::StoredClient { issuer: issuer.into(), secret_enc: Some("sealed".into()) };
        oauth::put_client(body, &discovery(true), Some(stored), Err(AppError::Other("unused".into()))).unwrap()
    };
    let c = put(None, "https://iss");
    assert!(matches!(&c.client_secret, oauth::ClientSecret::Kept(s) if s == "sealed"));
    assert!(c.response.has_secret);
    let c = put(Some(" new "), "https://iss");
    assert!(matches!(&c.client_secret, oauth::ClientSecret::Given(s) if s == "new"));
    assert!(c.response.has_secret);
    for c in [put(Some(" "), "https://iss"), put(None, "https://other")] {
        assert!(matches!(c.client_secret, oauth::ClientSecret::Absent));
        assert!(!c.response.has_secret);
    }
}

#[test]
fn a_server_is_connected_by_whoever_reads_it() {
    let me = ctx(Some(7));
    let own = oauth::ConnectBody { service: false };
    assert_eq!(oauth::connect(&me, server("oauth"), None, true, &own, permitted()).unwrap(), Some(7));
    let shared = oauth::ConnectBody { service: true };
    assert_eq!(oauth::connect(&me, server("oauth"), None, true, &shared, permitted()).unwrap(), None);
    assert_eq!(
        told(oauth::connect(&me, server("bearer"), None, true, &own, permitted())),
        "this server is not an OAuth server"
    );
    assert_eq!(
        told(oauth::connect(&me, server("oauth"), None, false, &own, permitted())),
        "this server has no approved OAuth client yet"
    );
    assert_eq!(told(oauth::connect(&ctx(None), server("oauth"), None, true, &own, permitted())), "authentication required");
    assert_eq!(told(oauth::load_server(None)), "MCP server not found");
    assert_eq!(oauth::disconnect(&me, server("oauth")).unwrap().0, 7);
}

#[test]
fn a_callback_goes_back_to_the_profile() {
    let p = |code: Option<&str>, error: Option<&str>| oauth::CallbackParams {
        code: code.map(|c| c.to_string()),
        state: Some("s".into()),
        iss: Some("https://iss".into()),
        error: error.map(|e| e.to_string()),
        error_description: None,
    };
    let g = oauth::run_callback(None, p(Some("c"), None)).unwrap();
    assert_eq!((g.code.as_str(), g.state.as_str(), g.iss.as_deref()), ("c", "s", Some("https://iss")));
    assert_eq!(told(oauth::run_callback(None, p(None, None))), "callback missing code");
    assert_eq!(
        told(oauth::run_callback(None, p(Some("c"), Some("access_denied")))),
        "provider returned 'access_denied': "
    );
    let many = Some(AppError::TooManyRequests("slow down".into()));
    assert!(matches!(
        oauth::run_callback(many, p(Some("c"), Some("access_denied"))),
        Err(AppError::TooManyRequests(m)) if m == "slow down"
    ));
    assert_eq!(
        oauth::redirect_url("https://chat.example/x?y=1", "connected", "a b"),
        "https://chat.example/profile?y=1&tab=connections&connected=a+b"
    );
    assert_eq!(
        oauth::callback("nonsense", Ok(()), Ok("crm".into())),
        "http://localhost:8080/profile?tab=connections&mcp_connected=crm"
    );
    assert_eq!(
        oauth::callback("https://chat.example", Ok(()), Err(AppError::Validation("no".into()))),
        "https://chat.example/profile?tab=connections&mcp_connect_error=no"
    );
    let limited = Err(AppError::TooManyRequests("later".into()));
    assert_eq!(
        oauth::callback("https://chat.example", limited, Ok("crm".into())),
        "https://chat.example/profile?tab=connections&mcp_connect_error=later"
    );
}

#[test]
fn a_catalogue_has_one_source() {
    let c = |id: u128, active: bool| oauth::ServerConnection { id, active };
    let all = vec![c(1, true), c(2, true), c(3, false)];
    assert_eq!(oauth::set_catalog_source(&all, 2).unwrap(), vec![false, true, false]);
    for bad in [3, 4] {
        assert_eq!(
            told(oauth::set_catalog_source(&all, bad)),
            "connection is not an active connection for this server"
        );
    }
    assert_eq!(oauth::approve_oauth(server("oauth"), true, Some(2)).unwrap(), 2);
    assert_eq!(
        told(oauth::approve_oauth(server("oauth"), false, Some(2))),
        "configure an OAuth client before approving"
    );
    assert!(oauth::approve_oauth(server("oauth"), true, None).is_err());
}

#[test]
fn a_client_is_put_up_where_there_is_a_key() {
    assert!(oauth::put_client_gate(permitted(), false, server("oauth")).is_err());
    assert_eq!(
        told(oauth::put_client_gate(permitted(), true, server("bearer"))),
        "set the server's auth type to OAuth first"
    );
    assert_eq!(oauth::put_client_gate(permitted(), true, server("oauth")).unwrap().slug, "crm");
    let unmanaged = || Permissions { mcp_manage: Some(AppError::Forbidden("no".into())), ..permitted() };
    assert_eq!(told(oauth::put_client_gate(unmanaged(), true, server("oauth"))), "no");
    assert_eq!(told(oauth::managed_server(unmanaged(), server("oauth"))), "no");
    assert_eq!(oauth::managed_server(permitted(), server("oauth")).unwrap().id, 1);
    assert_eq!(told(oauth::managed_server(permitted(), None)), "MCP server not found");
    let shared = oauth::ConnectBody { service: true };
    let me = ctx(Some(7));
    assert_eq!(told(oauth::connect(&me, server("oauth"), None, true, &shared, unmanaged())), "no");
    assert_eq!(oauth::delete_client(Some("u".into()), None), None);
    assert_eq!(
        oauth::delete_client(Some("u".into()), Some("t".into())),
        Some(("u".to_string(), "t".to_string()))
    );
}

#[test]
fn connections_are_shown_where_the_server_is_read() {
    let row = |id: u128, status: Option<&str>, readable: bool| oauth::ConnectionRow {
        server_id: id,
        slug: "s".into(),
        name: "n".into(),
        conn_status: status.map(|s| s.to_string()),
        subject_label: None,
        scopes: None,
        readable,
    };
    let out = oauth::list_my_connections(vec![
        row(1, Some("active"), true),
        row(2, Some("active"), false),
        row(3, None, true),
    ]);
    let seen: Vec<(u128, &str)> = out.iter().map(|c| (c.server_id, c.status.as_str())).collect();
    assert_eq!(seen, vec![(1, "connected"), (3, "disconnected")]);
}

#[test]
fn discovery_is_shown_with_the_way_back() {
    let d = oauth::discover(discovery(true), "https://me/callback".into());
    assert_eq!((d.issuer.as_str(), d.callback_url.as_str()), ("https://iss", "https://me/callback"));
    assert!(d.dcr_available && d.s256_ok);
    assert_eq!(d.warnings, vec!["no revocation endpoint"]);
}

#[test]
fn an_account_has_one_connection_to_a_server() {
    let mut slots = Vec::new();
    assert_eq!(oauth::mint_pending_connection(&mut slots, 1, Some(7), 10), 10);
    assert_eq!(oauth::mint_pending_connection(&mut slots, 1, Some(7), 11), 10);
    assert_eq!(oauth::mint_pending_connection(&mut slots, 1, None, 12), 12);
    assert_eq!(oauth::mint_pending_connection(&mut slots, 1, None, 13), 12);
    assert_eq!(oauth::mint_pending_connection(&mut slots, 2, Some(7), 14), 14);
    assert_eq!(slots.len(), 3);
}
