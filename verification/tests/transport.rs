use fosnie::http::limits::{
    automation_limit, callback_limit, export_limit, failed_code_limits, failed_login_limit,
    pairing_code_limit, pairing_limit, ticket_limit, upload_limit,
};
use fosnie::http::routes::{access_of, body_limit_of, Access, Method};
use fosnie::http::{
    breakglass_grants, build_csp, build_csp_inner, ct_eq, desktop_cors, is_platform_token,
    metrics_endpoint, origin_of, require_capability, security_headers, spa_ok_status, whoami, ws_ticket,
    AccountRow, CspConfig, Grant, HostFeatures, MetricsAnswer, TicketGate, VoiceLiveOpts, WhoAmIInput,
};
use fosnie::{AppError, AuthContext, PlatformRole};

fn user(id: Option<u128>) -> AuthContext {
    AuthContext {
        user_id: id,
        role: PlatformRole::User,
        admin: false,
        break_glass: false,
        mfa_enroll_only: false,
    }
}

#[test]
fn includes_configured_keycloak_origin() {
    let csp = build_csp_inner("https://chat.example.com", "https://auth.example.com/realms/x", true);
    assert!(csp.contains("connect-src 'self' https://auth.example.com;"), "{csp}");
    assert!(csp.contains("frame-src 'self' blob: https://auth.example.com"), "{csp}");
    assert!(!csp.contains("scottish-ai"), "{csp}");
}

#[test]
fn local_auth_is_self_only() {
    let csp = build_csp_inner("http://localhost:8088", "", false);
    assert!(csp.contains("connect-src 'self';"), "{csp}");
    assert!(csp.trim_end().ends_with("frame-src 'self' blob:"), "{csp}");
    assert!(!csp.contains("https://"), "{csp}");
}

#[test]
fn omits_keycloak_when_same_origin_as_spa() {
    let csp = build_csp_inner("https://app.example.com", "https://app.example.com/auth", true);
    assert!(csp.contains("connect-src 'self';"), "{csp}");
    assert!(csp.trim_end().ends_with("frame-src 'self' blob:"), "{csp}");
}

// The in-app document viewers frame PDF bytes from an object URL, which a
// bare `frame-src 'self'` would refuse — the allowance must survive every
// auth configuration, not just the local-auth one.
#[test]
fn frames_blob_urls_in_every_auth_mode() {
    for csp in [
        build_csp_inner("http://localhost:8088", "", false),
        build_csp_inner("https://app.example.com", "https://app.example.com/auth", true),
        build_csp_inner("https://chat.example.com", "https://auth.example.com/realms/x", true),
    ] {
        assert!(csp.contains("frame-src 'self' blob:"), "{csp}");
    }
}

#[test]
fn ct_eq_matches_only_identical_bytes() {
    assert!(ct_eq(b"s3cret-token", b"s3cret-token"));
    assert!(!ct_eq(b"s3cret-token", b"s3cret-tokeX")); // same length, last byte differs
    assert!(!ct_eq(b"s3cret-token", b"s3cret")); // length mismatch
    assert!(!ct_eq(b"", b"x"));
    assert!(ct_eq(b"", b"")); // empty==empty (the handler rejects empty tokens before calling)
}

#[test]
fn the_policy_is_built_from_the_configuration() {
    let c = CspConfig {
        public_url: "https://chat.example.com".into(),
        keycloak_url: "https://auth.example.com".into(),
        keycloak_configured: true,
    };
    assert_eq!(
        build_csp(&c),
        build_csp_inner("https://chat.example.com", "https://auth.example.com", true)
    );
}

#[test]
fn an_origin_is_scheme_and_authority() {
    assert_eq!(origin_of("https://auth.example.com/realms/x").as_deref(), Some("https://auth.example.com"));
    assert_eq!(origin_of("nonsense"), None);
}

#[test]
fn metrics_are_off_without_a_token() {
    assert_eq!(metrics_endpoint("  ", Some("Bearer x"), None), MetricsAnswer::NotFound);
    assert_eq!(metrics_endpoint("tok", None, None), MetricsAnswer::Unauthorized);
    assert_eq!(metrics_endpoint("tok", Some("Bearer tok"), None), MetricsAnswer::Serve);
    assert_eq!(metrics_endpoint("tok", Some("Bearer tokk"), None), MetricsAnswer::Unauthorized);
    assert_eq!(metrics_endpoint("tok", None, Some("a=1&token=tok")), MetricsAnswer::Serve);
    assert_eq!(metrics_endpoint("tok", None, Some("a=1&token=no")), MetricsAnswer::Unauthorized);
}

#[test]
fn platform_tokens_are_known_by_their_prefix() {
    assert!(is_platform_token(Some("Bearer pre_abc"), "pre_"));
    assert!(is_platform_token(Some("pre_abc"), "pre_"));
    assert!(!is_platform_token(Some("Bearer eyJ"), "pre_"));
    assert!(!is_platform_token(None, "pre_"));
}

#[test]
fn a_capability_that_is_off_is_refused() {
    assert!(require_capability(true, "white-label").is_ok());
    assert!(matches!(require_capability(false, "white-label"), Err(AppError::Forbidden(_))));
}

#[test]
fn a_page_of_the_application_is_no_missing_page() {
    assert_eq!(spa_ok_status(true, "/chats/1", 404, Some("text/html; charset=utf-8")), 200);
    assert_eq!(spa_ok_status(true, "/api/none", 404, Some("text/html")), 404);
    assert_eq!(spa_ok_status(false, "/chats/1", 404, Some("text/html")), 404);
    assert_eq!(spa_ok_status(true, "/chats/1", 500, Some("text/html")), 500);
}

#[test]
fn every_answer_carries_the_policy() {
    let headers = security_headers("default-src 'self'");
    assert!(headers.iter().any(|h| h.1 == "default-src 'self'"));
    assert!(headers.iter().any(|h| h.1 == "nosniff"));
    let headers = security_headers("img-src\n*");
    assert!(headers.iter().any(|h| h.0 == "content-security-policy" && h.1 == "default-src 'self'"));
}

#[test]
fn only_origins_that_can_be_headers_are_allowed() {
    let kept = desktop_cors(&vec!["https://tauri.localhost".into(), "bad\norigin".into()]);
    assert_eq!(kept, vec!["https://tauri.localhost"]);
}

#[test]
fn tickets_are_for_known_users() {
    assert_eq!(ws_ticket(&user(None), true), TicketGate::NoUser);
    assert_eq!(ws_ticket(&user(Some(7)), false), TicketGate::RateLimited);
    assert_eq!(ws_ticket(&user(Some(7)), true), TicketGate::Issue(7));
}

#[test]
fn grants_are_shown_by_their_fingerprint() {
    let out = breakglass_grants(&vec![Grant {
        grant_id: "0123456789abcdef".into(),
        ttl_secs: 60,
        label: None,
        reason: Some("drill".into()),
    }]);
    assert_eq!(out[0].fp, "01234567");
    assert_eq!(out[0].reason.as_deref(), Some("drill"));
}

fn features() -> HostFeatures {
    HostFeatures {
        code_interpreter: false,
        mcp: true,
        voice: true,
        voice_live: false,
        streaming_stt: true,
        workflows: false,
        groundedness: false,
        groundedness_repair_knob: true,
        messaging: true,
        public_api: false,
        white_label: false,
        compliance_audit: false,
        moderation: false,
        message_review: false,
        data_owner_approval: false,
        federated_sso: false,
        custom_rbac: false,
        enterprise_connectors: false,
    }
}

#[test]
fn an_account_s_own_name_goes_before_the_token_s() {
    let input = WhoAmIInput {
        email: Some("a@example.com".into()),
        token_name: Some("Token".into()),
        account: Some(AccountRow { display_name: "Chosen".into(), avatar_updated_at: Some(9) }),
        moderates: true,
        llm_configured: true,
        permissions: None,
        features: features(),
        reasoning: serde_json::Value::from("toggle"),
        vision: serde_json::Value::Bool(false),
        voice: VoiceLiveOpts { ptt_default: true, aec_required: false, silence_threshold_ms: 700 },
    };
    let me = whoami(&user(Some(7)), input);
    assert_eq!(me.display_name.as_deref(), Some("Chosen"));
    assert_eq!(me.avatar_updated_at, Some(9));
    assert!(me.is_moderator);
    assert!(me.permissions.is_empty());
    assert!(me.capabilities.dictation_streaming);
    assert!(!me.capabilities.groundedness_repair);
    assert!(me.voice_live_opts.is_none());
    assert_eq!(me.reasoning, "toggle");
}

#[test]
fn routes_have_one_class_of_access() {
    assert!(matches!(access_of(Method::Get, "/api/whoami"), Some(Access::Protected)));
    assert!(access_of(Method::Get, "/api/no-such-route").is_none());
    assert!(matches!(access_of(Method::Get, "/ws"), Some(Access::Public)));
    assert!(matches!(access_of(Method::Post, "/api/admin/desktop-installer"), Some(Access::BreakGlass)));
    assert!(matches!(access_of(Method::Get, "/api/desktop/latest.json"), Some(Access::Protected)));
    assert_eq!(body_limit_of("/api/whoami"), None);
}

#[test]
fn limits_are_counted_under_keys_of_their_own() {
    let id = "00000000-0000-0000-0000-000000000007";
    assert_eq!(automation_limit(7).key, format!("automation:{id}"));
    assert_eq!((automation_limit(7).most, automation_limit(7).window_secs), (20, 60));
    assert_eq!(export_limit(7).key, format!("export:{id}"));
    assert_eq!(export_limit(7).most, 10);
    assert_eq!(ticket_limit(7).key, format!("ws-ticket:{id}"));
    assert_eq!(ticket_limit(7).most, 30);
    assert_eq!(upload_limit(None).key, "upload:00000000-0000-0000-0000-000000000000");
    assert_eq!(pairing_code_limit(7).window_secs, 600);
    assert_eq!(pairing_limit("203.0.113.9").key, "pairdev:203.0.113.9");
    assert_eq!(callback_limit().most, 120);
    assert_eq!(failed_login_limit("203.0.113.9").key, "login-fail:203.0.113.9");
    let (token, ip) = failed_code_limits("p", "i", 5, 300);
    assert_eq!((token.key.as_str(), ip.key.as_str()), ("mfa-fail:p", "mfa-fail-ip:i"));
}
