use fosnie::grants::Permissions;
use fosnie::http::config_admin::{
    default_scope, default_type, get_theme, is_listed, parse_type, require_admin, safe_colour, safe_font,
    set_config, ConfigValueType, SetConfig, ThemeOut,
};
use fosnie::{AppError, AuthContext, PlatformRole};

fn permitted() -> Permissions {
    Permissions {
        announcements_manage: None,
        config_manage: None,
        feedback_view: None,
        groundedness_view: None,
        mcp_manage: None,
        telephony_manage: None,
        users_manage: None,
        users_view: None,
    }
}

fn ctx(admin: bool, break_glass: bool) -> AuthContext {
    AuthContext {
        user_id: Some(7),
        role: PlatformRole::ClientAdmin,
        admin,
        break_glass,
        mfa_enroll_only: false,
    }
}

#[test]
fn settings_are_an_administrator_s() {
    assert!(require_admin(&ctx(true, false)).is_ok());
    assert!(require_admin(&ctx(false, true)).is_ok());
    assert!(matches!(require_admin(&ctx(false, false)), Err(AppError::Forbidden(m)) if m == "admin only"));
}

#[test]
fn some_settings_are_not_listed() {
    assert!(is_listed("chat.title"));
    for key in ["test.a", "integration.a", "branding.bg", "moderation.x", "welcome.title"] {
        assert!(!is_listed(key));
    }
}

#[test]
fn colours_cannot_break_out() {
    assert_eq!(safe_colour(" #1A2b3c ").as_deref(), Some("#1A2b3c"));
    assert_eq!(safe_colour("rgb(1, 2, 3)").as_deref(), Some("rgb(1, 2, 3)"));
    assert_eq!(safe_colour("URL(x)"), None);
    assert_eq!(safe_colour("red; background: blue"), None);
    assert_eq!(safe_colour("Expression(1)"), None);
    assert_eq!(safe_colour("a/*b"), None);
    assert_eq!(safe_colour(""), None);
    assert_eq!(safe_colour(&"a".repeat(65)), None);
    assert!(safe_colour(&"a".repeat(64)).is_some());
}

#[test]
fn fonts_cannot_break_out() {
    assert_eq!(safe_font("'Open Sans', serif").as_deref(), Some("'Open Sans', serif"));
    assert_eq!(safe_font("x\\y"), None);
    assert_eq!(safe_font("a{b}"), None);
    assert_eq!(safe_font(&"a".repeat(121)), None);
}

#[test]
fn a_theme_keeps_what_is_accepted() {
    let t = get_theme(&ThemeOut {
        primary: Some("red".into()),
        accent: Some("<b>".into()),
        font_sans: Some("Inter".into()),
        ..ThemeOut::default()
    });
    assert_eq!(t.primary.as_deref(), Some("red"));
    assert_eq!(t.accent, None);
    assert_eq!(t.bg, None);
    assert_eq!(t.font_sans.as_deref(), Some("Inter"));
}

#[test]
fn types_have_names() {
    assert_eq!(parse_type("int").unwrap(), ConfigValueType::Integer);
    assert_eq!(parse_type("json").unwrap(), ConfigValueType::Json);
    assert!(matches!(parse_type("date"), Err(AppError::Validation(m)) if m == "unknown value_type: date"));
    assert_eq!((default_type().as_str(), default_scope().as_str()), ("string", "global"));
}

#[test]
fn switching_workflows_on_skips_what_is_queued_once() {
    let body = SetConfig { value: "true".into(), value_type: "bool".into(), scope: "global".into() };
    assert!(set_config(permitted(), "features.workflows", &body, None, false).stamp_watermark);
    assert!(!set_config(permitted(), "features.workflows", &body, None, true).stamp_watermark);
    let off = SetConfig { value: "false".into(), value_type: "bool".into(), scope: "global".into() };
    assert!(!set_config(permitted(), "features.workflows", &off, None, false).stamp_watermark);
    let no = AppError::Forbidden("white-label is off".into());
    let c = set_config(permitted(), "branding.bg", &body, Some(no), false);
    assert!(matches!(c.outcome, Err(AppError::Forbidden(_))));
    let c = set_config(permitted(), "chat.title", &body, Some(AppError::Forbidden("x".into())), false);
    assert_eq!(c.outcome.unwrap(), ConfigValueType::Bool);
    let p = Permissions { config_manage: Some(AppError::Forbidden("no".into())), ..permitted() };
    let c = set_config(p, "features.workflows", &body, None, false);
    assert!(!c.stamp_watermark);
    assert!(matches!(c.outcome, Err(AppError::Forbidden(m)) if m == "no"));
}
