use fosnie::http::auth::{
    after_password, change_password, clear_cookie, config, cookie_secure, login,
    mfa_confirm, mfa_disable, mfa_regenerate, mfa_setup, mfa_verify, password_ok, read_cookie, register,
    runtime_str, set_cookie, source_ip, switched_on, valid_email, AfterPassword, AuthMode, CookieConfig,
    Credential, FactorAudit, FactorUsed, LoginFacts, PasswordBody, RegisterBody, RegistrationFacts,
};
use fosnie::{AppError, AuthContext, PlatformRole};

fn user(id: Option<u128>) -> AuthContext {
    AuthContext {
        user_id: id,
        role: PlatformRole::User,
        admin: false,
        break_glass: false,
        mfa_enroll_only: false,
    }
}

fn told<T>(r: Result<T, AppError>) -> String {
    match r {
        Err(AppError::Validation(m)) => m,
        Err(AppError::Forbidden(m)) => m,
        Err(AppError::Conflict(m)) => m,
        Err(AppError::Unauthorized(m)) => m,
        Err(AppError::TooManyRequests(m)) => m,
        _ => panic!("not refused"),
    }
}

fn cookie_config(url: &str) -> CookieConfig {
    CookieConfig { name: "sid".into(), public_url: url.into(), session_ttl_secs: 3600 }
}

#[test]
fn a_session_cookie_is_read_back() {
    assert_eq!(
        set_cookie(&cookie_config("HTTPS://a.example"), "tok"),
        "sid=tok; HttpOnly; SameSite=Lax; Path=/; Max-Age=3600; Secure"
    );
    assert_eq!(
        clear_cookie(&cookie_config("http://a.example")),
        "sid=; HttpOnly; SameSite=Lax; Path=/; Max-Age=0"
    );
    assert_eq!(read_cookie(Some("a=1; sid=tok; sid=other"), "sid").as_deref(), Some("tok"));
    assert_eq!(read_cookie(Some("a=1"), "sid"), None);
    assert_eq!(read_cookie(None, "sid"), None);
    assert!(cookie_secure("https://x") && !cookie_secure("http://x"));
}

#[test]
fn the_source_is_what_the_proxies_say() {
    assert_eq!(source_ip(Some(" 1.2.3.4 , 5.6.7.8"), Some("9.9.9.9")), "1.2.3.4");
    assert_eq!(source_ip(Some(" "), Some("9.9.9.9")), "9.9.9.9");
    assert_eq!(source_ip(None, None), "unknown");
}

#[test]
fn an_address_has_an_at_sign() {
    assert!(valid_email(" a@b "));
    assert!(!valid_email("a@") && !valid_email("ab c@d") && !valid_email("abc"));
}

fn facts() -> RegistrationFacts {
    RegistrationFacts {
        mode: AuthMode::Local,
        first: false,
        allowed: true,
        password_min_len: 8,
        email_taken: false,
        seat_refusal: None,
    }
}

fn new_account(email: &str, password: &str, name: Option<&str>) -> RegisterBody {
    RegisterBody {
        email: email.into(),
        password: password.into(),
        display_name: name.map(|n| n.to_string()),
    }
}

#[test]
fn the_first_account_administers() {
    let f = RegistrationFacts { first: true, allowed: false, ..facts() };
    let a = register(f, &new_account(" Ada@Example.COM ", "longenough", None)).unwrap();
    assert_eq!((a.email.as_str(), a.display_name.as_str()), ("ada@example.com", "ada"));
    assert_eq!(a.role, PlatformRole::ClientAdmin);
    let a = register(facts(), &new_account("ÄDA@example.com", "longenough", Some(" Ada "))).unwrap();
    assert_eq!((a.email.as_str(), a.display_name.as_str()), ("äda@example.com", "Ada"));
    assert_eq!(a.role, PlatformRole::User);
}

#[test]
fn registration_is_refused_for_the_first_reason() {
    let b = || new_account("a@b.example", "longenough", None);
    let f = RegistrationFacts { mode: AuthMode::Keycloak, ..facts() };
    assert_eq!(told(register(f, &b())), "local registration is disabled");
    let f = RegistrationFacts { allowed: false, ..facts() };
    assert_eq!(told(register(f, &b())), "new registrations are disabled");
    assert_eq!(told(register(facts(), &new_account("nobody", "longenough", None))), "a valid email is required");
    assert_eq!(
        told(register(facts(), &new_account("a@b.example", "short", None))),
        "password must be at least 8 characters"
    );
    let f = RegistrationFacts { email_taken: true, ..facts() };
    assert_eq!(told(register(f, &b())), "an account with this email already exists");
    let f = RegistrationFacts { seat_refusal: Some(AppError::Forbidden("full".into())), ..facts() };
    assert_eq!(told(register(f, &b())), "full");
}

#[test]
fn failed_logins_look_alike() {
    let good = Credential { id: 7, deactivated: false, password_matches: true };
    assert_eq!(login(AuthMode::Local, Some(good), false).unwrap(), 7);
    let closed = Credential { deactivated: true, ..good };
    let wrong = Credential { password_matches: false, ..good };
    for c in [None, Some(closed), Some(wrong)] {
        assert_eq!(told(login(AuthMode::Local, c, true)), "invalid email or password");
        assert_eq!(
            told(login(AuthMode::Local, c, false)),
            "too many failed logins from this address — slow down"
        );
    }
    assert_eq!(told(login(AuthMode::Keycloak, Some(good), true)), "local login is disabled");
}

#[test]
fn a_password_alone_is_not_enough_where_a_factor_is_mandatory() {
    assert_eq!(after_password(true, false), AfterPassword::AskFactor);
    assert_eq!(after_password(false, true), AfterPassword::Session { enroll_only: true });
    assert_eq!(after_password(false, false), AfterPassword::Session { enroll_only: false });
}

#[test]
fn the_sign_in_page_is_told_how() {
    let c = config(LoginFacts {
        mode: AuthMode::Keycloak,
        keycloak_url: "https://kc".into(),
        sso_label: None,
        sso_logo_url: None,
        mfa_mandatory: true,
        first: true,
        allowed: true,
        password_min_len: 8,
    });
    assert_eq!((c.mode.as_str(), c.local_enabled), ("keycloak", false));
    assert_eq!(c.keycloak_url.as_deref(), Some("https://kc"));
    assert!(!c.require_mfa && !c.registration_open);
    assert!(switched_on(Some("true")) && !switched_on(Some("TRUE")) && !switched_on(None));
    assert_eq!(runtime_str(Some("".into())), None);
}

#[test]
fn a_password_is_changed_by_who_knows_it() {
    let body = |new: &str| PasswordBody { current_password: "x".into(), new_password: new.into() };
    assert_eq!(change_password(&user(Some(7)), &body("longenough"), 8, true).unwrap(), 7);
    assert_eq!(
        told(change_password(&user(Some(7)), &body("longenough"), 8, false)),
        "current password is incorrect"
    );
    assert_eq!(
        told(change_password(&user(Some(7)), &body("x"), 8, true)),
        "password must be at least 8 characters"
    );
    assert_eq!(told(change_password(&user(None), &body("x"), 8, true)), "no local account");
    let c = Credential { id: 7, deactivated: false, password_matches: true };
    assert!(password_ok(Some(c), 7) && !password_ok(Some(c), 8) && !password_ok(None, 7));
}

#[test]
fn a_factor_is_managed_by_who_has_it() {
    let me = user(Some(7));
    assert_eq!(mfa_setup(AuthMode::Local, &me, false).unwrap(), 7);
    assert_eq!(told(mfa_setup(AuthMode::Local, &me, true)), "MFA is already enabled — disable it first");
    assert_eq!(
        told(mfa_setup(AuthMode::Keycloak, &me, false)),
        "multi-factor authentication is managed by your identity provider"
    );
    assert_eq!(told(mfa_confirm(AuthMode::Local, &me, false)), "incorrect code — try again");
    assert_eq!(
        told(mfa_disable(AuthMode::Local, &me, false, FactorUsed::Totp, false)),
        "current password is incorrect"
    );
    assert_eq!(told(mfa_disable(AuthMode::Local, &me, true, FactorUsed::Neither, false)), "incorrect code");
    for mandatory in [true, false] {
        let s = mfa_disable(AuthMode::Local, &me, true, FactorUsed::Totp, mandatory).unwrap();
        assert_eq!((s.user_id, s.enroll_only), (7, mandatory));
    }
    assert_eq!(
        told(mfa_regenerate(AuthMode::Local, &me, false, true, FactorUsed::Totp)),
        "MFA is not enabled"
    );
    assert_eq!(mfa_regenerate(AuthMode::Local, &me, true, true, FactorUsed::Recovery).unwrap(), 7);
}

#[test]
fn too_many_wrong_codes_end_the_attempt() {
    let v = mfa_verify(AuthMode::Local, Some(7), FactorUsed::Recovery, true, true);
    assert_eq!(v.result.unwrap(), 7);
    assert!(v.consume_pending);
    assert_eq!(v.audit, Some(FactorAudit::Accepted { recovery: true }));
    let v = mfa_verify(AuthMode::Local, Some(7), FactorUsed::Neither, true, true);
    assert!(!v.consume_pending);
    assert_eq!(v.audit, Some(FactorAudit::BadCode));
    let v = mfa_verify(AuthMode::Local, Some(7), FactorUsed::Neither, true, false);
    assert!(v.consume_pending);
    assert_eq!(told(v.result), "too many incorrect codes — please sign in again");
    let v = mfa_verify(AuthMode::Local, None, FactorUsed::Totp, true, true);
    assert_eq!(told(v.result), "your login attempt expired — please sign in again");
}
