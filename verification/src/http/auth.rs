//! Local sign-in: accounts, passwords, sessions and the second factor.

use vstd::prelude::*;
use vstd::string::*;
use vstd::utf8::encode_utf8;

use crate::error::{conflict, forbidden, refusal, validation, AppError, Refusal};
use crate::grants::refusal_in;
use crate::json::{
    empty_object,
    flag_value,
    json_in,
    member_at,
    null_value,
    number_value,
    put,
    text_value,
    Json,
};
use crate::principal::{AuthContext, Id, PlatformRole};
use crate::text::{
    begins,
    byte_len,
    contains_char,
    cut,
    cut_at,
    cuts_where_marked,
    decimal,
    filled,
    first_of_at,
    joined3,
    lower,
    lowercase,
    lowered,
    number,
    opt_str,
    opt_text,
    same,
    split,
    split_of_one,
    split_on,
    starts_with,
    texts,
    trim,
    trim_filled,
    trimmed,
};
use crate::trail::{entry, mark, note, record, ActorRole, AuditEvent, Entry};

verus! {

pub struct RegisterBody {
    pub email: String,
    pub password: String,
    pub display_name: Option<String>,
}

pub struct LoginBody {
    pub email: String,
    pub password: String,
}

pub struct PasswordBody {
    pub current_password: String,
    pub new_password: String,
}

pub struct MfaConfirmBody {
    pub code: String,
}

pub struct MfaDisableBody {
    pub password: String,
    pub code: String,
}

pub struct MfaVerifyBody {
    pub pending: String,
    pub code: String,
}

pub struct MfaRegenBody {
    pub password: String,
    pub code: String,
}

/// Failed sign-ins from one address before it is locked out.
pub const LOGIN_FAIL_MAX: i64 = 10;

/// The time over which they are counted, in seconds.
pub const LOGIN_FAIL_WINDOW_SECS: u64 = 60;

/// Who signs people in.
#[derive(Clone, Copy, Debug, PartialEq, Eq, Structural)]
pub enum AuthMode {
    Local,
    Keycloak,
}

/// What a session cookie depends on: its name, the address the deployment is reached at,
/// and how long a session lasts.
pub struct CookieConfig {
    pub name: String,
    pub public_url: String,
    pub session_ttl_secs: u64,
}

/// A cookie goes over encrypted connections only where the deployment is reached by one.
pub open spec fn is_secure(public_url: Seq<char>) -> bool {
    starts_with(lowered(public_url), "https://"@)
}

pub fn cookie_secure(public_url: &str) -> (r: bool)
    ensures
        r == is_secure(public_url@),
{
    let small = lower(public_url);
    begins(small.as_str(), "https://")
}

/// A session cookie with a value and a lifetime.
pub open spec fn cookie_text(
    name: Seq<char>,
    value: Seq<char>,
    max_age: nat,
    public_url: Seq<char>,
) -> Seq<char> {
    name + "="@ + value + "; HttpOnly; SameSite=Lax; Path=/; Max-Age="@ + decimal(max_age) + (
    if is_secure(public_url) {
        "; Secure"@
    } else {
        Seq::empty()
    })
}

fn cookie(config: &CookieConfig, value: &str, max_age: u64) -> (r: String)
    ensures
        r@ == cookie_text(config.name@, value@, max_age as nat, config.public_url@),
{
    let mut c = joined3(config.name.as_str(), "=", value);
    c.append("; HttpOnly; SameSite=Lax; Path=/; Max-Age=");
    let age = number(max_age);
    c.append(age.as_str());
    if cookie_secure(config.public_url.as_str()) {
        c.append("; Secure");
    }
    assert(c@ =~= cookie_text(config.name@, value@, max_age as nat, config.public_url@));
    c
}

/// The cookie that carries a fresh session.
pub fn set_cookie(config: &CookieConfig, token: &str) -> (r: String)
    ensures
        r@ == cookie_text(
            config.name@,
            token@,
            config.session_ttl_secs as nat,
            config.public_url@,
        ),
{
    cookie(config, token, config.session_ttl_secs)
}

/// The cookie that ends a session.
pub fn clear_cookie(config: &CookieConfig) -> (r: String)
    ensures
        r@ == cookie_text(config.name@, Seq::empty(), 0, config.public_url@),
{
    let c = cookie(config, "", 0);
    proof {
        reveal_strlit("");
        assert(""@ =~= Seq::<char>::empty());
    }
    c
}

/// What a header of addresses has first, where there is anything.
pub open spec fn first_hop(header: Option<Seq<char>>) -> Option<Seq<char>> {
    match header {
        Some(v) => {
            let first = match cut_at(v, ',') {
                Some(p) => trimmed(p.0),
                None => trimmed(v),
            };
            if first.len() > 0 {
                Some(first)
            } else {
                None
            }
        },
        None => None,
    }
}

/// The first address in a header.
pub(crate) fn first_address(header: Option<&str>) -> (r: Option<String>)
    ensures
        opt_text(r) == first_hop(opt_str(header)),
{
    match header {
        Some(v) => {
            let first = match cut(v, ',') {
                Some((a, _)) => trim(a.as_str()),
                None => trim(v),
            };
            if first.as_str().is_empty() {
                None
            } else {
                Some(first)
            }
        },
        None => None,
    }
}

/// Where a request comes from, as far as the proxies in front say; everything else counts
/// as one place.
pub open spec fn source(forwarded_for: Option<Seq<char>>, real_ip: Option<Seq<char>>) -> Seq<char> {
    match first_hop(forwarded_for) {
        Some(a) => a,
        None => match first_hop(real_ip) {
            Some(a) => a,
            None => "unknown"@,
        },
    }
}

pub fn source_ip(forwarded_for: Option<&str>, real_ip: Option<&str>) -> (r: String)
    ensures
        r@ == source(opt_str(forwarded_for), opt_str(real_ip)),
{
    match first_address(forwarded_for) {
        Some(a) => a,
        None => match first_address(real_ip) {
            Some(a) => a,
            None => "unknown".to_owned(),
        },
    }
}

/// An address that mail could be sent to, as far as its shape goes.
pub open spec fn is_email(email: Seq<char>) -> bool {
    let e = trimmed(email);
    encode_utf8(e).len() >= 3 && e.contains('@') && !e.contains(' ')
}

pub fn valid_email(email: &str) -> (r: bool)
    ensures
        r == is_email(email@),
{
    let e = trim(email);
    byte_len(e.as_str()) >= 3 && contains_char(e.as_str(), '@') && !contains_char(e.as_str(), ' ')
}

/// An address as accounts are kept under it.
pub open spec fn account_email(typed: Seq<char>) -> Seq<char> {
    lowercase(trimmed(typed))
}

fn normal_email(typed: &str) -> (r: String)
    ensures
        r@ == account_email(typed@),
{
    let t = trim(typed);
    t.as_str().to_lowercase()
}

/// What is said of a password that is too short.
pub open spec fn short_password(min_len: nat) -> Refusal {
    Refusal::Validation("password must be at least "@ + decimal(min_len) + " characters"@)
}

fn too_short(min_len: usize) -> (e: AppError)
    ensures
        e@ == short_password(min_len as nat),
{
    let n = number(min_len as u64);
    AppError::Validation(joined3("password must be at least ", n.as_str(), " characters"))
}

/// Whether registration is open: to the first account, which bootstraps the deployment,
/// and after that where an administrator opened it.
pub open spec fn registration_open(mode: AuthMode, first: bool, allowed: bool) -> bool {
    mode == AuthMode::Local && (first || allowed)
}

/// Everything about a registration that is found out on the way.
pub struct RegistrationFacts {
    pub mode: AuthMode,
    /// There is no account yet.
    pub first: bool,
    /// An administrator opened registration.
    pub allowed: bool,
    pub password_min_len: usize,
    pub email_taken: bool,
    /// What the deployment's seats have against another account.
    pub seat_refusal: Option<AppError>,
}

pub open spec fn register_refusal(f: RegistrationFacts, body: RegisterBody) -> Option<Refusal> {
    let email = account_email(body.email@);
    if f.mode != AuthMode::Local {
        Some(Refusal::Forbidden("local registration is disabled"@))
    } else if !f.first && !f.allowed {
        Some(Refusal::Forbidden("new registrations are disabled"@))
    } else if !is_email(email) {
        Some(Refusal::Validation("a valid email is required"@))
    } else if encode_utf8(body.password@).len() < f.password_min_len {
        Some(short_password(f.password_min_len as nat))
    } else if f.email_taken {
        Some(Refusal::Conflict("an account with this email already exists"@))
    } else {
        refusal_in(f.seat_refusal)
    }
}

/// The name of a new account: the one given, or what stands before the at sign.
pub open spec fn first_name(given: Option<Seq<char>>, email: Seq<char>) -> Seq<char> {
    match filled(given) {
        Some(n) => n,
        None => match cut_at(email, '@') {
            Some(p) => p.0,
            None => email,
        },
    }
}

/// A new account. The first one administers the deployment, the others are plain users.
pub struct NewAccount {
    pub email: String,
    pub display_name: String,
    pub role: PlatformRole,
}

pub fn register(facts: RegistrationFacts, body: &RegisterBody) -> (r: Result<NewAccount, AppError>)
    ensures
        refusal(r) == register_refusal(facts, *body),
        r matches Ok(a) ==> {
            &&& a.email@ == account_email(body.email@)
            &&& a.display_name@ == first_name(opt_text(body.display_name), a.email@)
            &&& a.role == (if facts.first {
                PlatformRole::ClientAdmin
            } else {
                PlatformRole::User
            })
        },
{
    if facts.mode != AuthMode::Local {
        return Err(forbidden("local registration is disabled"));
    }
    if !facts.first && !facts.allowed {
        return Err(forbidden("new registrations are disabled"));
    }
    let email = normal_email(body.email.as_str());
    if !valid_email(email.as_str()) {
        return Err(validation("a valid email is required"));
    }
    if byte_len(body.password.as_str()) < facts.password_min_len {
        return Err(too_short(facts.password_min_len));
    }
    if facts.email_taken {
        return Err(conflict("an account with this email already exists"));
    }
    match facts.seat_refusal {
        Some(e) => {
            return Err(e);
        },
        None => {},
    }
    let role = if facts.first {
        PlatformRole::ClientAdmin
    } else {
        PlatformRole::User
    };
    let display_name = match trim_filled(crate::text::as_text(&body.display_name)) {
        Some(n) => n,
        None => match cut(email.as_str(), '@') {
            Some((local, _)) => local,
            None => email.clone(),
        },
    };
    Ok(NewAccount { email, display_name, role })
}

/// A stored credential, with whether the password that was typed is the one it is for.
#[derive(Clone, Copy, Debug, PartialEq, Eq, Structural)]
pub struct Credential {
    pub id: Id,
    pub deactivated: bool,
    pub password_matches: bool,
}

/// The account that a password opens.
pub open spec fn opened(cred: Option<Credential>) -> Option<Id> {
    match cred {
        Some(c) => if !c.deactivated && c.password_matches {
            Some(c.id)
        } else {
            None
        },
        None => None,
    }
}

pub open spec fn login_refusal(
    mode: AuthMode,
    cred: Option<Credential>,
    within_rate: bool,
) -> Option<Refusal> {
    if mode != AuthMode::Local {
        Some(Refusal::Forbidden("local login is disabled"@))
    } else if opened(cred) is Some {
        None
    } else if !within_rate {
        Some(Refusal::TooManyRequests("too many failed logins from this address — slow down"@))
    } else {
        Some(Refusal::Unauthorized("invalid email or password"@))
    }
}

/// Verifies a password. Only failed attempts count towards the lock-out, which
/// `within_rate` is about; which of account and password was wrong is not said.
pub fn login(mode: AuthMode, cred: Option<Credential>, within_rate: bool) -> (r: Result<Id, AppError>)
    ensures
        refusal(r) == login_refusal(mode, cred, within_rate),
        r matches Ok(id) ==> opened(cred) == Some(id),
{
    if mode != AuthMode::Local {
        return Err(forbidden("local login is disabled"));
    }
    match cred {
        Some(c) => {
            if !c.deactivated && c.password_matches {
                return Ok(c.id);
            }
        },
        None => {},
    }
    if !within_rate {
        return Err(
            AppError::TooManyRequests(
                "too many failed logins from this address — slow down".to_owned(),
            ),
        );
    }
    Err(AppError::Unauthorized("invalid email or password".to_owned()))
}

/// A failed sign-in is answered alike whether the account is unknown, closed, or has another
/// password.
pub proof fn failed_logins_look_alike(
    mode: AuthMode,
    a: Option<Credential>,
    b: Option<Credential>,
    within_rate: bool,
)
    requires
        opened(a) is None,
        opened(b) is None,
    ensures
        login_refusal(mode, a, within_rate) == login_refusal(mode, b, within_rate),
{
}

/// What a right password gets.
#[derive(Clone, Copy, Debug, PartialEq, Eq, Structural)]
pub enum AfterPassword {
    /// A second factor is asked for before there is a session.
    AskFactor,
    /// A session; one that only reaches the setup of a second factor, where everybody has
    /// to have one and this account has none.
    Session { enroll_only: bool },
}

pub open spec fn after(mfa_enabled: bool, mfa_mandatory: bool) -> AfterPassword {
    if mfa_enabled {
        AfterPassword::AskFactor
    } else {
        AfterPassword::Session { enroll_only: mfa_mandatory }
    }
}

pub fn after_password(mfa_enabled: bool, mfa_mandatory: bool) -> (r: AfterPassword)
    ensures
        r == after(mfa_enabled, mfa_mandatory),
{
    if mfa_enabled {
        AfterPassword::AskFactor
    } else {
        AfterPassword::Session { enroll_only: mfa_mandatory }
    }
}

/// Where a second factor is mandatory, a password alone never gets a full session; and an
/// account with a second factor never gets any.
pub proof fn password_alone_is_not_enough(mfa_enabled: bool, mfa_mandatory: bool)
    ensures
        mfa_enabled ==> after(mfa_enabled, mfa_mandatory) == AfterPassword::AskFactor,
        mfa_mandatory ==> after(mfa_enabled, mfa_mandatory) != (AfterPassword::Session {
            enroll_only: false,
        }),
{
}

/// A switch in the runtime settings: on where it says so, off in every other case, one that
/// could not be read included.
pub fn switched_on(value: Option<&str>) -> (r: bool)
    ensures
        r == (opt_str(value) == Some("true"@)),
{
    match value {
        Some(v) => same(v, "true"),
        None => false,
    }
}

/// A text in the runtime settings, unless it is empty.
pub fn runtime_str(value: Option<String>) -> (r: Option<String>)
    ensures
        opt_text(r) == (match value {
            Some(v) => if v@.len() > 0 {
                Some(v@)
            } else {
                None
            },
            None => None,
        }),
{
    match value {
        Some(v) => {
            if v.as_str().is_empty() {
                None
            } else {
                Some(v)
            }
        },
        None => None,
    }
}

/// What the sign-in page is told.
pub struct LoginConfig {
    pub mode: String,
    pub local_enabled: bool,
    pub keycloak_url: Option<String>,
    pub sso_label: Option<String>,
    pub sso_logo_url: Option<String>,
    pub require_mfa: bool,
    pub registration_open: bool,
    pub password_min_len: usize,
}

/// What the sign-in page depends on.
pub struct LoginFacts {
    pub mode: AuthMode,
    pub keycloak_url: String,
    pub sso_label: Option<String>,
    pub sso_logo_url: Option<String>,
    pub mfa_mandatory: bool,
    pub first: bool,
    pub allowed: bool,
    pub password_min_len: usize,
}

/// Tells the sign-in page how people sign in here, and whether they may register.
pub fn config(f: LoginFacts) -> (r: LoginConfig)
    ensures
        r.mode@ == (match f.mode {
            AuthMode::Local => "local"@,
            AuthMode::Keycloak => "keycloak"@,
        }),
        r.local_enabled == (f.mode == AuthMode::Local),
        opt_text(r.keycloak_url) == (if f.mode == AuthMode::Keycloak {
            Some(f.keycloak_url@)
        } else {
            None
        }),
        r.sso_label == f.sso_label,
        r.sso_logo_url == f.sso_logo_url,
        r.require_mfa == (f.mode == AuthMode::Local && f.mfa_mandatory),
        r.registration_open == registration_open(f.mode, f.first, f.allowed),
        r.password_min_len == f.password_min_len,
{
    let local = f.mode == AuthMode::Local;
    let mode = match f.mode {
        AuthMode::Local => "local".to_owned(),
        AuthMode::Keycloak => "keycloak".to_owned(),
    };
    let keycloak_url = match f.mode {
        AuthMode::Keycloak => Some(f.keycloak_url),
        AuthMode::Local => None,
    };
    LoginConfig {
        mode,
        local_enabled: local,
        keycloak_url,
        sso_label: f.sso_label,
        sso_logo_url: f.sso_logo_url,
        require_mfa: local && f.mfa_mandatory,
        registration_open: local && (f.first || f.allowed),
        password_min_len: f.password_min_len,
    }
}

/// The page offers to register exactly where registering is not refused out of hand.
pub proof fn offered_registration_is_open(f: RegistrationFacts, body: RegisterBody)
    ensures
        !registration_open(f.mode, f.first, f.allowed) ==> (register_refusal(f, body) == Some(
            Refusal::Forbidden("local registration is disabled"@),
        ) || register_refusal(f, body) == Some(
            Refusal::Forbidden("new registrations are disabled"@),
        )),
        registration_open(f.mode, f.first, f.allowed) && is_email(account_email(body.email@))
            && encode_utf8(body.password@).len() >= f.password_min_len && !f.email_taken
            && f.seat_refusal is None ==> register_refusal(f, body) is None,
{
}

/// Changes the caller's password, who has to know the one they have.
pub fn change_password(
    ctx: &AuthContext,
    body: &PasswordBody,
    password_min_len: usize,
    current_ok: bool,
) -> (r: Result<Id, AppError>)
    ensures
        refusal(r) == (if ctx.user_id is None {
            Some(Refusal::Forbidden("no local account"@))
        } else if encode_utf8(body.new_password@).len() < password_min_len {
            Some(short_password(password_min_len as nat))
        } else if !current_ok {
            Some(Refusal::Unauthorized("current password is incorrect"@))
        } else {
            None
        }),
        r matches Ok(id) ==> ctx.user_id == Some(id),
{
    let user_id = match ctx.user_id {
        Some(id) => id,
        None => {
            return Err(forbidden("no local account"));
        },
    };
    if byte_len(body.new_password.as_str()) < password_min_len {
        return Err(too_short(password_min_len));
    }
    if !current_ok {
        return Err(AppError::Unauthorized("current password is incorrect".to_owned()));
    }
    Ok(user_id)
}

/// Whether a password that was typed is the account's own: the credential found under the
/// caller's address has to be the caller's.
pub fn password_ok(cred: Option<Credential>, user_id: Id) -> (r: bool)
    ensures
        r == (cred matches Some(c) && c.id == user_id && c.password_matches),
{
    match cred {
        Some(c) => c.id == user_id && c.password_matches,
        None => false,
    }
}

pub open spec fn mfa_mode_refusal(mode: AuthMode) -> Option<Refusal> {
    if mode != AuthMode::Local {
        Some(
            Refusal::Conflict("multi-factor authentication is managed by your identity provider"@),
        )
    } else {
        None
    }
}

/// The second factor is ours to manage only where we sign people in.
pub fn mfa_local_guard(mode: AuthMode) -> (r: Result<(), AppError>)
    ensures
        refusal(r) == mfa_mode_refusal(mode),
{
    if mode != AuthMode::Local {
        return Err(
            conflict("multi-factor authentication is managed by your identity provider"),
        );
    }
    Ok(())
}

pub open spec fn mfa_account_refusal(mode: AuthMode, ctx: AuthContext) -> Option<Refusal> {
    if mfa_mode_refusal(mode) is Some {
        mfa_mode_refusal(mode)
    } else if ctx.user_id is None {
        Some(Refusal::Forbidden("no local account"@))
    } else {
        None
    }
}

/// The account whose second factor it is.
pub fn mfa_account(mode: AuthMode, ctx: &AuthContext) -> (r: Result<Id, AppError>)
    ensures
        refusal(r) == mfa_account_refusal(mode, *ctx),
        r matches Ok(id) ==> ctx.user_id == Some(id),
{
    match mfa_local_guard(mode) {
        Ok(_) => {},
        Err(e) => {
            return Err(e);
        },
    }
    match ctx.user_id {
        Some(id) => Ok(id),
        None => Err(forbidden("no local account")),
    }
}

/// Starts to set up a second factor, where there is none.
pub fn mfa_setup(mode: AuthMode, ctx: &AuthContext, enabled: bool) -> (r: Result<Id, AppError>)
    ensures
        refusal(r) == (if mfa_account_refusal(mode, *ctx) is Some {
            mfa_account_refusal(mode, *ctx)
        } else if enabled {
            Some(Refusal::Conflict("MFA is already enabled — disable it first"@))
        } else {
            None
        }),
        r matches Ok(id) ==> ctx.user_id == Some(id),
{
    let id = match mfa_account(mode, ctx) {
        Ok(id) => id,
        Err(e) => {
            return Err(e);
        },
    };
    if enabled {
        return Err(conflict("MFA is already enabled — disable it first"));
    }
    Ok(id)
}

/// Confirms a second factor with a code of it.
pub fn mfa_confirm(mode: AuthMode, ctx: &AuthContext, code_ok: bool) -> (r: Result<Id, AppError>)
    ensures
        refusal(r) == (if mfa_account_refusal(mode, *ctx) is Some {
            mfa_account_refusal(mode, *ctx)
        } else if !code_ok {
            Some(Refusal::Unauthorized("incorrect code — try again"@))
        } else {
            None
        }),
        r matches Ok(id) ==> ctx.user_id == Some(id),
{
    let id = match mfa_account(mode, ctx) {
        Ok(id) => id,
        Err(e) => {
            return Err(e);
        },
    };
    if !code_ok {
        return Err(AppError::Unauthorized("incorrect code — try again".to_owned()));
    }
    Ok(id)
}

/// What a code turned out to be.
#[derive(Clone, Copy, Debug, PartialEq, Eq, Structural)]
pub enum FactorUsed {
    Neither,
    Totp,
    Recovery,
}

pub open spec fn factor_refusal(
    mode: AuthMode,
    ctx: AuthContext,
    password_ok: bool,
    used: FactorUsed,
) -> Option<Refusal> {
    if mfa_account_refusal(mode, ctx) is Some {
        mfa_account_refusal(mode, ctx)
    } else if !password_ok {
        Some(Refusal::Unauthorized("current password is incorrect"@))
    } else if used == FactorUsed::Neither {
        Some(Refusal::Unauthorized("incorrect code"@))
    } else {
        None
    }
}

/// The session that takes the place of those that end when a second factor is given up.
#[derive(Clone, Copy, Debug, PartialEq, Eq, Structural)]
pub struct Replacement {
    pub user_id: Id,
    /// It is good for setting a second factor up and for nothing else.
    pub enroll_only: bool,
}

/// Gives a second factor up: for whoever has both the password and the factor, so that a
/// stolen session cannot weaken it. Where a second factor is mandatory the session that follows
/// is good for setting another up alone.
pub fn mfa_disable(
    mode: AuthMode,
    ctx: &AuthContext,
    password_ok: bool,
    used: FactorUsed,
    mfa_mandatory: bool,
) -> (r: Result<Replacement, AppError>)
    ensures
        refusal(r) == factor_refusal(mode, *ctx, password_ok, used),
        r matches Ok(s) ==> ctx.user_id == Some(s.user_id) && s.enroll_only == mfa_mandatory,
{
    match check_factor(mode, ctx, password_ok, used) {
        Ok(user_id) => Ok(Replacement { user_id, enroll_only: mfa_mandatory }),
        Err(e) => Err(e),
    }
}

fn check_factor(mode: AuthMode, ctx: &AuthContext, password_ok: bool, used: FactorUsed) -> (r:
    Result<Id, AppError>)
    ensures
        refusal(r) == factor_refusal(mode, *ctx, password_ok, used),
        r matches Ok(id) ==> ctx.user_id == Some(id),
{
    let id = match mfa_account(mode, ctx) {
        Ok(id) => id,
        Err(e) => {
            return Err(e);
        },
    };
    if !password_ok {
        return Err(AppError::Unauthorized("current password is incorrect".to_owned()));
    }
    if used == FactorUsed::Neither {
        return Err(AppError::Unauthorized("incorrect code".to_owned()));
    }
    Ok(id)
}

/// Replaces the recovery codes: for whoever has the password and the factor.
pub fn mfa_regenerate(
    mode: AuthMode,
    ctx: &AuthContext,
    enabled: bool,
    password_ok: bool,
    used: FactorUsed,
) -> (r: Result<Id, AppError>)
    ensures
        refusal(r) == (if mfa_account_refusal(mode, *ctx) is Some {
            mfa_account_refusal(mode, *ctx)
        } else if !enabled {
            Some(Refusal::Conflict("MFA is not enabled"@))
        } else {
            factor_refusal(mode, *ctx, password_ok, used)
        }),
        r matches Ok(id) ==> ctx.user_id == Some(id),
{
    match mfa_account(mode, ctx) {
        Ok(_) => {},
        Err(e) => {
            return Err(e);
        },
    }
    if !enabled {
        return Err(conflict("MFA is not enabled"));
    }
    check_factor(mode, ctx, password_ok, used)
}

/// What the trail says of a second factor that was checked.
#[derive(Clone, Copy, Debug, PartialEq, Eq, Structural)]
pub enum FactorAudit {
    LockedOut,
    BadCode,
    Accepted { recovery: bool },
}

/// What comes of a second factor: the session or the refusal, whether the pending sign-in
/// is used up, and what is recorded.
pub struct Verification {
    pub result: Result<Id, AppError>,
    pub consume_pending: bool,
    pub audit: Option<FactorAudit>,
}

/// A second factor that is right ends the pending sign-in in a session. One that is wrong
/// leaves it, until there were too many wrong ones for it or from where they come.
pub fn mfa_verify(
    mode: AuthMode,
    pending: Option<Id>,
    used: FactorUsed,
    token_within_rate: bool,
    ip_within_rate: bool,
) -> (r: Verification)
    ensures
        refusal(r.result) == (if mfa_mode_refusal(mode) is Some {
            mfa_mode_refusal(mode)
        } else if pending is None {
            Some(
                Refusal::Unauthorized("your login attempt expired — please sign in again"@),
            )
        } else if used != FactorUsed::Neither {
            None
        } else if !token_within_rate || !ip_within_rate {
            Some(Refusal::TooManyRequests("too many incorrect codes — please sign in again"@))
        } else {
            Some(Refusal::Unauthorized("incorrect code — try again"@))
        }),
        r.result matches Ok(id) ==> pending == Some(id),
        r.consume_pending == (mode == AuthMode::Local && pending is Some && (used
            != FactorUsed::Neither || !token_within_rate || !ip_within_rate)),
        r.audit == (if mode != AuthMode::Local || pending is None {
            None
        } else if used != FactorUsed::Neither {
            Some(FactorAudit::Accepted { recovery: used == FactorUsed::Recovery })
        } else if !token_within_rate || !ip_within_rate {
            Some(FactorAudit::LockedOut)
        } else {
            Some(FactorAudit::BadCode)
        }),
{
    match mfa_local_guard(mode) {
        Ok(_) => {},
        Err(e) => {
            return Verification { result: Err(e), consume_pending: false, audit: None };
        },
    }
    let user_id = match pending {
        Some(id) => id,
        None => {
            return Verification {
                result: Err(
                    AppError::Unauthorized(
                        "your login attempt expired — please sign in again".to_owned(),
                    ),
                ),
                consume_pending: false,
                audit: None,
            };
        },
    };
    if used == FactorUsed::Neither {
        if !token_within_rate || !ip_within_rate {
            return Verification {
                result: Err(
                    AppError::TooManyRequests(
                        "too many incorrect codes — please sign in again".to_owned(),
                    ),
                ),
                consume_pending: true,
                audit: Some(FactorAudit::LockedOut),
            };
        }
        return Verification {
            result: Err(AppError::Unauthorized("incorrect code — try again".to_owned())),
            consume_pending: false,
            audit: Some(FactorAudit::BadCode),
        };
    }
    Verification {
        result: Ok(user_id),
        consume_pending: true,
        audit: Some(FactorAudit::Accepted { recovery: used == FactorUsed::Recovery }),
    }
}

/// The value of a cookie among the pairs of a header.
pub open spec fn cookie_in(pairs: Seq<Seq<char>>, name: Seq<char>) -> Option<Seq<char>>
    decreases pairs.len(),
{
    if pairs.len() == 0 {
        None
    } else {
        match cookie_in(pairs.drop_last(), name) {
            Some(v) => Some(v),
            None => match cut_at(pairs.last(), '=') {
                Some(kv) => if trimmed(kv.0) == name {
                    Some(trimmed(kv.1))
                } else {
                    None
                },
                None => None,
            },
        }
    }
}

proof fn cookie_in_prefix(pairs: Seq<Seq<char>>, name: Seq<char>, i: int)
    requires
        0 <= i <= pairs.len(),
        cookie_in(pairs.take(i), name) is Some,
    ensures
        cookie_in(pairs, name) == cookie_in(pairs.take(i), name),
    decreases pairs.len() - i,
{
    if i < pairs.len() {
        assert(pairs.take(i + 1).drop_last() == pairs.take(i));
        cookie_in_prefix(pairs, name, i + 1);
    } else {
        assert(pairs.take(i) == pairs);
    }
}

/// The session that a request's cookies carry: the first of the session cookie's name.
pub fn read_cookie(header: Option<&str>, name: &str) -> (r: Option<String>)
    ensures
        opt_text(r) == (match header {
            Some(h) => cookie_in(split_on(h@, ';'), name@),
            None => None,
        }),
{
    let h = match header {
        Some(h) => h,
        None => {
            return None;
        },
    };
    let parts = split(h, ';');
    let ghost pairs = texts(parts@);
    let mut i: usize = 0;
    assert(pairs.take(0) == Seq::<Seq<char>>::empty());
    while i < parts.len()
        invariant
            i <= parts@.len(),
            pairs == texts(parts@),
            pairs == split_on(h@, ';'),
            opt_str(header) == Some(h@),
            cookie_in(pairs.take(i as int), name@) is None,
        decreases parts@.len() - i,
    {
        proof {
            assert(pairs.take(i as int + 1).drop_last() == pairs.take(i as int));
            assert(pairs.take(i as int + 1).last() == parts@[i as int]@);
        }
        match cut(parts[i].as_str(), '=') {
            Some((k, v)) => {
                let key = trim(k.as_str());
                if same(key.as_str(), name) {
                    proof {
                        cookie_in_prefix(pairs, name@, i as int + 1);
                    }
                    return Some(trim(v.as_str()));
                }
            },
            None => {},
        }
        i = i + 1;
    }
    assert(pairs.take(parts@.len() as int) == pairs);
    None
}

/// A text that can be the name or the value of a cookie: no separators, and nothing that
/// trimming would take away.
pub open spec fn is_cookie_part(s: Seq<char>) -> bool {
    &&& s.len() > 0
    &&& !s.contains(';')
    &&& trimmed(s) == s
}

/// A session is read back from the cookie that carries it.
pub proof fn session_cookie_reads_back(name: Seq<char>, token: Seq<char>)
    requires
        is_cookie_part(name),
        is_cookie_part(token),
        !name.contains('='),
    ensures
        cookie_in(split_on(name + seq!['='] + token, ';'), name) == Some(token),
{
    let h = name + seq!['='] + token;
    assert(!h.contains(';')) by {
        if h.contains(';') {
            let i = choose|i: int| 0 <= i < h.len() && h[i] == ';';
            if i < name.len() {
                assert(name[i] == ';');
            } else if i > name.len() {
                assert(token[i - name.len() - 1] == ';');
            }
        }
    }
    split_of_one(h, ';');
    assert forall|j: int| 0 <= j < name.len() implies h[j] != '=' by {
        assert(name[j] == h[j]);
    }
    first_of_at(h, '=', name.len() as int);
    assert(h.take(name.len() as int) =~= name);
    assert(h.skip(name.len() as int + 1) =~= token);
    let pairs = seq![h];
    assert(pairs.drop_last() =~= Seq::<Seq<char>>::empty());
    assert(cookie_in(pairs.drop_last(), name) is None);
    assert(pairs.last() == h);
}

/// What is written down of coming and going: whose address it was, where one was given.
pub open spec fn login_doc(email: Seq<char>) -> Json {
    Json::Object(Map::empty().insert("email"@, Json::Text(email)))
}

/// An entry of somebody on the way into or out of an account. The password and the session are no
/// part of it.
pub fn audit_login(action: &str, user_id: Option<Id>, email: &str) -> (e: AuditEvent)
    ensures
        e@ == (if email@.len() == 0 {
            entry(action@, ActorRole::User, user_id, "user"@, user_id)
        } else {
            entry(action@, ActorRole::User, user_id, "user"@, user_id).noting(login_doc(email@))
        }),
{
    let e = record(action, ActorRole::User, user_id, "user", user_id);
    if email.is_empty() {
        e
    } else {
        let mut doc = empty_object();
        put(&mut doc, "email", text_value(email));
        note(e, doc)
    }
}

/// What is written down of a finished login: the address, and whether a second factor was asked.
pub open spec fn login_mfa_doc(email: Seq<char>, mfa: Option<bool>) -> Json {
    Json::Object(
        Map::empty().insert("email"@, Json::Text(email)).insert(
            "mfa"@,
            match mfa {
                Some(b) => Json::Flag(b),
                None => Json::Null,
            },
        ),
    )
}

pub fn audit_login_mfa(action: &str, user_id: Option<Id>, email: &str, mfa: Option<bool>) -> (e:
    AuditEvent)
    ensures
        e@ == entry(action@, ActorRole::User, user_id, "user"@, user_id).noting(
            login_mfa_doc(email@, mfa),
        ),
{
    let mut doc = empty_object();
    put(&mut doc, "email", text_value(email));
    let asked = match mfa {
        Some(b) => flag_value(b),
        None => null_value(),
    };
    put(&mut doc, "mfa", asked);
    note(record(action, ActorRole::User, user_id, "user", user_id), doc)
}

/// An entry of the life of a second factor. It is always marked for a second look, and holds
/// neither a code nor a secret.
pub fn audit_mfa(action: &str, user_id: Id, role: ActorRole, reason: Option<&str>) -> (e: AuditEvent)
    ensures
        e@ == (Entry {
            risky: true,
            reason: opt_str(reason),
            ..entry(action@, role, Some(user_id), "user"@, Some(user_id))
        }),
{
    mark(record(action, role, Some(user_id), "user", Some(user_id)), reason)
}

pub fn password_changed_event(ctx: &AuthContext, user_id: Id) -> (e: AuditEvent)
    ensures
        e@ == entry(
            "user.password_changed"@,
            ActorRole::Platform(ctx.role),
            Some(user_id),
            "user"@,
            Some(user_id),
        ),
{
    record(
        "user.password_changed",
        ActorRole::Platform(ctx.role),
        Some(user_id),
        "user",
        Some(user_id),
    )
}

/// Nothing but the address, and whether a second factor was asked, is ever noted of a login.
pub proof fn logins_note_no_secret(email: Seq<char>, mfa: Option<bool>, member: Seq<char>)
    requires
        member_at(login_doc(email), member) is Some || member_at(login_mfa_doc(email, mfa), member)
            is Some,
    ensures
        member == "email"@ || member == "mfa"@,
{
}

/// What the caller is told of their second factor.
pub open spec fn mfa_status_doc(enabled: bool, recovery_remaining: int) -> Json {
    Json::Object(
        Map::empty().insert("enabled"@, Json::Flag(enabled)).insert(
            "recovery_remaining"@,
            Json::Number(recovery_remaining),
        ),
    )
}

/// How the caller's second factor stands.
pub fn mfa_status(mode: AuthMode, ctx: &AuthContext, enabled: bool, recovery_remaining: i64) -> (r:
    Result<serde_json::Value, AppError>)
    ensures
        refusal(r) == mfa_account_refusal(mode, *ctx),
        r matches Ok(v) ==> json_in(v) == mfa_status_doc(enabled, recovery_remaining as int),
{
    match mfa_account(mode, ctx) {
        Ok(_) => {},
        Err(e) => {
            return Err(e);
        },
    }
    let mut doc = empty_object();
    put(&mut doc, "enabled", flag_value(enabled));
    put(&mut doc, "recovery_remaining", number_value(recovery_remaining));
    Ok(doc)
}

/// What ends a session: the token that is withdrawn and what is written down of it, where the
/// request brought a session, and in every case the cookie that clears it.
pub struct Logout {
    pub revoke: Option<String>,
    pub event: Option<AuditEvent>,
    pub cookie: String,
}

/// Signs out. `session` is whose session the token is, where it is one that stands.
pub fn logout(header: Option<&str>, config: &CookieConfig, session: Option<Id>) -> (r: Logout)
    ensures
        opt_text(r.revoke) == (match header {
            Some(h) => cookie_in(split_on(h@, ';'), config.name@),
            None => None,
        }),
        r.event is Some == r.revoke is Some,
        r.event matches Some(e) ==> e@ == entry(
            "auth.logout"@,
            ActorRole::User,
            session,
            "user"@,
            session,
        ),
        r.cookie@ == cookie_text(config.name@, Seq::empty(), 0, config.public_url@),
{
    let cookie = clear_cookie(config);
    match read_cookie(header, config.name.as_str()) {
        Some(token) => {
            let e = audit_login("auth.logout", session, "");
            proof {
                reveal_strlit("");
            }
            Logout { revoke: Some(token), event: Some(e), cookie }
        },
        None => Logout { revoke: None, event: None, cookie },
    }
}

/// An account is registered where accounts are local, registration is open or this is the first, the
/// address looks like one and is free, the password is long enough and there is a seat.
pub proof fn who_registers(
    f: RegistrationFacts,
    body: RegisterBody,
    mode: AuthMode,
    first: bool,
    allowed: bool,
)
    ensures
        registration_open(mode, first, allowed) <==> mode == AuthMode::Local && (first || allowed),
        register_refusal(f, body) is None
            <==> f.mode == AuthMode::Local
                && (f.first || f.allowed)
                && is_email(account_email(body.email@))
                && encode_utf8(body.password@).len() >= f.password_min_len
                && !f.email_taken
                && f.seat_refusal is None,
{
}

/// An address passes where, trimmed, it has three bytes, an at sign and no space.
pub proof fn which_addresses_pass(email: Seq<char>)
    ensures
        is_email(email)
            <==> encode_utf8(trimmed(email)).len() >= 3
                && trimmed(email).contains('@')
                && !trimmed(email).contains(' '),
{
}

/// A login succeeds where accounts are local and the password is that of an account in use, however
/// often it failed before.
pub proof fn who_logs_in(mode: AuthMode, cred: Option<Credential>, within_rate: bool)
    ensures
        login_refusal(mode, cred, within_rate) is None
            <==> mode == AuthMode::Local
                && (cred matches Some(c) && !c.deactivated && c.password_matches),
        login_refusal(mode, cred, within_rate) matches Some(Refusal::TooManyRequests(_))
            <==> mode == AuthMode::Local
                && !within_rate
                && !(cred matches Some(c) && !c.deactivated && c.password_matches),
        opened(cred) matches Some(id) ==> (cred matches Some(c) && c.id == id),
{
}

/// Second factors are for local accounts; to change them takes the password and a factor.
pub proof fn who_changes_factors(
    mode: AuthMode,
    ctx: AuthContext,
    password_ok: bool,
    used: FactorUsed,
)
    ensures
        mfa_mode_refusal(mode) is None <==> mode == AuthMode::Local,
        mfa_account_refusal(mode, ctx) is None <==> mode == AuthMode::Local && ctx.user_id is Some,
        factor_refusal(mode, ctx, password_ok, used) is None
            <==> mode == AuthMode::Local
                && ctx.user_id is Some
                && password_ok
                && used != FactorUsed::Neither,
{
}

/// A cookie's value is that of the first pair of its name, both without the blanks around them.
pub proof fn the_first_cookie_counts(name: Seq<char>, s: Seq<Seq<char>>) -> (at: int)
    ensures
        match cookie_in(s, name) {
            Some(v) => 0 <= at < s.len()
                && ((cut_at(s[at], '=') matches Some(kv) && trimmed(kv.0) == name))
                && v == trimmed((cut_at(s[at], '=')->0).1)
                && forall|k: int|
                #![trigger s[k]]
                0 <= k < at ==> !((cut_at(s[k], '=') matches Some(kv) && trimmed(kv.0) == name)),
            None => forall|k: int| #![trigger s[k]] 0 <= k < s.len() ==> !(
                (cut_at(s[k], '=') matches Some(kv) && trimmed(kv.0) == name)
            ),
        },
    decreases s.len(),
{
    if s.len() == 0 {
        0
    } else {
        let front = s.drop_last();
        let at = the_first_cookie_counts(name, front);
        assert forall|k: int| #![trigger s[k]] 0 <= k < front.len() implies s[k] == front[k] by {}
        if cookie_in(front, name) is Some {
            assert(s[at] == front[at]);
            at
        } else {
            s.len() - 1
        }
    }
}

/// What stands in `mfa_status_doc` under each name; there is no other name in it.
pub proof fn what_mfa_status_doc_holds(enabled: bool, recovery_remaining: int)
    ensures
        member_at(mfa_status_doc(enabled, recovery_remaining), "enabled"@)
            == Some(Json::Flag(enabled)),
        member_at(mfa_status_doc(enabled, recovery_remaining), "recovery_remaining"@)
            == Some(Json::Number(recovery_remaining)),
        forall|name: Seq<char>|
            #[trigger] member_at(mfa_status_doc(enabled, recovery_remaining), name) is Some
                ==> name == "enabled"@ || name == "recovery_remaining"@,
{
    reveal_strlit("enabled");
    reveal_strlit("recovery_remaining");
    assert("enabled"@.len() != "recovery_remaining"@.len());
}

/// A cookie is for the platform alone and for the time given, and for safe connections only where the
/// platform is reached over those.
pub proof fn cookies_are_kept_safe(
    name: Seq<char>,
    value: Seq<char>,
    max_age: nat,
    public_url: Seq<char>,
)
    ensures
        is_secure(public_url) <==> starts_with(lowered(public_url), "https://"@),
        is_secure(public_url)
            ==> cookie_text(name, value, max_age, public_url)
                == name
                    + "="@
                    + value
                    + "; HttpOnly; SameSite=Lax; Path=/; Max-Age="@
                    + decimal(max_age)
                    + "; Secure"@,
        !is_secure(public_url)
            ==> cookie_text(name, value, max_age, public_url)
                == name
                    + "="@
                    + value
                    + "; HttpOnly; SameSite=Lax; Path=/; Max-Age="@
                    + decimal(max_age),
{
    let plain = name + "="@ + value + "; HttpOnly; SameSite=Lax; Path=/; Max-Age="@ + decimal(max_age);
    assert(plain + Seq::<char>::empty() =~= plain);
}

/// A request comes from the first address that it was forwarded for, or else from the real address,
/// or from nowhere known.
pub proof fn sources_are_the_first_hop(
    forwarded_for: Option<Seq<char>>,
    real_ip: Option<Seq<char>>,
    header: Option<Seq<char>>,
    a: Seq<char>,
    b: Seq<char>,
    given: Option<Seq<char>>,
    email: Seq<char>,
)
    ensures
        header is None ==> first_hop(header) is None,
        !a.contains(',') ==> first_hop(Some(a)) == filled(Some(a)),
        !a.contains(',') ==> first_hop(Some(a.push(',') + b)) == filled(Some(a)),
        first_hop(forwarded_for) is Some
            ==> source(forwarded_for, real_ip) == first_hop(forwarded_for)->0,
        first_hop(forwarded_for) is None && first_hop(real_ip) is Some
            ==> source(forwarded_for, real_ip) == first_hop(real_ip)->0,
        first_hop(forwarded_for) is None && first_hop(real_ip) is None
            ==> source(forwarded_for, real_ip) == "unknown"@,
        filled(given) is Some ==> first_name(given, email) == filled(given)->0,
        filled(given) is None && !a.contains('@') ==> first_name(given, a.push('@') + b) == a,
        filled(given) is None && !a.contains('@') ==> first_name(given, a) == a,
        account_email(email) == lowercase(trimmed(email)),
{
    cuts_where_marked(a, b, ',');
    cuts_where_marked(a, b, '@');
}

/// What stands in `login_doc` under each name; there is no other name in it.
pub proof fn what_login_doc_holds(email: Seq<char>)
    ensures
        member_at(login_doc(email), "email"@) == Some(Json::Text(email)),
        forall|name: Seq<char>|
            #[trigger] member_at(login_doc(email), name) is Some ==> name == "email"@,
{
}

/// What stands in `login_mfa_doc` under each name; there is no other name in it.
pub proof fn what_login_mfa_doc_holds(email: Seq<char>, mfa: Option<bool>)
    ensures
        member_at(login_mfa_doc(email, mfa), "email"@) == Some(Json::Text(email)),
        member_at(login_mfa_doc(email, mfa), "mfa"@)
            == Some(match mfa { Some(b) => Json::Flag(b), None => Json::Null, }),
        forall|name: Seq<char>|
            #[trigger] member_at(login_mfa_doc(email, mfa), name) is Some
                ==> name == "email"@ || name == "mfa"@,
{
    reveal_strlit("email");
    reveal_strlit("mfa");
    assert("email"@.len() != "mfa"@.len());
}

/// A second factor is asked for where one is set; else the session begins, and where one is demanded it
/// is good for setting one alone.
pub proof fn what_follows_the_password(enabled: bool, mandatory: bool)
    ensures
        after(true, mandatory) == AfterPassword::AskFactor,
        after(false, mandatory) == (AfterPassword::Session { enroll_only: mandatory }),
{
}

/// Of several things that are wrong, `register_refusal` tells the first.
pub proof fn register_refusal_tells_the_first_thing(f: RegistrationFacts, body: RegisterBody)
    ensures
        (
            {
                let email = account_email(body.email@); f.mode != AuthMode::Local
                    ==> register_refusal(f, body)
                        == Some(Refusal::Forbidden("local registration is disabled"@))
            }
        ),
        (
            {
                let email = account_email(body.email@); !(f.mode != AuthMode::Local)
                    && (!f.first && !f.allowed)
                    ==> register_refusal(f, body)
                        == Some(Refusal::Forbidden("new registrations are disabled"@))
            }
        ),
        (
            {
                let email = account_email(body.email@); !(f.mode != AuthMode::Local)
                    && !(!f.first && !f.allowed)
                    && !is_email(email)
                    ==> register_refusal(f, body)
                        == Some(Refusal::Validation("a valid email is required"@))
            }
        ),
        (
            {
                let email = account_email(body.email@); !(f.mode != AuthMode::Local)
                    && !(!f.first && !f.allowed)
                    && is_email(email)
                    && encode_utf8(body.password@).len() < f.password_min_len
                    ==> register_refusal(f, body) == Some(short_password(f.password_min_len as nat))
            }
        ),
        (
            {
                let email = account_email(body.email@); !(f.mode != AuthMode::Local)
                    && !(!f.first && !f.allowed)
                    && is_email(email)
                    && !(encode_utf8(body.password@).len() < f.password_min_len)
                    && f.email_taken
                    ==> register_refusal(f, body)
                        == Some(Refusal::Conflict("an account with this email already exists"@))
            }
        ),
        (
            {
                let email = account_email(body.email@); !(f.mode != AuthMode::Local)
                    && !(!f.first && !f.allowed)
                    && is_email(email)
                    && !(encode_utf8(body.password@).len() < f.password_min_len)
                    && !f.email_taken
                    ==> register_refusal(f, body) == refusal_in(f.seat_refusal)
            }
        ),
{
}

/// Of several things that are wrong, `login_refusal` tells the first.
pub proof fn login_refusal_tells_the_first_thing(
    mode: AuthMode,
    cred: Option<Credential>,
    within_rate: bool,
)
    ensures
        mode != AuthMode::Local
            ==> login_refusal(mode, cred, within_rate)
                == Some(Refusal::Forbidden("local login is disabled"@)),
        !(mode != AuthMode::Local) && opened(cred) is Some
            ==> login_refusal(mode, cred, within_rate) is None,
        !(mode != AuthMode::Local) && !(opened(cred) is Some) && !within_rate
            ==> login_refusal(mode, cred, within_rate)
                == Some(
                    Refusal::TooManyRequests(
                        "too many failed logins from this address — slow down"@
                    )
                ),
        !(mode != AuthMode::Local) && !(opened(cred) is Some) && within_rate
            ==> login_refusal(mode, cred, within_rate)
                == Some(Refusal::Unauthorized("invalid email or password"@)),
{
}

/// Of several things that are wrong, `mfa_account_refusal` tells the first.
pub proof fn mfa_account_refusal_tells_the_first_thing(mode: AuthMode, ctx: AuthContext)
    ensures
        mfa_mode_refusal(mode) is Some ==> mfa_account_refusal(mode, ctx) == mfa_mode_refusal(mode),
        !(mfa_mode_refusal(mode) is Some) && ctx.user_id is None
            ==> mfa_account_refusal(mode, ctx) == Some(Refusal::Forbidden("no local account"@)),
        !(mfa_mode_refusal(mode) is Some) && !(ctx.user_id is None)
            ==> mfa_account_refusal(mode, ctx) is None,
{
}

/// Of several things that are wrong, `factor_refusal` tells the first.
pub proof fn factor_refusal_tells_the_first_thing(
    mode: AuthMode,
    ctx: AuthContext,
    password_ok: bool,
    used: FactorUsed,
)
    ensures
        mfa_account_refusal(mode, ctx) is Some
            ==> factor_refusal(mode, ctx, password_ok, used) == mfa_account_refusal(mode, ctx),
        !(mfa_account_refusal(mode, ctx) is Some) && !password_ok
            ==> factor_refusal(mode, ctx, password_ok, used)
                == Some(Refusal::Unauthorized("current password is incorrect"@)),
        !(mfa_account_refusal(mode, ctx) is Some) && password_ok && used == FactorUsed::Neither
            ==> factor_refusal(mode, ctx, password_ok, used)
                == Some(Refusal::Unauthorized("incorrect code"@)),
        !(mfa_account_refusal(mode, ctx) is Some) && password_ok && !(used == FactorUsed::Neither)
            ==> factor_refusal(mode, ctx, password_ok, used) is None,
{
}

/// A password that is too short is told how long one has to be.
pub proof fn short_passwords_are_told_the_length(n: nat)
    ensures
        short_password(n)
            == Refusal::Validation("password must be at least "@ + decimal(n) + " characters"@),
{
}

} // verus!
