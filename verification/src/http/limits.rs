//! How often things may be done.

use vstd::prelude::*;
use vstd::string::*;

use crate::http::auth::{LOGIN_FAIL_MAX, LOGIN_FAIL_WINDOW_SECS};
use crate::ids::{id_text, id_to_text};
use crate::principal::Id;
use crate::text::joined;

verus! {

/// So many times within so many seconds, counted under a key.
pub struct RateLimit {
    pub key: String,
    pub most: i64,
    pub window_secs: u64,
}

fn limit(what: &str, whose: &str, most: i64, window_secs: u64) -> (r: RateLimit)
    ensures
        r.key@ == what@ + whose@,
        r.most == most,
        r.window_secs == window_secs,
{
    RateLimit { key: joined(what, whose), most, window_secs }
}

/// Failed sign-ins from one address.
pub fn failed_login_limit(ip: &str) -> (r: RateLimit)
    ensures
        r.key@ == "login-fail:"@ + ip@,
        r.most == LOGIN_FAIL_MAX,
        r.window_secs == LOGIN_FAIL_WINDOW_SECS,
{
    limit("login-fail:", ip, LOGIN_FAIL_MAX, LOGIN_FAIL_WINDOW_SECS)
}

/// Wrong second factors: those of one attempt to sign in, and those from one address.
pub fn failed_code_limits(pending: &str, ip: &str, most: i64, window_secs: u64) -> (r: (
    RateLimit,
    RateLimit,
))
    ensures
        r.0.key@ == "mfa-fail:"@ + pending@,
        r.1.key@ == "mfa-fail-ip:"@ + ip@,
        r.0.most == most && r.1.most == most,
        r.0.window_secs == window_secs && r.1.window_secs == window_secs,
{
    (
        limit("mfa-fail:", pending, most, window_secs),
        limit("mfa-fail-ip:", ip, most, window_secs),
    )
}

/// New automations of one account.
pub fn automation_limit(owner: Id) -> (r: RateLimit)
    ensures
        r.key@ == "automation:"@ + id_text(owner),
        r.most == 20,
        r.window_secs == 60,
{
    let whose = id_to_text(owner);
    limit("automation:", whose.as_str(), 20, 60)
}

/// New exports of one account.
pub fn export_limit(owner: Id) -> (r: RateLimit)
    ensures
        r.key@ == "export:"@ + id_text(owner),
        r.most == 10,
        r.window_secs == 60,
{
    let whose = id_to_text(owner);
    limit("export:", whose.as_str(), 10, 60)
}

/// Socket tickets of one account.
pub fn ticket_limit(owner: Id) -> (r: RateLimit)
    ensures
        r.key@ == "ws-ticket:"@ + id_text(owner),
        r.most == 30,
        r.window_secs == 60,
{
    let whose = id_to_text(owner);
    limit("ws-ticket:", whose.as_str(), 30, 60)
}

/// Files that one account uploads; those of callers without an account are counted together.
pub fn upload_limit(who: Option<Id>) -> (r: RateLimit)
    ensures
        r.key@ == "upload:"@ + id_text(
            match who {
                Some(id) => id,
                None => 0,
            },
        ),
        r.most == 20,
        r.window_secs == 60,
{
    let whose = id_to_text(
        match who {
            Some(id) => id,
            None => 0,
        },
    );
    limit("upload:", whose.as_str(), 20, 60)
}

/// Pairing codes of one account.
pub fn pairing_code_limit(owner: Id) -> (r: RateLimit)
    ensures
        r.key@ == "pair:"@ + id_text(owner),
        r.most == 5,
        r.window_secs == 600,
{
    let whose = id_to_text(owner);
    limit("pair:", whose.as_str(), 5, 600)
}

/// Attempts to pair a device from one address.
pub fn pairing_limit(ip: &str) -> (r: RateLimit)
    ensures
        r.key@ == "pairdev:"@ + ip@,
        r.most == 10,
        r.window_secs == 600,
{
    limit("pairdev:", ip, 10, 600)
}

/// Returns from a server that an account was connected with, all together.
pub fn callback_limit() -> (r: RateLimit)
    ensures
        r.key@ == "mcp:oauth:callback"@,
        r.most == 120,
        r.window_secs == 60,
{
    RateLimit { key: "mcp:oauth:callback".to_owned(), most: 120, window_secs: 60 }
}

} // verus!
