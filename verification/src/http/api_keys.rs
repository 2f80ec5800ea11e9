//! Keys to the programmatic surface: minted from a full session, shown once, and withdrawn.

use vstd::prelude::*;
use vstd::string::*;

use crate::lists::selects_last;
use crate::clock::Instant;
use crate::error::{forbidden, not_found, refusal, validation, AppError, Refusal};
use crate::grants::{refusal_in, Permissions};
use crate::http::devices::{revoke as withdraw, withdraws, Withdrawable, Withdrawal};
use crate::ids::id_text;
use crate::json::{empty_object, id_value, json_in, member_at, put, text_value, Json};
use crate::order::{highest_first, ordered_lists_descend, rank_list, Ranked};
use crate::principal::{AuthContext, Id};
use crate::text::{clip, clipped, is_blank, same, trim, trimmed, trimmed_empty_iff_blank};
use crate::trail::{entry, entry_by, note, record, record_by, ActorRole, AuditEvent};

verus! {

/// The longest life that a key may be given, in days.
pub const MAX_EXPIRY_DAYS: i64 = 3650;

pub struct CreateBody {
    pub name: String,
    /// Days until the key lapses; none for never.
    pub expires_in_days: Option<i64>,
}

/// A key as it is listed: never the secret.
pub struct KeyOut {
    pub id: Id,
    pub name: String,
    pub display_prefix: String,
    pub created_at: Instant,
    pub last_used_at: Option<Instant>,
    pub expires_at: Option<Instant>,
    pub revoked_at: Option<Instant>,
}

pub open spec fn gate_refusal(enabled: bool) -> Option<Refusal> {
    if enabled {
        None
    } else {
        Some(Refusal::NotFound("not found"@))
    }
}

/// Without the programmatic surface there are no keys to manage: the routes are absent.
pub fn gate(enabled: bool) -> (r: Result<(), AppError>)
    ensures
        refusal(r) == gate_refusal(enabled),
{
    if enabled {
        Ok(())
    } else {
        Err(not_found("not found"))
    }
}

/// The account whose keys they are.
pub fn owner(ctx: &AuthContext) -> (r: Result<Id, AppError>)
    ensures
        match r {
            Ok(id) => ctx.user_id == Some(id),
            Err(e) => ctx.user_id is None && e@ == Refusal::Forbidden(
                "a user account is required to manage API keys"@,
            ),
        },
{
    match ctx.user_id {
        Some(id) => Ok(id),
        None => Err(forbidden("a user account is required to manage API keys")),
    }
}

pub open spec fn key_name(typed: Seq<char>) -> Seq<char> {
    if trimmed(typed).len() == 0 {
        "Untitled key"@
    } else {
        clipped(trimmed(typed), 120)
    }
}

pub open spec fn is_life(days: Option<i64>) -> bool {
    days matches Some(d) ==> 1 <= d <= MAX_EXPIRY_DAYS
}

pub open spec fn create_refusal(
    ctx: AuthContext,
    device_refusal: Option<Refusal>,
    enabled: bool,
    days: Option<i64>,
) -> Option<Refusal> {
    if device_refusal is Some {
        device_refusal
    } else if gate_refusal(enabled) is Some {
        gate_refusal(enabled)
    } else if ctx.mfa_enroll_only {
        Some(
            Refusal::Forbidden(
                "finish setting up two-factor authentication before creating API keys"@,
            ),
        )
    } else if ctx.user_id is None {
        Some(Refusal::Forbidden("a user account is required to manage API keys"@))
    } else if !is_life(days) {
        Some(Refusal::Validation("expires_in_days must be between 1 and 3650"@))
    } else {
        None
    }
}

/// The nanoseconds of a day.
pub open spec fn day() -> int {
    86_400_000_000_000
}

/// A key to be minted.
pub struct NewKey {
    pub user_id: Id,
    pub name: String,
    pub expires_at: Option<Instant>,
}

/// Lets a key be minted: from a full session and not from a device, which would otherwise
/// outlive its own withdrawal. `device_refusal` is what is said to a device.
pub fn create_key(
    ctx: &AuthContext,
    device_refusal: Option<AppError>,
    enabled: bool,
    body: &CreateBody,
    now: Instant,
) -> (r: Result<NewKey, AppError>)
    requires
        now + MAX_EXPIRY_DAYS * day() <= i128::MAX,
    ensures
        refusal(r) == create_refusal(
            *ctx,
            refusal_in(device_refusal),
            enabled,
            body.expires_in_days,
        ),
        r matches Ok(k) ==> {
            &&& ctx.user_id == Some(k.user_id)
            &&& k.name@ == key_name(body.name@)
            &&& match body.expires_in_days {
                None => k.expires_at is None,
                Some(d) => k.expires_at matches Some(t) && t == now + d * day(),
            }
        },
{
    match device_refusal {
        Some(e) => {
            return Err(e);
        },
        None => {},
    }
    match gate(enabled) {
        Ok(_) => {},
        Err(e) => {
            return Err(e);
        },
    }
    if ctx.mfa_enroll_only {
        return Err(
            forbidden("finish setting up two-factor authentication before creating API keys"),
        );
    }
    let user_id = match owner(ctx) {
        Ok(id) => id,
        Err(e) => {
            return Err(e);
        },
    };
    let expires_at: Option<Instant> = match body.expires_in_days {
        None => None,
        Some(d) => {
            if d >= 1 && d <= MAX_EXPIRY_DAYS {
                Some(now + (d as i128) * 86_400_000_000_000)
            } else {
                return Err(validation("expires_in_days must be between 1 and 3650"));
            }
        },
    };
    let n = trim(body.name.as_str());
    let name = if n.as_str().is_empty() {
        "Untitled key".to_owned()
    } else {
        clip(n.as_str(), 120)
    };
    Ok(NewKey { user_id, name, expires_at })
}

/// A key is never minted from a device, nor from a session that only sets up a second factor.
pub proof fn keys_come_from_full_sessions(
    ctx: AuthContext,
    device_refusal: Option<Refusal>,
    enabled: bool,
    days: Option<i64>,
)
    requires
        create_refusal(ctx, device_refusal, enabled, days) is None,
    ensures
        device_refusal is None,
        enabled,
        !ctx.mfa_enroll_only,
        ctx.user_id is Some,
        is_life(days),
{
}

/// The caller's keys, to list or to withdraw one of them.
pub fn own_keys(ctx: &AuthContext, enabled: bool) -> (r: Result<Id, AppError>)
    ensures
        refusal(r) == (if gate_refusal(enabled) is Some {
            gate_refusal(enabled)
        } else if ctx.user_id is None {
            Some(Refusal::Forbidden("a user account is required to manage API keys"@))
        } else {
            None
        }),
        r matches Ok(id) ==> ctx.user_id == Some(id),
{
    match gate(enabled) {
        Ok(_) => {},
        Err(e) => {
            return Err(e);
        },
    }
    owner(ctx)
}

/// Withdraws a key: the caller's own, or, for an administrator, anybody's. What is missing,
/// another's or withdrawn already is passed over without a word.
pub fn revoke(row: Option<Withdrawable>, restrict_to: Option<Id>) -> (r: Withdrawal)
    ensures
        r.withdrawn == withdraws(row, restrict_to),
        r.status == 204,
{
    withdraw(row, restrict_to)
}

/// A stored credential: a key that somebody made, or the token of a paired device.
pub struct StoredKey {
    pub user_id: Id,
    pub kind: String,
    pub key: KeyOut,
}

impl Ranked for StoredKey {
    /// The newest come first.
    open spec fn rank(self) -> (int, int) {
        (self.key.created_at as int, 0)
    }

    fn outranks(&self, other: &StoredKey) -> (r: bool) {
        self.key.created_at > other.key.created_at
    }
}

/// The keys of an account, in their order. The tokens of its devices are not among them.
pub open spec fn keys_of(rows: Seq<StoredKey>, user_id: Id) -> Seq<KeyOut>
    decreases rows.len(),
{
    if rows.len() == 0 {
        Seq::empty()
    } else {
        let before = keys_of(rows.drop_last(), user_id);
        if rows.last().user_id == user_id && rows.last().kind@ == "api"@ {
            before.push(rows.last().key)
        } else {
            before
        }
    }
}

pub fn load_keys(rows: Vec<StoredKey>, user_id: Id) -> (r: Vec<KeyOut>)
    ensures
        r@ == keys_of(highest_first(rows@), user_id),
{
    let rows = rank_list(rows);
    let n: usize = rows.len();
    let mut rest = rows;
    let mut out: Vec<KeyOut> = Vec::new();
    let mut i: usize = 0;
    assert(rows@.take(0) == Seq::<StoredKey>::empty());
    while i < n
        invariant
            n == rows@.len(),
            i <= n,
            rest@ == rows@.skip(i as int),
            out@ == keys_of(rows@.take(i as int), user_id),
        decreases n - i,
    {
        let row = rest.remove(0);
        assert(row == rows@[i as int]);
        assert(rest@ =~= rows@.skip(i as int + 1));
        assert(rows@.take(i as int + 1).drop_last() == rows@.take(i as int));
        if row.user_id == user_id && same(row.kind.as_str(), "api") {
            out.push(row.key);
        }
        i = i + 1;
    }
    assert(rows@.take(rows@.len() as int) == rows@);
    out
}

/// The keys of an account, for whoever may look at accounts.
pub fn admin_list_keys(enabled: bool, permissions: Permissions) -> (r: Result<(), AppError>)
    ensures
        refusal(r) == (if gate_refusal(enabled) is Some {
            gate_refusal(enabled)
        } else {
            refusal_in(permissions.users_view)
        }),
{
    match gate(enabled) {
        Ok(_) => {},
        Err(e) => {
            return Err(e);
        },
    }
    match permissions.users_view {
        Some(e) => Err(e),
        None => Ok(()),
    }
}

/// Why another's key is not withdrawn.
pub open spec fn admin_revoke_refusal(
    device_refusal: Option<Refusal>,
    enabled: bool,
    permissions: Permissions,
) -> Option<Refusal> {
    if device_refusal is Some {
        device_refusal
    } else if gate_refusal(enabled) is Some {
        gate_refusal(enabled)
    } else {
        refusal_in(permissions.users_manage)
    }
}

/// Withdraws another's key, which is for whoever manages accounts, and is done from a session
/// and not from a device.
pub fn admin_revoke_key(
    device_refusal: Option<AppError>,
    enabled: bool,
    permissions: Permissions,
) -> (r: Result<(), AppError>)
    ensures
        refusal(r) == admin_revoke_refusal(refusal_in(device_refusal), enabled, permissions),
{
    match device_refusal {
        Some(e) => {
            return Err(e);
        },
        None => {},
    }
    match gate(enabled) {
        Ok(_) => {},
        Err(e) => {
            return Err(e);
        },
    }
    match permissions.users_manage {
        Some(e) => Err(e),
        None => Ok(()),
    }
}

/// Looking at accounts is not managing them: whoever may only look withdraws no key.
pub proof fn lookers_withdraw_nothing(
    device_refusal: Option<Refusal>,
    enabled: bool,
    permissions: Permissions,
)
    requires
        permissions.users_manage is Some,
    ensures
        admin_revoke_refusal(device_refusal, enabled, permissions) is Some,
{
}

/// What is written down of a new key: what its owner knows it by and how long it is good. The
/// token itself is no part of it.
pub open spec fn created_doc(name: Seq<char>, display_prefix: Seq<char>, expires_at: Json) -> Json {
    Json::Object(
        Map::empty().insert("name"@, Json::Text(name)).insert(
            "display_prefix"@,
            Json::Text(display_prefix),
        ).insert("expires_at"@, expires_at),
    )
}

/// `expires_at` is the end of the key as the trail writes instants.
pub fn created_event(
    ctx: &AuthContext,
    id: Id,
    key: &NewKey,
    display_prefix: &str,
    expires_at: serde_json::Value,
) -> (e: AuditEvent)
    ensures
        e@ == entry(
            "api.key.created"@,
            ActorRole::Platform(ctx.role),
            Some(key.user_id),
            "api_key"@,
            Some(id),
        ).noting(created_doc(key.name@, display_prefix@, json_in(expires_at))),
{
    let mut doc = empty_object();
    put(&mut doc, "name", text_value(key.name.as_str()));
    put(&mut doc, "display_prefix", text_value(display_prefix));
    put(&mut doc, "expires_at", expires_at);
    let e = record(
        "api.key.created",
        ActorRole::Platform(ctx.role),
        Some(key.user_id),
        "api_key",
        Some(id),
    );
    note(e, doc)
}

/// What is written down of a key or a device that was withdrawn: its name, and whose it was.
pub open spec fn withdrawn_doc(name: Seq<char>, owner: Id) -> Json {
    Json::Object(
        Map::empty().insert("name"@, Json::Text(name)).insert(
            "owner_user_id"@,
            Json::Text(id_text(owner)),
        ),
    )
}

pub(crate) fn withdrawn_value(name: &str, owner: Id) -> (r: serde_json::Value)
    ensures
        json_in(r) == withdrawn_doc(name@, owner),
{
    let mut doc = empty_object();
    put(&mut doc, "name", text_value(name));
    put(&mut doc, "owner_user_id", id_value(owner));
    doc
}

pub fn revoked_event(ctx: &AuthContext, id: Id, name: &str, owner: Id) -> (e: AuditEvent)
    ensures
        e@ == entry_by(*ctx, "api.key.revoked"@, "api_key"@, id).noting(withdrawn_doc(name@, owner)),
{
    note(record_by(ctx, "api.key.revoked", "api_key", id), withdrawn_value(name, owner))
}

/// The trail never holds a key: whatever is noted of one that was made is its name, the
/// beginning that it is listed by, and its end.
pub proof fn keys_are_not_in_the_trail(
    name: Seq<char>,
    display_prefix: Seq<char>,
    expires_at: Json,
    member: Seq<char>,
)
    requires
        member_at(created_doc(name, display_prefix, expires_at), member) is Some,
    ensures
        member == "name"@ || member == "display_prefix"@ || member == "expires_at"@,
{
}

/// The caller's own keys.
pub fn list_keys(ctx: &AuthContext, enabled: bool, rows: Vec<StoredKey>) -> (r: Result<
    Vec<KeyOut>,
    AppError,
>)
    ensures
        refusal(r) == (if gate_refusal(enabled) is Some {
            gate_refusal(enabled)
        } else if ctx.user_id is None {
            Some(Refusal::Forbidden("a user account is required to manage API keys"@))
        } else {
            None
        }),
        r matches Ok(v) ==> ctx.user_id matches Some(me) && v@ == keys_of(highest_first(rows@), me),
{
    match own_keys(ctx, enabled) {
        Ok(me) => Ok(load_keys(rows, me)),
        Err(e) => Err(e),
    }
}

/// The keys of an account are all of its own that are no tokens of devices.
pub proof fn keys_are_listed_to_their_owner(user_id: Id, s: Seq<StoredKey>)
    ensures
        keys_of(s, user_id)
            == s.filter(
                |x: StoredKey| x.user_id == user_id && x.kind@ == "api"@
            ).map_values(|x: StoredKey| x.key),
    decreases s.len(),
{
    let p = |x: StoredKey| x.user_id == user_id && x.kind@ == "api"@;
    selects_last(s, p);
    if s.len() > 0 {
        keys_are_listed_to_their_owner(user_id, s.drop_last());
    }
    assert(keys_of(s, user_id) =~= s.filter(p).map_values(|x: StoredKey| x.key));
}

/// Keys are listed by when they were made, the newest first.
pub proof fn newer_keys_come_first(rows: Seq<StoredKey>, i: int, j: int)
    requires
        0 <= i < j < rows.len(),
    ensures
        highest_first(rows)[i].key.created_at >= highest_first(rows)[j].key.created_at,
{
    ordered_lists_descend(rows, i, j);
}

/// A key is made by somebody with an account who has settled their second factor, not from a device,
/// where keys are switched on, for a day at least and ten years at most or without an end.
pub proof fn who_makes_keys(
    ctx: AuthContext,
    device_refusal: Option<Refusal>,
    enabled: bool,
    days: Option<i64>,
    permissions: Permissions,
)
    ensures
        create_refusal(ctx, device_refusal, enabled, days) is None
            <==> device_refusal is None
                && enabled
                && !ctx.mfa_enroll_only
                && ctx.user_id is Some
                && (days matches Some(d) ==> 1 <= d <= 3650),
        admin_revoke_refusal(device_refusal, enabled, permissions) is None
            <==> device_refusal is None && enabled && permissions.users_manage is None,
        gate_refusal(enabled) is None <==> enabled,
{
}

/// What stands in `withdrawn_doc` under each name; there is no other name in it.
pub proof fn what_withdrawn_doc_holds(name: Seq<char>, owner: Id)
    ensures
        member_at(withdrawn_doc(name, owner), "name"@) == Some(Json::Text(name)),
        member_at(withdrawn_doc(name, owner), "owner_user_id"@) == Some(Json::Text(id_text(owner))),
        forall|name: Seq<char>|
            #[trigger] member_at(withdrawn_doc(name, owner), name) is Some
                ==> name == "name"@ || name == "owner_user_id"@,
{
    reveal_strlit("name");
    reveal_strlit("owner_user_id");
    assert("name"@.len() != "owner_user_id"@.len());
}

/// A key is called as it was typed, without the blanks around and with a hundred and twenty
/// characters at most, or has the name of those that have none.
pub proof fn keys_are_named(typed: Seq<char>)
    ensures
        is_blank(typed) ==> key_name(typed) == "Untitled key"@,
        !is_blank(typed)
            ==> key_name(typed).len()
                == (if trimmed(typed).len() < 120 { trimmed(typed).len() } else { 120nat }),
        !is_blank(typed)
            ==> forall|i: int|
                0 <= i < key_name(typed).len()
                    ==> #[trigger] key_name(typed)[i] == trimmed(typed)[i],
        day() == 24 * 60 * 60 * 1_000_000_000,
{
    trimmed_empty_iff_blank(typed);
}

/// What stands in `created_doc` under each name; there is no other name in it.
pub proof fn what_created_doc_holds(name: Seq<char>, display_prefix: Seq<char>, expires_at: Json)
    ensures
        member_at(created_doc(name, display_prefix, expires_at), "name"@) == Some(Json::Text(name)),
        member_at(created_doc(name, display_prefix, expires_at), "display_prefix"@)
            == Some(Json::Text(display_prefix)),
        member_at(created_doc(name, display_prefix, expires_at), "expires_at"@) == Some(expires_at),
        forall|name: Seq<char>|
            #[trigger] member_at(created_doc(name, display_prefix, expires_at), name) is Some
                ==> name == "name"@ || name == "display_prefix"@ || name == "expires_at"@,
{
    reveal_strlit("name");
    reveal_strlit("display_prefix");
    reveal_strlit("expires_at");
    assert("name"@.len() != "display_prefix"@.len());
    assert("name"@.len() != "expires_at"@.len());
    assert("display_prefix"@.len() != "expires_at"@.len());
}

/// Of several things that are wrong, `gate_refusal` tells the first.
pub proof fn gate_refusal_tells_the_first_thing(enabled: bool)
    ensures
        enabled ==> gate_refusal(enabled) is None,
        !enabled ==> gate_refusal(enabled) == Some(Refusal::NotFound("not found"@)),
{
}

/// Of several things that are wrong, `create_refusal` tells the first.
pub proof fn create_refusal_tells_the_first_thing(
    ctx: AuthContext,
    device_refusal: Option<Refusal>,
    enabled: bool,
    days: Option<i64>,
)
    ensures
        device_refusal is Some
            ==> create_refusal(ctx, device_refusal, enabled, days) == device_refusal,
        !(device_refusal is Some) && gate_refusal(enabled) is Some
            ==> create_refusal(ctx, device_refusal, enabled, days) == gate_refusal(enabled),
        !(device_refusal is Some) && !(gate_refusal(enabled) is Some) && ctx.mfa_enroll_only
            ==> create_refusal(ctx, device_refusal, enabled, days)
                == Some(
                    Refusal::Forbidden(
                        "finish setting up two-factor authentication before creating API keys"@
                    )
                ),
        !(device_refusal is Some)
            && !(gate_refusal(enabled) is Some)
            && !ctx.mfa_enroll_only
            && ctx.user_id is None
            ==> create_refusal(ctx, device_refusal, enabled, days)
                == Some(Refusal::Forbidden("a user account is required to manage API keys"@)),
        !(device_refusal is Some)
            && !(gate_refusal(enabled) is Some)
            && !ctx.mfa_enroll_only
            && !(ctx.user_id is None)
            && !is_life(days)
            ==> create_refusal(ctx, device_refusal, enabled, days)
                == Some(Refusal::Validation("expires_in_days must be between 1 and 3650"@)),
        !(device_refusal is Some)
            && !(gate_refusal(enabled) is Some)
            && !ctx.mfa_enroll_only
            && !(ctx.user_id is None)
            && is_life(days)
            ==> create_refusal(ctx, device_refusal, enabled, days) is None,
{
}

/// Of several things that are wrong, `admin_revoke_refusal` tells the first.
pub proof fn admin_revoke_refusal_tells_the_first_thing(
    device_refusal: Option<Refusal>,
    enabled: bool,
    permissions: Permissions,
)
    ensures
        device_refusal is Some
            ==> admin_revoke_refusal(device_refusal, enabled, permissions) == device_refusal,
        !(device_refusal is Some) && gate_refusal(enabled) is Some
            ==> admin_revoke_refusal(device_refusal, enabled, permissions) == gate_refusal(enabled),
        !(device_refusal is Some) && !(gate_refusal(enabled) is Some)
            ==> admin_revoke_refusal(device_refusal, enabled, permissions)
                == refusal_in(permissions.users_manage),
{
}

} // verus!
