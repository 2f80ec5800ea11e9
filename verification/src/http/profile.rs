//! The caller's own account: its name, its picture, and its end.

use vstd::prelude::*;
use vstd::string::*;

use crate::error::{forbidden, refusal, validation, AppError, Refusal};
use crate::ids::{id_text, id_to_simple_text, id_to_text, simple_text};
use crate::json::{
    empty_object,
    flag_value,
    id_value,
    json_in,
    member_at,
    null_value,
    number_value,
    put,
    text_value,
    Json,
};
use crate::principal::{AuthContext, Id};
use crate::text::{blank, joined, joined3, opt_text, same, trim, trimmed};
use crate::trail::{entry, mark, record, ActorRole, AuditEvent};

verus! {

/// The longest name, in characters.
pub const NAME_MAX: usize = 120;

/// The caller's account. An emergency grant has no profile.
pub fn me(ctx: &AuthContext) -> (r: Result<Id, AppError>)
    ensures
        match r {
            Ok(id) => ctx.user_id == Some(id),
            Err(e) => ctx.user_id is None && e@ == Refusal::Forbidden(
                "a Keycloak account is required for a profile"@,
            ),
        },
{
    match ctx.user_id {
        Some(id) => Ok(id),
        None => Err(forbidden("a Keycloak account is required for a profile")),
    }
}

/// Where the caller manages their password: at the identity provider, where that is who
/// signs people in and it is configured; nowhere otherwise.
pub fn account_url(keycloak_mode: bool, keycloak_url: &str, issuer: &str) -> (r: String)
    ensures
        r@ == (if keycloak_mode && trimmed(keycloak_url@).len() > 0 {
            issuer@ + "/account"@
        } else {
            Seq::empty()
        }),
{
    if keycloak_mode && !blank(keycloak_url) {
        joined(issuer, "/account")
    } else {
        String::new()
    }
}

pub struct NameUpdate {
    pub display_name: String,
}

pub open spec fn name_refusal(name: Seq<char>) -> Option<Refusal> {
    if name.len() == 0 {
        Some(Refusal::Validation("display name cannot be empty"@))
    } else if name.len() > NAME_MAX {
        Some(Refusal::Validation("display name must be at most 120 characters"@))
    } else {
        None
    }
}

/// Renames the caller: trimmed, not empty and not too long.
pub fn update_profile(ctx: &AuthContext, body: &NameUpdate) -> (r: Result<(Id, String), AppError>)
    ensures
        refusal(r) == (if ctx.user_id is None {
            Some(Refusal::Forbidden("a Keycloak account is required for a profile"@))
        } else {
            name_refusal(trimmed(body.display_name@))
        }),
        r matches Ok(x) ==> ctx.user_id == Some(x.0) && x.1@ == trimmed(body.display_name@),
{
    let uid = match me(ctx) {
        Ok(id) => id,
        Err(e) => {
            return Err(e);
        },
    };
    let name = trim(body.display_name.as_str());
    if name.as_str().is_empty() {
        return Err(validation("display name cannot be empty"));
    }
    if name.as_str().unicode_len() > NAME_MAX {
        return Err(validation("display name must be at most 120 characters"));
    }
    Ok((uid, name))
}

pub struct AvatarUpload {
    pub mime: Option<String>,
}

pub open spec fn is_picture(mime: Seq<char>) -> bool {
    mime == "image/png"@ || mime == "image/jpeg"@ || mime == "image/webp"@ || mime == "image/gif"@
}

pub open spec fn picture_type(mime: Option<Seq<char>>) -> Seq<char> {
    match mime {
        Some(m) => m,
        None => "image/png"@,
    }
}

/// A picture to be stored, under the name of its account.
pub struct Avatar {
    pub user_id: Id,
    pub mime: String,
    pub rel_path: String,
}

/// Takes a picture of one of the accepted types.
pub fn upload_avatar(ctx: &AuthContext, q: AvatarUpload, size: usize) -> (r: Result<
    Avatar,
    AppError,
>)
    ensures
        refusal(r) == (if ctx.user_id is None {
            Some(Refusal::Forbidden("a Keycloak account is required for a profile"@))
        } else if size == 0 {
            Some(Refusal::Validation("empty avatar upload"@))
        } else if !is_picture(picture_type(opt_text(q.mime))) {
            Some(Refusal::Validation("avatar must be a PNG, JPEG, WebP or GIF image"@))
        } else {
            None
        }),
        r matches Ok(a) ==> {
            &&& ctx.user_id == Some(a.user_id)
            &&& a.mime@ == picture_type(opt_text(q.mime))
            &&& a.rel_path@ == id_text(a.user_id)
        },
{
    let uid = match me(ctx) {
        Ok(id) => id,
        Err(e) => {
            return Err(e);
        },
    };
    if size == 0 {
        return Err(validation("empty avatar upload"));
    }
    let mime = match q.mime {
        Some(m) => m,
        None => "image/png".to_owned(),
    };
    let m = mime.as_str();
    if !same(m, "image/png") && !same(m, "image/jpeg") && !same(m, "image/webp") && !same(
        m,
        "image/gif",
    ) {
        return Err(validation("avatar must be a PNG, JPEG, WebP or GIF image"));
    }
    Ok(Avatar { user_id: uid, mime, rel_path: id_to_text(uid) })
}

/// The address that a deleted account is left with: it names nobody.
pub open spec fn tombstone(id: Id) -> Seq<char> {
    "deleted-"@ + simple_text(id) + "@deleted.invalid"@
}

/// An account to be archived.
pub struct Archival {
    pub user_id: Id,
    pub email: String,
    pub display_name: String,
}

/// Ends the caller's account: from a session of their own, never from a paired device. What
/// is left of it has no name and no address. `device_refusal` is what is said to a device.
pub fn delete_account(ctx: &AuthContext, device_refusal: Option<AppError>) -> (r: Result<
    Archival,
    AppError,
>)
    ensures
        refusal(r) == (if device_refusal is Some {
            Some(device_refusal->0@)
        } else if ctx.user_id is None {
            Some(Refusal::Forbidden("a Keycloak account is required for a profile"@))
        } else {
            None
        }),
        r matches Ok(a) ==> {
            &&& ctx.user_id == Some(a.user_id)
            &&& a.email@ == tombstone(a.user_id)
            &&& a.display_name@ == "Deleted user"@
        },
{
    match device_refusal {
        Some(e) => {
            return Err(e);
        },
        None => {},
    }
    match me(ctx) {
        Ok(uid) => {
            let digits = id_to_simple_text(uid);
            Ok(
                Archival {
                    user_id: uid,
                    email: joined3("deleted-", digits.as_str(), "@deleted.invalid"),
                    display_name: "Deleted user".to_owned(),
                },
            )
        },
        Err(e) => Err(e),
    }
}

/// No two deleted accounts are left with the same address.
pub proof fn tombstones_differ(a: Id, b: Id)
    requires
        tombstone(a) == tombstone(b),
    ensures
        a == b,
{
    crate::ids::simple_text_reads_back(a);
    crate::ids::simple_text_reads_back(b);
    let n = "deleted-"@.len() as int;
    assert(tombstone(a).subrange(n, n + 32) =~= simple_text(a));
    assert(tombstone(b).subrange(n, n + 32) =~= simple_text(b));
}

/// A stored picture: where it is and what type it is of, where both are known.
pub fn get_avatar(path: Option<String>, mime: Option<String>) -> (r: Option<(String, String)>)
    ensures
        match r {
            Some(x) => opt_text(path) == Some(x.0@) && opt_text(mime) == Some(x.1@),
            None => path is None || mime is None,
        },
{
    match (path, mime) {
        (Some(p), Some(m)) => Some((p, m)),
        _ => None,
    }
}

/// The entry of a change that somebody made to their own account; `action` is `"profile.updated"`,
/// `"profile.avatar_updated"` or `"profile.avatar_removed"`.
pub fn own_event(ctx: &AuthContext, action: &str, user_id: Id) -> (e: AuditEvent)
    ensures
        e@ == entry(
            action@,
            ActorRole::Platform(ctx.role),
            Some(user_id),
            "user"@,
            Some(user_id),
        ),
{
    record(action, ActorRole::Platform(ctx.role), Some(user_id), "user", Some(user_id))
}

/// The entry of an account that was given up, marked for a second look.
pub fn archived_event(ctx: &AuthContext, user_id: Id) -> (e: AuditEvent)
    ensures
        e@ == entry(
            "account.self_archived"@,
            ActorRole::Platform(ctx.role),
            Some(user_id),
            "user"@,
            Some(user_id),
        ).marked(),
{
    mark(own_event(ctx, "account.self_archived", user_id), None)
}

/// An account as it is stored.
pub struct ProfileRow {
    pub email: String,
    pub display_name: String,
    pub display_name_custom: bool,
    pub role: String,
    pub created_epoch: i64,
    pub avatar_epoch: Option<i64>,
}

/// What the caller is shown of their account.
pub open spec fn profile_doc(uid: Id, row: ProfileRow, account_url: Seq<char>) -> Json {
    Json::Object(
        Map::empty().insert("user_id"@, Json::Text(id_text(uid))).insert(
            "email"@,
            Json::Text(row.email@),
        ).insert("display_name"@, Json::Text(row.display_name@)).insert(
            "display_name_custom"@,
            Json::Flag(row.display_name_custom),
        ).insert("role"@, Json::Text(row.role@)).insert(
            "created_epoch"@,
            Json::Number(row.created_epoch as int),
        ).insert(
            "avatar_updated_at"@,
            match row.avatar_epoch {
                Some(t) => Json::Number(t as int),
                None => Json::Null,
            },
        ).insert("account_url"@, Json::Text(account_url)),
    )
}

/// The caller's account.
pub fn get_profile(
    ctx: &AuthContext,
    row: ProfileRow,
    keycloak_mode: bool,
    keycloak_url: &str,
    issuer: &str,
) -> (r: Result<serde_json::Value, AppError>)
    ensures
        match r {
            Ok(v) => ctx.user_id matches Some(uid) && json_in(v) == profile_doc(
                uid,
                row,
                if keycloak_mode && trimmed(keycloak_url@).len() > 0 {
                    issuer@ + "/account"@
                } else {
                    Seq::empty()
                },
            ),
            Err(e) => ctx.user_id is None && e@ == Refusal::Forbidden(
                "a Keycloak account is required for a profile"@,
            ),
        },
{
    let uid = match me(ctx) {
        Ok(id) => id,
        Err(e) => {
            return Err(e);
        },
    };
    let url = account_url(keycloak_mode, keycloak_url, issuer);
    let mut doc = empty_object();
    put(&mut doc, "user_id", id_value(uid));
    put(&mut doc, "email", text_value(row.email.as_str()));
    put(&mut doc, "display_name", text_value(row.display_name.as_str()));
    put(&mut doc, "display_name_custom", flag_value(row.display_name_custom));
    put(&mut doc, "role", text_value(row.role.as_str()));
    put(&mut doc, "created_epoch", number_value(row.created_epoch));
    let picture = match row.avatar_epoch {
        Some(t) => number_value(t),
        None => null_value(),
    };
    put(&mut doc, "avatar_updated_at", picture);
    put(&mut doc, "account_url", text_value(url.as_str()));
    Ok(doc)
}

/// Takes the caller's picture away: the file that goes, where there is one.
pub fn delete_avatar(ctx: &AuthContext, stored: Option<String>) -> (r: Result<
    (Id, Option<String>),
    AppError,
>)
    ensures
        match r {
            Ok(x) => ctx.user_id == Some(x.0) && x.1 == stored,
            Err(e) => ctx.user_id is None && e@ == Refusal::Forbidden(
                "a Keycloak account is required for a profile"@,
            ),
        },
{
    match me(ctx) {
        Ok(id) => Ok((id, stored)),
        Err(e) => Err(e),
    }
}

/// A display name is taken where it is neither empty nor longer than a hundred and twenty characters.
pub proof fn which_names_are_taken(name: Seq<char>)
    ensures
        name_refusal(name) is None <==> 1 <= name.len() <= 120,
{
}

/// What stands in `profile_doc` under each name; there is no other name in it.
pub proof fn what_profile_doc_holds(uid: Id, row: ProfileRow, account_url: Seq<char>)
    ensures
        member_at(profile_doc(uid, row, account_url), "user_id"@) == Some(Json::Text(id_text(uid))),
        member_at(profile_doc(uid, row, account_url), "email"@) == Some(Json::Text(row.email@)),
        member_at(profile_doc(uid, row, account_url), "display_name"@)
            == Some(Json::Text(row.display_name@)),
        member_at(profile_doc(uid, row, account_url), "display_name_custom"@)
            == Some(Json::Flag(row.display_name_custom)),
        member_at(profile_doc(uid, row, account_url), "role"@) == Some(Json::Text(row.role@)),
        member_at(profile_doc(uid, row, account_url), "created_epoch"@)
            == Some(Json::Number(row.created_epoch as int)),
        member_at(profile_doc(uid, row, account_url), "avatar_updated_at"@)
            == Some(
                match row.avatar_epoch { Some(t) => Json::Number(t as int), None => Json::Null, }
            ),
        member_at(profile_doc(uid, row, account_url), "account_url"@)
            == Some(Json::Text(account_url)),
        forall|name: Seq<char>|
            #[trigger] member_at(profile_doc(uid, row, account_url), name) is Some
                ==> name == "user_id"@
                    || name == "email"@
                    || name == "display_name"@
                    || name == "display_name_custom"@
                    || name == "role"@
                    || name == "created_epoch"@
                    || name == "avatar_updated_at"@
                    || name == "account_url"@,
{
    reveal_strlit("user_id");
    reveal_strlit("email");
    reveal_strlit("display_name");
    reveal_strlit("display_name_custom");
    reveal_strlit("role");
    reveal_strlit("created_epoch");
    reveal_strlit("avatar_updated_at");
    reveal_strlit("account_url");
    assert("user_id"@.len() != "email"@.len());
    assert("user_id"@.len() != "display_name"@.len());
    assert("user_id"@.len() != "display_name_custom"@.len());
    assert("user_id"@.len() != "role"@.len());
    assert("user_id"@.len() != "created_epoch"@.len());
    assert("user_id"@.len() != "avatar_updated_at"@.len());
    assert("user_id"@.len() != "account_url"@.len());
    assert("email"@.len() != "display_name"@.len());
    assert("email"@.len() != "display_name_custom"@.len());
    assert("email"@.len() != "role"@.len());
    assert("email"@.len() != "created_epoch"@.len());
    assert("email"@.len() != "avatar_updated_at"@.len());
    assert("email"@.len() != "account_url"@.len());
    assert("display_name"@.len() != "display_name_custom"@.len());
    assert("display_name"@.len() != "role"@.len());
    assert("display_name"@.len() != "created_epoch"@.len());
    assert("display_name"@.len() != "avatar_updated_at"@.len());
    assert("display_name"@.len() != "account_url"@.len());
    assert("display_name_custom"@.len() != "role"@.len());
    assert("display_name_custom"@.len() != "created_epoch"@.len());
    assert("display_name_custom"@.len() != "avatar_updated_at"@.len());
    assert("display_name_custom"@.len() != "account_url"@.len());
    assert("role"@.len() != "created_epoch"@.len());
    assert("role"@.len() != "avatar_updated_at"@.len());
    assert("role"@.len() != "account_url"@.len());
    assert("created_epoch"@.len() != "avatar_updated_at"@.len());
    assert("created_epoch"@.len() != "account_url"@.len());
    assert("avatar_updated_at"@.len() != "account_url"@.len());
}

/// A picture is of one of four types, and of the first where its type is not known.
pub proof fn which_pictures_are_taken(mime: Seq<char>, known: Option<Seq<char>>)
    ensures
        is_picture(mime)
            <==> mime == "image/png"@
                || mime == "image/jpeg"@
                || mime == "image/webp"@
                || mime == "image/gif"@,
        known matches Some(m) ==> picture_type(known) == m,
        known is None ==> picture_type(known) == "image/png"@,
{
}

/// What stands for an account that was deleted is made of its name alone.
pub proof fn tombstones_name_the_account(id: Id)
    ensures
        tombstone(id) == "deleted-"@ + simple_text(id) + "@deleted.invalid"@,
{
}

/// Of several things that are wrong, `name_refusal` tells the first.
pub proof fn name_refusal_tells_the_first_thing(name: Seq<char>)
    ensures
        name.len() == 0
            ==> name_refusal(name) == Some(Refusal::Validation("display name cannot be empty"@)),
        !(name.len() == 0) && name.len() > NAME_MAX
            ==> name_refusal(name)
                == Some(Refusal::Validation("display name must be at most 120 characters"@)),
        !(name.len() == 0) && !(name.len() > NAME_MAX) ==> name_refusal(name) is None,
{
}

} // verus!
