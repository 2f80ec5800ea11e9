//! Knowledge bases: whose they are, whom they are open to, and where they are attached.

use vstd::prelude::*;
use vstd::string::*;

use crate::lists::selects_last;
use crate::clock::{show, shown, Instant};
use crate::error::{forbidden, refusal, validation, AppError, Refusal};
use crate::grants::{refusal_in, KbGrants, ProjectGrants};
use crate::http::projects::{project_read_refusal, require_project_read};
use crate::ids::id_text;
use crate::json::{
    array_value,
    empty_object,
    flag_value,
    id_value,
    json_in,
    jsons,
    member_at,
    put,
    text_or_null,
    text_or_null_value,
    text_value,
    Json,
};
use crate::order::{
    by_number,
    highest_first,
    lowest_first,
    ordered_lists_descend,
    rank_list,
    Numbered,
    Ranked,
};
use crate::principal::{same_id, AuthContext, Id};
use crate::text::{blank, opt_text, same, trim, trimmed};
use crate::trail::{entry_by, note, record_by, AuditEvent};

verus! {

pub struct CreateKb {
    pub name: String,
    pub description: Option<String>,
    pub visibility: Option<String>,
    pub parent_child: Option<bool>,
}

pub struct CreatedId {
    pub id: Id,
}

/// Whom a new knowledge base is open to: the team or everybody where that is asked for, and
/// its owner alone otherwise.
pub open spec fn visibility_of(asked: Option<Seq<char>>) -> Seq<char> {
    if asked == Some("team"@) {
        "team"@
    } else if asked == Some("shared"@) {
        "shared"@
    } else {
        "personal"@
    }
}

/// A knowledge base that is to be stored. Its owner manages it.
pub struct NewKb {
    pub owner: Id,
    pub name: String,
    pub description: Option<String>,
    pub visibility: &'static str,
    pub restricted: bool,
    pub parent_child: bool,
}

pub open spec fn creation_refusal(ctx: AuthContext, name: Seq<char>) -> Option<Refusal> {
    if ctx.user_id is None {
        Some(Refusal::Forbidden("a library needs a user owner"@))
    } else if trimmed(name).len() == 0 {
        Some(Refusal::Validation("a library needs a name"@))
    } else {
        None
    }
}

/// Makes a knowledge base.
pub fn create_kb(ctx: &AuthContext, body: CreateKb) -> (r: Result<NewKb, AppError>)
    ensures
        refusal(r) == creation_refusal(*ctx, body.name@),
        r matches Ok(kb) ==> {
            &&& ctx.user_id == Some(kb.owner)
            &&& kb.name@ == trimmed(body.name@)
            &&& kb.description == body.description
            &&& kb.visibility@ == visibility_of(opt_text(body.visibility))
            &&& !kb.restricted
            &&& kb.parent_child == (body.parent_child == Some(true))
        },
{
    let owner = match ctx.user_id {
        Some(id) => id,
        None => {
            return Err(forbidden("a library needs a user owner"));
        },
    };
    let visibility = match &body.visibility {
        Some(v) => {
            if same(v.as_str(), "team") {
                "team"
            } else if same(v.as_str(), "shared") {
                "shared"
            } else {
                "personal"
            }
        },
        None => "personal",
    };
    if blank(body.name.as_str()) {
        return Err(validation("a library needs a name"));
    }
    Ok(
        NewKb {
            owner,
            name: trim(body.name.as_str()),
            description: body.description,
            visibility,
            restricted: false,
            parent_child: match body.parent_child {
                Some(b) => b,
                None => false,
            },
        },
    )
}

/// A stored document of a knowledge base.
pub struct KbDocRow {
    pub id: Id,
    pub filename: String,
    pub mime: Option<String>,
    pub status: String,
    pub created_at: Instant,
    pub source: String,
}

impl Ranked for KbDocRow {
    /// The newest come first.
    open spec fn rank(self) -> (int, int) {
        (self.created_at as int, 0)
    }

    fn outranks(&self, other: &KbDocRow) -> (r: bool) {
        self.created_at > other.created_at
    }
}

pub struct KbDocOut {
    pub id: Id,
    pub filename: String,
    pub mime: Option<String>,
    pub status: String,
    pub created_at: String,
    pub source: String,
}

pub open spec fn doc_shown(row: KbDocRow, o: KbDocOut) -> bool {
    &&& o.id == row.id
    &&& o.filename == row.filename
    &&& o.mime == row.mime
    &&& o.status == row.status
    &&& o.created_at@ == shown(row.created_at)
    &&& o.source == row.source
}

/// The documents of a knowledge base as they are shown, the newest first.
pub fn load_docs(rows: Vec<KbDocRow>) -> (r: Vec<KbDocOut>)
    ensures
        r@.len() == highest_first(rows@).len(),
        forall|i: int| 0 <= i < r@.len() ==> doc_shown(highest_first(rows@)[i], #[trigger] r@[i]),
{
    let rows = rank_list(rows);
    let n: usize = rows.len();
    let mut rest = rows;
    let mut out: Vec<KbDocOut> = Vec::new();
    let mut i: usize = 0;
    while i < n
        invariant
            n == rows@.len(),
            i <= n,
            rest@ == rows@.skip(i as int),
            out@.len() == i,
            forall|k: int| 0 <= k < i ==> doc_shown(rows@[k], #[trigger] out@[k]),
        decreases n - i,
    {
        let row = rest.remove(0);
        assert(row == rows@[i as int]);
        assert(rest@ =~= rows@.skip(i as int + 1));
        out.push(
            KbDocOut {
                id: row.id,
                filename: row.filename,
                mime: row.mime,
                status: row.status,
                created_at: show(row.created_at),
                source: row.source,
            },
        );
        i = i + 1;
    }
    out
}

pub struct PatchKb {
    pub name: Option<String>,
    pub description: Option<String>,
    pub visibility: Option<String>,
    pub restricted: Option<bool>,
}

pub open spec fn is_visibility(v: Seq<char>) -> bool {
    v == "personal"@ || v == "team"@ || v == "shared"@ || v == "project"@
}

/// What changing a knowledge base comes to: what is set.
pub struct KbChanges {
    pub name: Option<String>,
    pub description: Option<String>,
    pub visibility: Option<String>,
    pub restricted: Option<bool>,
}

/// The name that is given is none.
pub open spec fn name_is_bad(body: PatchKb) -> bool {
    body.name matches Some(n) && trimmed(n@).len() == 0
}

/// The visibility that is given is none.
pub open spec fn visibility_is_bad(body: PatchKb) -> bool {
    body.visibility matches Some(v) && !is_visibility(v@)
}

pub open spec fn patch_refusal(grants: KbGrants, body: PatchKb) -> Option<Refusal> {
    if grants.manage is Some {
        refusal_in(grants.manage)
    } else if name_is_bad(body) {
        Some(Refusal::Validation("name cannot be empty"@))
    } else if visibility_is_bad(body) {
        Some(Refusal::Validation("invalid visibility"@))
    } else {
        None
    }
}

/// Changes a knowledge base, for whoever manages it. Where any of it is refused nothing is set,
/// so that every change there is comes to be recorded.
pub fn patch_kb(grants: KbGrants, body: PatchKb) -> (r: Result<KbChanges, AppError>)
    ensures
        refusal(r) == patch_refusal(grants, body),
        r matches Ok(c) ==> {
            &&& opt_text(c.name) == (match body.name {
                Some(n) => Some(trimmed(n@)),
                None => None,
            })
            &&& c.description == body.description
            &&& c.visibility == body.visibility
            &&& c.restricted == body.restricted
        },
{
    match grants.manage {
        Some(e) => {
            return Err(e);
        },
        None => {},
    }
    let name = match &body.name {
        Some(n) => {
            if blank(n.as_str()) {
                return Err(validation("name cannot be empty"));
            }
            Some(trim(n.as_str()))
        },
        None => None,
    };
    let fits = match &body.visibility {
        Some(v) => same(v.as_str(), "personal") || same(v.as_str(), "team") || same(
            v.as_str(),
            "shared",
        ) || same(v.as_str(), "project"),
        None => true,
    };
    if !fits {
        return Err(validation("invalid visibility"));
    }
    Ok(
        KbChanges {
            name,
            description: body.description,
            visibility: body.visibility,
            restricted: body.restricted,
        },
    )
}

pub struct UploadQuery {
    pub filename: String,
    pub mime: Option<String>,
}

pub struct UploadedDoc {
    pub doc_id: Id,
    pub status: String,
}

/// A document that was taken in, not read yet.
pub fn uploaded(doc_id: Id) -> (r: UploadedDoc)
    ensures
        r.doc_id == doc_id,
        r.status@ == "uploaded"@,
{
    UploadedDoc { doc_id, status: "uploaded".to_owned() }
}

/// Takes a document out of a knowledge base that it is in.
pub fn delete_kb_document(grants: KbGrants, deleted: u64) -> (r: Result<
    (),
    AppError,
>)
    ensures
        refusal(r) == (if grants.manage is Some {
            refusal_in(grants.manage)
        } else if deleted == 0 {
            Some(Refusal::Validation("document not found in this library"@))
        } else {
            None
        }),
{
    match grants.manage {
        Some(e) => {
            return Err(e);
        },
        None => {},
    }
    if deleted == 0 {
        Err(validation("document not found in this library"))
    } else {
        Ok(())
    }
}

pub struct GrantOut {
    pub id: Id,
    pub principal_type: String,
    pub principal_id: Id,
    pub permission: String,
    pub name: Option<String>,
}

/// A grant as it is stored, with the names of who has it: an account's, or a group's.
pub struct GrantRow {
    pub id: Id,
    pub principal_type: String,
    pub principal_id: Id,
    pub permission: String,
    pub user_name: Option<String>,
    pub group_name: Option<String>,
}

/// A grant as it is shown: it goes by the name of the person, or else of the group.
pub open spec fn grant_shown(row: GrantRow, r: GrantOut) -> bool {
    &&& r.id == row.id
    &&& r.principal_type == row.principal_type
    &&& r.principal_id == row.principal_id
    &&& r.permission == row.permission
    &&& r.name == (if row.user_name is Some {
        row.user_name
    } else {
        row.group_name
    })
}

/// A grant as it is listed: under the name of the account, or else of the group.
pub fn grant_out(row: GrantRow) -> (r: GrantOut)
    ensures
        grant_shown(row, r),
{
    GrantOut {
        id: row.id,
        principal_type: row.principal_type,
        principal_id: row.principal_id,
        permission: row.permission,
        name: match row.user_name {
            Some(n) => Some(n),
            None => row.group_name,
        },
    }
}

/// What a grant lets its holder do.
#[derive(Clone, Copy, Debug, PartialEq, Eq, Structural)]
pub enum KbPermission {
    Read,
    Manage,
}

pub open spec fn permission_text(p: KbPermission) -> Seq<char> {
    match p {
        KbPermission::Read => "read"@,
        KbPermission::Manage => "manage"@,
    }
}

/// How a permission is stored.
pub fn permission_name(p: KbPermission) -> (r: &'static str)
    ensures
        r@ == permission_text(p),
{
    match p {
        KbPermission::Read => "read",
        KbPermission::Manage => "manage",
    }
}

/// A grant that is asked for. `permission` is what was asked for, or why that is none.
pub struct PutGrant {
    pub principal_type: String,
    pub principal_id: Id,
    pub permission: Result<KbPermission, AppError>,
}

pub open spec fn is_principal_type(t: Seq<char>) -> bool {
    t == "user"@ || t == "group"@
}

pub open spec fn grant_refusal(g: PutGrant) -> Option<Refusal> {
    if !is_principal_type(g.principal_type@) {
        Some(Refusal::Validation("principal_type must be 'user' or 'group'"@))
    } else {
        refusal(g.permission)
    }
}

/// What is recorded of a grant: who gets what, and what they had.
pub open spec fn grant_event(
    principal_type: Seq<char>,
    principal_id: Id,
    before: Option<Seq<char>>,
    after: KbPermission,
) -> Json {
    Json::Object(
        Map::empty().insert("op"@, Json::Text("grant"@)).insert(
            "disclosure"@,
            Json::Flag(true),
        ).insert("principal_type"@, Json::Text(principal_type)).insert(
            "principal_id"@,
            Json::Text(id_text(principal_id)),
        ).insert("before"@, text_or_null(before)).insert(
            "after"@,
            Json::Text(permission_text(after)),
        ),
    )
}

/// A grant that is made, and what is recorded of it.
pub struct Granted {
    pub permission: KbPermission,
    pub event: serde_json::Value,
}

/// Makes a grant, or changes one. Opening a knowledge base to more people is recorded as what
/// it is.
pub fn put_grant(grants: KbGrants, g: PutGrant, before: &Option<String>) -> (r: Result<
    Granted,
    AppError,
>)
    ensures
        refusal(r) == (if grants.manage is Some {
            refusal_in(grants.manage)
        } else {
            grant_refusal(g)
        }),
        r matches Ok(x) ==> {
            &&& g.permission == Ok::<KbPermission, AppError>(x.permission)
            &&& json_in(x.event) == grant_event(
                g.principal_type@,
                g.principal_id,
                opt_text(*before),
                x.permission,
            )
        },
{
    match grants.manage {
        Some(e) => {
            return Err(e);
        },
        None => {},
    }
    if !same(g.principal_type.as_str(), "user") && !same(g.principal_type.as_str(), "group") {
        return Err(validation("principal_type must be 'user' or 'group'"));
    }
    let permission = match g.permission {
        Ok(p) => p,
        Err(e) => {
            return Err(e);
        },
    };
    let mut event = empty_object();
    put(&mut event, "op", text_value("grant"));
    put(&mut event, "disclosure", flag_value(true));
    put(&mut event, "principal_type", text_value(g.principal_type.as_str()));
    put(&mut event, "principal_id", id_value(g.principal_id));
    put(&mut event, "before", text_or_null_value(before));
    put(&mut event, "after", text_value(permission_name(permission)));
    Ok(Granted { permission, event })
}

/// A grant that was there.
pub struct RevokedGrant {
    pub principal_type: String,
    pub principal_id: Id,
    pub permission: String,
}

/// What is recorded of a grant that is withdrawn.
pub open spec fn revoke_event(g: RevokedGrant) -> Json {
    Json::Object(
        Map::empty().insert("op"@, Json::Text("revoke"@)).insert(
            "principal_type"@,
            Json::Text(g.principal_type@),
        ).insert("principal_id"@, Json::Text(id_text(g.principal_id))).insert(
            "before"@,
            Json::Text(g.permission@),
        ),
    )
}

/// Withdraws a grant; the result is what is recorded of it.
pub fn delete_grant(grants: KbGrants, deleted: Option<RevokedGrant>) -> (r: Result<
    serde_json::Value,
    AppError,
>)
    ensures
        refusal(r) == (if grants.manage is Some {
            refusal_in(grants.manage)
        } else if deleted is None {
            Some(Refusal::Validation("grant not found"@))
        } else {
            None
        }),
        r matches Ok(e) ==> deleted matches Some(g) && json_in(e) == revoke_event(g),
{
    match grants.manage {
        Some(e) => {
            return Err(e);
        },
        None => {},
    }
    match deleted {
        None => Err(validation("grant not found")),
        Some(g) => {
            let mut event = empty_object();
            put(&mut event, "op", text_value("revoke"));
            put(&mut event, "principal_type", text_value(g.principal_type.as_str()));
            put(&mut event, "principal_id", id_value(g.principal_id));
            put(&mut event, "before", text_value(g.permission.as_str()));
            Ok(event)
        },
    }
}

pub struct LinkKb {
    pub kb_id: Id,
}

/// A knowledge base, as far as attaching it goes.
#[derive(Clone, Copy, Debug, PartialEq, Eq, Structural)]
pub struct KbBrief {
    pub restricted: bool,
    pub origin_project_id: Option<Id>,
}

/// A restricted knowledge base stays with the project it comes from.
pub open spec fn is_walled(kb: KbBrief, project: Id) -> bool {
    kb.restricted && kb.origin_project_id != Some(project)
}

/// What there is to know of a knowledge base before it is attached.
pub struct AttachFacts {
    /// What its grants say about the caller, who has to read it.
    pub grants: KbGrants,
    /// The knowledge base, or why there is none.
    pub kb: Result<KbBrief, AppError>,
}

/// Why a knowledge base is attached nowhere. `at_place` is what is against the caller where it
/// is to be attached, which comes first.
pub open spec fn facts_refusal(at_place: Option<Refusal>, f: AttachFacts) -> Option<Refusal> {
    if at_place is Some {
        at_place
    } else if f.grants.read is Some {
        refusal_in(f.grants.read)
    } else {
        refusal(f.kb)
    }
}

fn attachable(f: AttachFacts) -> (r: Result<KbBrief, AppError>)
    ensures
        refusal(r) == facts_refusal(None, f),
        r matches Ok(kb) ==> f.kb == Ok::<KbBrief, AppError>(kb),
{
    match f.grants.read {
        Some(e) => {
            return Err(e);
        },
        None => {},
    }
    f.kb
}

/// Why a knowledge base is not attached to a project, which is for whoever writes to it.
pub open spec fn project_attach_refusal(grants: ProjectGrants, f: AttachFacts, project: Id) -> Option<
    Refusal,
> {
    if facts_refusal(refusal_in(grants.write), f) is Some {
        facts_refusal(refusal_in(grants.write), f)
    } else if f.kb matches Ok(kb) && is_walled(kb, project) {
        Some(Refusal::Forbidden("this library is restricted to its origin project"@))
    } else {
        None
    }
}

/// What attaching a knowledge base to a project comes to. An attempt across the wall is recorded.
pub struct Attachment {
    pub outcome: Result<(), AppError>,
    pub record_refusal: bool,
}

/// Attaches a knowledge base to a project that the caller writes to.
pub fn attach_project(grants: ProjectGrants, f: AttachFacts, project: Id) -> (r: Attachment)
    ensures
        refusal(r.outcome) == project_attach_refusal(grants, f, project),
        r.record_refusal == (facts_refusal(refusal_in(grants.write), f) is None && (
        f.kb matches Ok(kb) && is_walled(kb, project))),
{
    match grants.write {
        Some(e) => {
            return Attachment { outcome: Err(e), record_refusal: false };
        },
        None => {},
    }
    let kb = match attachable(f) {
        Ok(kb) => kb,
        Err(e) => {
            return Attachment { outcome: Err(e), record_refusal: false };
        },
    };
    if kb.restricted && !same_id(kb.origin_project_id, Some(project)) {
        return Attachment {
            outcome: Err(forbidden("this library is restricted to its origin project")),
            record_refusal: true,
        };
    }
    Attachment { outcome: Ok(()), record_refusal: false }
}

/// Why a knowledge base is not attached to a chat. `owner` is the chat's.
pub open spec fn chat_attach_refusal(ctx: AuthContext, owner: Option<Id>, f: AttachFacts) -> Option<
    Refusal,
> {
    if facts_refusal(chat_owner_refusal(ctx, owner), f) is Some {
        facts_refusal(chat_owner_refusal(ctx, owner), f)
    } else if f.kb matches Ok(kb) && kb.restricted {
        Some(Refusal::Forbidden("a restricted library cannot be attached to an ad-hoc chat"@))
    } else {
        None
    }
}

/// Attaches a knowledge base to a chat of the caller's.
pub fn attach_chat(ctx: &AuthContext, owner: Option<Id>, f: AttachFacts) -> (r: Result<(), AppError>)
    ensures
        refusal(r) == chat_attach_refusal(*ctx, owner, f),
{
    match require_chat_owner(ctx, owner) {
        Ok(_) => {},
        Err(e) => {
            return Err(e);
        },
    }
    match attachable(f) {
        Ok(kb) => {
            if kb.restricted {
                Err(forbidden("a restricted library cannot be attached to an ad-hoc chat"))
            } else {
                Ok(())
            }
        },
        Err(e) => Err(e),
    }
}

/// Detaches a knowledge base from a project that the caller writes to.
pub fn detach_project(grants: ProjectGrants) -> (r: Result<(), AppError>)
    ensures
        refusal(r) == refusal_in(grants.write),
{
    match grants.write {
        Some(e) => Err(e),
        None => Ok(()),
    }
}

/// Detaches a knowledge base from a chat of the caller's.
pub fn detach_chat(ctx: &AuthContext, owner: Option<Id>) -> (r: Result<(), AppError>)
    ensures
        refusal(r) == chat_owner_refusal(*ctx, owner),
{
    require_chat_owner(ctx, owner)
}

/// A restricted knowledge base is attached to no chat, and to no project but the one it comes
/// from.
pub proof fn restricted_libraries_stay_put(
    ctx: AuthContext,
    owner: Option<Id>,
    grants: ProjectGrants,
    f: AttachFacts,
    project: Id,
)
    requires
        f.kb matches Ok(kb) && kb.restricted,
    ensures
        chat_attach_refusal(ctx, owner, f) is Some,
        project_attach_refusal(grants, f, project) is None ==> f.kb->Ok_0.origin_project_id == Some(project),
{
}

/// A knowledge base that is attached.
pub struct AttachedRow {
    pub id: Id,
    pub name: String,
    pub visibility: String,
    pub restricted: bool,
    pub origin_project_id: Option<Id>,
}

pub struct AttachedLib {
    pub id: Id,
    pub name: String,
    pub visibility: String,
    pub restricted: bool,
    pub is_default: bool,
}

/// A knowledge base that is attached to a project, or to a chat where there is none: a
/// project's own is its default.
pub fn attached_lib(row: AttachedRow, project: Option<Id>) -> (r: AttachedLib)
    ensures
        r.id == row.id,
        r.name == row.name,
        r.visibility == row.visibility,
        r.restricted == row.restricted,
        r.is_default == (project is Some && row.visibility@ == "project"@ && row.origin_project_id
            == project),
{
    let is_default = project.is_some() && same(row.visibility.as_str(), "project") && same_id(
        row.origin_project_id,
        project,
    );
    AttachedLib {
        id: row.id,
        name: row.name,
        visibility: row.visibility,
        restricted: row.restricted,
        is_default,
    }
}

/// The library is the project's own.
pub open spec fn is_own(row: AttachedRow, project: Id) -> bool {
    row.visibility@ == "project"@ && row.origin_project_id == Some(project)
}

pub open spec fn library_shown(row: AttachedRow, project: Id, r: AttachedLib) -> bool {
    &&& r.id == row.id
    &&& r.name == row.name
    &&& r.visibility == row.visibility
    &&& r.restricted == row.restricted
    &&& r.is_default == is_own(row, project)
}

/// Of the libraries in use the project's own, or the others, in their order.
pub open spec fn own_or_not(rows: Seq<ChatLink>, project: Id, own: bool) -> Seq<AttachedRow>
    decreases rows.len(),
{
    if rows.len() == 0 {
        Seq::empty()
    } else {
        let before = own_or_not(rows.drop_last(), project, own);
        if !rows.last().archived && is_own(rows.last().library, project) == own {
            before.push(rows.last().library)
        } else {
            before
        }
    }
}

/// The libraries that a project draws on, for those who read it: its own first.
pub fn list_project_links(
    ctx: &AuthContext,
    owner: Option<Id>,
    grants: ProjectGrants,
    project: Id,
    rows: Vec<ChatLink>,
) -> (r: Result<Vec<AttachedLib>, AppError>)
    ensures
        refusal(r) == project_read_refusal(*ctx, owner, grants),
        r matches Ok(v) ==> {
            let all = own_or_not(rows@, project, true) + own_or_not(rows@, project, false);
            &&& v@.len() == all.len()
            &&& forall|i: int| 0 <= i < v@.len() ==> library_shown(all[i], project, #[trigger] v@[i])
        },
{
    match require_project_read(ctx, owner, grants) {
        Ok(_) => {},
        Err(e) => {
            return Err(e);
        },
    }
    let n: usize = rows.len();
    let mut rest = rows;
    let mut own: Vec<AttachedLib> = Vec::new();
    let mut others: Vec<AttachedLib> = Vec::new();
    let mut i: usize = 0;
    assert(rows@.take(0) == Seq::<ChatLink>::empty());
    while i < n
        invariant
            n == rows@.len(),
            i <= n,
            rest@ == rows@.skip(i as int),
            own@.len() == own_or_not(rows@.take(i as int), project, true).len(),
            others@.len() == own_or_not(rows@.take(i as int), project, false).len(),
            forall|k: int|
                0 <= k < own@.len() ==> library_shown(
                    own_or_not(rows@.take(i as int), project, true)[k],
                    project,
                    #[trigger] own@[k],
                ),
            forall|k: int|
                0 <= k < others@.len() ==> library_shown(
                    own_or_not(rows@.take(i as int), project, false)[k],
                    project,
                    #[trigger] others@[k],
                ),
        decreases n - i,
    {
        let row = rest.remove(0);
        assert(row == rows@[i as int]);
        assert(rest@ =~= rows@.skip(i as int + 1));
        assert(rows@.take(i as int + 1).drop_last() == rows@.take(i as int));
        if !row.archived {
            let lib = attached_lib(row.library, Some(project));
            if lib.is_default {
                own.push(lib);
            } else {
                others.push(lib);
            }
        }
        i = i + 1;
    }
    assert(rows@.take(rows@.len() as int) == rows@);
    let ghost head = own@;
    let ghost tail = others@;
    own.append(&mut others);
    assert forall|k: int| 0 <= k < own@.len() implies library_shown(
        (own_or_not(rows@, project, true) + own_or_not(rows@, project, false))[k],
        project,
        #[trigger] own@[k],
    ) by {
        if k < head.len() {
            assert(own@[k] == head[k]);
        } else {
            assert(own@[k] == tail[k - head.len()]);
        }
    }
    Ok(own)
}

pub open spec fn chat_owner_refusal(ctx: AuthContext, owner: Option<Id>) -> Option<Refusal> {
    match owner {
        None => Some(Refusal::Validation("chat not found"@)),
        Some(o) => if ctx.is(o) || ctx.admin {
            None
        } else {
            Some(Refusal::Forbidden("only the chat owner may change its libraries"@))
        },
    }
}

/// The knowledge bases of a chat are its owner's and administrators' to change.
pub fn require_chat_owner(ctx: &AuthContext, owner: Option<Id>) -> (r: Result<(), AppError>)
    ensures
        refusal(r) == chat_owner_refusal(*ctx, owner),
{
    match owner {
        None => Err(validation("chat not found")),
        Some(o) => {
            if ctx.is_user(o) || ctx.is_admin() {
                Ok(())
            } else {
                Err(forbidden("only the chat owner may change its libraries"))
            }
        },
    }
}

pub struct PromoteKb {
    pub visibility: String,
    pub grants: Vec<PutGrant>,
}

/// The refusal of the first grant that is refused.
pub open spec fn grants_refusal(grants: Seq<PutGrant>) -> Option<Refusal>
    decreases grants.len(),
{
    if grants.len() == 0 {
        None
    } else if grants_refusal(grants.drop_last()) is Some {
        grants_refusal(grants.drop_last())
    } else {
        grant_refusal(grants.last())
    }
}

proof fn grants_refusal_stays(grants: Seq<PutGrant>, i: int)
    requires
        0 <= i <= grants.len(),
        grants_refusal(grants.take(i)) is Some,
    ensures
        grants_refusal(grants) == grants_refusal(grants.take(i)),
    decreases grants.len() - i,
{
    if i < grants.len() {
        assert(grants.take(i + 1).drop_last() == grants.take(i));
        grants_refusal_stays(grants, i + 1);
    } else {
        assert(grants.take(i) == grants);
    }
}

pub open spec fn promote_refusal(
    manage_refusal: Option<Refusal>,
    body: PromoteKb,
    before: Option<Seq<char>>,
) -> Option<Refusal> {
    if manage_refusal is Some {
        manage_refusal
    } else if !(body.visibility@ == "team"@ || body.visibility@ == "shared"@ || body.visibility@
        == "personal"@) {
        Some(Refusal::Validation("promote target must be team|shared|personal"@))
    } else if before is None {
        Some(Refusal::Validation("knowledge base not found"@))
    } else {
        grants_refusal(body.grants@)
    }
}

/// A grant that comes with a promotion, as it is recorded.
pub open spec fn added_grant(g: PutGrant) -> Json {
    Json::Object(
        Map::empty().insert("principal_type"@, Json::Text(g.principal_type@)).insert(
            "principal_id"@,
            Json::Text(id_text(g.principal_id)),
        ).insert("permission"@, Json::Text(permission_text(g.permission->Ok_0))),
    )
}

/// What is recorded of a promotion: whom the knowledge base was open to, and whom it is open to
/// now.
pub open spec fn promote_event(before: Seq<char>, after: Seq<char>, grants: Seq<PutGrant>) -> Json {
    Json::Object(
        Map::empty().insert("disclosure"@, Json::Flag(true)).insert(
            "before"@,
            Json::Text(before),
        ).insert("after"@, Json::Text(after)).insert(
            "grants_added"@,
            Json::List(grants.map_values(|g: PutGrant| added_grant(g))),
        ),
    )
}

/// A promotion: whom the knowledge base is open to from now on, and what is recorded.
pub struct Promotion {
    pub visibility: String,
    pub restricted: bool,
    pub event: serde_json::Value,
}

fn add_grant(g: PutGrant) -> (r: Result<serde_json::Value, AppError>)
    ensures
        refusal(r) == grant_refusal(g),
        r matches Ok(v) ==> json_in(v) == added_grant(g),
{
    if !same(g.principal_type.as_str(), "user") && !same(g.principal_type.as_str(), "group") {
        return Err(validation("principal_type must be 'user' or 'group'"));
    }
    match g.permission {
        Ok(p) => {
            let mut v = empty_object();
            put(&mut v, "principal_type", text_value(g.principal_type.as_str()));
            put(&mut v, "principal_id", id_value(g.principal_id));
            put(&mut v, "permission", text_value(permission_name(p)));
            Ok(v)
        },
        Err(e) => Err(e),
    }
}

fn add_grants(grants: Vec<PutGrant>) -> (r: Result<Vec<serde_json::Value>, AppError>)
    ensures
        refusal(r) == grants_refusal(grants@),
        r matches Ok(v) ==> jsons(v@) == grants@.map_values(|g: PutGrant| added_grant(g)),
{
    let ghost all = grants@;
    let n: usize = grants.len();
    let mut rest = grants;
    let mut added: Vec<serde_json::Value> = Vec::new();
    let mut i: usize = 0;
    while i < n
        invariant
            n == all.len(),
            all == grants@,
            i <= n,
            rest@ == all.skip(i as int),
            grants_refusal(all.take(i as int)) is None,
            added@.len() == i,
            forall|k: int| 0 <= k < i ==> json_in(#[trigger] added@[k]) == added_grant(all[k]),
        decreases n - i,
    {
        let g = rest.remove(0);
        assert(g == all[i as int]);
        assert(rest@ =~= all.skip(i as int + 1));
        assert(all.take(i as int + 1).drop_last() == all.take(i as int));
        match add_grant(g) {
            Ok(v) => {
                added.push(v);
            },
            Err(e) => {
                proof {
                    grants_refusal_stays(all, i as int + 1);
                }
                return Err(e);
            },
        }
        i = i + 1;
    }
    assert(all.take(n as int) == all);
    assert(jsons(added@) =~= all.map_values(|g: PutGrant| added_grant(g)));
    Ok(added)
}

/// Opens a project's knowledge base to more people. It is no longer restricted, the grants come
/// with it, and all of it is recorded; with one grant that is refused nothing is changed.
pub fn promote_kb(grants: KbGrants, body: PromoteKb, before: &Option<String>) -> (r:
    Result<Promotion, AppError>)
    ensures
        refusal(r) == promote_refusal(refusal_in(grants.manage), body, opt_text(*before)),
        r matches Ok(p) ==> {
            &&& p.visibility == body.visibility
            &&& !p.restricted
            &&& before matches Some(b) && json_in(p.event) == promote_event(
                b@,
                body.visibility@,
                body.grants@,
            )
        },
{
    match grants.manage {
        Some(e) => {
            return Err(e);
        },
        None => {},
    }
    let target = body.visibility.as_str();
    if !same(target, "team") && !same(target, "shared") && !same(target, "personal") {
        return Err(validation("promote target must be team|shared|personal"));
    }
    let was = match before {
        Some(b) => b,
        None => {
            return Err(validation("knowledge base not found"));
        },
    };
    let added = match add_grants(body.grants) {
        Ok(v) => v,
        Err(e) => {
            return Err(e);
        },
    };
    let mut event = empty_object();
    put(&mut event, "disclosure", flag_value(true));
    put(&mut event, "before", text_value(was.as_str()));
    put(&mut event, "after", text_value(body.visibility.as_str()));
    put(&mut event, "grants_added", array_value(added));
    Ok(Promotion { visibility: body.visibility, restricted: false, event })
}

/// Every opening of a knowledge base to more people is recorded as a disclosure.
pub proof fn disclosures_are_recorded(
    principal_type: Seq<char>,
    principal_id: Id,
    before: Option<Seq<char>>,
    after: KbPermission,
    was: Seq<char>,
    now: Seq<char>,
    grants: Seq<PutGrant>,
)
    ensures
        crate::json::member_at(
            grant_event(principal_type, principal_id, before, after),
            "disclosure"@,
        ) == Some(Json::Flag(true)),
        crate::json::member_at(promote_event(was, now, grants), "disclosure"@) == Some(
            Json::Flag(true),
        ),
        crate::json::member_at(promote_event(was, now, grants), "before"@) == Some(
            Json::Text(was),
        ),
        crate::json::member_at(promote_event(was, now, grants), "after"@) == Some(
            Json::Text(now),
        ),
{
    reveal_strlit("disclosure");
    reveal_strlit("principal_type");
    reveal_strlit("principal_id");
    reveal_strlit("before");
    reveal_strlit("after");
    reveal_strlit("op");
    reveal_strlit("grants_added");
    assert("disclosure"@.len() == 10);
    assert("before"@.len() == 6);
    assert("after"@.len() == 5);
    assert("grants_added"@.len() == 12);
}

/// What is written down of a new knowledge base.
pub open spec fn created_doc(visibility: Seq<char>, name: Seq<char>) -> Json {
    Json::Object(
        Map::empty().insert("visibility"@, Json::Text(visibility)).insert("name"@, Json::Text(name)),
    )
}

pub fn created_event(ctx: &AuthContext, id: Id, kb: &NewKb) -> (e: AuditEvent)
    ensures
        e@ == entry_by(*ctx, "kb.created"@, "knowledge_base"@, id).noting(
            created_doc(kb.visibility@, kb.name@),
        ),
{
    let mut doc = empty_object();
    put(&mut doc, "visibility", text_value(kb.visibility));
    put(&mut doc, "name", text_value(kb.name.as_str()));
    note(record_by(ctx, "kb.created", "knowledge_base", id), doc)
}

/// Where a knowledge base was attached to, or taken away from.
#[derive(Clone, Copy, Debug, PartialEq, Eq, Structural)]
pub enum Place {
    Project(Id),
    Chat(Id),
}

/// What is noted of a knowledge base that was attached. To attach one to a project shows it to
/// everybody in the project, and is noted as that.
pub open spec fn attached_doc(place: Place) -> Json {
    Json::Object(
        match place {
            Place::Project(id) => Map::empty().insert("scope"@, Json::Text("project"@)).insert(
                "project_id"@,
                Json::Text(id_text(id)),
            ).insert("disclosure"@, Json::Flag(true)),
            Place::Chat(id) => Map::empty().insert("scope"@, Json::Text("chat"@)).insert(
                "chat_id"@,
                Json::Text(id_text(id)),
            ),
        },
    )
}

pub fn attached_note(place: Place) -> (r: serde_json::Value)
    ensures
        json_in(r) == attached_doc(place),
{
    let mut doc = detached_note(place);
    match place {
        Place::Project(_) => {
            put(&mut doc, "disclosure", flag_value(true));
        },
        Place::Chat(_) => {},
    }
    doc
}

/// What is noted of a knowledge base that was taken away.
pub open spec fn detached_doc(place: Place) -> Json {
    Json::Object(
        match place {
            Place::Project(id) => Map::empty().insert("scope"@, Json::Text("project"@)).insert(
                "project_id"@,
                Json::Text(id_text(id)),
            ),
            Place::Chat(id) => Map::empty().insert("scope"@, Json::Text("chat"@)).insert(
                "chat_id"@,
                Json::Text(id_text(id)),
            ),
        },
    )
}

pub fn detached_note(place: Place) -> (r: serde_json::Value)
    ensures
        json_in(r) == detached_doc(place),
{
    let mut doc = empty_object();
    match place {
        Place::Project(id) => {
            put(&mut doc, "scope", text_value("project"));
            put(&mut doc, "project_id", id_value(id));
        },
        Place::Chat(id) => {
            put(&mut doc, "scope", text_value("chat"));
            put(&mut doc, "chat_id", id_value(id));
        },
    }
    doc
}

/// What is noted of a restricted knowledge base that was not attached.
pub open spec fn walled_doc(project: Id) -> Json {
    Json::Object(
        Map::empty().insert("project_id"@, Json::Text(id_text(project))).insert(
            "reason"@,
            Json::Text("restricted"@),
        ),
    )
}

pub fn walled_note(project: Id) -> (r: serde_json::Value)
    ensures
        json_in(r) == walled_doc(project),
{
    let mut doc = empty_object();
    put(&mut doc, "project_id", id_value(project));
    put(&mut doc, "reason", text_value("restricted"));
    doc
}

/// What is noted of a document that was taken out.
pub open spec fn removed_doc(doc_id: Id) -> Json {
    Json::Object(Map::empty().insert("doc_id"@, Json::Text(id_text(doc_id))))
}

pub fn removed_note(doc_id: Id) -> (r: serde_json::Value)
    ensures
        json_in(r) == removed_doc(doc_id),
{
    let mut doc = empty_object();
    put(&mut doc, "doc_id", id_value(doc_id));
    doc
}

pub fn promoted_event(ctx: &AuthContext, kb_id: Id, p: Promotion) -> (e: AuditEvent)
    ensures
        e@ == entry_by(*ctx, "kb.promoted"@, "knowledge_base"@, kb_id).noting(json_in(p.event)),
{
    note(record_by(ctx, "kb.promoted", "knowledge_base", kb_id), p.event)
}

/// Who may use a library, for whoever manages it, the oldest grant first. Each comes with when
/// it was made.
pub fn list_grants(grants: KbGrants, rows: Vec<Numbered<GrantRow>>) -> (r: Result<
    Vec<GrantOut>,
    AppError,
>)
    ensures
        refusal(r) == refusal_in(grants.manage),
        r matches Ok(v) ==> v@.len() == lowest_first(rows@).len() && forall|i: int|
            0 <= i < v@.len() ==> grant_shown(lowest_first(rows@)[i], #[trigger] v@[i]),
{
    match grants.manage {
        Some(e) => {
            return Err(e);
        },
        None => {},
    }
    let rows = by_number(rows);
    let n: usize = rows.len();
    let mut rest = rows;
    let mut out: Vec<GrantOut> = Vec::new();
    let mut i: usize = 0;
    while i < n
        invariant
            n == rows@.len(),
            i <= n,
            rest@ == rows@.skip(i as int),
            out@.len() == i,
            forall|k: int| 0 <= k < i ==> grant_shown(rows@[k], #[trigger] out@[k]),
        decreases n - i,
    {
        let row = rest.remove(0);
        assert(row == rows@[i as int]);
        assert(rest@ =~= rows@.skip(i as int + 1));
        out.push(grant_out(row));
        i = i + 1;
    }
    Ok(out)
}

/// A library that is attached to a chat, and whether it was archived.
pub struct ChatLink {
    pub library: AttachedRow,
    pub archived: bool,
}

/// The libraries that are not archived, in their order.
pub open spec fn links_in_use(rows: Seq<ChatLink>) -> Seq<AttachedRow>
    decreases rows.len(),
{
    if rows.len() == 0 {
        Seq::empty()
    } else {
        let before = links_in_use(rows.drop_last());
        if !rows.last().archived {
            before.push(rows.last().library)
        } else {
            before
        }
    }
}

/// A library as it is shown on a chat: it is never the chat's default.
pub open spec fn link_shown(row: AttachedRow, r: AttachedLib) -> bool {
    &&& r.id == row.id
    &&& r.name == row.name
    &&& r.visibility == row.visibility
    &&& r.restricted == row.restricted
    &&& !r.is_default
}

/// The libraries that a chat draws on, for its owner.
pub fn list_chat_links(ctx: &AuthContext, owner: Option<Id>, rows: Vec<ChatLink>) -> (r: Result<
    Vec<AttachedLib>,
    AppError,
>)
    ensures
        refusal(r) == chat_owner_refusal(*ctx, owner),
        r matches Ok(v) ==> v@.len() == links_in_use(rows@).len() && forall|i: int|
            0 <= i < v@.len() ==> link_shown(links_in_use(rows@)[i], #[trigger] v@[i]),
{
    match require_chat_owner(ctx, owner) {
        Ok(_) => {},
        Err(e) => {
            return Err(e);
        },
    }
    let n: usize = rows.len();
    let mut rest = rows;
    let mut out: Vec<AttachedLib> = Vec::new();
    let mut i: usize = 0;
    assert(rows@.take(0) == Seq::<ChatLink>::empty());
    while i < n
        invariant
            n == rows@.len(),
            i <= n,
            rest@ == rows@.skip(i as int),
            out@.len() == links_in_use(rows@.take(i as int)).len(),
            forall|k: int|
                0 <= k < out@.len() ==> link_shown(
                    links_in_use(rows@.take(i as int))[k],
                    #[trigger] out@[k],
                ),
        decreases n - i,
    {
        let row = rest.remove(0);
        assert(row == rows@[i as int]);
        assert(rest@ =~= rows@.skip(i as int + 1));
        assert(rows@.take(i as int + 1).drop_last() == rows@.take(i as int));
        if !row.archived {
            out.push(attached_lib(row.library, None));
        }
        i = i + 1;
    }
    assert(rows@.take(rows@.len() as int) == rows@);
    Ok(out)
}

/// Of the libraries that are in use every one is the project's own or among the others.
pub proof fn libraries_are_own_or_not(project: Id, own: bool, s: Seq<ChatLink>)
    ensures
        own_or_not(s, project, own)
            == s.filter(
                |x: ChatLink| !x.archived
                    && own
                        == (
                            x.library.visibility@ == "project"@
                                && x.library.origin_project_id == Some(project)
                        )
            ).map_values(|x: ChatLink| x.library),
    decreases s.len(),
{
    let p = |x: ChatLink| !x.archived
            && own
                == (
                    x.library.visibility@ == "project"@
                        && x.library.origin_project_id == Some(project)
                );
    selects_last(s, p);
    if s.len() > 0 {
        libraries_are_own_or_not(project, own, s.drop_last());
    }
    assert(own_or_not(s, project, own) =~= s.filter(p).map_values(|x: ChatLink| x.library));
}

/// A chat draws on every library that is attached to it and in use.
pub proof fn libraries_in_use_are_shown(s: Seq<ChatLink>)
    ensures
        links_in_use(s) == s.filter(|x: ChatLink| !x.archived).map_values(|x: ChatLink| x.library),
    decreases s.len(),
{
    let p = |x: ChatLink| !x.archived;
    selects_last(s, p);
    if s.len() > 0 {
        libraries_in_use_are_shown(s.drop_last());
    }
    assert(links_in_use(s) =~= s.filter(p).map_values(|x: ChatLink| x.library));
}

/// The documents of a knowledge base are listed by when they were added, the latest first.
pub proof fn newer_documents_come_first(rows: Seq<KbDocRow>, i: int, j: int)
    requires
        0 <= i < j < rows.len(),
    ensures
        highest_first(rows)[i].created_at >= highest_first(rows)[j].created_at,
{
    ordered_lists_descend(rows, i, j);
}

/// A library is made by somebody with an account, with a name. It is changed by those who manage it,
/// to a name that is not empty and a visibility that there is.
pub proof fn who_changes_libraries(
    ctx: AuthContext,
    name: Seq<char>,
    grants: KbGrants,
    body: PatchKb,
    g: PutGrant,
)
    ensures
        creation_refusal(ctx, name) is None <==> ctx.user_id is Some && trimmed(name).len() > 0,
        patch_refusal(grants, body) is None
            <==> grants.manage is None
                && (body.name matches Some(n) ==> trimmed(n@).len() > 0)
                && (
                    body.visibility matches Some(v)
                        ==> v@ == "personal"@
                            || v@ == "team"@
                            || v@ == "shared"@
                            || v@ == "project"@
                ),
        grant_refusal(g) is None
            <==> (g.principal_type@ == "user"@ || g.principal_type@ == "group"@)
                && g.permission is Ok,
{
}

/// Grants are taken where each names a user or a group and a permission that there is; else the first
/// that does not decides.
pub proof fn grants_are_checked_in_turn(s: Seq<PutGrant>) -> (at: int)
    ensures
        grants_refusal(s) is None <==> forall|k: int|
            #![trigger s[k]]
            0 <= k < s.len()
                ==> (
                    (s[k].principal_type@ == "user"@ || s[k].principal_type@ == "group"@)
                        && s[k].permission is Ok
                ),
        grants_refusal(s) is Some ==> {
            &&& 0 <= at < s.len()
            &&& !(
                    (
                        (s[at].principal_type@ == "user"@ || s[at].principal_type@ == "group"@)
                            && s[at].permission is Ok
                    )
                )
            &&& grants_refusal(s) == grant_refusal(s[at])
            &&& forall|k: int|
                    #![trigger s[k]]
                    0 <= k < at
                        ==> (
                            (s[k].principal_type@ == "user"@ || s[k].principal_type@ == "group"@)
                                && s[k].permission is Ok
                        )
        },
    decreases s.len(),
{
    if s.len() == 0 {
        0
    } else {
        let front = s.drop_last();
        let at = grants_are_checked_in_turn(front);
        assert forall|k: int| #![trigger s[k]] 0 <= k < front.len() implies s[k] == front[k] by {}
        if grants_refusal(front) is Some {
            assert(s[at] == front[at]);
            at
        } else {
            assert forall|k: int|
                #![trigger s[k]]
                0 <= k < front.len()
                implies (
                    (s[k].principal_type@ == "user"@ || s[k].principal_type@ == "group"@)
                        && s[k].permission is Ok
                ) by {
                assert(front[k] == s[k]);
            }
            s.len() - 1
        }
    }
}

/// A library is attached to a project by those who write in the project and read the library, unless
/// it is restricted to another; to a chat by its owner and by administrators who read the library,
/// unless it is restricted.
pub proof fn which_libraries_are_attached(
    grants: ProjectGrants,
    f: AttachFacts,
    project: Id,
    ctx: AuthContext,
    owner: Option<Id>,
)
    ensures
        project_attach_refusal(grants, f, project) is None
            <==> grants.write is None
                && f.grants.read is None
                && (
                    f.kb matches Ok(kb) && (kb.restricted ==> kb.origin_project_id == Some(project))
                ),
        chat_owner_refusal(ctx, owner) is None
            <==> owner is Some && (ctx.user_id == owner || ctx.admin),
        chat_attach_refusal(ctx, owner, f) is None
            <==> owner is Some
                && (ctx.user_id == owner || ctx.admin)
                && f.grants.read is None
                && (f.kb matches Ok(kb) && !kb.restricted),
{
}

/// A library is promoted by those who manage it, where it is there, to a visibility that can be
/// promoted to, with grants that can be given.
pub proof fn which_libraries_are_promoted(
    manage_refusal: Option<Refusal>,
    body: PromoteKb,
    before: Option<Seq<char>>,
)
    ensures
        promote_refusal(manage_refusal, body, before) is None
            <==> manage_refusal is None
                && (
                    body.visibility@ == "team"@
                        || body.visibility@ == "shared"@
                        || body.visibility@ == "personal"@
                )
                && before is Some
                && forall|k: int|
                    #![trigger body.grants@[k]]
                    0 <= k < body.grants@.len()
                        ==> (
                            body.grants@[k].principal_type@ == "user"@
                                || body.grants@[k].principal_type@ == "group"@
                        )
                            && body.grants@[k].permission is Ok,
{
    grants_are_checked_in_turn(body.grants@);
}

/// What stands in `revoke_event` under each name; there is no other name in it.
pub proof fn what_revoke_event_holds(g: RevokedGrant)
    ensures
        member_at(revoke_event(g), "op"@) == Some(Json::Text("revoke"@)),
        member_at(revoke_event(g), "principal_type"@) == Some(Json::Text(g.principal_type@)),
        member_at(revoke_event(g), "principal_id"@) == Some(Json::Text(id_text(g.principal_id))),
        member_at(revoke_event(g), "before"@) == Some(Json::Text(g.permission@)),
        forall|name: Seq<char>|
            #[trigger] member_at(revoke_event(g), name) is Some
                ==> name == "op"@
                    || name == "principal_type"@
                    || name == "principal_id"@
                    || name == "before"@,
{
    reveal_strlit("op");
    reveal_strlit("principal_type");
    reveal_strlit("principal_id");
    reveal_strlit("before");
    assert("op"@.len() != "principal_type"@.len());
    assert("op"@.len() != "principal_id"@.len());
    assert("op"@.len() != "before"@.len());
    assert("principal_type"@.len() != "principal_id"@.len());
    assert("principal_type"@.len() != "before"@.len());
    assert("principal_id"@.len() != "before"@.len());
}

/// What stands in `added_grant` under each name; there is no other name in it.
pub proof fn what_added_grant_holds(g: PutGrant)
    ensures
        member_at(added_grant(g), "principal_type"@) == Some(Json::Text(g.principal_type@)),
        member_at(added_grant(g), "principal_id"@) == Some(Json::Text(id_text(g.principal_id))),
        member_at(added_grant(g), "permission"@)
            == Some(Json::Text(permission_text(g.permission->Ok_0))),
        forall|name: Seq<char>|
            #[trigger] member_at(added_grant(g), name) is Some
                ==> name == "principal_type"@ || name == "principal_id"@ || name == "permission"@,
{
    reveal_strlit("principal_type");
    reveal_strlit("principal_id");
    reveal_strlit("permission");
    assert("principal_type"@.len() != "principal_id"@.len());
    assert("principal_type"@.len() != "permission"@.len());
    assert("principal_id"@.len() != "permission"@.len());
}

/// What stands in `created_doc` under each name; there is no other name in it.
pub proof fn what_created_doc_holds(visibility: Seq<char>, name: Seq<char>)
    ensures
        member_at(created_doc(visibility, name), "visibility"@) == Some(Json::Text(visibility)),
        member_at(created_doc(visibility, name), "name"@) == Some(Json::Text(name)),
        forall|name: Seq<char>|
            #[trigger] member_at(created_doc(visibility, name), name) is Some
                ==> name == "visibility"@ || name == "name"@,
{
    reveal_strlit("visibility");
    reveal_strlit("name");
    assert("visibility"@.len() != "name"@.len());
}

/// What stands in `walled_doc` under each name; there is no other name in it.
pub proof fn what_walled_doc_holds(project: Id)
    ensures
        member_at(walled_doc(project), "project_id"@) == Some(Json::Text(id_text(project))),
        member_at(walled_doc(project), "reason"@) == Some(Json::Text("restricted"@)),
        forall|name: Seq<char>|
            #[trigger] member_at(walled_doc(project), name) is Some
                ==> name == "project_id"@ || name == "reason"@,
{
    reveal_strlit("project_id");
    reveal_strlit("reason");
    assert("project_id"@.len() != "reason"@.len());
}

/// What stands in `removed_doc` under each name; there is no other name in it.
pub proof fn what_removed_doc_holds(doc_id: Id)
    ensures
        member_at(removed_doc(doc_id), "doc_id"@) == Some(Json::Text(id_text(doc_id))),
        forall|name: Seq<char>|
            #[trigger] member_at(removed_doc(doc_id), name) is Some ==> name == "doc_id"@,
{
}

/// A document is shown as it is stored.
pub proof fn documents_are_shown_whole(row: KbDocRow, o: KbDocOut)
    ensures
        doc_shown(row, o) ==> {
            &&& o.id == row.id
            &&& o.filename == row.filename
            &&& o.mime == row.mime
            &&& o.status == row.status
            &&& o.created_at@ == shown(row.created_at)
            &&& o.source == row.source
        },
{
}

/// A grant is shown as it is stored, with the name of the user or else of the group.
pub proof fn grants_are_shown_whole(row: GrantRow, r: GrantOut)
    ensures
        grant_shown(row, r) ==> {
            &&& r.id == row.id
            &&& r.principal_type == row.principal_type
            &&& r.principal_id == row.principal_id
            &&& r.permission == row.permission
            &&& r.name == (if row.user_name is Some { row.user_name } else { row.group_name })
        },
{
}

/// A library of a project is shown as it is stored.
pub proof fn libraries_are_shown_whole(row: AttachedRow, project: Id, r: AttachedLib)
    ensures
        library_shown(row, project, r) ==> {
            &&& r.id == row.id
            &&& r.name == row.name
            &&& r.visibility == row.visibility
            &&& r.restricted == row.restricted
            &&& r.is_default == is_own(row, project)
        },
{
}

/// A library of a chat is shown as it is stored, and never as the chat's own.
pub proof fn links_are_shown_whole(row: AttachedRow, r: AttachedLib)
    ensures
        link_shown(row, r) ==> {
            &&& r.id == row.id
            &&& r.name == row.name
            &&& r.visibility == row.visibility
            &&& r.restricted == row.restricted
            &&& !r.is_default
        },
{
}

/// A library is personal unless it is asked for otherwise; one is a project's own where it was made for
/// that.
pub proof fn libraries_are_seen_as_asked(asked: Option<Seq<char>>, row: AttachedRow, project: Id)
    ensures
        visibility_of(asked)
            == (
                if asked == Some("team"@)
                    || asked == Some("shared"@) { asked->0 } else { "personal"@ }
            ),
        permission_text(KbPermission::Read) == "read"@,
        permission_text(KbPermission::Manage) == "manage"@,
        is_own(row, project)
            <==> row.visibility@ == "project"@ && row.origin_project_id == Some(project),
{
}

/// What is told of attaching a library names the place it went to, and for a project that it was
/// disclosed; of detaching it, the place alone.
pub proof fn what_is_told_of_links(id: Id)
    ensures
        member_at(attached_doc(Place::Project(id)), "scope"@) == Some(Json::Text("project"@)),
        member_at(attached_doc(Place::Project(id)), "project_id"@) == Some(Json::Text(id_text(id))),
        member_at(attached_doc(Place::Project(id)), "disclosure"@) == Some(Json::Flag(true)),
        member_at(attached_doc(Place::Chat(id)), "scope"@) == Some(Json::Text("chat"@)),
        member_at(attached_doc(Place::Chat(id)), "chat_id"@) == Some(Json::Text(id_text(id))),
        member_at(attached_doc(Place::Chat(id)), "disclosure"@) is None,
        member_at(detached_doc(Place::Project(id)), "scope"@) == Some(Json::Text("project"@)),
        member_at(detached_doc(Place::Project(id)), "project_id"@) == Some(Json::Text(id_text(id))),
        member_at(detached_doc(Place::Project(id)), "disclosure"@) is None,
        detached_doc(Place::Chat(id)) == attached_doc(Place::Chat(id)),
{
    reveal_strlit("scope");
    reveal_strlit("project_id");
    reveal_strlit("chat_id");
    reveal_strlit("disclosure");
    assert("scope"@.len() != "project_id"@.len());
    assert("scope"@.len() != "chat_id"@.len());
    assert("scope"@.len() != "disclosure"@.len());
    assert("project_id"@.len() != "chat_id"@.len());
    assert("project_id"@[0] != "disclosure"@[0]);
    assert("chat_id"@.len() != "disclosure"@.len());
}

/// What stands in `grant_event` under each name; there is no other name in it.
pub proof fn what_grant_event_holds(
    principal_type: Seq<char>,
    principal_id: Id,
    before: Option<Seq<char>>,
    after: KbPermission,
)
    ensures
        member_at(grant_event(principal_type, principal_id, before, after), "op"@)
            == Some(Json::Text("grant"@)),
        member_at(grant_event(principal_type, principal_id, before, after), "disclosure"@)
            == Some(Json::Flag(true)),
        member_at(grant_event(principal_type, principal_id, before, after), "principal_type"@)
            == Some(Json::Text(principal_type)),
        member_at(grant_event(principal_type, principal_id, before, after), "principal_id"@)
            == Some(Json::Text(id_text(principal_id))),
        member_at(grant_event(principal_type, principal_id, before, after), "before"@)
            == Some(text_or_null(before)),
        member_at(grant_event(principal_type, principal_id, before, after), "after"@)
            == Some(Json::Text(permission_text(after))),
        forall|name: Seq<char>|
            #[trigger] member_at(
                grant_event(principal_type, principal_id, before, after),
                name,
            ) is Some
                ==> name == "op"@
                    || name == "disclosure"@
                    || name == "principal_type"@
                    || name == "principal_id"@
                    || name == "before"@
                    || name == "after"@,
{
    reveal_strlit("op");
    reveal_strlit("disclosure");
    reveal_strlit("principal_type");
    reveal_strlit("principal_id");
    reveal_strlit("before");
    reveal_strlit("after");
    assert("op"@.len() != "disclosure"@.len());
    assert("op"@.len() != "principal_type"@.len());
    assert("op"@.len() != "principal_id"@.len());
    assert("op"@.len() != "before"@.len());
    assert("op"@.len() != "after"@.len());
    assert("disclosure"@.len() != "principal_type"@.len());
    assert("disclosure"@.len() != "principal_id"@.len());
    assert("disclosure"@.len() != "before"@.len());
    assert("disclosure"@.len() != "after"@.len());
    assert("principal_type"@.len() != "principal_id"@.len());
    assert("principal_type"@.len() != "before"@.len());
    assert("principal_type"@.len() != "after"@.len());
    assert("principal_id"@.len() != "before"@.len());
    assert("principal_id"@.len() != "after"@.len());
    assert("before"@.len() != "after"@.len());
}

/// What stands in `promote_event` under each name; there is no other name in it.
pub proof fn what_promote_event_holds(before: Seq<char>, after: Seq<char>, grants: Seq<PutGrant>)
    ensures
        member_at(promote_event(before, after, grants), "disclosure"@) == Some(Json::Flag(true)),
        member_at(promote_event(before, after, grants), "before"@) == Some(Json::Text(before)),
        member_at(promote_event(before, after, grants), "after"@) == Some(Json::Text(after)),
        member_at(promote_event(before, after, grants), "grants_added"@)
            == Some(Json::List(grants.map_values(|g: PutGrant| added_grant(g)))),
        forall|name: Seq<char>|
            #[trigger] member_at(promote_event(before, after, grants), name) is Some
                ==> name == "disclosure"@
                    || name == "before"@
                    || name == "after"@
                    || name == "grants_added"@,
{
    reveal_strlit("disclosure");
    reveal_strlit("before");
    reveal_strlit("after");
    reveal_strlit("grants_added");
    assert("disclosure"@.len() != "before"@.len());
    assert("disclosure"@.len() != "after"@.len());
    assert("disclosure"@.len() != "grants_added"@.len());
    assert("before"@.len() != "after"@.len());
    assert("before"@.len() != "grants_added"@.len());
    assert("after"@.len() != "grants_added"@.len());
}

/// Of several things that are wrong, `creation_refusal` tells the first.
pub proof fn creation_refusal_tells_the_first_thing(ctx: AuthContext, name: Seq<char>)
    ensures
        ctx.user_id is None
            ==> creation_refusal(ctx, name)
                == Some(Refusal::Forbidden("a library needs a user owner"@)),
        !(ctx.user_id is None) && trimmed(name).len() == 0
            ==> creation_refusal(ctx, name) == Some(Refusal::Validation("a library needs a name"@)),
        !(ctx.user_id is None) && !(trimmed(name).len() == 0)
            ==> creation_refusal(ctx, name) is None,
{
}

/// Of several things that are wrong, `patch_refusal` tells the first.
pub proof fn patch_refusal_tells_the_first_thing(grants: KbGrants, body: PatchKb)
    ensures
        grants.manage is Some ==> patch_refusal(grants, body) == refusal_in(grants.manage),
        !(grants.manage is Some) && name_is_bad(body)
            ==> patch_refusal(grants, body) == Some(Refusal::Validation("name cannot be empty"@)),
        !(grants.manage is Some) && !name_is_bad(body) && visibility_is_bad(body)
            ==> patch_refusal(grants, body) == Some(Refusal::Validation("invalid visibility"@)),
        !(grants.manage is Some) && !name_is_bad(body) && !visibility_is_bad(body)
            ==> patch_refusal(grants, body) is None,
{
}

/// Of several things that are wrong, `grant_refusal` tells the first.
pub proof fn grant_refusal_tells_the_first_thing(g: PutGrant)
    ensures
        !is_principal_type(g.principal_type@)
            ==> grant_refusal(g)
                == Some(Refusal::Validation("principal_type must be 'user' or 'group'"@)),
        is_principal_type(g.principal_type@) ==> grant_refusal(g) == refusal(g.permission),
{
}

/// Of several things that are wrong, `facts_refusal` tells the first.
pub proof fn facts_refusal_tells_the_first_thing(at_place: Option<Refusal>, f: AttachFacts)
    ensures
        at_place is Some ==> facts_refusal(at_place, f) == at_place,
        !(at_place is Some) && f.grants.read is Some
            ==> facts_refusal(at_place, f) == refusal_in(f.grants.read),
        !(at_place is Some) && !(f.grants.read is Some)
            ==> facts_refusal(at_place, f) == refusal(f.kb),
{
}

/// Of several things that are wrong, `project_attach_refusal` tells the first.
pub proof fn project_attach_refusal_tells_the_first_thing(
    grants: ProjectGrants,
    f: AttachFacts,
    project: Id,
)
    ensures
        facts_refusal(refusal_in(grants.write), f) is Some
            ==> project_attach_refusal(grants, f, project)
                == facts_refusal(refusal_in(grants.write), f),
        !(facts_refusal(refusal_in(grants.write), f) is Some)
            && (f.kb matches Ok(kb) && is_walled(kb, project))
            ==> project_attach_refusal(grants, f, project)
                == Some(Refusal::Forbidden("this library is restricted to its origin project"@)),
        !(facts_refusal(refusal_in(grants.write), f) is Some)
            && !(f.kb matches Ok(kb) && is_walled(kb, project))
            ==> project_attach_refusal(grants, f, project) is None,
{
}

/// Of several things that are wrong, `chat_attach_refusal` tells the first.
pub proof fn chat_attach_refusal_tells_the_first_thing(
    ctx: AuthContext,
    owner: Option<Id>,
    f: AttachFacts,
)
    ensures
        facts_refusal(chat_owner_refusal(ctx, owner), f) is Some
            ==> chat_attach_refusal(ctx, owner, f)
                == facts_refusal(chat_owner_refusal(ctx, owner), f),
        !(facts_refusal(chat_owner_refusal(ctx, owner), f) is Some)
            && (f.kb matches Ok(kb) && kb.restricted)
            ==> chat_attach_refusal(ctx, owner, f)
                == Some(
                    Refusal::Forbidden("a restricted library cannot be attached to an ad-hoc chat"@)
                ),
        !(facts_refusal(chat_owner_refusal(ctx, owner), f) is Some)
            && !(f.kb matches Ok(kb) && kb.restricted)
            ==> chat_attach_refusal(ctx, owner, f) is None,
{
}

/// Of several things that are wrong, `promote_refusal` tells the first.
pub proof fn promote_refusal_tells_the_first_thing(
    manage_refusal: Option<Refusal>,
    body: PromoteKb,
    before: Option<Seq<char>>,
)
    ensures
        manage_refusal is Some ==> promote_refusal(manage_refusal, body, before) == manage_refusal,
        !(manage_refusal is Some)
            && (
                !(
                    body.visibility@ == "team"@
                        || body.visibility@ == "shared"@
                        || body.visibility@ == "personal"@
                )
            )
            ==> promote_refusal(manage_refusal, body, before)
                == Some(Refusal::Validation("promote target must be team|shared|personal"@)),
        !(manage_refusal is Some)
            && !(
                !(
                    body.visibility@ == "team"@
                        || body.visibility@ == "shared"@
                        || body.visibility@ == "personal"@
                )
            )
            && before is None
            ==> promote_refusal(manage_refusal, body, before)
                == Some(Refusal::Validation("knowledge base not found"@)),
        !(manage_refusal is Some)
            && !(
                !(
                    body.visibility@ == "team"@
                        || body.visibility@ == "shared"@
                        || body.visibility@ == "personal"@
                )
            )
            && !(before is None)
            ==> promote_refusal(manage_refusal, body, before) == grants_refusal(body.grants@),
{
}

/// A chat that is not there is not found, and the libraries of somebody else's are forbidden.
pub proof fn libraries_of_others_are_refused(ctx: AuthContext, owner: Option<Id>)
    ensures
        chat_owner_refusal(ctx, None) == Some(Refusal::Validation("chat not found"@)),
        owner is Some && ctx.user_id != owner && !ctx.admin
            ==> chat_owner_refusal(ctx, owner)
                == Some(Refusal::Forbidden("only the chat owner may change its libraries"@)),
{
}

} // verus!
