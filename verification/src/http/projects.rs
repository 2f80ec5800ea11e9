//! Projects and their knowledge: who owns, reads and writes them.

use vstd::prelude::*;
use vstd::string::*;

use crate::lists::{selects_just, selects_last};
use crate::clock::{show, shown, Instant};
use crate::error::{forbidden, refusal, validation, AppError, Refusal};
use crate::grants::{refusal_in, KbGrants, ProjectGrants};
use crate::http::chat_attachments::{stored_as, stored_name};
use crate::order::{
    by_time,
    highest_first,
    newest_first,
    ordered_lists_descend,
    rank_list,
    Dated,
    Ranked,
};
use crate::principal::{is_lead, AuthContext, Id};
use crate::text::{opt_text, same};

verus! {

pub struct CreateProject {
    pub name: String,
    pub description: Option<String>,
    pub sector: Option<String>,
}

/// The sector of a project: legal where that is asked for, and general otherwise.
pub open spec fn sector_of(asked: Option<Seq<char>>) -> Seq<char> {
    if asked == Some("legal"@) {
        "legal"@
    } else {
        "general"@
    }
}

/// A project's owner and sector.
pub fn create_project(ctx: &AuthContext, body: &CreateProject) -> (r: Result<
    (Id, &'static str),
    AppError,
>)
    ensures
        match r {
            Ok(x) => ctx.user_id == Some(x.0) && x.1@ == sector_of(opt_text(body.sector)),
            Err(e) => ctx.user_id is None && e@ == Refusal::Forbidden(
                "a project needs a user owner"@,
            ),
        },
{
    let owner = match ctx.user_id {
        Some(id) => id,
        None => {
            return Err(forbidden("a project needs a user owner"));
        },
    };
    let legal = match &body.sector {
        Some(s) => same(s.as_str(), "legal"),
        None => false,
    };
    if legal {
        Ok((owner, "legal"))
    } else {
        Ok((owner, "general"))
    }
}

/// Archives a project: for its owner or an administrator.
pub fn delete_project(ctx: &AuthContext, owner: Option<Id>) -> (r: Result<(), AppError>)
    ensures
        refusal(r) == (match owner {
            None => Some(Refusal::Validation("project not found"@)),
            Some(o) => if ctx.is(o) || ctx.admin {
                None
            } else {
                Some(
                    Refusal::Forbidden("only the project owner or an admin may archive a project"@),
                )
            },
        }),
{
    match owner {
        None => Err(validation("project not found")),
        Some(o) => {
            if ctx.is_user(o) || ctx.is_admin() {
                Ok(())
            } else {
                Err(forbidden("only the project owner or an admin may archive a project"))
            }
        },
    }
}

/// A project as it is listed.
pub struct ProjectSummary {
    pub id: Id,
    pub name: String,
    pub sector: String,
    pub description: Option<String>,
}

/// A stored project, with what decides who sees it.
pub struct ProjectEntry {
    pub owner_user_id: Id,
    /// Whether the caller may read it by a grant, their own or one of a group of theirs.
    pub granted: bool,
    pub archived: bool,
    pub summary: ProjectSummary,
}

/// A project is seen by its owner, by those who may read it and by administrators, until it is
/// archived.
pub open spec fn sees_project(ctx: AuthContext, p: ProjectEntry) -> bool {
    !p.archived && (ctx.admin || ctx.is(p.owner_user_id) || p.granted)
}

pub open spec fn seen_among(ctx: AuthContext, rows: Seq<ProjectEntry>) -> Seq<ProjectSummary>
    decreases rows.len(),
{
    if rows.len() == 0 {
        Seq::empty()
    } else {
        let before = seen_among(ctx, rows.drop_last());
        if sees_project(ctx, rows.last()) {
            before.push(rows.last().summary)
        } else {
            before
        }
    }
}

/// The projects that the caller sees, the newest first.
pub fn list_projects(ctx: &AuthContext, rows: Vec<Dated<ProjectEntry>>) -> (r: Result<
    Vec<ProjectSummary>,
    AppError,
>)
    ensures
        match r {
            Ok(v) => ctx.user_id is Some && v@ == seen_among(*ctx, newest_first(rows@)),
            Err(e) => ctx.user_id is None && e@ == Refusal::Forbidden("a user is required"@),
        },
{
    if ctx.user_id.is_none() {
        return Err(forbidden("a user is required"));
    }
    let rows = by_time(rows);
    let n: usize = rows.len();
    let mut rest = rows;
    let mut out: Vec<ProjectSummary> = Vec::new();
    let mut i: usize = 0;
    assert(rows@.take(0) == Seq::<ProjectEntry>::empty());
    while i < n
        invariant
            n == rows@.len(),
            i <= n,
            rest@ == rows@.skip(i as int),
            out@ == seen_among(*ctx, rows@.take(i as int)),
        decreases n - i,
    {
        let p = rest.remove(0);
        assert(p == rows@[i as int]);
        assert(rest@ =~= rows@.skip(i as int + 1));
        assert(rows@.take(i as int + 1).drop_last() == rows@.take(i as int));
        if !p.archived && (ctx.is_admin() || ctx.is_user(p.owner_user_id) || p.granted) {
            out.push(p.summary);
        }
        i = i + 1;
    }
    assert(rows@.take(rows@.len() as int) == rows@);
    Ok(out)
}

/// Why the caller does not get to a project. `grant_refusal` is what its grants have
/// against it; they are asked only of those who neither own it nor administer the platform.
pub open spec fn project_refusal(
    ctx: AuthContext,
    owner: Option<Id>,
    grant_refusal: Option<Refusal>,
) -> Option<Refusal> {
    match owner {
        None => Some(Refusal::Validation("project not found"@)),
        Some(o) => if ctx.is(o) || ctx.admin {
            None
        } else {
            grant_refusal
        },
    }
}

/// Whether a project's grants decide about the caller.
pub fn grants_decide(ctx: &AuthContext, owner: Option<Id>) -> (r: bool)
    ensures
        r == (owner matches Some(o) && !ctx.is(o) && !ctx.admin),
{
    match owner {
        Some(o) => !ctx.is_user(o) && !ctx.is_admin(),
        None => false,
    }
}

fn require_project(ctx: &AuthContext, owner: Option<Id>, grant_refusal: Option<AppError>) -> (r:
    Result<(), AppError>)
    ensures
        refusal(r) == project_refusal(*ctx, owner, refusal_in(grant_refusal)),
{
    let o = match owner {
        Some(o) => o,
        None => {
            return Err(validation("project not found"));
        },
    };
    if ctx.is_user(o) || ctx.is_admin() {
        return Ok(());
    }
    match grant_refusal {
        Some(e) => Err(e),
        None => Ok(()),
    }
}

/// Why the caller may not change a project.
pub open spec fn project_write_refusal(
    ctx: AuthContext,
    owner: Option<Id>,
    grants: ProjectGrants,
) -> Option<Refusal> {
    project_refusal(ctx, owner, refusal_in(grants.write))
}

/// Why the caller may not read a project.
pub open spec fn project_read_refusal(
    ctx: AuthContext,
    owner: Option<Id>,
    grants: ProjectGrants,
) -> Option<Refusal> {
    project_refusal(ctx, owner, refusal_in(grants.read))
}

/// Writing to a project: its owner, an administrator, or whoever its grants let write.
pub fn require_project_write(ctx: &AuthContext, owner: Option<Id>, grants: ProjectGrants) -> (r:
    Result<(), AppError>)
    ensures
        refusal(r) == project_write_refusal(*ctx, owner, grants),
{
    require_project(ctx, owner, grants.write)
}

/// Reading a project: its owner, an administrator, or whoever its grants let read.
pub fn require_project_read(ctx: &AuthContext, owner: Option<Id>, grants: ProjectGrants) -> (r:
    Result<(), AppError>)
    ensures
        refusal(r) == project_read_refusal(*ctx, owner, grants),
{
    require_project(ctx, owner, grants.read)
}

/// A grant to read is none to write: whoever neither owns a project nor administers the
/// platform changes it where its grants let them write, and in no other case.
pub proof fn reading_is_not_writing(ctx: AuthContext, owner: Id, grants: ProjectGrants)
    requires
        !ctx.is(owner),
        !ctx.admin,
    ensures
        project_write_refusal(ctx, Some(owner), grants) is None <==> grants.write is None,
        project_read_refusal(ctx, Some(owner), grants) is None <==> grants.read is None,
{
}

/// The owner of a project gets to it whatever its grants say.
pub proof fn owners_need_no_grant(ctx: AuthContext, owner: Id, grants: ProjectGrants)
    requires
        ctx.is(owner),
    ensures
        project_read_refusal(ctx, Some(owner), grants) is None,
        project_write_refusal(ctx, Some(owner), grants) is None,
{
}

/// What is listed can be opened, and the other way round: a project that is not archived is seen in
/// the listing exactly where reading it is not refused.
pub proof fn listed_is_readable(ctx: AuthContext, p: ProjectEntry, grants: ProjectGrants)
    requires
        !p.archived,
        p.granted <==> grants.read is None,
    ensures
        sees_project(ctx, p) <==> project_read_refusal(ctx, Some(p.owner_user_id), grants) is None,
{
}

pub struct UploadQuery {
    pub filename: String,
    pub mime: Option<String>,
}

pub struct UploadedDoc {
    pub doc_id: Id,
    pub status: String,
}

/// A document that was taken in, not read yet.
pub fn uploaded(doc_id: Id) -> (r: UploadedDoc)
    ensures
        r.doc_id == doc_id,
        r.status@ == "uploaded"@,
{
    UploadedDoc { doc_id, status: "uploaded".to_owned() }
}

/// A stored knowledge base.
pub struct KnowledgeBaseRow {
    pub id: Id,
    pub origin_project_id: Option<Id>,
    pub name: String,
    pub status: String,
    pub archived: bool,
}

pub struct ProjectKnowledgeEntry {
    pub id: Id,
    pub project_id: Id,
    pub project_name: String,
    pub status: String,
}

/// The knowledge bases that are not archived, in their order.
pub open spec fn bases_in_use(rows: Seq<KnowledgeBaseRow>) -> Seq<KnowledgeBaseRow>
    decreases rows.len(),
{
    if rows.len() == 0 {
        Seq::empty()
    } else {
        let before = bases_in_use(rows.drop_last());
        if !rows.last().archived {
            before.push(rows.last())
        } else {
            before
        }
    }
}

/// A knowledge base in the directory: one that stands alone goes by its own number.
pub open spec fn base_shown(row: KnowledgeBaseRow, r: ProjectKnowledgeEntry) -> bool {
    &&& r.id == row.id
    &&& r.project_id == (match row.origin_project_id {
        Some(p) => p,
        None => row.id,
    })
    &&& r.project_name == row.name
    &&& r.status == row.status
}

/// The directory of knowledge bases is for leads and above.
pub fn list_project_knowledge(ctx: &AuthContext, rows: Vec<KnowledgeBaseRow>) -> (r: Result<
    Vec<ProjectKnowledgeEntry>,
    AppError,
>)
    ensures
        refusal(r) == (if ctx.role.leads() {
            None
        } else {
            Some(
                Refusal::Forbidden("only a power user or admin may list knowledge bases"@),
            )
        }),
        r matches Ok(v) ==> v@.len() == bases_in_use(rows@).len() && forall|i: int|
            0 <= i < v@.len() ==> base_shown(bases_in_use(rows@)[i], #[trigger] v@[i]),
{
    if !is_lead(ctx.role) {
        return Err(forbidden("only a power user or admin may list knowledge bases"));
    }
    let n: usize = rows.len();
    let mut rest = rows;
    let mut out: Vec<ProjectKnowledgeEntry> = Vec::new();
    let mut i: usize = 0;
    assert(rows@.take(0) == Seq::<KnowledgeBaseRow>::empty());
    while i < n
        invariant
            n == rows@.len(),
            i <= n,
            rest@ == rows@.skip(i as int),
            out@.len() == bases_in_use(rows@.take(i as int)).len(),
            forall|k: int|
                0 <= k < out@.len() ==> base_shown(
                    bases_in_use(rows@.take(i as int))[k],
                    #[trigger] out@[k],
                ),
        decreases n - i,
    {
        let row = rest.remove(0);
        assert(row == rows@[i as int]);
        assert(rest@ =~= rows@.skip(i as int + 1));
        assert(rows@.take(i as int + 1).drop_last() == rows@.take(i as int));
        if !row.archived {
            let project_id = match row.origin_project_id {
                Some(p) => p,
                None => row.id,
            };
            out.push(
                ProjectKnowledgeEntry {
                    id: row.id,
                    project_id,
                    project_name: row.name,
                    status: row.status,
                },
            );
        }
        i = i + 1;
    }
    assert(rows@.take(rows@.len() as int) == rows@);
    Ok(out)
}

pub struct KnowledgeSource {
    pub filename: String,
    pub mime: Option<String>,
    pub text: String,
}

pub struct KnowledgeOut {
    pub id: Id,
    pub status: String,
}

pub struct KnowledgeDocOut {
    pub id: Id,
    pub filename: String,
    pub mime: Option<String>,
    pub status: String,
    pub created_at: String,
}

pub struct ProjectDocs {
    pub knowledge: Option<KnowledgeOut>,
    pub documents: Vec<KnowledgeDocOut>,
}

/// A stored document of a knowledge base.
pub struct KnowledgeDocRow {
    pub id: Id,
    pub filename: String,
    pub mime: Option<String>,
    pub status: String,
    pub created_at: Instant,
}

impl Ranked for KnowledgeDocRow {
    /// The newest come first.
    open spec fn rank(self) -> (int, int) {
        (self.created_at as int, 0)
    }

    fn outranks(&self, other: &KnowledgeDocRow) -> (r: bool) {
        self.created_at > other.created_at
    }
}

pub open spec fn doc_shown(row: KnowledgeDocRow, o: KnowledgeDocOut) -> bool {
    &&& o.id == row.id
    &&& o.filename == row.filename
    &&& o.mime == row.mime
    &&& o.status == row.status
    &&& o.created_at@ == shown(row.created_at)
}

/// Documents as they are shown, the newest first.
pub fn documents_out(rows: Vec<KnowledgeDocRow>) -> (r: Vec<KnowledgeDocOut>)
    ensures
        r@.len() == highest_first(rows@).len(),
        forall|i: int| 0 <= i < r@.len() ==> doc_shown(highest_first(rows@)[i], #[trigger] r@[i]),
{
    let rows = rank_list(rows);
    let n: usize = rows.len();
    let mut rest = rows;
    let mut out: Vec<KnowledgeDocOut> = Vec::new();
    let mut i: usize = 0;
    while i < n
        invariant
            n == rows@.len(),
            i <= n,
            rest@ == rows@.skip(i as int),
            out@.len() == i,
            forall|k: int| 0 <= k < i ==> doc_shown(rows@[k], #[trigger] out@[k]),
        decreases n - i,
    {
        let row = rest.remove(0);
        assert(row == rows@[i as int]);
        assert(rest@ =~= rows@.skip(i as int + 1));
        out.push(
            KnowledgeDocOut {
                id: row.id,
                filename: row.filename,
                mime: row.mime,
                status: row.status,
                created_at: show(row.created_at),
            },
        );
        i = i + 1;
    }
    out
}

/// A project's knowledge base and its documents, for whoever reads it; nothing where it has
/// none yet.
pub fn list_documents(
    ctx: &AuthContext,
    owner: Option<Id>,
    grants: ProjectGrants,
    kb: Option<KnowledgeOut>,
    rows: Vec<KnowledgeDocRow>,
) -> (r: Result<ProjectDocs, AppError>)
    ensures
        refusal(r) == project_read_refusal(*ctx, owner, grants),
        r matches Ok(d) ==> {
            &&& d.knowledge == kb
            &&& kb is None ==> d.documents@.len() == 0
            &&& kb is Some ==> {
                let newest = highest_first(rows@);
                &&& d.documents@.len() == newest.len()
                &&& forall|i: int|
                    0 <= i < d.documents@.len() ==> doc_shown(newest[i], #[trigger] d.documents@[i])
            }
        },
{
    match require_project_read(ctx, owner, grants) {
        Ok(_) => {},
        Err(e) => {
            return Err(e);
        },
    }
    match kb {
        None => Ok(ProjectDocs { knowledge: None, documents: Vec::new() }),
        Some(k) => Ok(ProjectDocs { knowledge: Some(k), documents: documents_out(rows) }),
    }
}

/// A document that is to be stored: where, below the directory of documents.
pub struct StoredDocument {
    pub doc_id: Id,
    pub bytes_path: String,
}

/// Takes a document into the knowledge of a project that the caller writes to. `file_refusal`
/// is what is against its kind.
pub fn upload_document(
    ctx: &AuthContext,
    owner: Option<Id>,
    grants: ProjectGrants,
    file_refusal: Option<AppError>,
    doc_id: Id,
    q: &UploadQuery,
) -> (r: Result<StoredDocument, AppError>)
    ensures
        refusal(r) == (if project_write_refusal(*ctx, owner, grants) is Some {
            project_write_refusal(*ctx, owner, grants)
        } else {
            refusal_in(file_refusal)
        }),
        r matches Ok(d) ==> d.doc_id == doc_id && d.bytes_path@ == stored_name(
            doc_id,
            q.filename@,
        ),
{
    match require_project_write(ctx, owner, grants) {
        Ok(_) => {},
        Err(e) => {
            return Err(e);
        },
    }
    match file_refusal {
        Some(e) => Err(e),
        None => Ok(StoredDocument { doc_id, bytes_path: stored_as(doc_id, q.filename.as_str()) }),
    }
}

/// The document that a citation leads to, for those who read its knowledge base.
pub fn knowledge_doc_source<D>(doc: Option<D>, grants: KbGrants) -> (r: Result<
    D,
    AppError,
>)
    ensures
        refusal(r) == (if doc is None {
            Some(Refusal::Validation("knowledge document not found"@))
        } else {
            refusal_in(grants.read)
        }),
        r matches Ok(d) ==> doc == Some(d),
{
    let d = match doc {
        Some(d) => d,
        None => {
            return Err(validation("knowledge document not found"));
        },
    };
    match grants.read {
        Some(e) => Err(e),
        None => Ok(d),
    }
}

/// The caller sees every project that is not archived and that they own or were granted; an
/// administrator sees all that are not archived.
pub proof fn projects_are_seen_by_their_readers(ctx: AuthContext, s: Seq<ProjectEntry>)
    ensures
        seen_among(ctx, s)
            == s.filter(
                |x: ProjectEntry| !x.archived
                    && (ctx.admin || ctx.user_id == Some(x.owner_user_id) || x.granted)
            ).map_values(|x: ProjectEntry| x.summary),
    decreases s.len(),
{
    let p = |x: ProjectEntry| !x.archived
            && (ctx.admin || ctx.user_id == Some(x.owner_user_id) || x.granted);
    selects_last(s, p);
    if s.len() > 0 {
        projects_are_seen_by_their_readers(ctx, s.drop_last());
    }
    assert(seen_among(ctx, s) =~= s.filter(p).map_values(|x: ProjectEntry| x.summary));
}

/// Every knowledge base that is not archived is listed.
pub proof fn bases_in_use_are_listed(s: Seq<KnowledgeBaseRow>)
    ensures
        bases_in_use(s) == s.filter(|x: KnowledgeBaseRow| !x.archived),
        forall|x: KnowledgeBaseRow|
            #[trigger] bases_in_use(s).contains(x) <==> s.contains(x) && (!x.archived),
    decreases s.len(),
{
    let p = |x: KnowledgeBaseRow| !x.archived;
    selects_last(s, p);
    selects_just(s, p);
    if s.len() > 0 {
        bases_in_use_are_listed(s.drop_last());
    }
    assert(bases_in_use(s) =~= s.filter(p));
    assert forall|x: KnowledgeBaseRow|
        #[trigger] bases_in_use(s).contains(x) <==> s.contains(x) && (!x.archived) by {
        assert(s.filter(p).contains(x) <==> s.contains(x) && p(x));
    }
}

/// The documents of a project are listed by when they were added, the latest first.
pub proof fn newer_knowledge_comes_first(rows: Seq<KnowledgeDocRow>, i: int, j: int)
    requires
        0 <= i < j < rows.len(),
    ensures
        highest_first(rows)[i].created_at >= highest_first(rows)[j].created_at,
{
    ordered_lists_descend(rows, i, j);
}

/// A project is reached by its owner, by administrators and by those it is granted to, and listed for
/// them while it is in use.
pub proof fn who_has_projects(
    ctx: AuthContext,
    p: ProjectEntry,
    owner: Option<Id>,
    grants: ProjectGrants,
)
    ensures
        sees_project(ctx, p)
            <==> !p.archived && (ctx.admin || ctx.user_id == Some(p.owner_user_id) || p.granted),
        project_write_refusal(ctx, owner, grants) is None
            <==> (owner is Some && (ctx.user_id == owner || ctx.admin || grants.write is None)),
        project_read_refusal(ctx, owner, grants) is None
            <==> (owner is Some && (ctx.user_id == owner || ctx.admin || grants.read is None)),
{
}

/// A knowledge base is shown as it is stored.
pub proof fn bases_are_shown_whole(row: KnowledgeBaseRow, r: ProjectKnowledgeEntry)
    ensures
        base_shown(row, r) ==> {
            &&& r.id == row.id
            &&& r.project_id == (match row.origin_project_id { Some(p) => p, None => row.id, })
            &&& r.project_name == row.name
            &&& r.status == row.status
        },
{
}

/// A document is shown as it is stored.
pub proof fn documents_are_shown_whole(row: KnowledgeDocRow, o: KnowledgeDocOut)
    ensures
        doc_shown(row, o) ==> {
            &&& o.id == row.id
            &&& o.filename == row.filename
            &&& o.mime == row.mime
            &&& o.status == row.status
            &&& o.created_at@ == shown(row.created_at)
        },
{
}

/// A project is of the general sector unless it is asked to be legal.
pub proof fn projects_are_of_a_sector(asked: Option<Seq<char>>)
    ensures
        sector_of(Some("legal"@)) == "legal"@,
        asked != Some("legal"@) ==> sector_of(asked) == "general"@,
{
}

/// A project that is not there is not found, and on that of somebody else the grants decide.
pub proof fn projects_of_others_are_refused(
    ctx: AuthContext,
    owner: Option<Id>,
    grants: ProjectGrants,
)
    ensures
        project_write_refusal(ctx, None, grants) == Some(Refusal::Validation("project not found"@)),
        project_read_refusal(ctx, None, grants) == Some(Refusal::Validation("project not found"@)),
        owner is Some && ctx.user_id != owner && !ctx.admin
            ==> project_write_refusal(ctx, owner, grants) == refusal_in(grants.write),
        owner is Some && ctx.user_id != owner && !ctx.admin
            ==> project_read_refusal(ctx, owner, grants) == refusal_in(grants.read),
{
}

} // verus!
