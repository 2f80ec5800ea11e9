//! Documents of a project: their versions, and the changes that are proposed to them.

use vstd::prelude::*;
use vstd::string::*;

use crate::lists::{selects_just, selects_last};
use crate::error::{conflict, not_found, refusal, validation, AppError, Refusal};
use crate::grants::{refusal_in, ProjectGrants};
use crate::http::messaging::among;
use crate::http::projects::{
    project_read_refusal, project_write_refusal, require_project_read, require_project_write,
};
use crate::ids::{id_text, id_to_text};
use crate::json::{
    empty_object,
    id_value,
    json_in,
    member_at,
    put,
    strings_value,
    text_list,
    text_value,
    Json,
};
use crate::order::{
    by_number,
    by_time,
    highest_first,
    lowest_first,
    newest_first,
    ordered_lists_descend,
    rank_list,
    Dated,
    Numbered,
    Ranked,
};
use crate::principal::{AuthContext, Id};
use crate::text::{
    as_text, chars_of, ends, ends_with, joined, joined3, listed, lowercase, opt_str, same, texts,
};
use crate::trail::{entry_by, note, record_by, AuditEvent};

verus! {

/// What the versions of documents are served as.
pub const DOCX_MIME: &'static str = "application/vnd.openxmlformats-officedocument.wordprocessingml.document";

/// A document that its source hides from the caller is not there, and is not said to be.
pub fn ensure_document_access(denied: bool) -> (r: Result<(), AppError>)
    ensures
        refusal(r) == (if denied {
            Some(Refusal::NotFound("document not found"@))
        } else {
            None
        }),
{
    if denied {
        Err(not_found("document not found"))
    } else {
        Ok(())
    }
}

/// What there is to know of a document before the caller gets to it.
pub struct DocumentFacts {
    /// Its project, or why it has none.
    pub project: Result<Id, AppError>,
    /// The owner of that project, where it is there and not archived.
    pub project_owner: Option<Id>,
    /// What the grants of that project say about the caller.
    pub grants: ProjectGrants,
    /// Whether the source of the document hides it from the caller.
    pub denied: bool,
}

/// Why the caller does not get to a document, where `at_project` is what is against getting to
/// its project: that comes first, so that a hidden document is not told from a missing one.
pub open spec fn document_refusal(f: DocumentFacts, at_project: Option<Refusal>) -> Option<Refusal> {
    if refusal(f.project) is Some {
        refusal(f.project)
    } else if at_project is Some {
        at_project
    } else if f.denied {
        Some(Refusal::NotFound("document not found"@))
    } else {
        None
    }
}

/// Why the caller may not change a document.
pub open spec fn edit_refusal(ctx: AuthContext, f: DocumentFacts) -> Option<Refusal> {
    document_refusal(f, project_write_refusal(ctx, f.project_owner, f.grants))
}

/// Why the caller may not read a document.
pub open spec fn read_refusal(ctx: AuthContext, f: DocumentFacts) -> Option<Refusal> {
    document_refusal(f, project_read_refusal(ctx, f.project_owner, f.grants))
}

/// Changing a document is for those who write to its project.
pub fn require_document_edit(ctx: &AuthContext, f: DocumentFacts) -> (r: Result<Id, AppError>)
    ensures
        refusal(r) == edit_refusal(*ctx, f),
        r matches Ok(id) ==> f.project == Ok::<Id, AppError>(id),
{
    let project = match f.project {
        Ok(id) => id,
        Err(e) => {
            return Err(e);
        },
    };
    match require_project_write(ctx, f.project_owner, f.grants) {
        Ok(_) => {},
        Err(e) => {
            return Err(e);
        },
    }
    match ensure_document_access(f.denied) {
        Ok(_) => Ok(project),
        Err(e) => Err(e),
    }
}

/// Reading a document is for those who read its project.
pub fn require_document_read(ctx: &AuthContext, f: DocumentFacts) -> (r: Result<Id, AppError>)
    ensures
        refusal(r) == read_refusal(*ctx, f),
        r matches Ok(id) ==> f.project == Ok::<Id, AppError>(id),
{
    let project = match f.project {
        Ok(id) => id,
        Err(e) => {
            return Err(e);
        },
    };
    match require_project_read(ctx, f.project_owner, f.grants) {
        Ok(_) => {},
        Err(e) => {
            return Err(e);
        },
    }
    match ensure_document_access(f.denied) {
        Ok(_) => Ok(project),
        Err(e) => Err(e),
    }
}

/// A hidden document gives nothing away, not even to whoever owns the project or administers
/// the platform.
pub proof fn hidden_documents_are_not_found(ctx: AuthContext, f: DocumentFacts)
    requires
        f.denied,
        f.project is Ok,
    ensures
        project_read_refusal(ctx, f.project_owner, f.grants) is None ==> read_refusal(ctx, f)
            == Some(Refusal::NotFound("document not found"@)),
        project_write_refusal(ctx, f.project_owner, f.grants) is None ==> edit_refusal(ctx, f)
            == Some(Refusal::NotFound("document not found"@)),
{
}

pub struct UploadQuery {
    pub filename: String,
    pub mime: Option<String>,
}

pub struct UploadedDoc {
    pub document_id: Id,
    pub version_id: Id,
}

pub open spec fn upload_refusal(
    ctx: AuthContext,
    owner: Option<Id>,
    grants: ProjectGrants,
    rate_refusal: Option<Refusal>,
    file_refusal: Option<Refusal>,
) -> Option<Refusal> {
    if project_write_refusal(ctx, owner, grants) is Some {
        project_write_refusal(ctx, owner, grants)
    } else if rate_refusal is Some {
        rate_refusal
    } else {
        file_refusal
    }
}

/// A document is taken from those who write to the project, not too many at once, and of a
/// kind that can be read.
pub fn upload_workspace_document(
    ctx: &AuthContext,
    owner: Option<Id>,
    grants: ProjectGrants,
    rate_refusal: Option<AppError>,
    file_refusal: Option<AppError>,
) -> (r: Result<(), AppError>)
    ensures
        refusal(r) == upload_refusal(
            *ctx,
            owner,
            grants,
            refusal_in(rate_refusal),
            refusal_in(file_refusal),
        ),
{
    match require_project_write(ctx, owner, grants) {
        Ok(_) => {},
        Err(e) => {
            return Err(e);
        },
    }
    match rate_refusal {
        Some(e) => {
            return Err(e);
        },
        None => {},
    }
    match file_refusal {
        Some(e) => Err(e),
        None => Ok(()),
    }
}

pub struct DocSummary {
    pub id: Id,
    pub original_filename: String,
    pub mime: Option<String>,
    pub current_version_id: Option<Id>,
}

/// The documents that are allowed, in their order.
pub open spec fn allowed_rows(rows: Seq<DocSummary>, allowed: Seq<Id>) -> Seq<DocSummary>
    decreases rows.len(),
{
    if rows.len() == 0 {
        Seq::empty()
    } else {
        let before = allowed_rows(rows.drop_last(), allowed);
        if allowed.contains(rows.last().id) {
            before.push(rows.last())
        } else {
            before
        }
    }
}

/// The documents of a project, for whoever reads it, the newest first. `allowed` are those that their sources
/// let the caller see.
pub fn list_workspace_documents(
    ctx: &AuthContext,
    owner: Option<Id>,
    grants: ProjectGrants,
    rows: Vec<Dated<DocSummary>>,
    allowed: &Vec<Id>,
) -> (r: Result<Vec<DocSummary>, AppError>)
    ensures
        refusal(r) == project_read_refusal(*ctx, owner, grants),
        r matches Ok(v) ==> v@ == allowed_rows(newest_first(rows@), allowed@),
{
    match require_project_read(ctx, owner, grants) {
        Ok(_) => {},
        Err(e) => {
            return Err(e);
        },
    }
    let rows = by_time(rows);
    let n: usize = rows.len();
    let mut rest = rows;
    let mut out: Vec<DocSummary> = Vec::new();
    let mut i: usize = 0;
    assert(rows@.take(0) == Seq::<DocSummary>::empty());
    while i < n
        invariant
            n == rows@.len(),
            i <= n,
            rest@ == rows@.skip(i as int),
            out@ == allowed_rows(rows@.take(i as int), allowed@),
        decreases n - i,
    {
        let row = rest.remove(0);
        assert(row == rows@[i as int]);
        assert(rest@ =~= rows@.skip(i as int + 1));
        assert(rows@.take(i as int + 1).drop_last() == rows@.take(i as int));
        if among(allowed, row.id) {
            out.push(row);
        }
        i = i + 1;
    }
    assert(rows@.take(n as int) == rows@);
    Ok(out)
}

/// No document is listed that the caller may not see, and every one that the caller may see is.
pub proof fn listing_is_what_is_allowed(rows: Seq<DocSummary>, allowed: Seq<Id>, d: DocSummary)
    ensures
        allowed_rows(rows, allowed).contains(d) <==> rows.contains(d) && allowed.contains(d.id),
    decreases rows.len(),
{
    let listed = allowed_rows(rows, allowed);
    if rows.len() > 0 {
        let before = allowed_rows(rows.drop_last(), allowed);
        listing_is_what_is_allowed(rows.drop_last(), allowed, d);
        if listed.contains(d) {
            let i = listed.index_of(d);
            if i < before.len() {
                assert(before[i] == d);
                assert(before.contains(d));
                let k = rows.drop_last().index_of(d);
                assert(rows[k] == d);
            } else {
                assert(d == rows.last());
                assert(rows[rows.len() - 1] == d);
            }
        }
        if rows.contains(d) && allowed.contains(d.id) {
            let k = rows.index_of(d);
            if k < rows.len() - 1 {
                assert(rows.drop_last()[k] == d);
                assert(rows.drop_last().contains(d));
                let i = before.index_of(d);
                assert(listed[i] == d);
            } else {
                assert(listed[listed.len() - 1] == d);
            }
        }
    }
}

/// A stored version of a document.
pub struct VersionRow {
    pub id: Id,
    pub version_number: i32,
    pub source: String,
    pub byte_size: Option<i64>,
    pub pdf_path: Option<String>,
}

impl Ranked for VersionRow {
    /// The lower its number, the higher a version ranks.
    open spec fn rank(self) -> (int, int) {
        (-(self.version_number as int), 0)
    }

    fn outranks(&self, other: &VersionRow) -> (r: bool) {
        self.version_number < other.version_number
    }
}

pub struct VersionOut {
    pub id: Id,
    pub version_number: i32,
    pub source: String,
    pub byte_size: Option<i64>,
    pub has_pdf: bool,
}

pub struct DocDetail {
    pub document: DocSummary,
    pub versions: Vec<VersionOut>,
    pub pending_edits: i64,
}

pub open spec fn version_shown(v: VersionRow, o: VersionOut) -> bool {
    &&& o.id == v.id
    &&& o.version_number == v.version_number
    &&& o.source == v.source
    &&& o.byte_size == v.byte_size
    &&& o.has_pdf == (v.pdf_path is Some)
}

fn versions_out(rows: Vec<VersionRow>) -> (r: Vec<VersionOut>)
    ensures
        r@.len() == rows@.len(),
        forall|i: int| 0 <= i < r@.len() ==> version_shown(rows@[i], #[trigger] r@[i]),
{
    let n: usize = rows.len();
    let mut rest = rows;
    let mut out: Vec<VersionOut> = Vec::new();
    let mut i: usize = 0;
    while i < n
        invariant
            n == rows@.len(),
            i <= n,
            rest@ == rows@.skip(i as int),
            out@.len() == i,
            forall|k: int| 0 <= k < i ==> version_shown(rows@[k], #[trigger] out@[k]),
        decreases n - i,
    {
        let v = rest.remove(0);
        assert(v == rows@[i as int]);
        assert(rest@ =~= rows@.skip(i as int + 1));
        out.push(
            VersionOut {
                id: v.id,
                version_number: v.version_number,
                source: v.source,
                byte_size: v.byte_size,
                has_pdf: v.pdf_path.is_some(),
            },
        );
        i = i + 1;
    }
    out
}

/// A document with its versions in the order of their numbers, and how many changes to it are
/// pending, for whoever reads it.
pub fn get_document(
    ctx: &AuthContext,
    f: DocumentFacts,
    doc: Option<DocSummary>,
    versions: Vec<VersionRow>,
    pending: i64,
) -> (r: Result<DocDetail, AppError>)
    ensures
        refusal(r) == (if read_refusal(*ctx, f) is Some {
            read_refusal(*ctx, f)
        } else if doc is None {
            Some(Refusal::Validation("document not found"@))
        } else {
            None
        }),
        r matches Ok(d) ==> {
            let ordered = highest_first(versions@);
            &&& doc == Some(d.document)
            &&& d.versions@.len() == ordered.len()
            &&& forall|i: int|
                0 <= i < d.versions@.len() ==> version_shown(ordered[i], #[trigger] d.versions@[i])
            &&& d.pending_edits == pending
        },
{
    match require_document_read(ctx, f) {
        Ok(_) => {},
        Err(e) => {
            return Err(e);
        },
    }
    match doc {
        Some(document) => Ok(
            DocDetail {
                document,
                versions: versions_out(rank_list(versions)),
                pending_edits: pending,
            },
        ),
        None => Err(validation("document not found")),
    }
}

/// Where a version lies.
pub fn version_bytes_path(stored: Option<String>) -> (r: Result<String, AppError>)
    ensures
        match (r, stored) {
            (Ok(p), Some(s)) => p == s,
            (Err(e), None) => e@ == Refusal::Validation("version not found"@),
            _ => false,
        },
{
    match stored {
        Some(p) => Ok(p),
        None => Err(validation("version not found")),
    }
}

/// How a version is shown as a PDF.
#[derive(Clone, Copy, Debug, PartialEq, Eq, Structural)]
pub enum PdfSource {
    /// It is one.
    Stored,
    /// It was made into one before, and that is still there.
    Cached,
    /// It has to be made into one.
    Render,
}

/// Decides how a version is shown as a PDF. `path` is where it lies, and `cached` whether it
/// was made into one before and that is still there.
pub fn render_version_pdf(path: &str, cached: bool) -> (r: PdfSource)
    ensures
        r == (if ends_with(lowercase(path@), ".pdf"@) {
            PdfSource::Stored
        } else if cached {
            PdfSource::Cached
        } else {
            PdfSource::Render
        }),
{
    let small = path.to_lowercase();
    if ends(small.as_str(), ".pdf") {
        PdfSource::Stored
    } else if cached {
        PdfSource::Cached
    } else {
        PdfSource::Render
    }
}

/// What a version is called as a PDF.
pub fn pdf_name(version_id: Id) -> (r: String)
    ensures
        r@ == id_text(version_id) + ".pdf"@,
{
    let id = id_to_text(version_id);
    joined(id.as_str(), ".pdf")
}

/// A document under a legal hold is not deleted.
pub fn delete_document(ctx: &AuthContext, f: DocumentFacts, held: bool) -> (r: Result<Id, AppError>)
    ensures
        refusal(r) == (if edit_refusal(*ctx, f) is Some {
            edit_refusal(*ctx, f)
        } else if held {
            Some(Refusal::Conflict("document is under legal hold"@))
        } else {
            None
        }),
        r matches Ok(id) ==> f.project == Ok::<Id, AppError>(id),
{
    let project = match require_document_edit(ctx, f) {
        Ok(id) => id,
        Err(e) => {
            return Err(e);
        },
    };
    if held {
        return Err(conflict("document is under legal hold"));
    }
    Ok(project)
}

pub struct EditsQuery {
    pub status: Option<String>,
}

pub struct EditOut {
    pub id: Id,
    pub w_id: String,
    pub author: String,
    pub find_text: Option<String>,
    pub replace_text: Option<String>,
    pub status: String,
}

/// The changes that are asked for: the pending ones where nothing is said.
pub open spec fn status_asked(q: EditsQuery) -> Seq<char> {
    match q.status {
        Some(s) => s@,
        None => "pending"@,
    }
}

/// The changes of a status, in their order; all of them where all are asked for.
pub open spec fn edits_with(rows: Seq<EditOut>, status: Seq<char>) -> Seq<EditOut>
    decreases rows.len(),
{
    if rows.len() == 0 {
        Seq::empty()
    } else {
        let before = edits_with(rows.drop_last(), status);
        if status == "all"@ || rows.last().status@ == status {
            before.push(rows.last())
        } else {
            before
        }
    }
}

/// The changes to a document that are asked for, for whoever reads it, the oldest first. Each
/// comes with when it was made.
pub fn list_edits(ctx: &AuthContext, f: DocumentFacts, rows: Vec<Numbered<EditOut>>, q: &EditsQuery) -> (r:
    Result<Vec<EditOut>, AppError>)
    ensures
        refusal(r) == read_refusal(*ctx, f),
        r matches Ok(v) ==> v@ == edits_with(lowest_first(rows@), status_asked(*q)),
{
    match require_document_read(ctx, f) {
        Ok(_) => {},
        Err(e) => {
            return Err(e);
        },
    }
    let status = match as_text(&q.status) {
        Some(s) => s,
        None => "pending",
    };
    let rows = by_number(rows);
    let n: usize = rows.len();
    let mut rest = rows;
    let mut out: Vec<EditOut> = Vec::new();
    let mut i: usize = 0;
    assert(rows@.take(0) == Seq::<EditOut>::empty());
    while i < n
        invariant
            n == rows@.len(),
            i <= n,
            rest@ == rows@.skip(i as int),
            out@ == edits_with(rows@.take(i as int), status@),
        decreases n - i,
    {
        let row = rest.remove(0);
        assert(row == rows@[i as int]);
        assert(rest@ =~= rows@.skip(i as int + 1));
        assert(rows@.take(i as int + 1).drop_last() == rows@.take(i as int));
        if same(status, "all") || same(row.status.as_str(), status) {
            out.push(row);
        }
        i = i + 1;
    }
    assert(rows@.take(n as int) == rows@);
    Ok(out)
}

pub struct ResolvedOut {
    pub version_id: Id,
    pub version_number: i32,
}

/// What deciding about changes is recorded as: the source of the new version, the status of the
/// changes, and the event.
pub struct Resolution {
    pub source: &'static str,
    pub status: &'static str,
    pub event: &'static str,
}

/// Changes are accepted, or else they are rejected.
pub open spec fn resolution_for(action: Seq<char>, r: Resolution) -> bool {
    if action == "accept"@ {
        &&& r.source@ == "user_accept"@
        &&& r.status@ == "accepted"@
        &&& r.event@ == "document.edit.accepted"@
    } else {
        &&& r.source@ == "user_reject"@
        &&& r.status@ == "rejected"@
        &&& r.event@ == "document.edit.rejected"@
    }
}

fn resolution(action: &str) -> (r: Resolution)
    ensures
        resolution_for(action@, r),
{
    if same(action, "accept") {
        Resolution {
            source: "user_accept",
            status: "accepted",
            event: "document.edit.accepted",
        }
    } else {
        Resolution {
            source: "user_reject",
            status: "rejected",
            event: "document.edit.rejected",
        }
    }
}

/// Decides about one change, which has to be pending. The new version is made from `base`, the
/// version that was current.
pub fn resolve_one(
    ctx: &AuthContext,
    f: DocumentFacts,
    pending: bool,
    base: Id,
    action: &str,
) -> (r: Result<(Id, Resolution), AppError>)
    ensures
        refusal(r) == (if edit_refusal(*ctx, f) is Some {
            edit_refusal(*ctx, f)
        } else if !pending {
            Some(Refusal::Validation("no pending change with that id"@))
        } else {
            None
        }),
        r matches Ok(x) ==> x.0 == base && resolution_for(action@, x.1),
{
    match require_document_edit(ctx, f) {
        Ok(_) => {},
        Err(e) => {
            return Err(e);
        },
    }
    if !pending {
        return Err(validation("no pending change with that id"));
    }
    Ok((base, resolution(action)))
}

pub struct ResolveAllQuery {
    pub author: Option<String>,
}

/// Deciding about many changes at once: what is done with them, and whose they are.
pub struct ResolveAll {
    /// The version that was current, which the new one is made from.
    pub base: Id,
    /// The changes of this author alone, where there is one.
    pub author: Option<String>,
    pub resolution: Resolution,
}

/// Decides about all changes, or those of one author where one is asked for.
pub fn resolve_all(
    ctx: &AuthContext,
    f: DocumentFacts,
    base: Id,
    action: &str,
    q: ResolveAllQuery,
) -> (r: Result<ResolveAll, AppError>)
    ensures
        refusal(r) == edit_refusal(*ctx, f),
        r matches Ok(x) ==> {
            &&& x.base == base
            &&& x.author == q.author
            &&& resolution_for(action@, x.resolution)
        },
{
    match require_document_edit(ctx, f) {
        Ok(_) => Ok(ResolveAll { base, author: q.author, resolution: resolution(action) }),
        Err(e) => Err(e),
    }
}

/// A change after others were decided about: one of those, where it was pending, has the
/// status they get, and any other is as it was.
pub open spec fn settled(row: EditOut, resolved: Seq<Seq<char>>, status: Seq<char>, o: EditOut) -> bool {
    &&& o.id == row.id
    &&& o.w_id == row.w_id
    &&& o.author == row.author
    &&& o.find_text == row.find_text
    &&& o.replace_text == row.replace_text
    &&& o.status@ == (if row.status@ == "pending"@ && resolved.contains(row.w_id@) {
        status
    } else {
        row.status@
    })
}

/// The changes to a document after those in `resolved` were decided about. Those are what the
/// keeper of the document found: all of its changes, or those of the author it was asked for.
pub fn settle_edits(rows: Vec<EditOut>, resolved: &Vec<String>, decision: &Resolution) -> (r: Vec<
    EditOut,
>)
    ensures
        r@.len() == rows@.len(),
        forall|i: int|
            0 <= i < r@.len() ==> settled(
                rows@[i],
                texts(resolved@),
                decision.status@,
                #[trigger] r@[i],
            ),
{
    let n: usize = rows.len();
    let mut rest = rows;
    let mut out: Vec<EditOut> = Vec::new();
    let mut i: usize = 0;
    while i < n
        invariant
            n == rows@.len(),
            i <= n,
            rest@ == rows@.skip(i as int),
            out@.len() == i,
            forall|k: int|
                0 <= k < i ==> settled(
                    rows@[k],
                    texts(resolved@),
                    decision.status@,
                    #[trigger] out@[k],
                ),
        decreases n - i,
    {
        let row = rest.remove(0);
        assert(row == rows@[i as int]);
        assert(rest@ =~= rows@.skip(i as int + 1));
        let hit = same(row.status.as_str(), "pending") && listed(resolved, row.w_id.as_str());
        let status = if hit {
            decision.status.to_owned()
        } else {
            row.status
        };
        out.push(
            EditOut {
                id: row.id,
                w_id: row.w_id,
                author: row.author,
                find_text: row.find_text,
                replace_text: row.replace_text,
                status,
            },
        );
        i = i + 1;
    }
    out
}

/// What was decided about is not decided about again: settling changes a second time leaves
/// every status as it was.
pub proof fn decisions_stand(
    row: EditOut,
    once: EditOut,
    twice: EditOut,
    resolved: Seq<Seq<char>>,
    again: Seq<Seq<char>>,
    status: Seq<char>,
    other: Seq<char>,
)
    requires
        status != "pending"@,
        resolved.contains(row.w_id@),
        settled(row, resolved, status, once),
        settled(once, again, other, twice),
    ensures
        twice.status@ == once.status@,
{
}

/// What a document is called while changes to it are decided about. `extension` is that of the
/// version they are in.
pub fn resolved_tmp_name(id: Id, extension: Option<&str>) -> (r: String)
    ensures
        r@ == "pai_resolve_"@ + id_text(id) + "."@ + (match extension {
            Some(e) => e@,
            None => "docx"@,
        }),
{
    let ext = match extension {
        Some(e) => e,
        None => "docx",
    };
    let name = id_to_text(id);
    let mut out = joined3("pai_resolve_", name.as_str(), ".");
    out.append(ext);
    out
}

/// A text without its quotes.
pub open spec fn without_quotes(s: Seq<char>) -> Seq<char> {
    s.filter(|c: char| c != '"')
}

/// The disposition header of a downloaded version.
pub fn bytes_response(filename: &str) -> (r: String)
    ensures
        r@ == "attachment; filename=\""@ + without_quotes(filename@) + "\""@,
{
    let v = chars_of(filename);
    let keep: Ghost<spec_fn(char) -> bool> = Ghost(|c: char| c != '"');
    let mut name = String::new();
    let mut i: usize = 0;
    proof {
        reveal(Seq::filter);
        assert(v@.take(0).filter(keep@) =~= Seq::<char>::empty());
    }
    while i < v.len()
        invariant
            i <= v@.len(),
            keep@ == (|c: char| c != '"'),
            name@ == v@.take(i as int).filter(keep@),
        decreases v@.len() - i,
    {
        proof {
            reveal(Seq::filter);
            assert(v@.take(i as int + 1).drop_last() =~= v@.take(i as int));
            assert(v@.take(i as int + 1).last() == v@[i as int]);
        }
        if v[i] != '"' {
            name.push(v[i]);
        }
        i = i + 1;
    }
    assert(v@.take(v@.len() as int) =~= v@);
    joined3("attachment; filename=\"", name.as_str(), "\"")
}

/// The name of a downloaded document cannot end the quoted name in its header.
pub proof fn download_names_hold_no_quotes(filename: Seq<char>, i: int)
    requires
        0 <= i < without_quotes(filename).len(),
    ensures
        without_quotes(filename)[i] != '"',
{
    filename.lemma_filter_pred(|c: char| c != '"', i);
}

/// What is written down of a document.
pub fn audit_doc(ctx: &AuthContext, action: &str, doc_id: Id, payload: Option<serde_json::Value>) -> (e:
    AuditEvent)
    ensures
        e@ == (match payload {
            Some(v) => entry_by(*ctx, action@, "document"@, doc_id).noting(json_in(v)),
            None => entry_by(*ctx, action@, "document"@, doc_id),
        }),
{
    let e = record_by(ctx, action, "document", doc_id);
    match payload {
        Some(v) => note(e, v),
        None => e,
    }
}

/// What is noted of a version that was read: which one, and in what form where it was not the
/// stored one.
pub open spec fn accessed_doc(version_id: Id, form: Option<Seq<char>>) -> Json {
    let version = Map::empty().insert("version_id"@, Json::Text(id_text(version_id)));
    Json::Object(
        match form {
            Some(f) => version.insert("as"@, Json::Text(f)),
            None => version,
        },
    )
}

/// The entry of a version that was read; `form` is `"text"` or `"pdf"` where it was rendered.
pub fn accessed_event(ctx: &AuthContext, doc_id: Id, version_id: Id, form: Option<&str>) -> (e:
    AuditEvent)
    ensures
        e@ == entry_by(*ctx, "document.accessed"@, "document"@, doc_id).noting(
            accessed_doc(version_id, opt_str(form)),
        ),
{
    let mut doc = empty_object();
    put(&mut doc, "version_id", id_value(version_id));
    match form {
        Some(f) => {
            put(&mut doc, "as", text_value(f));
        },
        None => {},
    }
    audit_doc(ctx, "document.accessed", doc_id, Some(doc))
}

pub open spec fn blocked_doc() -> Json {
    Json::Object(Map::empty().insert("reason"@, Json::Text("legal_hold"@)))
}

/// The entry of an attempt to delete what is held.
pub fn blocked_event(ctx: &AuthContext, doc_id: Id) -> (e: AuditEvent)
    ensures
        e@ == entry_by(*ctx, "document.delete.blocked"@, "document"@, doc_id).noting(blocked_doc()),
{
    let mut doc = empty_object();
    put(&mut doc, "reason", text_value("legal_hold"));
    audit_doc(ctx, "document.delete.blocked", doc_id, Some(doc))
}

pub open spec fn resolved_doc(w_id: Seq<char>, version_id: Id) -> Json {
    Json::Object(
        Map::empty().insert("w_id"@, Json::Text(w_id)).insert(
            "version_id"@,
            Json::Text(id_text(version_id)),
        ),
    )
}

/// The entry of one change that was settled.
pub fn resolved_event(ctx: &AuthContext, doc_id: Id, r: &Resolution, w_id: &str, version_id: Id) -> (e:
    AuditEvent)
    ensures
        e@ == entry_by(*ctx, r.event@, "document"@, doc_id).noting(resolved_doc(w_id@, version_id)),
{
    let mut doc = empty_object();
    put(&mut doc, "w_id", text_value(w_id));
    put(&mut doc, "version_id", id_value(version_id));
    audit_doc(ctx, r.event, doc_id, Some(doc))
}

pub open spec fn resolved_all_doc(resolved: Seq<Seq<char>>, version_id: Id) -> Json {
    Json::Object(
        Map::empty().insert("resolved"@, text_list(resolved)).insert(
            "version_id"@,
            Json::Text(id_text(version_id)),
        ),
    )
}

/// The entry of all the changes that were settled at once.
pub fn resolved_all_event(
    ctx: &AuthContext,
    doc_id: Id,
    r: &Resolution,
    resolved: &Vec<String>,
    version_id: Id,
) -> (e: AuditEvent)
    ensures
        e@ == entry_by(*ctx, r.event@, "document"@, doc_id).noting(
            resolved_all_doc(texts(resolved@), version_id),
        ),
{
    let mut doc = empty_object();
    put(&mut doc, "resolved", strings_value(resolved));
    put(&mut doc, "version_id", id_value(version_id));
    audit_doc(ctx, r.event, doc_id, Some(doc))
}

/// Every document that its source lets the caller see is listed, and no other, in their order.
pub proof fn allowed_documents_are_listed(allowed: Seq<Id>, s: Seq<DocSummary>)
    ensures
        allowed_rows(s, allowed) == s.filter(|x: DocSummary| allowed.contains(x.id)),
        forall|x: DocSummary|
            #[trigger] allowed_rows(s, allowed).contains(x)
                <==> s.contains(x) && (allowed.contains(x.id)),
    decreases s.len(),
{
    let p = |x: DocSummary| allowed.contains(x.id);
    selects_last(s, p);
    selects_just(s, p);
    if s.len() > 0 {
        allowed_documents_are_listed(allowed, s.drop_last());
    }
    assert(allowed_rows(s, allowed) =~= s.filter(p));
    assert forall|x: DocSummary|
        #[trigger] allowed_rows(s, allowed).contains(x)
            <==> s.contains(x) && (allowed.contains(x.id)) by {
        assert(s.filter(p).contains(x) <==> s.contains(x) && p(x));
    }
}

/// Every change of the status that is asked for is listed, and all of them where all are.
pub proof fn changes_are_listed_by_status(status: Seq<char>, s: Seq<EditOut>)
    ensures
        edits_with(s, status) == s.filter(|x: EditOut| status == "all"@ || x.status@ == status),
        forall|x: EditOut|
            #[trigger] edits_with(s, status).contains(x)
                <==> s.contains(x) && (status == "all"@ || x.status@ == status),
    decreases s.len(),
{
    let p = |x: EditOut| status == "all"@ || x.status@ == status;
    selects_last(s, p);
    selects_just(s, p);
    if s.len() > 0 {
        changes_are_listed_by_status(status, s.drop_last());
    }
    assert(edits_with(s, status) =~= s.filter(p));
    assert forall|x: EditOut|
        #[trigger] edits_with(s, status).contains(x)
            <==> s.contains(x) && (status == "all"@ || x.status@ == status) by {
        assert(s.filter(p).contains(x) <==> s.contains(x) && p(x));
    }
}

/// The versions of a document are listed by their number, the lowest first.
pub proof fn earlier_versions_come_first(rows: Seq<VersionRow>, i: int, j: int)
    requires
        0 <= i < j < rows.len(),
    ensures
        highest_first(rows)[i].version_number <= highest_first(rows)[j].version_number,
{
    ordered_lists_descend(rows, i, j);
}

/// A document is read by those who read its project and edited by those who write in it, unless it
/// is kept from them. One is added by those who write in the project, within the rate, where the file
/// can be had.
pub proof fn who_has_documents(
    ctx: AuthContext,
    f: DocumentFacts,
    owner: Option<Id>,
    grants: ProjectGrants,
    rate_refusal: Option<Refusal>,
    file_refusal: Option<Refusal>,
)
    ensures
        edit_refusal(ctx, f) is None
            <==> f.project is Ok
                && (
                    f.project_owner is Some
                        && (ctx.user_id == f.project_owner || ctx.admin || f.grants.write is None)
                )
                && !f.denied,
        read_refusal(ctx, f) is None
            <==> f.project is Ok
                && (
                    f.project_owner is Some
                        && (ctx.user_id == f.project_owner || ctx.admin || f.grants.read is None)
                )
                && !f.denied,
        upload_refusal(ctx, owner, grants, rate_refusal, file_refusal) is None
            <==> (owner is Some && (ctx.user_id == owner || ctx.admin || grants.write is None))
                && rate_refusal is None
                && file_refusal is None,
{
}

/// What stands in `blocked_doc` under each name; there is no other name in it.
pub proof fn what_blocked_doc_holds()
    ensures
        member_at(blocked_doc(), "reason"@) == Some(Json::Text("legal_hold"@)),
        forall|name: Seq<char>|
            #[trigger] member_at(blocked_doc(), name) is Some ==> name == "reason"@,
{
}

/// What stands in `resolved_doc` under each name; there is no other name in it.
pub proof fn what_resolved_doc_holds(w_id: Seq<char>, version_id: Id)
    ensures
        member_at(resolved_doc(w_id, version_id), "w_id"@) == Some(Json::Text(w_id)),
        member_at(resolved_doc(w_id, version_id), "version_id"@)
            == Some(Json::Text(id_text(version_id))),
        forall|name: Seq<char>|
            #[trigger] member_at(resolved_doc(w_id, version_id), name) is Some
                ==> name == "w_id"@ || name == "version_id"@,
{
    reveal_strlit("w_id");
    reveal_strlit("version_id");
    assert("w_id"@.len() != "version_id"@.len());
}

/// What stands in `resolved_all_doc` under each name; there is no other name in it.
pub proof fn what_resolved_all_doc_holds(resolved: Seq<Seq<char>>, version_id: Id)
    ensures
        member_at(resolved_all_doc(resolved, version_id), "resolved"@) == Some(text_list(resolved)),
        member_at(resolved_all_doc(resolved, version_id), "version_id"@)
            == Some(Json::Text(id_text(version_id))),
        forall|name: Seq<char>|
            #[trigger] member_at(resolved_all_doc(resolved, version_id), name) is Some
                ==> name == "resolved"@ || name == "version_id"@,
{
    reveal_strlit("resolved");
    reveal_strlit("version_id");
    assert("resolved"@.len() != "version_id"@.len());
}

/// A version of a document is shown as it is stored.
pub proof fn versions_are_shown_whole(v: VersionRow, o: VersionOut)
    ensures
        version_shown(v, o) ==> {
            &&& o.id == v.id
            &&& o.version_number == v.version_number
            &&& o.source == v.source
            &&& o.byte_size == v.byte_size
            &&& o.has_pdf == (v.pdf_path is Some)
        },
{
}

/// Accepting an edit and rejecting it are told apart in all that is stored of them. What is asked for,
/// where nothing is named, are the edits that are pending.
pub proof fn edits_are_resolved_one_way(
    q: EditsQuery,
    action: Seq<char>,
    r: Resolution,
    version_id: Id,
    form: Option<Seq<char>>,
)
    ensures
        q.status matches Some(s) ==> status_asked(q) == s@,
        q.status is None ==> status_asked(q) == "pending"@,
        resolution_for(action, r) && action == "accept"@
            ==> r.source@ == "user_accept"@
                && r.status@ == "accepted"@
                && r.event@ == "document.edit.accepted"@,
        resolution_for(action, r) && action != "accept"@
            ==> r.source@ == "user_reject"@
                && r.status@ == "rejected"@
                && r.event@ == "document.edit.rejected"@,
        member_at(accessed_doc(version_id, form), "version_id"@)
            == Some(Json::Text(id_text(version_id))),
        member_at(accessed_doc(version_id, form), "as"@)
            == (match form { Some(f) => Some(Json::Text(f)), None => None }),
        forall|name: Seq<char>|
            #[trigger] member_at(accessed_doc(version_id, form), name) is Some
                ==> name == "version_id"@ || name == "as"@,
{
    reveal_strlit("version_id");
    reveal_strlit("as");
    assert("version_id"@.len() != "as"@.len());
}

/// Settling an edit changes its status where it was pending and is among those resolved, and nothing
/// else of it.
pub proof fn edits_are_settled_once(
    row: EditOut,
    resolved: Seq<Seq<char>>,
    status: Seq<char>,
    o: EditOut,
)
    ensures
        settled(row, resolved, status, o) ==> {
            &&& o.id == row.id
            &&& o.w_id == row.w_id
            &&& o.author == row.author
            &&& o.find_text == row.find_text
            &&& o.replace_text == row.replace_text
            &&& o.status@
                    == (
                        if row.status@ == "pending"@
                            && resolved.contains(row.w_id@) { status } else { row.status@ }
                    )
        },
{
}

/// A name for a download is the document's without its quotes.
pub proof fn quotes_are_left_out(s: Seq<char>)
    ensures
        without_quotes(s) == s.filter(|c: char| c != '"'),
{
}

/// Of several things that are wrong, `document_refusal` tells the first.
pub proof fn document_refusal_tells_the_first_thing(f: DocumentFacts, at_project: Option<Refusal>)
    ensures
        refusal(f.project) is Some ==> document_refusal(f, at_project) == refusal(f.project),
        !(refusal(f.project) is Some) && at_project is Some
            ==> document_refusal(f, at_project) == at_project,
        !(refusal(f.project) is Some) && !(at_project is Some) && f.denied
            ==> document_refusal(f, at_project) == Some(Refusal::NotFound("document not found"@)),
        !(refusal(f.project) is Some) && !(at_project is Some) && !f.denied
            ==> document_refusal(f, at_project) is None,
{
}

/// Of several things that are wrong, `upload_refusal` tells the first.
pub proof fn upload_refusal_tells_the_first_thing(
    ctx: AuthContext,
    owner: Option<Id>,
    grants: ProjectGrants,
    rate_refusal: Option<Refusal>,
    file_refusal: Option<Refusal>,
)
    ensures
        project_write_refusal(ctx, owner, grants) is Some
            ==> upload_refusal(ctx, owner, grants, rate_refusal, file_refusal)
                == project_write_refusal(ctx, owner, grants),
        !(project_write_refusal(ctx, owner, grants) is Some) && rate_refusal is Some
            ==> upload_refusal(ctx, owner, grants, rate_refusal, file_refusal) == rate_refusal,
        !(project_write_refusal(ctx, owner, grants) is Some) && !(rate_refusal is Some)
            ==> upload_refusal(ctx, owner, grants, rate_refusal, file_refusal) == file_refusal,
{
}

} // verus!
