use fosnie::grants::ProjectGrants;
use fosnie::http::documents::{
    bytes_response, delete_document, ensure_document_access, get_document, list_edits,
    list_workspace_documents, pdf_name, render_version_pdf, require_document_edit, require_document_read,
    resolve_all, resolve_one, resolved_tmp_name, settle_edits, upload_workspace_document, version_bytes_path,
    DocSummary, DocumentFacts, EditOut, EditsQuery, PdfSource, ResolveAllQuery, VersionRow,
};
use fosnie::order::{Dated, Numbered};
use fosnie::{AppError, AuthContext, PlatformRole};

/// Items that are given the newest first, stored the other way round.
fn dated<T>(items: Vec<T>) -> Vec<Dated<T>> {
    let mut rows: Vec<Dated<T>> =
        items.into_iter().enumerate().map(|(i, item)| Dated { at: 10_000 - i as i128, item }).collect();
    rows.reverse();
    rows
}

/// Items that are given the lowest number first, stored the other way round.
fn numbered<T>(items: Vec<T>) -> Vec<Numbered<T>> {
    let mut rows: Vec<Numbered<T>> =
        items.into_iter().enumerate().map(|(i, item)| Numbered { number: i as i128, item }).collect();
    rows.reverse();
    rows
}

fn no() -> Option<AppError> {
    Some(AppError::Forbidden("no".into()))
}

fn writer() -> ProjectGrants {
    ProjectGrants { read: None, write: None }
}

fn reader() -> ProjectGrants {
    ProjectGrants { read: None, write: no() }
}

fn stranger() -> ProjectGrants {
    ProjectGrants { read: no(), write: no() }
}

fn ctx(id: Option<u128>, admin: bool) -> AuthContext {
    AuthContext {
        user_id: id,
        role: PlatformRole::User,
        admin,
        break_glass: false,
        mfa_enroll_only: false,
    }
}

fn facts(denied: bool) -> DocumentFacts {
    DocumentFacts {
        project: Ok(3),
        project_owner: Some(7),
        grants: stranger(),
        denied,
    }
}

fn doc(id: u128) -> DocSummary {
    DocSummary { id, original_filename: "a.docx".into(), mime: None, current_version_id: None }
}

#[test]
fn a_hidden_document_is_not_found_even_by_its_owner() {
    assert_eq!(require_document_read(&ctx(Some(7), false), facts(false)).unwrap(), 3);
    assert!(matches!(
        require_document_read(&ctx(Some(7), true), facts(true)),
        Err(AppError::NotFound(m)) if m == "document not found"
    ));
    assert!(matches!(
        require_document_edit(&ctx(Some(8), false), facts(true)),
        Err(AppError::Forbidden(m)) if m == "no"
    ));
    let f = DocumentFacts { project: Err(AppError::Validation("gone".into())), ..facts(false) };
    assert!(matches!(require_document_read(&ctx(Some(7), false), f), Err(AppError::Validation(_))));
    assert!(ensure_document_access(false).is_ok());
    let f = || DocumentFacts { grants: reader(), ..facts(false) };
    assert_eq!(require_document_read(&ctx(Some(8), false), f()).unwrap(), 3);
    assert!(require_document_edit(&ctx(Some(8), false), f()).is_err());
    let f = DocumentFacts { grants: writer(), ..facts(false) };
    assert_eq!(require_document_edit(&ctx(Some(8), false), f).unwrap(), 3);
}

#[test]
fn an_upload_is_refused_for_the_first_reason() {
    let me = ctx(Some(7), false);
    let rate = || Some(AppError::TooManyRequests("slow".into()));
    let kind = || Some(AppError::Validation("kind".into()));
    assert!(upload_workspace_document(&me, Some(7), stranger(), None, None).is_ok());
    assert!(matches!(
        upload_workspace_document(&me, Some(7), stranger(), rate(), kind()),
        Err(AppError::TooManyRequests(_))
    ));
    assert!(matches!(
        upload_workspace_document(&me, Some(7), stranger(), None, kind()),
        Err(AppError::Validation(m)) if m == "kind"
    ));
    assert!(matches!(
        upload_workspace_document(&me, None, writer(), rate(), None),
        Err(AppError::Validation(m)) if m == "project not found"
    ));
    assert!(matches!(
        upload_workspace_document(&me, Some(8), reader(), None, None),
        Err(AppError::Forbidden(m)) if m == "no"
    ));
}

#[test]
fn only_allowed_documents_are_listed() {
    let them = ctx(Some(8), false);
    let out = list_workspace_documents(&them, Some(7), reader(), dated(vec![doc(1), doc(2), doc(3)]), &vec![3, 1]).unwrap();
    assert!(list_workspace_documents(&them, Some(7), stranger(), dated(vec![doc(1)]), &vec![1]).is_err());
    let ids: Vec<u128> = out.iter().map(|d| d.id).collect();
    assert_eq!(ids, vec![1, 3]);
}

#[test]
fn a_document_has_versions() {
    let v = |n: i32| VersionRow {
        id: 9,
        version_number: n,
        source: "upload".into(),
        byte_size: Some(5),
        pdf_path: Some("p".into()),
    };
    let me = ctx(Some(7), false);
    let d = get_document(&me, facts(false), Some(doc(1)), vec![v(3), v(1), v(2)], 2).unwrap();
    let numbers: Vec<i32> = d.versions.iter().map(|v| v.version_number).collect();
    assert_eq!(numbers, vec![1, 2, 3]);
    assert!(d.versions[0].has_pdf);
    assert_eq!(d.pending_edits, 2);
    assert!(get_document(&me, facts(false), None, Vec::new(), 0).is_err());
    assert!(get_document(&ctx(Some(8), false), facts(false), Some(doc(1)), Vec::new(), 0).is_err());
    assert!(matches!(version_bytes_path(None), Err(AppError::Validation(m)) if m == "version not found"));
    assert_eq!(version_bytes_path(Some("p".into())).unwrap(), "p");
}

#[test]
fn a_pdf_is_served_as_it_is() {
    assert_eq!(render_version_pdf("/x/A.PDF", false), PdfSource::Stored);
    assert_eq!(render_version_pdf("/x/É.PDF", false), PdfSource::Stored);
    assert_eq!(render_version_pdf("/x/a.docx", true), PdfSource::Cached);
    assert_eq!(render_version_pdf("/x/a.docx", false), PdfSource::Render);
    assert_eq!(pdf_name(7), "00000000-0000-0000-0000-000000000007.pdf");
}

#[test]
fn a_held_document_is_not_deleted() {
    assert!(matches!(
        delete_document(&ctx(Some(7), false), facts(false), true),
        Err(AppError::Conflict(m)) if m == "document is under legal hold"
    ));
    assert_eq!(delete_document(&ctx(Some(7), false), facts(false), false).unwrap(), 3);
}

fn edit(id: u128, status: &str) -> EditOut {
    EditOut {
        id,
        w_id: "w".into(),
        author: "a".into(),
        find_text: None,
        replace_text: None,
        status: status.into(),
    }
}

#[test]
fn changes_of_one_author_are_decided_about() {
    let me = ctx(Some(7), false);
    let q = |a: Option<&str>| ResolveAllQuery { author: a.map(|x| x.to_string()) };
    let r = resolve_all(&me, facts(false), 5, "reject", q(Some("Ada"))).unwrap();
    assert_eq!((r.base, r.author.as_deref(), r.resolution.status), (5, Some("Ada"), "rejected"));
    assert!(resolve_all(&me, facts(false), 5, "accept", q(None)).unwrap().author.is_none());
    let f = DocumentFacts { grants: reader(), ..facts(false) };
    assert!(resolve_all(&ctx(Some(8), false), f, 5, "accept", q(None)).is_err());
    let change = |id: u128, w: &str, status: &str| EditOut { w_id: w.into(), ..edit(id, status) };
    let rows = vec![change(1, "a", "pending"), change(2, "b", "pending"), change(3, "a", "accepted")];
    let out = settle_edits(rows, &vec!["a".to_string()], &r.resolution);
    let statuses: Vec<&str> = out.iter().map(|e| e.status.as_str()).collect();
    assert_eq!(statuses, vec!["rejected", "pending", "accepted"]);
}

#[test]
fn pending_changes_are_listed_where_nothing_is_said() {
    let all = || numbered(vec![edit(1, "pending"), edit(2, "accepted"), edit(3, "pending")]);
    let n = |status: Option<&str>| {
        list_edits(&ctx(Some(7), false), facts(false), all(), &EditsQuery { status: status.map(|s| s.to_string()) })
            .unwrap()
            .len()
    };
    let first = list_edits(&ctx(Some(7), false), facts(false), all(), &EditsQuery { status: None }).unwrap();
    assert_eq!(first.iter().map(|e| e.id).collect::<Vec<u128>>(), vec![1, 3]);
    assert_eq!((n(None), n(Some("all")), n(Some("accepted")), n(Some("x"))), (2, 3, 1, 0));
}

#[test]
fn changes_are_accepted_or_rejected() {
    let me = ctx(Some(7), false);
    let (base, r) = resolve_one(&me, facts(false), true, 5, "accept").unwrap();
    assert_eq!((base, r.source, r.status, r.event), (5, "user_accept", "accepted", "document.edit.accepted"));
    let r = resolve_all(&me, facts(false), 5, "reject", ResolveAllQuery { author: None }).unwrap().resolution;
    assert_eq!((r.source, r.status, r.event), ("user_reject", "rejected", "document.edit.rejected"));
    assert!(matches!(
        resolve_one(&me, facts(false), false, 5, "accept"),
        Err(AppError::Validation(m)) if m == "no pending change with that id"
    ));
}

#[test]
fn names_in_headers_hold_no_quotes() {
    assert_eq!(bytes_response("a\"b\".docx"), "attachment; filename=\"ab.docx\"");
    assert_eq!(
        resolved_tmp_name(7, None),
        "pai_resolve_00000000-0000-0000-0000-000000000007.docx"
    );
    assert_eq!(
        resolved_tmp_name(7, Some("odt")),
        "pai_resolve_00000000-0000-0000-0000-000000000007.odt"
    );
}
