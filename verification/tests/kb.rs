use fosnie::grants::{KbGrants, ProjectGrants};
use fosnie::http::kb::{
    attach_chat, attach_project, attached_lib, create_kb, delete_grant, delete_kb_document, detach_chat, detach_project,
    list_project_links, load_docs, patch_kb, promote_kb, put_grant, require_chat_owner, uploaded,
    AttachFacts, AttachedRow, ChatLink, CreateKb, KbBrief, KbDocRow, KbPermission, PatchKb, PromoteKb, PutGrant,
    RevokedGrant,
};
use fosnie::{AppError, AuthContext, PlatformRole};

fn manager() -> KbGrants {
    KbGrants { read: None, manage: None }
}

fn kb_reader() -> KbGrants {
    KbGrants { read: None, manage: Some(AppError::Forbidden("no".into())) }
}

fn no() -> Option<AppError> {
    Some(AppError::Forbidden("no".into()))
}

fn writer() -> ProjectGrants {
    ProjectGrants { read: None, write: None }
}

fn reader() -> ProjectGrants {
    ProjectGrants { read: None, write: no() }
}

fn stranger() -> ProjectGrants {
    ProjectGrants { read: no(), write: no() }
}

const ID7: &str = "00000000-0000-0000-0000-000000000007";

fn ctx(id: Option<u128>, admin: bool) -> AuthContext {
    AuthContext {
        user_id: id,
        role: PlatformRole::User,
        admin,
        break_glass: false,
        mfa_enroll_only: false,
    }
}

fn told<T>(r: Result<T, AppError>) -> String {
    match r {
        Err(AppError::Validation(m)) => m,
        Err(AppError::Forbidden(m)) => m,
        _ => panic!("not refused"),
    }
}

fn new_kb(name: &str, visibility: Option<&str>) -> CreateKb {
    CreateKb {
        name: name.into(),
        description: None,
        visibility: visibility.map(|v| v.to_string()),
        parent_child: None,
    }
}

#[test]
fn a_library_is_personal_unless_asked_otherwise() {
    let me = ctx(Some(7), false);
    let kb = create_kb(&me, new_kb(" Acts ", Some("project"))).unwrap();
    assert_eq!((kb.owner, kb.name.as_str(), kb.visibility), (7, "Acts", "personal"));
    assert!(!kb.restricted && !kb.parent_child);
    assert_eq!(create_kb(&me, new_kb("a", Some("team"))).unwrap().visibility, "team");
    assert_eq!(create_kb(&me, new_kb("a", Some("shared"))).unwrap().visibility, "shared");
    assert_eq!(told(create_kb(&me, new_kb(" ", None))), "a library needs a name");
    assert_eq!(told(create_kb(&ctx(None, false), new_kb("a", None))), "a library needs a user owner");
}

#[test]
fn a_change_that_is_refused_sets_nothing() {
    let body = || PatchKb {
        name: Some(" New ".into()),
        description: Some("d".into()),
        visibility: Some("everyone".into()),
        restricted: Some(true),
    };
    assert_eq!(told(patch_kb(manager(), body())), "invalid visibility");
    let c = patch_kb(manager(), PatchKb { visibility: Some("project".into()), ..body() }).unwrap();
    assert_eq!((c.name.as_deref(), c.description.as_deref()), (Some("New"), Some("d")));
    assert_eq!((c.visibility.as_deref(), c.restricted), (Some("project"), Some(true)));
    assert_eq!(told(patch_kb(manager(), PatchKb { name: Some(" ".into()), ..body() })), "name cannot be empty");
    assert_eq!(told(patch_kb(kb_reader(), body())), "no");
}

#[test]
fn documents_of_a_library_are_shown() {
    let out = load_docs(vec![KbDocRow {
        id: 1,
        filename: "f".into(),
        mime: None,
        status: "ready".into(),
        created_at: 0,
        source: "upload".into(),
    }]);
    assert_eq!(out[0].created_at, "1970-01-01T00:00:00Z");
    assert_eq!(uploaded(3).status, "uploaded");
    assert_eq!(told(delete_kb_document(manager(), 0)), "document not found in this library");
    assert!(delete_kb_document(manager(), 1).is_ok());
}

fn grant(kind: &str) -> PutGrant {
    PutGrant { principal_type: kind.into(), principal_id: 7, permission: Ok(KbPermission::Read) }
}

#[test]
fn a_grant_is_recorded_as_a_disclosure() {
    let g = put_grant(manager(), grant("user"), &Some("manage".into())).unwrap();
    assert_eq!(g.permission, KbPermission::Read);
    assert_eq!(g.event["op"], "grant");
    assert_eq!(g.event["disclosure"], true);
    assert_eq!(g.event["principal_id"], ID7);
    assert_eq!(g.event["before"], "manage");
    assert_eq!(g.event["after"], "read");
    let g = put_grant(manager(), grant("group"), &None).unwrap();
    assert_eq!(g.event["before"], serde_json::Value::Null);
    assert_eq!(told(put_grant(manager(), grant("robot"), &None)), "principal_type must be 'user' or 'group'");
    let bad = PutGrant { permission: Err(AppError::Validation("what".into())), ..grant("user") };
    assert_eq!(told(put_grant(manager(), bad, &None)), "what");
    let gone = RevokedGrant { principal_type: "user".into(), principal_id: 7, permission: "read".into() };
    let e = delete_grant(manager(), Some(gone)).unwrap();
    assert_eq!((e["op"].as_str(), e["before"].as_str()), (Some("revoke"), Some("read")));
    assert_eq!(told(delete_grant(manager(), None)), "grant not found");
}

fn facts(restricted: bool, origin: Option<u128>) -> AttachFacts {
    AttachFacts {
        grants: kb_reader(),
        kb: Ok(KbBrief { restricted, origin_project_id: origin }),
    }
}

#[test]
fn a_restricted_library_stays_with_its_project() {
    let a = attach_project(writer(), facts(true, Some(3)), 4);
    assert!(a.record_refusal);
    assert_eq!(told(a.outcome), "this library is restricted to its origin project");
    let a = attach_project(writer(), facts(true, Some(3)), 3);
    assert!(a.outcome.is_ok() && !a.record_refusal);
    assert!(attach_project(writer(), facts(false, None), 4).outcome.is_ok());
    assert_eq!(
        told(attach_chat(&ctx(Some(7), false), Some(7), facts(true, Some(3)))),
        "a restricted library cannot be attached to an ad-hoc chat"
    );
    assert!(attach_chat(&ctx(Some(7), false), Some(7), facts(false, None)).is_ok());
    assert!(detach_chat(&ctx(Some(7), false), Some(7)).is_ok());
    assert!(detach_chat(&ctx(Some(8), false), Some(7)).is_err());
    assert!(detach_project(writer()).is_ok());
    assert_eq!(told(detach_project(reader())), "no");
    assert_eq!(
        told(attach_chat(&ctx(Some(8), false), Some(7), facts(false, None))),
        "only the chat owner may change its libraries"
    );
    assert_eq!(told(attach_project(reader(), facts(false, None), 4).outcome), "no");
    let unread = KbGrants { read: Some(AppError::Forbidden("unread".into())), manage: None };
    let f = AttachFacts { grants: unread, ..facts(true, None) };
    let a = attach_project(writer(), f, 4);
    assert!(!a.record_refusal);
    assert_eq!(told(a.outcome), "unread");
}

#[test]
fn a_project_s_own_library_is_its_default() {
    let row = |visibility: &str| AttachedRow {
        id: 1,
        name: "n".into(),
        visibility: visibility.into(),
        restricted: false,
        origin_project_id: Some(3),
    };
    assert!(attached_lib(row("project"), Some(3)).is_default);
    assert!(!attached_lib(row("project"), Some(4)).is_default);
    assert!(!attached_lib(row("team"), Some(3)).is_default);
    assert!(!attached_lib(row("project"), None).is_default);
    let link = |id: u128, visibility: &str, origin: Option<u128>, archived: bool| ChatLink {
        library: AttachedRow {
            id,
            name: "n".into(),
            visibility: visibility.into(),
            restricted: false,
            origin_project_id: origin,
        },
        archived,
    };
    let rows = vec![
        link(1, "org", None, false),
        link(2, "project", Some(5), false),
        link(3, "project", Some(6), false),
        link(4, "project", Some(5), true),
    ];
    let libs = list_project_links(&ctx(Some(7), false), Some(7), stranger(), 5, rows).unwrap();
    let seen: Vec<(u128, bool)> = libs.iter().map(|l| (l.id, l.is_default)).collect();
    assert_eq!(seen, vec![(2, true), (1, false), (3, false)]);
    assert_eq!(told(list_project_links(&ctx(Some(7), false), None, writer(), 5, Vec::new())), "project not found");
    assert!(list_project_links(&ctx(Some(8), false), Some(7), reader(), 5, Vec::new()).is_ok());
    assert_eq!(told(list_project_links(&ctx(Some(8), false), Some(7), stranger(), 5, Vec::new())), "no");
    assert_eq!(
        told(require_chat_owner(&ctx(Some(8), false), Some(7))),
        "only the chat owner may change its libraries"
    );
}

#[test]
fn a_promotion_is_all_or_nothing() {
    let body = |grants: Vec<PutGrant>| PromoteKb { visibility: "team".into(), grants };
    let p = promote_kb(manager(), body(vec![grant("user"), grant("group")]), &Some("project".into())).unwrap();
    assert_eq!(p.visibility, "team");
    assert!(!p.restricted);
    assert_eq!(p.event["before"], "project");
    assert_eq!(p.event["after"], "team");
    assert_eq!(p.event["disclosure"], true);
    assert_eq!(p.event["grants_added"][1]["principal_type"], "group");
    assert_eq!(p.event["grants_added"][0]["permission"], "read");
    assert_eq!(
        told(promote_kb(manager(), body(vec![grant("user"), grant("robot")]), &Some("project".into()))),
        "principal_type must be 'user' or 'group'"
    );
    assert_eq!(told(promote_kb(manager(), body(Vec::new()), &None)), "knowledge base not found");
    let bad = PromoteKb { visibility: "project".into(), grants: Vec::new() };
    assert_eq!(
        told(promote_kb(manager(), bad, &Some("project".into()))),
        "promote target must be team|shared|personal"
    );
}
