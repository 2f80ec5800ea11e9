use fosnie::grants::{KbGrants, ProjectGrants};
use fosnie::http::agent_runs::{approve_run, pending_out, reject_run, PendingRow, RunAction};
use fosnie::http::api_keys::{create_key, own_keys, CreateBody};
use fosnie::http::artefacts::{
    check_page, convert_artefact, create_page, download_artefact, made_artefact, page_material,
    project_to_ask, require_chat_read,
    ArtefactRow, ChatRow, ConvertIn, Derived,
};
use fosnie::http::health::readiness;
use fosnie::http::integrations::parse_kind;
use fosnie::http::memory::{
    create_fact, falls_back, fetch_owned, found_ids, insert_fact, list_facts, plan_recall, recall,
    scope_key, update_fact, CreateFact, Fact, FactRow, Owner, RecallPlan, StoredFact, UpdateFact,
};
use fosnie::http::power::{power_analytics, require_lead, require_lead_account, MeteredAnswer};
use fosnie::http::profile::{
    account_url, delete_account, get_avatar, update_profile, upload_avatar, AvatarUpload, NameUpdate,
};
use fosnie::http::projects::{
    create_project, delete_project, grants_decide, knowledge_doc_source, list_documents,
    list_project_knowledge, require_project_read, require_project_write, upload_document, CreateProject, KnowledgeDocRow,
    KnowledgeOut, UploadQuery,
};
use fosnie::{AppError, AuthContext, PlatformRole};

fn no() -> Option<AppError> {
    Some(AppError::Forbidden("no".into()))
}

fn writer() -> ProjectGrants {
    ProjectGrants { read: None, write: None }
}

fn reader() -> ProjectGrants {
    ProjectGrants { read: None, write: no() }
}

fn stranger() -> ProjectGrants {
    ProjectGrants { read: no(), write: no() }
}

const ID7: &str = "00000000-0000-0000-0000-000000000007";

fn ctx(id: Option<u128>, admin: bool) -> AuthContext {
    AuthContext {
        user_id: id,
        role: PlatformRole::User,
        admin,
        break_glass: false,
        mfa_enroll_only: false,
    }
}

fn told<T>(r: Result<T, AppError>) -> String {
    match r {
        Err(AppError::Validation(m)) => m,
        Err(AppError::Forbidden(m)) => m,
        Err(AppError::Conflict(m)) => m,
        Err(AppError::NotFound(m)) => m,
        Err(AppError::Unavailable(m)) => m,
        Err(AppError::Other(m)) => m,
        _ => panic!("not refused"),
    }
}

#[test]
fn a_run_is_decided_once() {
    let me = ctx(Some(7), false);
    assert_eq!(
        approve_run(&me, Some(7), true, false).unwrap(),
        vec![RunAction::Audit, RunAction::EnqueueResume]
    );
    assert_eq!(approve_run(&me, Some(7), true, true).unwrap(), vec![RunAction::Audit]);
    assert_eq!(
        told(approve_run(&me, Some(7), false, true)),
        "agent run is no longer awaiting approval"
    );
    assert_eq!(told(reject_run(&me, Some(8), true)), "not your agent run");
    assert_eq!(told(reject_run(&me, None, true)), "agent run not found");
    assert!(reject_run(&me, Some(7), true).unwrap().contains(&RunAction::Finish));
}

#[test]
fn a_waiting_run_says_what_it_waits_with() {
    let mut args = serde_json::Map::new();
    args.insert("title".into(), serde_json::Value::from("Send the letter"));
    let row = |pending_args: Option<serde_json::Value>, chat: Option<&str>| PendingRow {
        id: 1,
        pending_tool: None,
        pending_args,
        automation_name: None,
        chat_title: chat.map(|c| c.to_string()),
        created_epoch: 0,
    };
    let p = pending_out(row(Some(serde_json::Value::Object(args)), Some("Plans")));
    assert_eq!((p.summary.as_str(), p.context.as_str()), ("Send the letter", "Plans"));
    let p = pending_out(row(None, None));
    assert_eq!((p.summary.as_str(), p.context.as_str()), ("Pending action", "Chat"));
}

#[test]
fn a_key_lasts_as_long_as_it_says() {
    let me = ctx(Some(7), false);
    let body = |days: Option<i64>| CreateBody { name: " ".into(), expires_in_days: days };
    let k = create_key(&me, None, true, &body(Some(2)), 5).unwrap();
    assert_eq!((k.user_id, k.name.as_str()), (7, "Untitled key"));
    assert_eq!(k.expires_at, Some(5 + 2 * 86_400_000_000_000));
    assert_eq!(create_key(&me, None, true, &body(None), 5).unwrap().expires_at, None);
    for days in [0, 3651] {
        assert_eq!(
            told(create_key(&me, None, true, &body(Some(days)), 5)),
            "expires_in_days must be between 1 and 3650"
        );
    }
    assert_eq!(told(create_key(&me, None, false, &body(None), 5)), "not found");
    let device = Some(AppError::Forbidden("not from a device".into()));
    assert_eq!(told(create_key(&me, device, true, &body(None), 5)), "not from a device");
    let enrolling = AuthContext { mfa_enroll_only: true, ..me };
    assert!(create_key(&enrolling, None, true, &body(None), 5).is_err());
    assert_eq!(own_keys(&me, true).unwrap(), 7);
    assert!(own_keys(&ctx(None, true), true).is_err());
}

fn report() -> Option<ArtefactRow> {
    Some(ArtefactRow {
        chat_id: 7,
        message_id: None,
        title: "Report".into(),
        kind: "md".into(),
        mode: "research".into(),
    })
}

#[test]
fn an_artefact_is_converted_once() {
    let me = ctx(Some(7), false);
    let chat = Some(ChatRow { owner_user_id: 7, project_id: None });
    let to = |t: &str| ConvertIn { to: t.into() };
    match convert_artefact(&me, &to("pdf"), &report(), chat, stranger(), Vec::new(), 7).unwrap() {
        Derived::Make { rel_path } => assert!(rel_path.contains(ID7) && rel_path.ends_with(".pdf")),
        Derived::Existing(_) => panic!("nothing was there"),
    }
    assert_eq!(
        told(convert_artefact(&me, &to("exe"), &report(), chat, stranger(), Vec::new(), 7)),
        "cannot convert to 'exe' — docx or pdf only"
    );
    assert_eq!(told(convert_artefact(&me, &to("pdf"), &None, chat, stranger(), Vec::new(), 7)), "artefact not found");
    assert!(create_page(&me, &report(), chat, stranger(), Vec::new(), 7).is_ok());
    assert_eq!(told(page_material(None)), "the report-to-page skill is not installed");
    assert!(check_page("  ").is_err());
    assert!(check_page("<html></html>").is_ok());
    assert_eq!(download_artefact("a \"b\"/c", "pdf"), "attachment; filename=\"a _b__c.pdf\"");
    assert_eq!(
        told(require_chat_read(&ctx(Some(8), false), chat, writer())),
        "not permitted to access this chat"
    );
}

#[test]
fn ready_is_both_stores_answering() {
    assert_eq!((readiness(true, true).status, readiness(true, true).ready), (200, true));
    assert_eq!((readiness(true, false).status, readiness(true, false).ready), (503, false));
    assert_eq!(parse_kind("x", Some(1u8)).unwrap(), 1);
    let none: Option<u8> = None;
    assert_eq!(told(parse_kind("x", none)), "unknown connector 'x'");
}

#[test]
fn a_fact_is_somebody_s() {
    let me = ctx(Some(7), false);
    assert_eq!(insert_fact(&me, "user", None, stranger()).unwrap(), Owner::User(7));
    assert_eq!(insert_fact(&me, "project", Some(3), writer()).unwrap(), Owner::Project(3));
    assert_eq!(told(insert_fact(&me, "project", Some(3), reader())), "no");
    assert_eq!(told(insert_fact(&me, "project", None, writer())), "a project-scoped fact needs a project chat");
    assert_eq!(told(insert_fact(&me, "world", None, writer())), "unknown memory scope: world");
    assert!(scope_key("user", Some(7), None).unwrap().ends_with(ID7));
    assert_eq!(scope_key("world", Some(7), None), None);
    let body = CreateFact { content: " x ".into(), scope: "user".into(), project_id: None };
    assert_eq!(create_fact(&body).unwrap(), "x");
    let fact = Fact { content: "a".into(), pinned: false, user_edited: false };
    let f = update_fact(fact, UpdateFact { content: None, pinned: Some(true) });
    assert!(f.pinned);
    let row = FactRow { scope: "user".into(), owner_user_id: Some(8), owner_project_id: None };
    assert_eq!(told(fetch_owned(&me, &Some(row), writer())), "not permitted to moderate this fact");
    assert_eq!(told(fetch_owned(&me, &None, writer())), "memory fact not found");
    let shared = || Some(FactRow { scope: "project".into(), owner_user_id: None, owner_project_id: Some(3) });
    assert_eq!(told(fetch_owned(&me, &shared(), reader())), "no");
    assert!(fetch_owned(&me, &shared(), writer()).is_ok());
}

#[test]
fn pinned_facts_are_recalled_first() {
    let me = ctx(Some(7), false);
    let f = |id: u128, at: i128, pinned: bool| StoredFact {
        id,
        scope: "user".into(),
        owner_user_id: Some(7),
        owner_project_id: None,
        content: format!("f{id}"),
        pinned,
        user_edited: false,
        updated_at: at,
    };
    let rows = |n: u128| {
        let mut all: Vec<StoredFact> = (10..10 + n).map(|i| f(i, i as i128, false)).collect();
        all.push(f(1, 1, true));
        all.push(f(2, 2, true));
        all.push(StoredFact { owner_user_id: Some(8), ..f(3, 900, true) });
        let of_project = |id: u128, p: u128| StoredFact {
            scope: "project".into(),
            owner_user_id: None,
            owner_project_id: Some(p),
            ..f(id, 800, false)
        };
        all.push(of_project(4, 3));
        all.push(of_project(5, 4));
        all
    };
    let none = Vec::new();
    let r = recall(&me, Some(3), "", rows(40), &none);
    assert_eq!(r.len(), 30);
    assert_eq!(&r[..4], &["f2", "f1", "f4", "f49"]);
    assert_eq!(recall(&me, None, "", rows(2), &none), vec!["f2", "f1", "f11", "f10"]);
    assert_eq!(recall(&me, None, "q", rows(40), &vec![5, 12, 20]), vec!["f2", "f1", "f20", "f12"]);
    assert_eq!(recall(&me, None, "q", rows(40), &none).len(), 30);
    assert_eq!(recall(&me, None, "q", rows(2), &vec![10]).len(), 4);
    assert!(matches!(plan_recall(&me, None, "q", &rows(20)), RecallPlan::Recent));
    assert!(matches!(plan_recall(&me, None, " ", &rows(40)), RecallPlan::Recent));
    match plan_recall(&me, Some(3), "q", &rows(20)) {
        RecallPlan::Search(keys) => assert_eq!(keys.len(), 2),
        RecallPlan::Recent => panic!("too many to recall without ranking"),
    }
    assert_eq!(found_ids(&vec![ID7.to_string(), "junk".to_string()]), vec![7]);
    assert!(falls_back(&Vec::new()) && !falls_back(&vec![7]));
}

#[test]
fn facts_of_others_are_not_listed() {
    let f = |id: u128, scope: &str, user: Option<u128>, project: Option<u128>| StoredFact {
        id,
        scope: scope.into(),
        owner_user_id: user,
        owner_project_id: project,
        content: "c".into(),
        pinned: false,
        user_edited: false,
        updated_at: id as i128,
    };
    let rows = || vec![
        f(1, "user", Some(7), None),
        f(2, "user", Some(8), None),
        f(3, "project", None, Some(3)),
        f(4, "project", None, Some(4)),
        f(5, "user", Some(7), None),
        StoredFact { pinned: true, ..f(0, "user", Some(7), None) },
    ];
    let ids = |v: Vec<StoredFact>| v.iter().map(|x| x.id).collect::<Vec<u128>>();
    let me = ctx(Some(7), false);
    assert_eq!(ids(list_facts(&me, None, stranger(), rows()).unwrap()), vec![0, 5, 1]);
    assert_eq!(ids(list_facts(&me, Some(3), reader(), rows()).unwrap()), vec![3]);
    assert!(list_facts(&me, Some(3), stranger(), rows()).is_err());
}

#[test]
fn a_team_is_added_up_without_its_lead() {
    let row = |who: Option<u128>, agent: Option<&str>, n: i64| MeteredAnswer {
        action: "chat.assistant.completed".into(),
        actor_user_id: who,
        email: Some("a@b.example".into()),
        agent_id: agent.map(|a| a.to_string()),
        agent_name: None,
        prompt_tokens: Some(n),
        completion_tokens: None,
    };
    let mut rows = vec![
        row(Some(8), Some("x"), 3),
        row(Some(9), None, 4),
        row(Some(5), Some("x"), 100),
        row(None, Some("x"), 100),
        row(Some(9), Some("x"), 5),
    ];
    rows.push(MeteredAnswer { action: "chat.opened".into(), ..row(Some(8), None, 100) });
    let metered = vec!["chat.assistant.completed".to_string()];
    let lead = AuthContext { role: PlatformRole::PowerUser, ..ctx(Some(7), false) };
    let a = power_analytics(&lead, &vec![7, 8, 9], &metered, &rows).unwrap();
    assert_eq!((a.team_size, a.total_prompt_tokens, a.total_completion_tokens, a.total_answers), (2, 12, 0, 3));
    let people: Vec<(Option<u128>, i64, i64)> =
        a.per_user.iter().map(|u| (u.user_id, u.prompt_tokens, u.count)).collect();
    assert_eq!(people, vec![(Some(9), 9, 2), (Some(8), 3, 1)]);
    let agents: Vec<(Option<&str>, i64)> =
        a.per_agent.iter().map(|g| (g.agent_id.as_deref(), g.prompt_tokens)).collect();
    assert_eq!(agents, vec![(Some("x"), 8), (None, 4)]);
    assert!(power_analytics(&ctx(Some(7), true), &Vec::new(), &metered, &rows).is_err());
    assert_eq!(told(require_lead(&ctx(Some(7), true))), "requires power user or admin");
}

#[test]
fn a_profile_has_a_name_and_a_picture() {
    let me = ctx(Some(7), false);
    let name = |n: &str| NameUpdate { display_name: n.into() };
    assert_eq!(update_profile(&me, &name(" Ada ")).unwrap(), (7, "Ada".to_string()));
    assert_eq!(told(update_profile(&me, &name(" "))), "display name cannot be empty");
    assert_eq!(
        told(update_profile(&me, &name(&"x".repeat(121)))),
        "display name must be at most 120 characters"
    );
    let a = upload_avatar(&me, AvatarUpload { mime: Some("image/png".into()) }, 5).unwrap();
    assert_eq!(a.mime, "image/png");
    assert_eq!(told(upload_avatar(&me, AvatarUpload { mime: None }, 0)), "empty avatar upload");
    assert_eq!(
        told(upload_avatar(&me, AvatarUpload { mime: Some("text/html".into()) }, 5)),
        "avatar must be a PNG, JPEG, WebP or GIF image"
    );
    assert_eq!(account_url(true, "https://kc", "https://kc/realms/x"), "https://kc/realms/x/account");
    assert_eq!(account_url(false, "https://kc", "https://kc/realms/x"), "");
    assert!(!delete_account(&me, None).unwrap().email.is_empty());
    assert_eq!(get_avatar(None, None), None);
}

#[test]
fn projects_have_owners_and_sectors() {
    let me = ctx(Some(7), false);
    let body = |sector: Option<&str>| CreateProject {
        name: "p".into(),
        description: None,
        sector: sector.map(|s| s.to_string()),
    };
    assert_eq!(create_project(&me, &body(Some("legal"))).unwrap(), (7, "legal"));
    assert_eq!(create_project(&me, &body(Some("x"))).unwrap(), (7, "general"));
    assert_eq!(told(create_project(&ctx(None, true), &body(None))), "a project needs a user owner");
    assert!(delete_project(&me, Some(8)).is_err());
    assert!(grants_decide(&me, Some(8)) && !grants_decide(&me, Some(7)));
    assert_eq!(told(require_project_write(&me, Some(8), reader())), "no");
    assert!(require_project_write(&me, Some(8), writer()).is_ok());
    assert!(require_project_write(&me, Some(7), stranger()).is_ok());
    assert!(require_project_read(&me, Some(8), reader()).is_ok());
    assert_eq!(told(require_project_read(&me, Some(8), stranger())), "no");
    assert_eq!(
        told(list_project_knowledge(&me, Vec::new())),
        "only a power user or admin may list knowledge bases"
    );
    let q = UploadQuery { filename: "a/b.pdf".into(), mime: None };
    let d = upload_document(&me, Some(7), stranger(), None, 7, &q).unwrap();
    assert!(upload_document(&me, Some(8), reader(), None, 7, &q).is_err());
    assert_eq!(d.bytes_path, format!("{ID7}__a_b.pdf"));
    let row = KnowledgeDocRow {
        id: 1,
        filename: "f".into(),
        mime: None,
        status: "s".into(),
        created_at: 0,
    };
    let kb = KnowledgeOut { id: 2, status: "ready".into() };
    let d = list_documents(&me, Some(8), reader(), Some(kb), vec![row]).unwrap();
    assert_eq!(d.documents[0].created_at, "1970-01-01T00:00:00Z");
    assert!(list_documents(&me, Some(7), stranger(), None, Vec::new()).unwrap().documents.is_empty());
    assert_eq!(told(list_documents(&me, Some(8), stranger(), None, Vec::new())), "no");
}

#[test]
fn what_was_made_keeps_its_title() {
    let a = made_artefact(9, "pdf", report().unwrap(), "application/pdf".into());
    assert_eq!((a.id, a.kind.as_str(), a.title.as_str()), (9, "pdf", "Report"));
    let chat = ChatRow { owner_user_id: 7, project_id: Some(3) };
    assert_eq!(project_to_ask(&ctx(Some(7), false), &chat), None);
    assert_eq!(project_to_ask(&ctx(Some(8), false), &chat), Some(3));
    let lead = AuthContext { role: PlatformRole::PowerUser, ..ctx(Some(7), false) };
    assert_eq!(require_lead_account(&lead).unwrap(), 7);
    assert!(require_lead_account(&AuthContext { user_id: None, ..lead }).is_err());
    let reads = || KbGrants { read: None, manage: no() };
    assert_eq!(told(knowledge_doc_source(None::<u8>, reads())), "knowledge document not found");
    assert_eq!(knowledge_doc_source(Some(1u8), reads()).unwrap(), 1);
    assert_eq!(told(knowledge_doc_source(Some(1u8), KbGrants { read: no(), manage: None })), "no");
}
