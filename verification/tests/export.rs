use fosnie::http::export::{
    build_chat_export, build_project_db_export, create_export, default_format,
    download_export, export_row, ext_of, plan_export, rendered_export, require_admin, require_chat_read,
    require_export_access, run_export, safe, text_response, to_vec, transcript, ChatExport, ChatMessage,
    ChatRecord, CreateExport, DocumentRecord, ExportFile, ExportJob, ExportPlan, ExportRecord,
    ExportRegistry, FactRecord, MessageRecord, ProjectRecord, ProjectRecords, QueueFacts, ReadableChat,
    ReviewRecord, StoredExport, EXPORT_NOTE,
};
use fosnie::{AppError, AuthContext, PlatformRole};

const ID7: &str = "00000000-0000-0000-0000-000000000007";

fn ctx(id: Option<u128>, admin: bool) -> AuthContext {
    AuthContext {
        user_id: id,
        role: PlatformRole::User,
        admin,
        break_glass: false,
        mfa_enroll_only: false,
    }
}

fn messages() -> Vec<ChatMessage> {
    vec![
        ChatMessage { role: "user".into(), content: "Hi".into(), sequence_number: 1 },
        ChatMessage { role: "assistant".into(), content: "Hello, Zoë".into(), sequence_number: 2 },
    ]
}

fn told<T>(r: Result<T, AppError>) -> String {
    match r {
        Err(AppError::Validation(m)) => m,
        Err(AppError::Forbidden(m)) => m,
        Err(AppError::TooManyRequests(m)) => m,
        Err(AppError::Conflict(m)) => m,
        Err(AppError::Other(m)) => m,
        _ => panic!("not refused"),
    }
}

#[test]
fn a_transcript_has_a_heading_for_each_message() {
    assert_eq!(
        transcript("Plans", &messages()),
        "# Plans\n\n## user\n\nHi\n\n## assistant\n\nHello, Zoë\n\n"
    );
}

#[test]
fn a_chat_is_exported_in_three_formats() {
    let md = build_chat_export(7, Some("My \"plans\"/a".into()), messages(), "md").unwrap();
    match md {
        ChatExport::File(f) => {
            assert_eq!(f.mime, "text/markdown");
            assert_eq!(f.filename, "My__plans__a.md");
            assert!(String::from_utf8(f.bytes).unwrap().ends_with("Hello, Zoë\n\n"));
        }
        _ => panic!("no file"),
    }
    let mut mixed = messages();
    mixed.reverse();
    let json = build_chat_export(7, Some("Plans".into()), mixed, "json").unwrap();
    match json {
        ChatExport::File(f) => {
            let v: serde_json::Value = serde_json::from_slice(&f.bytes).unwrap();
            assert_eq!(v["chat_id"], ID7);
            assert_eq!(v["title"], "Plans");
            assert_eq!(v["messages"][1]["content"], "Hello, Zoë");
            assert_eq!(v["messages"][1]["seq"], 2);
            assert_eq!(f.filename, "Plans.json");
        }
        _ => panic!("no file"),
    }
    let pdf = build_chat_export(7, Some("Plans".into()), messages(), "pdf").unwrap();
    assert!(matches!(pdf, ChatExport::Render { title, .. } if title == "Plans"));
    assert_eq!(rendered_export("Plans", vec![1], "application/pdf".into()).filename, "Plans.pdf");
    assert_eq!(
        told(build_chat_export(7, Some("Plans".into()), messages(), "xml")),
        "unknown export format: xml"
    );
    assert_eq!(told(build_chat_export(7, None, messages(), "md")), "chat not found");
}

fn document(id: u128) -> DocumentRecord {
    DocumentRecord { id, filename: "a.docx".into(), mime: None, current_version_id: Some(7) }
}

fn message(id: u128, chat_id: u128, sequence_number: i32) -> MessageRecord {
    MessageRecord { id, chat_id, role: "user".into(), content: format!("m{id}"), sequence_number }
}

fn records() -> ProjectRecords {
    ProjectRecords {
        chats: vec![ChatRecord { id: 1, title: "c".into(), owner_user_id: 7, created_at: 0 }],
        messages: vec![message(9, 8, 1), message(3, 1, 2), message(2, 1, 1)],
        memory: vec![FactRecord { id: 3, content: "f".into(), pinned: true }],
        documents: vec![document(4), document(5)],
        reviews: vec![ReviewRecord { id: 6, name: "r".into(), status: "done".into() }],
    }
}

#[test]
fn a_project_is_exported_without_what_the_viewer_may_not_read() {
    let p = ProjectRecord {
        id: 7,
        name: "Big case".into(),
        description: None,
        sector: "legal".into(),
        created_at: 0,
    };
    let f = build_project_db_export(Some(p), records(), &vec![5]).unwrap();
    assert_eq!(f.filename, "Big_case.json");
    let v: serde_json::Value = serde_json::from_slice(&f.bytes).unwrap();
    assert_eq!(v["project"]["id"], ID7);
    assert_eq!(v["project"]["description"], serde_json::Value::Null);
    assert_eq!(v["project"]["created_at"], "1970-01-01 0:00:00.0 +00:00:00");
    assert_eq!(v["documents"].as_array().unwrap().len(), 1);
    assert_eq!(v["documents"][0]["current_version_id"], ID7);
    assert_eq!(v["documents_excluded_by_source_acl"], 1);
    assert_eq!(v["memory_facts"][0]["pinned"], true);
    assert_eq!(v["tabular_reviews"][0]["status"], "done");
    assert_eq!(v["messages"][0]["role"], "user");
    assert_eq!(v["chats"][0]["title"], "c");
    assert_eq!(v["note"], EXPORT_NOTE);
    assert_eq!(told(build_project_db_export(None, records(), &vec![5])), "project not found");
}

#[test]
fn documents_are_indented() {
    let v = serde_json::Value::from(vec!["a".to_string()]);
    assert_eq!(to_vec(&v).unwrap(), b"[\n  \"a\"\n]");
    let mut m = serde_json::Map::new();
    m.insert("list".into(), v);
    m.insert("seq".into(), serde_json::Value::from(-3));
    let v = serde_json::Value::Object(m);
    let back: serde_json::Value = serde_json::from_slice(&to_vec(&v).unwrap()).unwrap();
    assert_eq!(back, v);
}

#[test]
fn names_are_made_safe() {
    assert_eq!(safe("a \"b\"/c\\d"), "a__b__c_d");
    assert_eq!(ext_of("a.tar.gz"), "gz");
    assert_eq!(ext_of("a"), "bin");
    assert_eq!(default_format(), "md");
    assert_eq!(text_response("a.md"), "attachment; filename=\"a.md\"");
}

#[test]
fn a_registry_keeps_the_last_maker_of_a_kind() {
    let mut r: ExportRegistry<u8> = ExportRegistry::default();
    assert!(r.get("audit").is_none());
    r.register("audit", 1);
    r.register("ledger", 2);
    r.register("audit", 3);
    assert_eq!(r.get("audit"), Some(&3));
    assert_eq!(r.get("ledger"), Some(&2));
    assert_eq!(r.get("other"), None);
}

#[test]
fn a_chat_is_read_by_four_kinds_of_people() {
    let chat = |project: Option<u128>| ReadableChat {
        owner_user_id: 7,
        project_id: project,
        title: "Plans".into(),
    };
    assert_eq!(
        require_chat_read(&ctx(Some(7), false), Some(chat(Some(3))), false, false).unwrap(),
        (Some(3), "Plans".to_string())
    );
    assert!(require_chat_read(&ctx(Some(8), true), Some(chat(None)), false, false).is_ok());
    assert!(require_chat_read(&ctx(Some(8), false), Some(chat(Some(3))), true, false).is_ok());
    assert!(require_chat_read(&ctx(Some(8), false), Some(chat(None)), true, false).is_err());
    assert!(require_chat_read(&ctx(Some(8), false), Some(chat(None)), false, true).is_ok());
    assert_eq!(
        told(require_chat_read(&ctx(Some(8), false), Some(chat(None)), false, false)),
        "not permitted to read this chat"
    );
    assert_eq!(told(require_chat_read(&ctx(None, false), None, true, true)), "chat not found");
}

fn queue() -> QueueFacts {
    QueueFacts { within_rate: true, inflight: 2, chat_refusal: None, audit_refusal: None }
}

fn asked(kind: &str, target: Option<u128>, format: Option<&str>) -> CreateExport {
    CreateExport { kind: kind.into(), target_id: target, format: format.map(|f| f.to_string()) }
}

#[test]
fn an_export_is_queued_under_the_rules_of_its_kind() {
    let me = ctx(Some(7), false);
    let q = create_export(&me, &asked("chat", Some(1), None), queue()).unwrap();
    assert_eq!((q.requested_by, q.format.as_str()), (7, "json"));
    assert_eq!(told(create_export(&me, &asked("chat", None, None), queue())), "target_id (chat) required");
    assert_eq!(
        told(create_export(&me, &asked("chat", Some(1), Some("xml")), queue())),
        "format must be md|json|pdf"
    );
    assert_eq!(told(create_export(&me, &asked("project_db", Some(1), None), queue())), "admin only");
    let admin = ctx(Some(7), true);
    assert_eq!(
        told(create_export(&admin, &asked("project_db", None, None), queue())),
        "target_id (project) required"
    );
    assert!(create_export(&admin, &asked("project_db", Some(1), None), queue()).is_ok());
    let off = QueueFacts { audit_refusal: Some(AppError::Forbidden("off".into())), ..queue() };
    assert_eq!(told(create_export(&admin, &asked("audit", None, None), off)), "off");
    assert_eq!(
        told(create_export(&admin, &asked("vectors", None, None), queue())),
        "unknown export kind: vectors"
    );
    let busy = QueueFacts { inflight: 3, ..queue() };
    assert_eq!(
        told(create_export(&me, &asked("chat", Some(1), None), busy)),
        "too many exports in progress (3); wait for one to finish"
    );
    let fast = QueueFacts { within_rate: false, ..queue() };
    assert_eq!(
        told(create_export(&me, &asked("chat", Some(1), None), fast)),
        "export rate limit; try again shortly"
    );
    assert!(create_export(&ctx(None, true), &asked("audit", None, None), queue()).is_err());
    assert!(require_admin(&me).is_err());
}

#[test]
fn an_export_is_downloaded_once_it_is_ready() {
    let me = ctx(Some(7), false);
    let stored = |status: &str, path: Option<&str>| StoredExport {
        status: status.into(),
        disk_path: path.map(|p| p.to_string()),
        mime: None,
        filename: None,
    };
    let d = download_export(&me, 7, Some(7), stored("ready", Some("x.json"))).unwrap();
    assert_eq!(d.mime, "application/octet-stream");
    assert_eq!(d.filename, format!("{ID7}.bin"));
    assert_eq!(
        told(download_export(&me, 7, Some(7), stored("running", None))),
        "export is 'running', not ready"
    );
    assert_eq!(
        told(download_export(&me, 7, Some(7), stored("ready", None))),
        "ready export has no path"
    );
    assert_eq!(told(require_export_access(&me, Some(8))), "not your export");
    assert_eq!(told(require_export_access(&me, None)), "export not found");
}

fn job(kind: &str, target: Option<u128>) -> Option<ExportJob> {
    Some(ExportJob {
        requested_by: 7,
        kind: kind.into(),
        target_id: target,
        format: "md".into(),
    })
}

#[test]
fn a_due_export_is_made_by_its_kind() {
    assert!(matches!(plan_export(job("chat", Some(1)), false), Ok(ExportPlan::Chat(1))));
    assert!(matches!(
        plan_export(job("project_db", Some(2)), false),
        Ok(ExportPlan::Project { project: 2, viewer: 7 })
    ));
    assert!(matches!(plan_export(job("audit", None), true), Ok(ExportPlan::Registered)));
    assert!(matches!(
        plan_export(job("audit", None), false),
        Ok(ExportPlan::Fail(AppError::Validation(m))) if m == "unknown export kind: audit"
    ));
    assert!(matches!(
        plan_export(job("chat", None), false),
        Ok(ExportPlan::Fail(AppError::Validation(m))) if m == "chat export missing target"
    ));
    assert!(matches!(
        plan_export(job("project_db", None), true),
        Ok(ExportPlan::Fail(AppError::Validation(m))) if m == "project export missing target"
    ));
    let none = Err(AppError::Validation("chat export missing target".into()));
    let o = run_export(7, &none);
    assert_eq!((o.status, o.error.as_deref()), ("failed", Some("chat export missing target")));
    assert_eq!(told(plan_export(None, false)), "export not found");
}

#[test]
fn an_export_ends_ready_or_failed() {
    let f = ExportFile { bytes: vec![1], mime: "m".into(), filename: "a.tar.gz".into() };
    let o = run_export(7, &Ok(f));
    assert_eq!((o.status, o.phase), ("ready", "completed"));
    assert_eq!(o.disk_path, Some(format!("{ID7}.gz")));
    let o = run_export(7, &Err(AppError::Validation("x".into())));
    assert_eq!((o.status, o.phase), ("failed", "failed"));
    assert!(o.disk_path.is_none());
}

#[test]
fn exports_are_listed_with_their_times() {
    let r = export_row(ExportRecord {
        id: 1,
        kind: "chat".into(),
        status: "ready".into(),
        format: "md".into(),
        target_id: None,
        filename: None,
        error: None,
        created_at: 0,
        completed_at: Some(1_000_000_000),
    });
    assert_eq!(r.created_at, "1970-01-01 0:00:00.0 +00:00:00");
    assert_eq!(r.completed_at.as_deref(), Some("1970-01-01 0:00:01.0 +00:00:00"));
}
