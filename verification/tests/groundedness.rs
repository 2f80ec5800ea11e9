use fosnie::grants::Permissions;
use fosnie::clock::CalendarDate;
use fosnie::groundedness::{
    after_live_run, begin_draft, bound_evidence, claims_to_repair, draft_event, live_event, live_summary,
    read_draft_task, read_repair_task, readable_kbs, repair_core, repair_complete, repair_done, repair_edits, repair_event,
    repair_run, repairable, span_place, strictness_or_default, verify_draft, verify_message, Change,
    DraftAction, DraftCounts, DraftReply, LiveAction, LiveReply, RepairOutcome, RepairPlan, RepairResult,
    RunRow, Span, StoredClaim,
};
use fosnie::http::groundedness as http;
use fosnie::http::groundedness_admin as admin;
use fosnie::trail::ActorRole;
use fosnie::{AppError, AuthContext, PlatformRole};

fn permitted() -> Permissions {
    Permissions {
        announcements_manage: None,
        config_manage: None,
        feedback_view: None,
        groundedness_view: None,
        mcp_manage: None,
        telephony_manage: None,
        users_manage: None,
        users_view: None,
    }
}

const ID7: &str = "00000000-0000-0000-0000-000000000007";

fn ctx(id: Option<u128>, is_admin: bool) -> AuthContext {
    AuthContext {
        user_id: id,
        role: PlatformRole::User,
        admin: is_admin,
        break_glass: false,
        mfa_enroll_only: false,
    }
}

fn span(label: &str) -> Span {
    Span { start: 0, end: 1, text: "t".into(), label: label.into() }
}

fn told<T>(r: Result<T, AppError>) -> String {
    match r {
        Err(AppError::Validation(m)) => m,
        Err(AppError::Forbidden(m)) => m,
        Err(AppError::Other(m)) => m,
        _ => panic!("not refused"),
    }
}

#[test]
fn a_live_check_counts_its_verdicts() {
    let reply = LiveReply {
        scored: true,
        total: 5,
        flagged: 2,
        model: "m".into(),
        spans: vec![span("contradicted"), span("not_mentioned")],
    };
    let run = verify_message(Some(reply), None).unwrap();
    assert_eq!((run.supported, run.contradicted, run.not_mentioned), (3, 1, 1));
    assert_eq!(run.strictness, strictness_or_default(None));
    let done = after_live_run(true, &run);
    assert!(done.contains(&LiveAction::Audit) && done.contains(&LiveAction::StoreVerdicts));
    assert!(after_live_run(false, &run).is_empty());
    assert!(verify_message(None, None).is_none());
}

#[test]
fn a_draft_check_ends_once() {
    assert!(begin_draft(Some(7)).contains(&DraftAction::NotifyRunning(7)));
    let failed = verify_draft(Some(7), DraftReply::Failed);
    assert!(failed.contains(&DraftAction::MarkError) && failed.contains(&DraftAction::NotifyError(7)));
    assert!(!failed.contains(&DraftAction::MarkSucceeded));
    let ok = verify_draft(Some(7), DraftReply::Verified { any_claims: true });
    assert!(ok.contains(&DraftAction::MarkSucceeded) && ok.contains(&DraftAction::NotifyComplete(7)));
}

fn draft_facts() -> http::TargetFacts {
    http::TargetFacts::Draft(Some(http::DraftTarget {
        disk_path: "/d/x.docx".into(),
        mime: "text/x".into(),
        read_refusal: None,
    }))
}

#[test]
fn a_started_check_is_read_back_by_the_worker() {
    let job = http::start(true, draft_facts(), 7, &vec![7, 9]).unwrap();
    assert_eq!(job["run_id"], ID7);
    let task = read_draft_task(&job).unwrap();
    assert_eq!(task.run_id, 7);
    assert_eq!(task.path, "/d/x.docx");
    assert_eq!(task.mime.as_deref(), Some("text/x"));
    assert_eq!(task.kb_ids, vec![ID7.to_string(), "00000000-0000-0000-0000-000000000009".to_string()]);
    let doc = http::TargetFacts::Document(Ok(http::DocumentTarget {
        path: "/w/y".into(),
        mime: None,
        read_refusal: None,
    }));
    let task = read_draft_task(&http::start(true, doc, 7, &Vec::new()).unwrap()).unwrap();
    assert_eq!(task.mime, None);
    assert!(task.kb_ids.is_empty());
    assert_eq!(
        told(read_draft_task(&serde_json::Value::Null)),
        "verify_draft: bad run_id"
    );
}

#[test]
fn a_check_is_refused_where_its_target_is() {
    assert_eq!(
        told(http::start(false, draft_facts(), 7, &Vec::new())),
        "groundedness verification is disabled"
    );
    assert_eq!(told(http::resolve_target(http::TargetFacts::Draft(None))), "artefact not found");
    assert_eq!(
        told(http::resolve_target(http::TargetFacts::Neither)),
        "target_type must be 'draft' or 'document'"
    );
    let missing = http::TargetFacts::Document(Err(AppError::Validation("gone".into())));
    assert_eq!(told(http::resolve_target(missing)), "gone");
}

#[test]
fn evidence_is_what_the_caller_reads() {
    let kb = |id: u128, owner: Option<u128>, granted: bool, archived: bool| http::LinkedKb {
        id,
        owner_id: owner,
        granted,
        archived,
    };
    let linked = vec![
        kb(1, Some(7), false, false),
        kb(2, Some(8), false, false),
        kb(3, None, true, false),
        kb(4, Some(7), true, true),
    ];
    assert_eq!(http::document_evidence(&ctx(Some(7), false), &linked), vec![1, 3]);
    assert_eq!(http::document_evidence(&ctx(Some(9), true), &linked), vec![1, 2, 3]);
    assert_eq!(readable_kbs(&vec![(7, true), (8, false)]), vec![ID7]);
}

fn claim(verdict: &str, text: &str, evidence: &str, section: &str) -> http::ClaimOut<u8> {
    http::ClaimOut {
        claim_text: text.into(),
        verdict: verdict.into(),
        score: None,
        evidence: evidence.into(),
        section: section.into(),
        had_citation: false,
        source_text: None,
        repair_action: None,
    }
}

fn run_row() -> http::RunRow<u8> {
    http::RunRow {
        target_type: "document".into(),
        target_id: 7,
        mode: "verify_draft".into(),
        status: "succeeded".into(),
        verifier_model: http::FACTCG.into(),
        strictness: "strict".into(),
        faithfulness_score: Some(9),
        total_claims: 2,
        supported: 1,
        contradicted: 1,
        not_mentioned: 0,
        created_by: Some(7),
        created_at: 0,
        finished_at: None,
    }
}

fn detail(claims: Vec<http::ClaimOut<u8>>) -> http::RunDetail<u8> {
    http::run_detail(&ctx(Some(7), false), 7, Some(run_row()), http::TargetFacts::Neither, claims).unwrap()
}

#[test]
fn a_report_names_every_flagged_claim() {
    let d = detail(vec![
        claim("supported", "Sky is blue", "", ""),
        claim("not_mentioned", "Sea is green", "line one\nline two", "Colours"),
    ]);
    let md = http::render_report_md(&d, "50");
    assert_eq!(
        md,
        format!(
            "# Groundedness verification report\n\n- **Run**: `{ID7}`\n- **Target**: document `{ID7}`\n\
             - **Mode**: verify_draft\n- **Verifier**: FactCG-DeBERTa-v3-Large\n- **Strictness**: strict\n\
             - **Created**: 1970-01-01T00:00:00Z\n\n## 50% grounded\n\n\
             1 supported · 1 contradicted · 0 not mentioned (of 2 claims)\n\n\
             ## Flagged claims\n\n### [not mentioned] Sea is green\n\n*Colours*\n\n> line one line two\n\n\
             {}",
            http::REPORT_END
        )
    );
    assert!(!md.contains("Sky is blue"));
    let clean = http::render_report_md(&detail(vec![claim("supported", "x", "", "")]), "100");
    assert!(clean.contains("Every claim is supported by the provided sources.\n"));
    assert!(!clean.contains("Flagged"));
    let mut unscored = detail(Vec::new());
    unscored.faithfulness_score = None;
    let md = http::render_report_md(&unscored, "50");
    assert!(md.contains("\n\n## not scored\n\n") && !md.contains("grounded\n"));
}

#[test]
fn a_run_is_read_by_whoever_started_it_or_reads_its_target() {
    let no = http::TargetFacts::Draft(None);
    assert_eq!(
        told(http::run_detail(&ctx(Some(8), false), 7, Some(run_row()), no, Vec::new())),
        "artefact not found"
    );
    assert!(http::run_detail(&ctx(Some(8), false), 7, Some(run_row()), draft_facts(), Vec::new()).is_ok());
    let none: Option<http::RunRow<u8>> = None;
    assert_eq!(
        told(http::run_detail(&ctx(Some(8), true), 7, none, http::TargetFacts::Neither, Vec::new())),
        "verification run not found"
    );
}

#[test]
fn a_claim_carries_its_evidence() {
    let mut bound = serde_json::Map::new();
    bound.insert("evidence".into(), serde_json::Value::from("because"));
    let mut source = serde_json::Map::new();
    source.insert("text".into(), serde_json::Value::from("span"));
    let c = http::claim_out(http::ClaimRow::<u8> {
        claim_text: "c".into(),
        verdict: "supported".into(),
        score: Some(1),
        bound_evidence_ref: Some(serde_json::Value::Object(bound)),
        had_citation: true,
        source_span: Some(serde_json::Value::Object(source)),
        repair_action: None,
    });
    assert_eq!((c.evidence.as_str(), c.section.as_str()), ("because", ""));
    assert_eq!(c.source_text.as_deref(), Some("span"));
}

#[test]
fn only_finished_checks_of_word_documents_are_repaired() {
    let go = |enabled: bool, knob: bool, mime: Option<&str>, name: &str| {
        http::repair(
            enabled,
            knob,
            7,
            Ok(detail(Vec::new())),
            &mime.map(|m| m.to_string()),
            name,
        )
    };
    let job = go(true, true, None, "A.DOCX").unwrap();
    assert_eq!(read_repair_task(&job).unwrap(), 7);
    assert!(go(true, true, Some("application/wordprocessingml"), "a").is_ok());
    assert_eq!(told(go(true, false, None, "a.docx")), "ground-or-cut repair is disabled");
    assert_eq!(told(go(false, true, None, "a.docx")), "groundedness verification is disabled");
    assert!(told(go(true, true, None, "a.pdf")).contains("require a DOCX document"));
    let mut d = detail(Vec::new());
    d.status = "running".into();
    assert_eq!(told(http::repair(true, true, 7, Ok(d), &None, "a.docx")), "run is not finished");
    let mut d = detail(Vec::new());
    d.target_type = "draft".into();
    assert_eq!(
        told(http::repair(true, true, 7, Ok(d), &None, "a.docx")),
        "repair applies to workspace documents only"
    );
    assert!(repairable(None, "É.DOCX"));
}

#[test]
fn a_repair_reports_what_it_did() {
    let result = |action: &str, source: Option<&str>, replacement: Option<&str>| RepairResult {
        action: action.into(),
        source_text: source.map(|s| s.to_string()),
        replacement: replacement.map(|s| s.to_string()),
        evidence: source.map(|_| "the file".to_string()),
        citation_ref: None,
        reverify_verdict: replacement.map(|_| "supported".to_string()),
    };
    let results = vec![
        result("regenerated", Some("old"), Some("new")),
        result("cut", Some("gone"), None),
        result("kept", None, None),
    ];
    let edits = repair_edits(&results);
    assert_eq!(edits.len(), 2);
    assert_eq!((edits[1].find.as_str(), edits[1].replace.as_str()), ("gone", ""));
    let changes = vec![Change { w_id: "w1".into(), find: "old".into(), replace: "new".into() }];
    let report = repair_core(&vec![1, 2, 3], &results, &changes);
    assert_eq!((report.counts.regenerated, report.counts.cut, report.counts.kept), (1, 1, 1));
    assert_eq!(report.outcomes[0].w_id.as_deref(), Some("w1"));
    let note = &report.outcomes[0].note;
    assert_eq!(note["repair_text"], "new");
    assert_eq!(note["repair_evidence"], "the file");
    assert_eq!(note["w_id"], "w1");
    assert_eq!(note["citation_ref"], serde_json::Value::Null);
    assert_eq!(note["reverify_verdict"], "supported");
    assert_eq!(report.outcomes[1].note["w_id"], serde_json::Value::Null);
    let event = repair_event(&ctx(Some(7), false), 7, 2, 3, report.counts);
    assert_eq!((event.action.as_str(), event.resource_id), ("groundedness.repaired", Some(2)));
    let noted = event.payload.unwrap();
    assert_eq!(noted["regenerated"], 1);
    assert_eq!(noted["document_id"], "00000000-0000-0000-0000-000000000003");
    assert!(repair_done(RepairOutcome::Failed).error.is_some());
    assert!(repair_done(RepairOutcome::Repaired(report.counts)).error.is_none());
    let row = |status: &str| RunRow {
        target_type: "document".into(),
        target_id: 3,
        status: status.into(),
        created_by: Some(7),
    };
    assert_eq!(
        repair_run(Some(row("succeeded"))).unwrap(),
        RepairPlan::Proceed { document_id: 3, creator: 7 }
    );
    let end = RepairPlan::End { document_id: 3, creator: 7 };
    assert_eq!(repair_run(Some(row("running"))).unwrap(), end);
    let chat = RunRow { target_type: "chat".into(), ..row("succeeded") };
    assert_eq!(repair_run(Some(chat)).unwrap(), end);
    let nobody = RunRow { created_by: None, ..row("succeeded") };
    assert_eq!(repair_run(Some(nobody)).unwrap(), RepairPlan::Skip);
    let f = repair_complete(2, end, RepairOutcome::Repaired(report.counts)).unwrap();
    assert_eq!((f.to, f.run_id, f.document_id), (7, 2, 3));
    assert_eq!(f.done.counts.regenerated, 0);
    assert_eq!(f.done.error.as_deref(), Some("Repair failed unexpectedly — see the server logs."));
    let go = RepairPlan::Proceed { document_id: 3, creator: 7 };
    let f = repair_complete(2, go, RepairOutcome::Repaired(report.counts)).unwrap();
    assert_eq!((f.done.counts.regenerated, f.done.error), (1, None));
    assert!(repair_complete(2, RepairPlan::Skip, RepairOutcome::Failed).is_none());
    assert!(repair_run(None).is_err());
}

#[test]
fn reports_come_in_three_formats() {
    let (how, name) = http::export_report(7, "md").unwrap();
    assert_eq!(how, http::ReportFormat::Markdown);
    assert_eq!(name, "attachment; filename=\"groundedness-00000000.md\"");
    assert_eq!(http::export_report(7, "docx").unwrap().0, http::ReportFormat::Rendered);
    assert_eq!(told(http::export_report(7, "html")), "format must be md, pdf or docx");
    assert_eq!(http::default_format(), "md");
}

const TODAY: CalendarDate = CalendarDate { year: 2024, month: 3, day: 2 };

fn checked(id: u128, mode: &str, status: &str, supported: Option<i32>) -> admin::CheckedRun {
    admin::CheckedRun {
        run_id: id,
        mode: mode.into(),
        target_type: "message".into(),
        status: status.into(),
        score: None,
        supported,
        contradicted: Some(1),
        not_mentioned: None,
        created_at: id as i128,
        day: TODAY,
        cited: false,
        message: None,
    }
}

fn answer(id: u128, score: u64, agent: Option<u128>) -> admin::CheckedRun {
    admin::CheckedRun {
        score: Some(score),
        cited: id % 2 == 0,
        message: Some(admin::CheckedMessage {
            id: id + 100,
            chat_id: 5,
            content: "x".repeat(200),
            agent: agent.map(|id| admin::AnsweringAgent { id, name: "Clerk".into() }),
        }),
        not_mentioned: Some(3),
        ..checked(id, "live", "succeeded", None)
    }
}

#[test]
fn checks_are_added_up_by_mode() {
    let runs = vec![
        checked(1, "live", "succeeded", Some(2)),
        checked(2, "verify_draft", "error", None),
        checked(3, "verify_draft", "succeeded", Some(3)),
        checked(4, "live", "succeeded", Some(5)),
        checked(5, "verify_draft", "succeeded", Some(4)),
    ];
    let a = admin::analytics(permitted(), &runs, TODAY).unwrap();
    assert_eq!((a.live_runs, a.draft_runs), (2, 3));
    assert_eq!((a.live_verdicts.supported, a.live_verdicts.contradicted), (7, 2));
    assert_eq!((a.draft_verdicts.supported, a.draft_verdicts.not_mentioned), (7, 0));
    let by: Vec<(&str, i64)> = a.draft_by_status.iter().map(|c| (c.status.as_str(), c.count)).collect();
    assert_eq!(by, vec![("succeeded", 2), ("error", 1)]);
    let recent: Vec<u128> = a.recent_runs.iter().map(|d| d.run_id).collect();
    assert_eq!(recent, vec![5, 3, 2]);
    assert_eq!((a.recent_runs[2].supported, a.recent_runs[2].contradicted), (0, 1));
    assert_eq!(a.live_cited_fraction, Some((0, 2)));
    let p = Permissions { groundedness_view: Some(AppError::Forbidden("no".into())), ..permitted() };
    assert!(admin::analytics(p, &runs, TODAY).is_err());
}

#[test]
fn the_lowest_scores_come_first() {
    let mut runs = vec![answer(1, 70, None), answer(2, 30, None), answer(3, 30, None), answer(4, 90, None)];
    runs.push(admin::CheckedRun { status: "error".into(), ..answer(5, 1, None) });
    runs.push(admin::CheckedRun { message: None, ..answer(6, 1, None) });
    let low = admin::lowest_interactions(&runs);
    let ids: Vec<u128> = low.iter().map(|i| i.run_id).collect();
    assert_eq!(ids, vec![3, 2, 1, 4]);
    assert_eq!((low[0].flagged, low[0].snippet.len(), low[0].message_id), (4, 160, 103));
    let many: Vec<admin::CheckedRun> = (0..20u128).map(|i| answer(i, 50 - i as u64, None)).collect();
    let low = admin::lowest_interactions(&many);
    assert_eq!((low.len(), low[0].run_id, low[9].run_id), (10, 19, 10));
    assert_eq!(admin::analytics(permitted(), &runs, TODAY).unwrap().live_scores, vec![70, 30, 30, 90, 1]);
}

#[test]
fn answers_are_shown_agent_by_agent() {
    let runs = vec![answer(1, 10, Some(8)), answer(2, 20, None), answer(3, 30, Some(8)), answer(4, 40, Some(9))];
    let by = admin::by_agent(&runs);
    let seen: Vec<(Option<u128>, i64)> = by.iter().map(|g| (g.agent_id, g.runs)).collect();
    assert_eq!(seen, vec![(Some(8), 2), (None, 1), (Some(9), 1)]);
    assert_eq!((by[0].scores.clone(), by[0].agent_name.as_deref()), (vec![10, 30], Some("Clerk")));
    assert_eq!(by[1].agent_name, None);
    assert_eq!(admin::analytics(permitted(), &runs, TODAY).unwrap().live_cited_fraction, Some((2, 4)));
}

#[test]
fn a_series_goes_over_thirty_days() {
    let leap = CalendarDate { year: 2024, month: 2, day: 29 };
    let mut runs = vec![answer(1, 10, None), answer(2, 20, None)];
    runs[1].day = leap;
    let days = admin::series(&runs, "live", TODAY);
    assert_eq!(days.len(), 30);
    assert_eq!((days[29].day.as_str(), days[29].runs, days[29].scores.clone()), ("2024-03-02", 1, vec![10]));
    assert_eq!((days[28].day.as_str(), days[28].runs), ("2024-03-01", 0));
    assert_eq!((days[27].day.as_str(), days[27].scores.clone()), ("2024-02-29", vec![20]));
    assert_eq!(days[0].day, "2024-02-02");
    let year = admin::series(&runs, "live", CalendarDate { year: 2023, month: 1, day: 1 });
    assert_eq!(year[28].day, "2022-12-31");
    assert_eq!(admin::series(&runs, "verify_draft", TODAY)[29].runs, 0);
}

#[test]
fn only_unsupported_claims_with_a_place_are_repaired() {
    let claim = |id: u128, verdict: &str, source: Option<&str>| StoredClaim {
        id,
        claim_text: "a claim".into(),
        verdict: verdict.into(),
        source_text: source.map(|s| s.to_string()),
        evidence: None,
    };
    let picked = claims_to_repair(vec![
        claim(1, "supported", Some("here")),
        claim(2, "contradicted", Some("there")),
        claim(3, "not_mentioned", None),
        claim(4, "not_mentioned", Some("elsewhere")),
    ]);
    let ids: Vec<u128> = picked.iter().map(|c| c.id).collect();
    assert_eq!(ids, vec![2, 4]);
}

#[test]
fn a_live_check_leaves_its_summary_and_its_event() {
    let span = Span { start: 3, end: 9, text: "a word".into(), label: "contradicted".into() };
    let place = span_place(&span);
    assert_eq!((place["start"].as_i64(), place["end"].as_i64()), (Some(3), Some(9)));
    assert_eq!(place.get("text"), None);
    let reply = LiveReply { scored: true, total: 4, flagged: 2, model: "m".into(), spans: vec![span] };
    let run = verify_message(Some(reply), None).unwrap();
    let summary = live_summary(&run, serde_json::Value::from(0.5));
    assert_eq!(summary["score"], 0.5);
    assert_eq!(summary["total"], 4);
    assert_eq!(summary["flagged"], 2);
    assert_eq!(summary["contradicted"], 1);
    assert_eq!(summary["not_mentioned"], 1);
    assert_eq!(summary["spans"][0]["text"], "a word");
    assert_eq!(summary["spans"][0]["label"], "contradicted");
    let event = live_event(&run, 7, ActorRole::User, 1, 3, 2, serde_json::Value::from(0.5));
    assert_eq!((event.actor_user_id, event.resource_id), (Some(7), Some(3)));
    let noted = event.payload.unwrap();
    assert_eq!(noted["supported"], 2);
    assert_eq!(noted["run_id"], "00000000-0000-0000-0000-000000000002");
    assert_eq!(noted.get("spans"), None);
}

#[test]
fn a_draft_check_stores_evidence_that_is_shown() {
    let bound = bound_evidence("the source says so", "Part 2");
    let row = http::ClaimRow {
        claim_text: "a claim".into(),
        verdict: "supported".into(),
        score: Some(1u8),
        bound_evidence_ref: Some(bound),
        had_citation: true,
        source_span: None,
        repair_action: None,
    };
    let shown = http::claim_out(row);
    assert_eq!(shown.evidence, "the source says so");
    assert_eq!(shown.section, "Part 2");
    let counts = DraftCounts { total: 5, supported: 3, contradicted: 1, not_mentioned: 1 };
    let event = draft_event(None, 2, counts, serde_json::Value::Null);
    assert_eq!((event.role, event.actor_user_id), (ActorRole::System, None));
    let noted = event.payload.unwrap();
    assert_eq!(noted["mode"], "verify_draft");
    assert_eq!(noted["supported"], 3);
    assert_eq!(noted["score"], serde_json::Value::Null);
}
