use fosnie::grants::KbGrants;
use fosnie::http::automations::{
    automation_out, calendar, calendar_window, caps, create_automation, require_owner, rfc3339, run_out,
    schedule_too_frequent, update_automation, validate_targets, AutomationRow, CalendarQuery,
    CreateAutomation, CreationFacts, Occurrences, RunRow, ScheduleFacts, Targets, Upcoming,
    UpdateAutomation, UpdateFacts, WEEK,
};
use fosnie::{AppError, AuthContext, PlatformRole};

const SECOND: i128 = 1_000_000_000;

fn ctx(id: Option<u128>, admin: bool) -> AuthContext {
    AuthContext {
        user_id: id,
        role: PlatformRole::User,
        admin,
        break_glass: false,
        mfa_enroll_only: false,
    }
}

fn no_targets() -> Targets {
    Targets { in_delivery_chat: None, kbs: Vec::new() }
}

fn every(secs: i128) -> ScheduleFacts {
    ScheduleFacts {
        refusal: None,
        upcoming: Ok(Upcoming { first: Some(0), second: Some(secs * SECOND) }),
    }
}

fn facts() -> CreationFacts {
    CreationFacts {
        within_rate: true,
        schedule: every(300),
        max_per_user: 50,
        min_interval_secs: 300,
        owned: 49,
        targets: no_targets(),
    }
}

fn body(prompt: &str) -> CreateAutomation {
    CreateAutomation {
        name: "Daily".into(),
        schedule: "0 9 * * *".into(),
        prompt: prompt.into(),
        agent_id: None,
        project_id: None,
        kb_ids: Vec::new(),
        deliver_group_chat_id: None,
    }
}

fn told<T>(r: Result<T, AppError>) -> String {
    match r {
        Err(AppError::Validation(m)) => m,
        Err(AppError::Forbidden(m)) => m,
        Err(AppError::TooManyRequests(m)) => m,
        _ => panic!("not refused"),
    }
}

#[test]
fn automations_have_owners() {
    assert_eq!(require_owner(&ctx(Some(7), false), Some(7)).unwrap(), 7);
    assert_eq!(require_owner(&ctx(Some(8), true), Some(7)).unwrap(), 7);
    assert_eq!(told(require_owner(&ctx(Some(8), false), Some(7))), "not your automation");
    assert_eq!(told(require_owner(&ctx(Some(8), false), None)), "automation not found");
}

#[test]
fn caps_come_from_settings_that_are_numbers() {
    assert_eq!(caps(&None, &None), (50, 300));
    assert_eq!(caps(&Some("7".into()), &Some("+60".into())), (7, 60));
    assert_eq!(caps(&Some("seven".into()), &Some(" 60".into())), (50, 300));
    assert_eq!(caps(&Some("-1".into()), &Some("99999999999999999999".into())), (-1, 300));
}

#[test]
fn schedules_keep_their_distance() {
    let u = Upcoming { first: Some(0), second: Some(300 * SECOND - 1) };
    assert!(schedule_too_frequent(u, 300));
    assert!(!schedule_too_frequent(Upcoming { second: Some(300 * SECOND), ..u }, 300));
    assert!(!schedule_too_frequent(Upcoming { second: None, ..u }, 300));
}

#[test]
fn an_automation_is_made_within_its_bounds() {
    let me = ctx(Some(7), false);
    let n = create_automation(&me, &body("Report"), facts()).unwrap();
    assert_eq!((n.owner, n.next_run_at), (7, Some(0)));
    assert_eq!(told(create_automation(&ctx(None, false), &body("x"), facts())), "a user is required");
    let f = CreationFacts { within_rate: false, ..facts() };
    assert_eq!(told(create_automation(&me, &body("x"), f)), "automation rate limit; try again shortly");
    let f = CreationFacts {
        schedule: ScheduleFacts { refusal: Some(AppError::Validation("bad cron".into())), ..every(300) },
        ..facts()
    };
    assert_eq!(told(create_automation(&me, &body("x"), f)), "bad cron");
    assert_eq!(told(create_automation(&me, &body("  "), facts())), "prompt must not be empty");
    let f = CreationFacts { owned: 50, ..facts() };
    assert_eq!(told(create_automation(&me, &body("x"), f)), "automation limit reached (50)");
    let f = CreationFacts { schedule: every(299), ..facts() };
    assert_eq!(
        told(create_automation(&me, &body("x"), f)),
        "schedule too frequent; minimum interval is 300s"
    );
    let f = CreationFacts {
        targets: Targets { in_delivery_chat: Some(false), kbs: Vec::new() },
        ..facts()
    };
    assert_eq!(
        told(create_automation(&me, &body("x"), f)),
        "you are not a member of the selected delivery chat"
    );
    let no = |m: &str| Some(AppError::Forbidden(m.into()));
    let kb = |read: Option<AppError>| KbGrants { read, manage: no("manage") };
    let t = Targets { in_delivery_chat: Some(true), kbs: vec![kb(None), kb(no("no")), kb(no("later"))] };
    assert_eq!(told(validate_targets(t)), "no");
}

fn row() -> AutomationRow {
    AutomationRow {
        id: 1,
        name: "Daily".into(),
        schedule: "0 9 * * *".into(),
        prompt: "Report".into(),
        agent_id: None,
        status: "active".into(),
        next_run_at: Some(5 * SECOND),
        last_run_at: None,
        project_id: Some(3),
        kb_ids: vec![4],
        deliver_group_chat_id: Some(5),
    }
}

fn change() -> UpdateAutomation {
    UpdateAutomation {
        name: None,
        schedule: None,
        prompt: None,
        status: None,
        project_id: None,
        kb_ids: None,
        deliver_group_chat_id: None,
    }
}

fn update_facts() -> UpdateFacts {
    UpdateFacts { targets: no_targets(), schedule: every(300), min_interval_secs: 300 }
}

#[test]
fn pausing_changes_nothing_else() {
    let c = UpdateAutomation { status: Some("paused".into()), ..change() };
    let a = update_automation(&ctx(Some(7), false), Some(7), row(), c, update_facts()).unwrap();
    assert_eq!(a.status, "paused");
    assert_eq!((a.project_id, a.deliver_group_chat_id, a.next_run_at), (Some(3), Some(5), Some(5 * SECOND)));
    assert_eq!(a.kb_ids, vec![4]);
    let c = UpdateAutomation { status: Some("gone".into()), ..change() };
    assert_eq!(
        told(update_automation(&ctx(Some(7), false), Some(7), row(), c, update_facts())),
        "status must be active|paused"
    );
}

#[test]
fn a_target_can_be_taken_away() {
    let c = UpdateAutomation { project_id: Some(None), kb_ids: Some(Vec::new()), ..change() };
    let a = update_automation(&ctx(Some(7), false), Some(7), row(), c, update_facts()).unwrap();
    assert_eq!(a.project_id, None);
    assert!(a.kb_ids.is_empty());
    assert_eq!(a.deliver_group_chat_id, Some(5));
}

#[test]
fn another_schedule_has_another_next_run() {
    let c = UpdateAutomation { schedule: Some("0 8 * * *".into()), ..change() };
    let a = update_automation(&ctx(Some(7), false), Some(7), row(), c, update_facts()).unwrap();
    assert_eq!(a.next_run_at, Some(0));
    let c = UpdateAutomation { schedule: Some("* * * * *".into()), ..change() };
    let f = UpdateFacts { schedule: every(60), ..update_facts() };
    assert_eq!(
        told(update_automation(&ctx(Some(7), false), Some(7), row(), c, f)),
        "schedule too frequent; minimum interval is 300s"
    );
}

#[test]
fn times_are_written_out() {
    assert_eq!(rfc3339(Some(SECOND)).as_deref(), Some("1970-01-01T00:00:01Z"));
    assert_eq!(rfc3339(None), None);
    assert_eq!(automation_out(row()).next_run_at.as_deref(), Some("1970-01-01T00:00:05Z"));
    let r = run_out(RunRow {
        id: 1,
        status: "done".into(),
        output_chat_id: None,
        error: None,
        started_at: 0,
        completed_at: None,
    });
    assert_eq!(r.started_at.as_deref(), Some("1970-01-01T00:00:00Z"));
}

#[test]
fn the_calendar_looks_a_week_ahead() {
    let q = CalendarQuery { from: None, to: None };
    assert_eq!(calendar_window(&q, 10), (10, 10 + WEEK));
    let q = CalendarQuery { from: Some("1970-01-01T01:00:01+01:00".into()), to: Some("soon".into()) };
    assert_eq!(calendar_window(&q, 10), (SECOND, SECOND + WEEK));
}

#[test]
fn runs_are_listed_by_when_they_are() {
    let found = vec![
        Occurrences { automation_id: 1, name: "a".into(), at: vec![3 * SECOND, 5 * SECOND] },
        Occurrences { automation_id: 2, name: "b".into(), at: vec![2 * SECOND, 5 * SECOND] },
        Occurrences { automation_id: 3, name: "c".into(), at: vec![i128::MAX] },
    ];
    let out = calendar(&ctx(Some(7), false), &found).unwrap();
    let ids: Vec<(u128, &str)> = out.iter().map(|e| (e.automation_id, e.at.as_str())).collect();
    assert_eq!(
        ids,
        vec![
            (2, "1970-01-01T00:00:02Z"),
            (1, "1970-01-01T00:00:03Z"),
            (1, "1970-01-01T00:00:05Z"),
            (2, "1970-01-01T00:00:05Z"),
        ]
    );
    assert!(calendar(&ctx(None, false), &found).is_err());
}
