use fosnie::grants::{KbGrants, Permissions, ProjectGrants};
use fosnie::clock::CalendarDate;
use fosnie::http::agent_runs::{
    self, cancel_run, list_pending, ActingRun, PendingRow, RunAction, RunEvent, RunSummary,
};
use fosnie::http::agents::{list_agent_versions, AgentVersion};
use fosnie::http::announcements::{get_notices, AnnouncementOut, WelcomeOut};
use fosnie::http::api_keys::{
    admin_list_keys, admin_revoke_key, list_keys, load_keys, revoke, KeyOut, StoredKey,
};
use fosnie::http::artefacts::{
    convert_artefact, create_page, list_artefacts, ArtefactEntry, ArtefactOut, ArtefactRow, ChatRow,
    ConvertIn, Derived,
};
use fosnie::http::auth::{logout, mfa_status, AuthMode, CookieConfig};
use fosnie::http::automations::{self, get_automation, list_automations, AutomationRow, RunRow};
use fosnie::http::chats::{list_chat_shares, ChatShareRow};
use fosnie::http::config_admin::{get_branding, list_config, ConfigOut};
use fosnie::http::devices::{
    admin_list_devices, list_devices, DeviceOut, StoredDevice, Withdrawable,
};
use fosnie::http::diary::{ClosureRow, DiaryRow, Opening, Whose};
use fosnie::http::export::{get_export, list_exports, ExportRecord, ReadableChat};
use fosnie::http::groundedness::{latest_for_target, LatestQuery, RunEntry};
use fosnie::http::kb::{grant_out, list_chat_links, list_grants, AttachedRow, ChatLink, GrantRow};
use fosnie::http::memory::{delete_fact, recall_facts, FactRow};
use fosnie::http::messaging::{
    ensure_project_chat, get_chat, notify_project_memory, search_hits, unread_count, ChatInfo,
    FoundMessage, MemberOut, Posted, ProjectChat, SearchHit,
};
use fosnie::http::power::{power_directory, UserEntry};
use fosnie::http::profile::{delete_avatar, get_profile, ProfileRow};
use fosnie::http::projects::{
    list_project_knowledge, list_projects, KnowledgeBaseRow, ProjectEntry, ProjectSummary,
};
use fosnie::order::{Dated, Numbered};
use fosnie::{AppError, AuthContext, PlatformRole};

/// Items that are given the newest first, stored the other way round.
fn dated<T>(items: Vec<T>) -> Vec<Dated<T>> {
    let mut rows: Vec<Dated<T>> =
        items.into_iter().enumerate().map(|(i, item)| Dated { at: 10_000 - i as i128, item }).collect();
    rows.reverse();
    rows
}

/// Items that are given the lowest number first, stored the other way round.
fn numbered<T>(items: Vec<T>) -> Vec<Numbered<T>> {
    let mut rows: Vec<Numbered<T>> =
        items.into_iter().enumerate().map(|(i, item)| Numbered { number: i as i128, item }).collect();
    rows.reverse();
    rows
}

fn permitted() -> Permissions {
    Permissions {
        announcements_manage: None,
        config_manage: None,
        feedback_view: None,
        groundedness_view: None,
        mcp_manage: None,
        telephony_manage: None,
        users_manage: None,
        users_view: None,
    }
}

fn no() -> Option<AppError> {
    Some(AppError::Forbidden("no".into()))
}

fn writer() -> ProjectGrants {
    ProjectGrants { read: None, write: None }
}

fn reader() -> ProjectGrants {
    ProjectGrants { read: None, write: no() }
}

fn stranger() -> ProjectGrants {
    ProjectGrants { read: no(), write: no() }
}

fn manager() -> KbGrants {
    KbGrants { read: None, manage: None }
}

fn kb_reader() -> KbGrants {
    KbGrants { read: None, manage: Some(AppError::Forbidden("no".into())) }
}

fn ctx(id: Option<u128>, admin: bool) -> AuthContext {
    AuthContext { user_id: id, role: PlatformRole::User, admin, break_glass: false, mfa_enroll_only: false }
}

#[test]
fn only_active_announcements_are_shown() {
    let row = |id: u128, active: bool| AnnouncementOut {
        id,
        content: "hello".into(),
        severity: "info".into(),
        dismissible: true,
        active,
        sort_order: -(id as i32),
    };
    let w = WelcomeOut { enabled: true, title: "Hi".into(), body: "  ".into() };
    let n = get_notices(vec![row(1, true), row(2, false), row(3, true)], w);
    let ids: Vec<u128> = n.banners.iter().map(|a| a.id).collect();
    assert_eq!(ids, vec![3, 1]);
    assert!(n.welcome.is_none());
}

#[test]
fn a_cancelled_run_is_stopped_first() {
    assert_eq!(
        cancel_run(&ctx(Some(7), false), Some(7)).unwrap(),
        vec![RunAction::Kill, RunAction::Audit, RunAction::ReleaseWaiter]
    );
    assert!(matches!(cancel_run(&ctx(Some(8), false), Some(7)), Err(AppError::Forbidden(_))));
    assert!(matches!(cancel_run(&ctx(Some(8), false), None), Err(AppError::Validation(_))));
}

#[test]
fn keys_are_listed_without_the_tokens_of_devices() {
    let row = |id: u128, user_id: u128, kind: &str| StoredKey {
        user_id,
        kind: kind.into(),
        key: KeyOut {
            id,
            name: "k".into(),
            display_prefix: "p".into(),
            created_at: 0,
            last_used_at: None,
            expires_at: None,
            revoked_at: None,
        },
    };
    let keys = load_keys(vec![row(1, 7, "api"), row(2, 7, "device"), row(3, 8, "api"), row(4, 7, "api")], 7);
    let ids: Vec<u128> = keys.iter().map(|k| k.id).collect();
    assert_eq!(ids, vec![1, 4]);
    let looks = || Permissions { users_manage: no(), ..permitted() };
    let manages = || Permissions { users_view: no(), ..permitted() };
    assert!(admin_list_keys(true, looks()).is_ok());
    assert!(matches!(admin_list_keys(false, looks()), Err(AppError::NotFound(_))));
    assert!(matches!(admin_list_keys(true, manages()), Err(AppError::Forbidden(_))));
    assert!(admin_revoke_key(None, true, manages()).is_ok());
    assert!(matches!(admin_revoke_key(None, true, looks()), Err(AppError::Forbidden(_))));
    assert!(matches!(admin_revoke_key(no(), false, manages()), Err(AppError::Forbidden(_))));
    let mine = Withdrawable { user_id: 7, revoked: false };
    assert!(revoke(Some(mine), Some(7)).withdrawn);
    assert_eq!(revoke(Some(mine), Some(8)).status, 204);
    assert!(!revoke(Some(mine), Some(8)).withdrawn);
}

#[test]
fn the_same_artefact_is_found_again() {
    let me = ctx(Some(7), false);
    let chat = Some(ChatRow { owner_user_id: 7, project_id: None });
    let report = Some(ArtefactRow {
        chat_id: 7,
        message_id: Some(5),
        title: "Report".into(),
        kind: "md".into(),
        mode: "research".into(),
    });
    let made = |id: u128, kind: &str, message_id: Option<u128>| ArtefactEntry {
        chat_id: 7,
        out: ArtefactOut {
            id,
            kind: kind.into(),
            title: "Report".into(),
            mime: "m".into(),
            message_id,
            chat_mode: Some("research".into()),
        },
    };
    let all = || vec![made(1, "pdf", None), made(2, "pdf", Some(5)), made(3, "pdf", Some(5)), made(4, "html", Some(5))];
    let earlier = || dated(all());
    let to = ConvertIn { to: "pdf".into() };
    match convert_artefact(&me, &to, &report, chat, stranger(), earlier(), 9).unwrap() {
        Derived::Existing(a) => assert_eq!((a.id, a.chat_mode), (2, None)),
        Derived::Make { .. } => panic!("it was there"),
    }
    match create_page(&me, &report, chat, stranger(), earlier(), 9).unwrap() {
        Derived::Existing(a) => assert_eq!(a.id, 4),
        Derived::Make { .. } => panic!("it was there"),
    }
    let to = ConvertIn { to: "docx".into() };
    assert!(matches!(
        convert_artefact(&me, &to, &report, chat, stranger(), earlier(), 9),
        Ok(Derived::Make { .. })
    ));
}

#[test]
fn shares_are_listed_for_who_made_them() {
    let row = |kind: &str| ChatShareRow {
        chat_id: 1,
        chat_title: "t".into(),
        group_chat_id: 2,
        group_chat_kind: kind.into(),
        group_name: None,
        other_member: Some("Ada".into()),
        shared_at: 0,
    };
    let out = list_chat_shares(&ctx(Some(7), false), vec![(7, row("dm")), (8, row("dm")), (7, row("group"))]).unwrap();
    let names: Vec<&str> = out.iter().map(|s| s.group_chat_name.as_str()).collect();
    assert_eq!(names, vec!["Ada", "Chat"]);
    let at = |id: u128, when: i128| (7, ChatShareRow { chat_id: id, shared_at: when, ..row("dm") });
    let out = list_chat_shares(&ctx(Some(7), false), vec![at(1, 3), at(2, 9)]).unwrap();
    assert_eq!(out.iter().map(|s| s.chat_id).collect::<Vec<u128>>(), vec![2, 1]);
    assert!(list_chat_shares(&ctx(None, true), Vec::new()).is_err());
}

#[test]
fn a_missing_image_is_refused() {
    assert_eq!(get_branding(Some(("a".into(), "b".into()))).unwrap(), ("a".to_string(), "b".to_string()));
    assert!(matches!(get_branding(None), Err(AppError::Validation(m)) if m == "no such branding asset"));
}

#[test]
fn a_diary_is_read_as_it_was_set() {
    let row = || DiaryRow {
        timezone: "Europe/London".into(),
        slot_minutes: 30,
        lead_minutes: 60,
        horizon_days: 14,
        enabled: true,
    };
    let hours = || vec![Opening { weekday: 1, opens_minute: 540, closes_minute: 600 }];
    let closures = || vec![ClosureRow { closed_on: CalendarDate { year: 2026, month: 3, day: 9 }, note: None }];
    let q = Whose { owner_user_id: None };
    let d = fosnie::http::diary::get(&ctx(Some(7), false), &q, Some(row()), hours(), closures()).unwrap().unwrap();
    assert_eq!((d.owner_user_id, d.slot_minutes, d.hours.len()), (7, 30, 1));
    assert_eq!(d.closures[0].closed_on, "2026-03-09");
    let open = |weekday: i16, opens_minute: i32| Opening { weekday, opens_minute, closes_minute: 1440 };
    let on = |year: i32, month: u8, day: u8| ClosureRow { closed_on: CalendarDate { year, month, day }, note: None };
    let hours_of = vec![open(2, 0), open(1, 900), open(1, 60)];
    let days_of = vec![on(2027, 1, 1), on(2026, 12, 2), on(2026, 2, 28), on(2026, 12, 1)];
    let d = fosnie::http::diary::get(&ctx(Some(7), false), &q, Some(row()), hours_of, days_of).unwrap().unwrap();
    assert_eq!(d.hours, vec![open(1, 60), open(1, 900), open(2, 0)]);
    let days: Vec<&str> = d.closures.iter().map(|c| c.closed_on.as_str()).collect();
    assert_eq!(days, vec!["2026-02-28", "2026-12-01", "2026-12-02", "2027-01-01"]);
    assert!(fosnie::http::diary::get(&ctx(Some(7), false), &q, None, Vec::new(), Vec::new()).unwrap().is_none());
    let other = Whose { owner_user_id: Some(8) };
    assert!(fosnie::http::diary::get(&ctx(Some(7), false), &other, Some(row()), hours(), closures()).is_err());
}

#[test]
fn the_newest_run_of_a_target_is_found() {
    let run = |id: u128, target_id: u128, created_at: i128| RunEntry {
        id,
        target_type: "document".into(),
        target_id,
        created_at,
    };
    let runs = vec![run(1, 5, 10), run(2, 5, 30), run(3, 6, 40), run(4, 5, 20)];
    let q = |t: &str, target_id: u128| LatestQuery { target_type: t.into(), target_id };
    assert_eq!(latest_for_target(&runs, &q("document", 5)), Some(2));
    assert_eq!(latest_for_target(&runs, &q("document", 7)), None);
    assert_eq!(latest_for_target(&runs, &q("draft", 5)), None);
}

#[test]
fn a_grant_goes_by_a_name() {
    let row = |user: Option<&str>, group: Option<&str>| GrantRow {
        id: 1,
        principal_type: "user".into(),
        principal_id: 2,
        permission: "read".into(),
        user_name: user.map(|s| s.to_string()),
        group_name: group.map(|s| s.to_string()),
    };
    assert_eq!(grant_out(row(Some("Ada"), Some("law"))).name.as_deref(), Some("Ada"));
    assert_eq!(grant_out(row(None, Some("law"))).name.as_deref(), Some("law"));
    assert_eq!(grant_out(row(None, None)).name, None);
}

#[test]
fn others_messages_count_as_unread() {
    let m = |seq: i32, sender: Option<u128>| Posted { seq, sender };
    let all = vec![m(1, Some(8)), m(2, Some(7)), m(3, None), m(4, Some(8))];
    assert_eq!(unread_count(&all, 0, 7), 3);
    assert_eq!(unread_count(&all, 3, 7), 1);
    assert_eq!(unread_count(&all, 4, 7), 0);
    assert_eq!(unread_count(&all, 0, 8), 2);
}

#[test]
fn a_project_has_one_chat() {
    assert!(matches!(ensure_project_chat(Some(3), None, 7, 9), ProjectChat::Existing(3)));
    match ensure_project_chat(None, None, 7, 9) {
        ProjectChat::Make { id, name, owner } => assert_eq!((id, name.as_str(), owner), (9, "Project chat", 7)),
        ProjectChat::Existing(_) => panic!("there was none"),
    }
    assert_eq!(notify_project_memory(Some(7), "tea"), Some((7, "Memory added: tea".to_string())));
    assert_eq!(notify_project_memory(None, "tea"), None);
}

#[test]
fn the_directory_leaves_out_who_left() {
    let entry = |id: u128| UserEntry { id, display_name: "n".into(), email: "e".into(), avatar_updated_at: None };
    let lead = AuthContext { role: PlatformRole::PowerUser, ..ctx(Some(7), false) };
    let rows = || vec![(entry(1), false), (entry(2), true), (entry(3), false)];
    let ids: Vec<u128> = power_directory(&lead, rows()).unwrap().iter().map(|u| u.id).collect();
    assert_eq!(ids, vec![1, 3]);
    assert!(power_directory(&ctx(Some(7), false), rows()).is_err());
}

#[test]
fn projects_are_listed_for_those_who_may_read_them() {
    let p = |id: u128, owner_user_id: u128, granted: bool, archived: bool| ProjectEntry {
        owner_user_id,
        granted,
        archived,
        summary: ProjectSummary { id, name: "p".into(), sector: "general".into(), description: None },
    };
    let rows = || vec![p(1, 7, false, false), p(2, 8, true, false), p(3, 8, false, false), p(4, 7, true, true)];
    let ids = |c: &AuthContext| -> Vec<u128> { list_projects(c, dated(rows())).unwrap().iter().map(|s| s.id).collect() };
    assert_eq!(ids(&ctx(Some(7), false)), vec![1, 2]);
    assert_eq!(ids(&ctx(Some(9), true)), vec![1, 2, 3]);
    assert!(list_projects(&ctx(None, true), dated(rows())).is_err());
}

#[test]
fn settings_with_a_place_of_their_own_are_not_listed() {
    let row = |key: &str| ConfigOut {
        key: key.into(),
        value: "1".into(),
        value_type: "int".into(),
        scope: "global".into(),
    };
    let rows = || vec![row("audit.days"), row("test.x"), row("welcome.title"), row("welcomes")];
    let keys: Vec<String> = list_config(permitted(), rows()).unwrap().into_iter().map(|c| c.key).collect();
    assert_eq!(keys, vec!["audit.days", "welcomes"]);
    assert!(list_config(Permissions { config_manage: no(), ..permitted() }, rows()).is_err());
}

#[test]
fn a_profile_is_shown_to_its_owner() {
    let row = || ProfileRow {
        email: "a@b.example".into(),
        display_name: "Ada".into(),
        display_name_custom: true,
        role: "user".into(),
        created_epoch: 12,
        avatar_epoch: None,
    };
    let doc = get_profile(&ctx(Some(7), false), row(), true, "https://kc", "https://kc/realms/a").unwrap();
    assert_eq!(doc["user_id"], "00000000-0000-0000-0000-000000000007");
    assert_eq!(doc["display_name"], "Ada");
    assert_eq!(doc["display_name_custom"], true);
    assert_eq!(doc["created_epoch"], 12);
    assert!(doc["avatar_updated_at"].is_null());
    assert_eq!(doc["account_url"], "https://kc/realms/a/account");
    let doc = get_profile(&ctx(Some(7), false), row(), false, "https://kc", "https://kc").unwrap();
    assert_eq!(doc["account_url"], "");
    assert!(get_profile(&ctx(None, true), row(), false, "", "").is_err());
    let gone = delete_avatar(&ctx(Some(7), false), Some("7.png".into())).unwrap();
    assert_eq!(gone, (7, Some("7.png".to_string())));
    assert!(delete_avatar(&ctx(None, true), None).is_err());
}

#[test]
fn devices_are_listed_by_account() {
    let row = |id: u128, user_id: u128| StoredDevice {
        user_id,
        device: DeviceOut {
            id,
            name: "laptop".into(),
            platform: "linux".into(),
            created_at: 0,
            last_seen_at: None,
            revoked_at: None,
        },
    };
    let rows = || vec![row(1, 7), row(2, 8), row(3, 7)];
    let ids = |v: Vec<DeviceOut>| -> Vec<u128> { v.iter().map(|d| d.id).collect() };
    assert_eq!(ids(list_devices(&ctx(Some(7), false), rows()).unwrap()), vec![1, 3]);
    assert!(list_devices(&ctx(None, true), rows()).is_err());
    assert_eq!(ids(admin_list_devices(permitted(), rows(), 8).unwrap()), vec![2]);
    assert!(admin_list_devices(Permissions { users_view: no(), ..permitted() }, rows(), 8).is_err());
    assert!(matches!(list_keys(&ctx(Some(7), false), false, Vec::new()), Err(AppError::NotFound(_))));
    assert!(list_keys(&ctx(Some(7), false), true, Vec::new()).unwrap().is_empty());
}

#[test]
fn archived_libraries_are_not_among_the_links() {
    let row = |id: u128, archived: bool| ChatLink {
        library: AttachedRow {
            id,
            name: "Law".into(),
            visibility: "project".into(),
            restricted: true,
            origin_project_id: None,
        },
        archived,
    };
    let me = ctx(Some(7), false);
    let out = list_chat_links(&me, Some(7), vec![row(1, false), row(2, true)]).unwrap();
    assert_eq!(out.len(), 1);
    assert!(out[0].id == 1 && out[0].restricted && !out[0].is_default);
    assert!(matches!(list_chat_links(&me, Some(8), Vec::new()), Err(AppError::Forbidden(_))));
    assert!(matches!(list_chat_links(&me, None, Vec::new()), Err(AppError::Validation(_))));
    let grant = GrantRow {
        id: 1,
        principal_type: "group".into(),
        principal_id: 2,
        permission: "read".into(),
        user_name: None,
        group_name: Some("law".into()),
    };
    assert_eq!(list_grants(manager(), numbered(vec![grant])).unwrap()[0].name.as_deref(), Some("law"));
    assert!(list_grants(kb_reader(), Vec::new()).is_err());
}

#[test]
fn automations_are_listed_for_their_owner() {
    let row = |id: u128| AutomationRow {
        id,
        name: "n".into(),
        schedule: "0 9 * * *".into(),
        prompt: "p".into(),
        agent_id: None,
        status: "active".into(),
        next_run_at: Some(0),
        last_run_at: None,
        project_id: None,
        kb_ids: vec![3],
        deliver_group_chat_id: None,
    };
    let me = ctx(Some(7), false);
    let out = list_automations(&me, dated(vec![(8, row(1)), (7, row(2))])).unwrap();
    assert_eq!(out.len(), 1);
    assert_eq!((out[0].id, out[0].next_run_at.as_deref()), (2, Some("1970-01-01T00:00:00Z")));
    assert!(list_automations(&ctx(None, true), Vec::new()).is_err());
    assert_eq!(get_automation(&me, Some(7), row(2)).unwrap().kb_ids, vec![3]);
    assert!(get_automation(&me, Some(8), row(2)).is_err());
    let run = |id: u128| RunRow {
        id,
        status: "done".into(),
        output_chat_id: None,
        error: None,
        started_at: 0,
        completed_at: None,
    };
    let runs = automations::list_runs(&me, Some(7), (0..120).map(run).collect()).unwrap();
    assert_eq!((runs.len(), runs[99].id), (100, 99));
    assert!(automations::list_runs(&me, None, Vec::new()).is_err());
}

#[test]
fn exports_are_listed_for_who_asked() {
    let row = |id: u128| ExportRecord {
        id,
        kind: "chat".into(),
        status: "ready".into(),
        format: "json".into(),
        target_id: None,
        filename: None,
        error: None,
        created_at: 0,
        completed_at: None,
    };
    let me = ctx(Some(7), false);
    let rows: Vec<(u128, ExportRecord)> = (0..250u128).map(|i| (7 + i % 2, row(i))).collect();
    let out = list_exports(&me, rows).unwrap();
    assert_eq!((out.len(), out[0].id, out[99].id), (100, 0, 198));
    let made = |id: u128, at: i128| (7, ExportRecord { created_at: at, ..row(id) });
    let out = list_exports(&me, vec![made(1, 5), made(2, 9), made(3, 7), made(4, 9)]).unwrap();
    assert_eq!(out.iter().map(|e| e.id).collect::<Vec<u128>>(), vec![2, 4, 3, 1]);
    assert!(list_exports(&ctx(None, true), Vec::new()).is_err());
    assert!(get_export(&me, Some(7), row(1)).unwrap().created_at.starts_with("1970-01-01"));
    assert!(get_export(&me, Some(8), row(1)).is_err());
}

#[test]
fn a_run_is_shown_with_what_was_written_down_of_it() {
    let run = |id: u128| RunSummary {
        id,
        status: "running".into(),
        step_count: 1,
        agent_id: None,
        pending_tool: None,
        created_epoch: 0,
        finished_epoch: None,
    };
    let note = |text: &str| {
        let mut m = serde_json::Map::new();
        m.insert("run_id".into(), serde_json::Value::from(text));
        Some(serde_json::Value::Object(m))
    };
    let event = |action: &str, payload: Option<serde_json::Value>| RunEvent {
        action: action.into(),
        occurred_epoch: None,
        payload,
    };
    let trail = || {
        vec![
            event("agent.started", note("00000000-0000-0000-0000-000000000005")),
            event("other", None),
            event("elsewhere", note("00000000-0000-0000-0000-000000000006")),
            event("agent.done", note("00000000-0000-0000-0000-000000000005")),
        ]
    };
    let me = ctx(Some(7), false);
    let out = agent_runs::get_run(&me, Some(7), run(5), Some(9), numbered(trail())).unwrap();
    let names: Vec<&str> = out.events.iter().map(|e| e.action.as_str()).collect();
    assert_eq!(names, vec!["agent.started", "agent.done"]);
    assert_eq!(out.chat_id, Some(9));
    assert!(agent_runs::get_run(&me, Some(8), run(5), None, numbered(trail())).is_err());
    let chat = || Some(ReadableChat { owner_user_id: 7, project_id: None, title: "t".into() });
    let rows: Vec<(Option<u128>, RunSummary)> =
        (0..120u128).map(|i| (if i % 2 == 0 { Some(9) } else { None }, run(i))).collect();
    let shown = agent_runs::list_runs(&me, chat(), false, false, dated(rows), 9).unwrap();
    assert_eq!((shown.len(), shown[49].id), (50, 98));
    assert!(agent_runs::list_runs(&ctx(Some(8), false), chat(), false, false, Vec::new(), 9).is_err());
}

#[test]
fn signing_out_withdraws_the_session_that_was_sent() {
    let config = CookieConfig { name: "sid".into(), public_url: "http://a".into(), session_ttl_secs: 60 };
    let out = logout(Some("a=b; sid=tok"), &config, Some(7));
    assert_eq!(out.revoke.as_deref(), Some("tok"));
    assert!(out.event.is_some());
    assert_eq!(out.cookie, "sid=; HttpOnly; SameSite=Lax; Path=/; Max-Age=0");
    let out = logout(Some("a=b"), &config, None);
    assert!(out.revoke.is_none() && out.event.is_none());
    let doc = mfa_status(AuthMode::Local, &ctx(Some(7), false), true, 8).unwrap();
    assert_eq!(doc["enabled"], true);
    assert_eq!(doc["recovery_remaining"], 8);
    assert!(mfa_status(AuthMode::Keycloak, &ctx(Some(7), false), true, 8).is_err());
    assert!(mfa_status(AuthMode::Local, &ctx(None, true), true, 8).is_err());
}

#[test]
fn a_deleted_fact_leaves_its_index() {
    let row = || Some(FactRow { scope: "user".into(), owner_user_id: Some(7), owner_project_id: None });
    assert_eq!(
        delete_fact(&ctx(Some(7), false), &row(), stranger()).unwrap().as_deref(),
        Some("user_00000000-0000-0000-0000-000000000007")
    );
    assert!(delete_fact(&ctx(Some(8), false), &row(), writer()).is_err());
    assert!(delete_fact(&ctx(Some(8), false), &None, writer()).is_err());
    let shared = || Some(FactRow { scope: "project".into(), owner_user_id: None, owner_project_id: Some(3) });
    assert!(delete_fact(&ctx(Some(8), false), &shared(), reader()).is_err());
    assert!(delete_fact(&ctx(Some(8), false), &shared(), writer()).is_ok());
    assert!(recall_facts(Some(1), stranger()).is_err());
    assert!(recall_facts(Some(1), reader()).is_ok());
    assert!(recall_facts(None, stranger()).is_ok());
}

#[test]
fn what_was_made_in_a_chat_is_listed() {
    let entry = |id: u128, chat_id: u128| ArtefactEntry {
        chat_id,
        out: ArtefactOut {
            id,
            kind: "md".into(),
            title: "t".into(),
            mime: "m".into(),
            message_id: None,
            chat_mode: Some("normal".into()),
        },
    };
    let chat = Some(ChatRow { owner_user_id: 7, project_id: None });
    let rows = || vec![entry(1, 5), entry(2, 6), entry(3, 5)];
    let out = list_artefacts(&ctx(Some(7), false), chat, stranger(), dated(rows()), 5).unwrap();
    let ids: Vec<u128> = out.iter().map(|a| a.id).collect();
    assert_eq!(ids, vec![1, 3]);
    assert_eq!(out[0].chat_mode.as_deref(), Some("normal"));
    assert!(list_artefacts(&ctx(Some(8), false), chat, reader(), dated(rows()), 5).is_err());
    let shared = Some(ChatRow { owner_user_id: 7, project_id: Some(3) });
    assert!(list_artefacts(&ctx(Some(8), false), shared, reader(), dated(rows()), 5).is_ok());
    assert!(list_artefacts(&ctx(Some(8), false), shared, stranger(), dated(rows()), 5).is_err());
    let v = AgentVersion {
        version_number: 3,
        source: "edit".into(),
        name: "n".into(),
        description: None,
        system_prompt: "p".into(),
        params: serde_json::Value::Null,
        tools: serde_json::Value::Null,
        project_knowledge_ids: serde_json::Value::Null,
        created_by: Some(7),
    };
    let history = list_agent_versions(vec![(v, 0)]);
    assert_eq!((history[0].version_number, history[0].created_at.as_str()), (3, "1970-01-01T00:00:00Z"));
}

#[test]
fn a_search_does_not_find_what_is_private() {
    let m = |id: u128, kind: &str, member: bool, content_encrypted: bool| FoundMessage {
        chat_kind: kind.into(),
        member,
        content_encrypted,
        hit: SearchHit { chat_id: 1, id, seq: 1, content: "tea".into() },
    };
    let rows = || {
        vec![
            m(1, "group", true, false),
            m(2, "dm", true, false),
            m(3, "group", true, true),
            m(4, "group", false, false),
            m(5, "project", true, false),
        ]
    };
    let ids = |limit: i64| -> Vec<u128> { search_hits(rows(), limit).iter().map(|h| h.id).collect() };
    assert_eq!(ids(50), vec![1, 5]);
    assert_eq!(ids(1), vec![1]);
}

#[test]
fn a_chat_between_two_goes_by_the_other() {
    let row = |kind: &str| ChatInfo {
        id: 1,
        kind: kind.into(),
        name: Some("Team".into()),
        other_member: Some("Ada".into()),
        project_id: None,
    };
    let members = || vec![MemberOut { user_id: 7, role: "owner".into() }];
    let me = ctx(Some(7), false);
    let chat = get_chat(true, &me, Some("member".into()), row("dm"), members()).unwrap();
    assert_eq!(chat.name.as_deref(), Some("Ada"));
    let chat = get_chat(true, &me, Some("member".into()), row("group"), members()).unwrap();
    assert_eq!((chat.name.as_deref(), chat.members.len()), (Some("Team"), 1));
    assert!(matches!(get_chat(true, &me, None, row("dm"), members()), Err(AppError::Forbidden(_))));
}

#[test]
fn the_directory_of_knowledge_bases_is_for_leads() {
    let row = |id: u128, origin_project_id: Option<u128>, archived: bool| KnowledgeBaseRow {
        id,
        origin_project_id,
        name: "Law".into(),
        status: "ready".into(),
        archived,
    };
    let rows = || vec![row(1, Some(9), false), row(2, None, false), row(3, None, true)];
    let lead = AuthContext { role: PlatformRole::PowerUser, ..ctx(Some(7), false) };
    let out = list_project_knowledge(&lead, rows()).unwrap();
    let ids: Vec<(u128, u128)> = out.iter().map(|e| (e.id, e.project_id)).collect();
    assert_eq!(ids, vec![(1, 9), (2, 2)]);
    assert!(list_project_knowledge(&ctx(Some(7), true), rows()).is_err());
}

#[test]
fn waiting_runs_are_listed_for_whom_they_act() {
    let run = |id: u128, acting_user_id: u128, status: &str| ActingRun {
        acting_user_id,
        status: status.into(),
        run: PendingRow {
            id,
            pending_tool: None,
            pending_args: None,
            automation_name: None,
            chat_title: None,
            created_epoch: 0,
        },
    };
    let rows = || vec![run(1, 7, "awaiting_approval"), run(2, 8, "awaiting_approval"), run(3, 7, "running")];
    let seen = list_pending(&ctx(Some(7), false), dated(rows()));
    assert_eq!((seen.len(), seen[0].run_id, seen[0].context.as_str()), (1, 1, "Chat"));
    assert!(list_pending(&ctx(None, true), dated(rows())).is_empty());
    let many = (0..80).map(|i| run(i, 7, "awaiting_approval")).collect();
    let seen = list_pending(&ctx(Some(7), false), dated(many));
    assert_eq!((seen.len(), seen[0].run_id, seen[49].run_id), (50, 0, 49));
}
