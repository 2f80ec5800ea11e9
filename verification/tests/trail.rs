use fosnie::http::{
    agents, announcements, api_keys, artefacts, auth, automations, chats, conflict_names, desktop, devices, diary,
    documents, export, feedback, groundedness, kb, mcp_admin, mcp_oauth, memory, messaging, notify_targets, profile,
    prompts,
};
use fosnie::trail::{ActorRole, AuditEvent};
use fosnie::{AuthContext, PlatformRole};
use serde_json::Value;

const ID3: &str = "00000000-0000-0000-0000-000000000003";
const ID4: &str = "00000000-0000-0000-0000-000000000004";

fn user() -> AuthContext {
    AuthContext {
        user_id: Some(7),
        role: PlatformRole::PowerUser,
        admin: false,
        break_glass: false,
        mfa_enroll_only: false,
    }
}

/// Checks who did what to what, and gives back what was noted.
fn noted(e: AuditEvent, action: &str, kind: &str, id: Option<u128>) -> Value {
    assert_eq!(e.action, action);
    assert_eq!(e.role, ActorRole::Platform(PlatformRole::PowerUser));
    assert_eq!(e.actor_user_id, Some(7));
    assert_eq!(e.resource_type.as_deref(), Some(kind));
    assert_eq!(e.resource_id, id);
    assert!(!e.risk_anomaly_flag);
    e.payload.unwrap_or(Value::Null)
}

fn members(v: &Value) -> Vec<String> {
    let mut names: Vec<String> = v.as_object().unwrap().keys().cloned().collect();
    names.sort();
    names
}

#[test]
fn plain_changes_note_nothing_more() {
    let u = user();
    let nothing = Value::Null;
    assert_eq!(noted(agents::audit_agent(&u, "agent.updated", 3), "agent.updated", "agent", Some(3)), nothing);
    assert_eq!(
        noted(automations::audit_automation(&u, "automation.deleted", 3), "automation.deleted", "automation", Some(3)),
        nothing
    );
    assert_eq!(noted(chats::audit_chat(&u, "chat.renamed", 3), "chat.renamed", "chat", Some(3)), nothing);
    assert_eq!(
        noted(memory::audit_memory(&u, "memory.fact.edited", 3), "memory.fact.edited", "memory_fact", Some(3)),
        nothing
    );
    assert_eq!(noted(prompts::audit_prompt(&u, "prompt.invoked", 3), "prompt.invoked", "prompt", Some(3)), nothing);
    assert_eq!(
        noted(artefacts::downloaded_event(&u, 3), "artefact.downloaded", "artefact", Some(3)),
        nothing
    );
    assert_eq!(
        noted(conflict_names::removed_event(&u, 3), "telephony.conflict_list.removed", "conflict_list", Some(3)),
        nothing
    );
    assert_eq!(noted(profile::own_event(&u, "profile.updated", 7), "profile.updated", "user", Some(7)), nothing);
    assert_eq!(noted(messaging::created_event(&u, 3, 7), "chat.created", "group_chat", Some(3)), nothing);
    assert_eq!(
        noted(auth::password_changed_event(&u, 7), "user.password_changed", "user", Some(7)),
        nothing
    );
}

#[test]
fn a_login_notes_the_address_and_no_secret() {
    let e = auth::audit_login("auth.login_failed", None, "a@b.c");
    assert_eq!((e.role, e.actor_user_id, e.resource_id), (ActorRole::User, None, None));
    assert_eq!(members(&e.payload.unwrap()), vec!["email"]);
    assert!(auth::audit_login("auth.logout", Some(7), "").payload.is_none());
    let e = auth::audit_login_mfa("auth.login", Some(7), "a@b.c", Some(true));
    let v = e.payload.unwrap();
    assert_eq!(members(&v), vec!["email", "mfa"]);
    assert_eq!(v["mfa"], true);
}

#[test]
fn changes_to_a_second_factor_are_marked() {
    let e = auth::audit_mfa("auth.mfa_failed", 7, ActorRole::User, Some("bad_code"));
    assert!(e.risk_anomaly_flag);
    assert_eq!(e.outcome_reason.as_deref(), Some("bad_code"));
    assert!(e.payload.is_none());
    let e = auth::audit_mfa("auth.mfa_enrolled", 7, ActorRole::Platform(PlatformRole::User), None);
    assert_eq!((e.risk_anomaly_flag, e.outcome_reason), (true, None));
    assert!(profile::archived_event(&user(), 7).risk_anomaly_flag);
}

#[test]
fn keys_codes_and_secrets_stay_out() {
    let u = user();
    let k = api_keys::NewKey { user_id: 7, name: "ci".into(), expires_at: None };
    let v = noted(api_keys::created_event(&u, 3, &k, "pai_ab", Value::Null), "api.key.created", "api_key", Some(3));
    assert_eq!(members(&v), vec!["display_prefix", "expires_at", "name"]);
    assert_eq!(v["display_prefix"], "pai_ab");
    let v = noted(api_keys::revoked_event(&u, 3, "ci", 4), "api.key.revoked", "api_key", Some(3));
    assert_eq!((&v["name"], &v["owner_user_id"]), (&Value::from("ci"), &Value::from(ID4)));
    let e = devices::pairing_code_event(&u, 7, Value::from("later"));
    let v = noted(e, "device.pairing_code.created", "device_pairing_code", None);
    assert_eq!(members(&v), vec!["expires_at"]);
    let v = noted(devices::paired_event(&u, 7, 3, "mac", "macos", "pai_cd"), "device.paired", "device", Some(3));
    assert_eq!(members(&v), vec!["display_prefix", "name", "platform"]);
    let v = noted(devices::revoked_event(&u, 3, "mac", 7), "device.revoked", "device", Some(3));
    assert_eq!(v["name"], "mac");
}

#[test]
fn an_address_is_noted_by_its_host() {
    let events = vec!["message_taken".to_string()];
    let address = "https://hooks.test/token/path";
    let e = notify_targets::audit_target(&user(), "telephony.notify_target.created", 3, "slack", &events, address);
    let v = noted(e, "telephony.notify_target.created", "notify_target", Some(3));
    assert_eq!(v["host"], "hooks.test");
    assert_eq!(v["events"][0], "message_taken");
    assert!(!v.to_string().contains("token"));
    let e = notify_targets::audit_target(&user(), "telephony.notify_target.deleted", 3, "slack", &Vec::new(), "");
    let v = noted(e, "telephony.notify_target.deleted", "notify_target", Some(3));
    assert_eq!(members(&v), vec!["events", "kind"]);
}

#[test]
fn names_are_counted_and_not_named() {
    let wanted = conflict_names::Wanted { name: "Ada".into(), normalised: "ada".into() };
    let a = conflict_names::Addition { owner: 7, note: None, wanted: vec![wanted] };
    let n = conflict_names::Added { added: 0, already_there: 1 };
    let e = conflict_names::added_event(&user(), &a, &n);
    let v = noted(e, "telephony.conflict_list.added", "conflict_list", Some(7));
    assert_eq!((&v["added"], &v["offered"]), (&Value::from(0), &Value::from(1)));
    assert!(!v.to_string().contains("Ada"));
}

#[test]
fn messages_are_noted_without_their_words() {
    let e = messaging::sent_event(4, Some(7), 3, 12, "user");
    assert_eq!((e.action.as_str(), e.role), ("chat.message.sent", ActorRole::System));
    assert_eq!((e.actor_user_id, e.resource_id), (Some(7), Some(4)));
    let v = e.payload.unwrap();
    assert_eq!((&v["message_id"], &v["seq"], &v["type"]), (&Value::from(ID3), &Value::from(12), &Value::from("user")));
    let v = noted(messaging::member_added_event(&user(), 4, 3, "admin"), "chat.member.added", "group_chat", Some(4));
    assert_eq!((&v["user_id"], &v["role"]), (&Value::from(ID3), &Value::from("admin")));
    let v = noted(messaging::member_removed_event(&user(), 4, 3), "chat.member.removed", "group_chat", Some(4));
    assert_eq!(v["user_id"], ID3);
    let (kind, link) = messaging::post_chat_link(3, true);
    assert_eq!((kind, &link["chat_id"]), ("system", &Value::from(ID3)));
}

#[test]
fn documents_and_artefacts_are_noted_by_identifier() {
    let u = user();
    let v = noted(documents::accessed_event(&u, 3, 4, None), "document.accessed", "document", Some(3));
    assert_eq!(members(&v), vec!["version_id"]);
    let v = noted(documents::accessed_event(&u, 3, 4, Some("pdf")), "document.accessed", "document", Some(3));
    assert_eq!((&v["version_id"], &v["as"]), (&Value::from(ID4), &Value::from("pdf")));
    let v = noted(documents::blocked_event(&u, 3), "document.delete.blocked", "document", Some(3));
    assert_eq!(v["reason"], "legal_hold");
    let r = documents::Resolution { source: "user_accept", status: "accepted", event: "document.edit.accepted" };
    let v = noted(documents::resolved_event(&u, 3, &r, "12", 4), "document.edit.accepted", "document", Some(3));
    assert_eq!((&v["w_id"], &v["version_id"]), (&Value::from("12"), &Value::from(ID4)));
    let all = vec!["1".to_string(), "2".to_string()];
    let v = noted(documents::resolved_all_event(&u, 3, &r, &all, 4), "document.edit.accepted", "document", Some(3));
    assert_eq!(v["resolved"].as_array().unwrap().len(), 2);
    let v = noted(artefacts::converted_event(&u, 3, 4, "pdf", 7), "artefact.converted", "artefact", Some(3));
    assert_eq!((&v["from"], &v["to"]), (&Value::from(ID4), &Value::from("pdf")));
    let v = noted(artefacts::page_event(&u, 3, 4, 7), "artefact.page_created", "artefact", Some(3));
    assert_eq!(members(&v), vec!["chat_id", "from"]);
    let turns = artefacts::page_messages("write a page", "the report");
    assert_eq!((&turns[0]["role"], &turns[1]["content"]), (&Value::from("system"), &Value::from("the report")));
}

#[test]
fn exports_ratings_and_versions_are_noted() {
    let u = user();
    let v = noted(export::audit_export(&u, "requested", "chat", Some(3)), "export.requested", "export", Some(3));
    assert_eq!(v["kind"], "chat");
    let e = export::audit_export_sys("failed", "audit", 3, 7);
    assert_eq!((e.action.as_str(), e.role), ("export.failed", ActorRole::System));
    let e = feedback::rating_event(&u, "feedback.submitted", 7, 3, "up", None);
    let v = noted(e, "feedback.submitted", "message", Some(3));
    assert_eq!((&v["rating"], &v["agent_id"]), (&Value::from("up"), &Value::Null));
    let v = noted(agents::rolled_back_event(&u, 3, 2, 5), "agent.rolled_back", "agent", Some(3));
    assert_eq!((&v["restored_from"], &v["new_version"]), (&Value::from(2), &Value::from(5)));
    let v = noted(
        announcements::audit_announcement(&u, "announcement.created", 3, "info"),
        "announcement.created",
        "announcement",
        Some(3),
    );
    assert_eq!(v["severity"], "info");
    let v = noted(
        groundedness::exported_event(&u, 3, "md"),
        "groundedness.report.exported",
        "verification_run",
        Some(3),
    );
    assert_eq!(v["format"], "md");
}

#[test]
fn attaching_to_a_project_is_a_disclosure() {
    let v = kb::attached_note(kb::Place::Project(3));
    assert_eq!((&v["project_id"], &v["disclosure"]), (&Value::from(ID3), &Value::from(true)));
    let v = kb::attached_note(kb::Place::Chat(3));
    assert_eq!(members(&v), vec!["chat_id", "scope"]);
    assert_eq!(members(&kb::detached_note(kb::Place::Project(3))), vec!["project_id", "scope"]);
    assert_eq!(kb::walled_note(3)["reason"], "restricted");
    assert_eq!(kb::removed_note(3)["doc_id"], ID3);
    let n = kb::NewKb {
        owner: 7,
        name: "law".into(),
        description: None,
        visibility: "team",
        restricted: false,
        parent_child: false,
    };
    let v = noted(kb::created_event(&user(), 3, &n), "kb.created", "knowledge_base", Some(3));
    assert_eq!((&v["visibility"], &v["name"]), (&Value::from("team"), &Value::from("law")));
}

#[test]
fn servers_and_clients_are_noted_without_secrets() {
    let u = user();
    let body = mcp_admin::RegisterBody {
        slug: "wiki".into(),
        name: "Wiki".into(),
        transport: "http".into(),
        command: None,
        url: Some("https://wiki.test".into()),
        auth_type: Some("bearer".into()),
        auth_header_name: None,
        auth_value: Some("hush".into()),
        requires_egress: true,
    };
    let a = mcp_admin::ServerAuth {
        auth_type: "bearer".into(),
        header_name: Some("Authorization".into()),
        secret: Some("hush".into()),
    };
    let v = noted(mcp_admin::registered_event(&u, 3, &body, &a), "mcp.server.registered", "mcp_server", Some(3));
    assert_eq!(members(&v), vec!["auth_type", "requires_egress", "slug", "transport"]);
    assert!(!v.to_string().contains("hush"));
    let v = noted(mcp_admin::approved_event(&u, 3, 2, true), "mcp.server.approved", "mcp_server", Some(3));
    assert_eq!((&v["tools"], &v["auth"]), (&Value::from(2), &Value::from("oauth")));
    let v = noted(mcp_admin::approved_event(&u, 3, 2, false), "mcp.server.approved", "mcp_server", Some(3));
    assert_eq!(members(&v), vec!["tools"]);
    let v = noted(mcp_oauth::changed_event(&u, 3, "client_deleted"), "mcp.oauth.config_changed", "mcp_server", Some(3));
    assert_eq!(v["action"], "client_deleted");
}

#[test]
fn the_diary_notes_its_shape() {
    let d = diary::SetDiary {
        owner_user_id: None,
        timezone: "Europe/London".into(),
        slot_minutes: 30,
        lead_minutes: 0,
        horizon_days: 30,
        enabled: true,
        hours: Vec::new(),
    };
    let v = noted(diary::updated_event(&user(), 7, &d), "telephony.diary.updated", "diary", Some(7));
    assert_eq!((&v["slot_minutes"], &v["periods"]), (&Value::from(30), &Value::from(0)));
    let v = noted(diary::cancelled_event(&user(), 3, 4), "telephony.appointment.cancelled", "appointment", Some(3));
    assert_eq!((&v["owner_user_id"], &v["by"]), (&Value::from(ID4), &Value::from("interface")));
}

#[test]
fn installers_come_and_go_on_record() {
    let meta = desktop::InstallerMeta {
        version: "1.2.3".into(),
        filename: "setup.exe".into(),
        size: 4,
        sha256: "ab".into(),
        uploaded_at: "now".into(),
        signature: None,
        notes: None,
        pub_date: None,
    };
    let up = desktop::Accepted { kind: desktop::Kind::Installer, version: "1.2.3".into(), name: "setup.exe".into() };
    let e = desktop::uploaded_event(&user(), &up, &meta);
    assert_eq!((e.action.as_str(), e.actor_user_id, e.resource_id), ("desktop.installer_uploaded", None, None));
    let v = e.payload.unwrap();
    assert_eq!((&v["kind"], &v["filename"]), (&Value::from("installer"), &Value::from("setup.exe")));
    let e = desktop::clear(&user(), &Some(meta)).unwrap();
    assert_eq!(e.action, "desktop.installer_removed");
    assert_eq!(e.payload.unwrap()["version"], "1.2.3");
    assert!(desktop::clear(&user(), &None).is_none());
}
