use fosnie::http::notify_targets::{
    audited_host, check_events, check_kind, create, host_of, list, require_target, sealed, stored_host,
    update, whose, EditTarget, NewTarget, StoredTarget, TEST_TEXT,
};
use fosnie::{AppError, AuthContext, PlatformRole};

fn user(id: u128) -> AuthContext {
    AuthContext {
        user_id: Some(id),
        role: PlatformRole::User,
        admin: false,
        break_glass: false,
        mfa_enroll_only: false,
    }
}

/// What a reader is shown about a stored address. Never the path, which is the secret
/// part of every incoming-webhook address.
#[test]
fn only_the_host_is_ever_shown() {
    assert_eq!(host_of("https://hooks.slack.test/services/T000/B000/xxxxSECRETxxxx"), "hooks.slack.test");
    assert_eq!(host_of("not a url"), "unreadable");
}

#[test]
fn targets_are_listed_by_their_host() {
    let row = |id: u128, owner: u128, url: Option<&str>| StoredTarget {
        id,
        owner_user_id: owner,
        label: "l".into(),
        kind: "slack".into(),
        url: url.map(|u| u.to_string()),
        events: vec!["message_taken".into()],
        enabled: true,
        created_epoch: 5,
    };
    let rows = || vec![row(1, 7, Some("https://hooks.test/secret")), row(2, 8, None), row(3, 7, None)];
    let out = list(&user(7), None, rows()).unwrap();
    let seen: Vec<(u128, &str)> = out.iter().map(|t| (t.id, t.host.as_str())).collect();
    assert_eq!(seen, vec![(1, "hooks.test"), (3, "unreadable")]);
    assert!(list(&user(7), Some(8), rows()).is_err());
}

#[test]
fn only_the_kinds_and_events_that_do_something_are_accepted() {
    assert!(check_kind("slack").is_ok());
    assert!(check_kind("teams").is_ok());
    assert!(check_kind("webhook").is_ok());
    assert!(check_kind("carrier-pigeon").is_err());
    assert!(check_events(&["message_taken".into(), "appointment_booked".into()]).is_ok());
    assert!(check_events(&["everything".into()]).is_err());
    assert!(check_events(&[]).is_ok(), "a target that takes nothing is allowed, and silent");
}

#[test]
fn a_target_is_arranged_by_its_owner() {
    let body = NewTarget {
        owner_user_id: None,
        label: " Front desk ".into(),
        kind: "slack".into(),
        url: " https://hooks.slack.test/x ".into(),
        events: vec!["message_taken".into()],
        enabled: true,
    };
    let plan = create(&user(7), &body, None).unwrap();
    assert_eq!(plan.owner, 7);
    assert_eq!(plan.label, "Front desk");
    assert_eq!(plan.url, "https://hooks.slack.test/x");
    assert!(create(&user(7), &body, Some(AppError::Validation("bad".into()))).is_err());
    assert!(whose(&user(7), Some(8)).is_err());
    assert_eq!(whose(&user(7), None).unwrap(), 7);
}

#[test]
fn another_account_s_target_is_not_found() {
    assert!(matches!(
        require_target(&user(7), Some(8)),
        Err(AppError::NotFound(m)) if m == "no such notification target"
    ));
    assert!(require_target(&user(7), Some(7)).is_ok());
    assert!(require_target(&user(7), None).is_err());
    let sent = fosnie::http::notify_targets::test(&user(7), 5, Some(7)).unwrap();
    assert_eq!(sent["event"], "message_taken");
    assert_eq!(sent["text"], TEST_TEXT);
    assert_eq!(sent["target_id"], "00000000-0000-0000-0000-000000000005");
    assert!(fosnie::http::notify_targets::test(&user(8), 5, Some(7)).is_err());
}

#[test]
fn a_change_keeps_what_is_not_given() {
    let body = EditTarget { label: None, url: None, events: None, enabled: Some(false) };
    let c = update(&user(7), Some(7), &body, None).unwrap();
    assert!(c.label.is_none());
    assert!(c.url.is_none());
    let body = EditTarget {
        label: None,
        url: None,
        events: Some(vec!["everything".into()]),
        enabled: None,
    };
    assert!(update(&user(7), Some(7), &body, None).is_err());
}

#[test]
fn the_trail_names_the_host_alone() {
    assert_eq!(audited_host("https://hooks.slack.test/secret").as_deref(), Some("hooks.slack.test"));
    assert_eq!(audited_host(""), None);
    assert_eq!(stored_host(Some("https://hooks.slack.test/secret".into())), "hooks.slack.test");
    assert!(sealed(None).is_err());
    assert_eq!(sealed(Some("x".into())).unwrap(), "x");
}
