use fosnie::grants::Permissions;
use fosnie::http::announcements::{
    create_announcement, default_severity, default_true, delete_announcement, list_announcements, read_welcome, set_welcome, shown_welcome, update_announcement, validate_severity, validate_text, AnnouncementOut, CreateAnnouncement, SetWelcome, UpdateAnnouncement, WelcomeOut,
};
use fosnie::AppError;

fn permitted() -> Permissions {
    Permissions {
        announcements_manage: None,
        config_manage: None,
        feedback_view: None,
        groundedness_view: None,
        mcp_manage: None,
        telephony_manage: None,
        users_manage: None,
        users_view: None,
    }
}

fn told<T>(r: Result<T, AppError>) -> String {
    match r {
        Err(AppError::Validation(m)) => m,
        _ => panic!("not refused"),
    }
}

#[test]
fn text_is_trimmed_and_bounded() {
    assert_eq!(validate_text("  hello\tthere\n", 20, "content").unwrap(), "hello\tthere");
    assert_eq!(told(validate_text("   ", 20, "content")), "content must not be empty");
    assert_eq!(told(validate_text("ééééé", 4, "title")), "title must be ≤ 4 characters");
    assert!(validate_text("éééé", 4, "title").is_ok());
    assert_eq!(told(validate_text("a\u{7}b", 20, "body")), "body contains control characters");
}

#[test]
fn severities_are_four() {
    for s in ["info", "success", "warning", "error"] {
        assert_eq!(validate_severity(s).unwrap(), s);
    }
    assert_eq!(told(validate_severity("panic")), "severity must be info|success|warning|error");
    assert_eq!(default_severity(), "info");
    assert!(default_true());
}

#[test]
fn a_banner_is_made_and_changed() {
    let a = create_announcement(
        permitted(),
        1,
        CreateAnnouncement {
            content: " Down at noon ".into(),
            severity: "warning".into(),
            dismissible: true,
            active: true,
            sort_order: 2,
        },
    )
    .unwrap();
    assert_eq!(a.content, "Down at noon");
    let change = UpdateAnnouncement {
        content: None,
        severity: Some("error".into()),
        dismissible: None,
        active: Some(false),
        sort_order: None,
    };
    let b: AnnouncementOut = update_announcement(permitted(), Some(a), change).unwrap();
    assert_eq!((b.content.as_str(), b.severity.as_str()), ("Down at noon", "error"));
    assert!(!b.active && b.dismissible);
    let change = UpdateAnnouncement {
        content: None,
        severity: None,
        dismissible: None,
        active: None,
        sort_order: None,
    };
    assert_eq!(told(update_announcement(permitted(), None, change)), "no announcement with that id");
    assert_eq!(told(delete_announcement(permitted(), false)), "no announcement with that id");
    assert!(delete_announcement(permitted(), true).is_ok());
    let viewer = || Permissions { announcements_manage: Some(AppError::Forbidden("no".into())), ..permitted() };
    assert!(matches!(delete_announcement(viewer(), true), Err(AppError::Forbidden(m)) if m == "no"));
    let at = |id: u128, sort_order: i32| AnnouncementOut {
        id,
        content: "c".into(),
        severity: "info".into(),
        dismissible: true,
        active: false,
        sort_order,
    };
    let all = list_announcements(permitted(), vec![at(1, 5), at(2, -1), at(3, 5)]).unwrap();
    assert_eq!(all.iter().map(|a| a.id).collect::<Vec<u128>>(), vec![2, 1, 3]);
    assert!(list_announcements(viewer(), Vec::new()).is_err());
    let w = SetWelcome { enabled: false, title: "".into(), body: "".into() };
    assert!(matches!(set_welcome(viewer(), &w), Err(AppError::Forbidden(m)) if m == "no"));
}

#[test]
fn a_greeting_that_is_switched_on_is_shown() {
    let body = SetWelcome { enabled: true, title: " Hi ".into(), body: " There ".into() };
    let w = set_welcome(permitted(), &body).unwrap();
    assert_eq!(w.title, "Hi");
    assert!(shown_welcome(w).is_some());
    assert_eq!(
        told(set_welcome(permitted(), &SetWelcome { enabled: true, title: "Hi".into(), body: " ".into() })),
        "body must not be empty"
    );
    let off = set_welcome(permitted(), &SetWelcome { enabled: false, title: "".into(), body: "".into() }).unwrap();
    assert!(shown_welcome(off).is_none());
    let stored = read_welcome(Some("true".into()), Some("Hi".into()), None);
    assert!(stored.enabled);
    assert!(shown_welcome(stored).is_none());
    assert!(!read_welcome(Some("yes".into()), None, None).enabled);
    assert!(!WelcomeOut::default().enabled);
}
