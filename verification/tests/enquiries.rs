use fosnie::grants::Permissions;
use fosnie::http::enquiries::{
    list_all, list_mine, may_read_body, page, page_limit, set_handled, EnquiryQuery, EnquiryRow,
    Handled,
};
use fosnie::{AppError, AuthContext, PlatformRole};

fn permitted() -> Permissions {
    Permissions {
        announcements_manage: None,
        config_manage: None,
        feedback_view: None,
        groundedness_view: None,
        mcp_manage: None,
        telephony_manage: None,
        users_manage: None,
        users_view: None,
    }
}

fn ctx(id: Option<u128>, admin: bool) -> AuthContext {
    AuthContext {
        user_id: id,
        role: PlatformRole::User,
        admin,
        break_glass: false,
        mfa_enroll_only: false,
    }
}

fn row(id: u128, owner: u128, at: i128, handled: bool) -> EnquiryRow {
    EnquiryRow {
        id,
        kind: "message".into(),
        urgency: "normal".into(),
        handled,
        call_id: None,
        chat_id: None,
        number_id: None,
        call_number_id: Some(owner),
        to_e164: None,
        owner_user_id: owner,
        created_at: at,
        created_epoch: 0,
        handled_epoch: None,
        subject: Some("s".into()),
        body: Some("b".into()),
        caller_e164: Some("+44".into()),
        caller_name: Some("n".into()),
        contact: Some("c".into()),
        for_whom: Some("w".into()),
        details: Some(serde_json::Value::Bool(true)),
    }
}

fn query() -> EnquiryQuery {
    EnquiryQuery { open: None, number_id: None, before: None, limit: None }
}

fn rows() -> Vec<EnquiryRow> {
    vec![row(4, 7, 40, false), row(3, 8, 30, true), row(2, 7, 30, true), row(1, 8, 10, false)]
}

fn ids(v: &[fosnie::http::enquiries::EnquiryOut]) -> Vec<u128> {
    v.iter().map(|e| e.id).collect()
}

#[test]
fn a_manager_sees_that_there_is_a_message_and_not_what_it_says() {
    let out = list_all(&ctx(Some(7), false), &query(), permitted(), rows()).unwrap();
    assert_eq!(ids(&out), vec![4, 3, 2, 1]);
    assert!(out[0].body.is_some() && out[0].details.is_some());
    assert!(out[1].subject.is_none() && out[1].body.is_none() && out[1].caller_e164.is_none());
    assert!(out[1].caller_name.is_none() && out[1].contact.is_none());
    assert!(out[1].for_whom.is_none() && out[1].details.is_none());
    assert_eq!(out[0].to_e164, "");
    let refused = Permissions { telephony_manage: Some(AppError::Forbidden("no".into())), ..permitted() };
    assert!(list_all(&ctx(Some(7), false), &query(), refused, rows()).is_err());
    assert!(may_read_body(&ctx(Some(9), true), 7));
    assert!(!may_read_body(&ctx(Some(9), false), 7));
}

#[test]
fn one_s_own_messages_need_no_permission() {
    let out = list_mine(&ctx(Some(7), false), &query(), rows());
    assert_eq!(ids(&out), vec![4, 2]);
    assert!(list_mine(&ctx(None, false), &query(), rows()).is_empty());
}

#[test]
fn pages_are_narrowed() {
    let me = ctx(Some(7), true);
    let q = EnquiryQuery { open: Some(true), ..query() };
    assert_eq!(ids(&page(&me, &q, false, rows())), vec![4, 1]);
    let q = EnquiryQuery { open: Some(false), number_id: Some(8), ..query() };
    assert_eq!(ids(&page(&me, &q, false, rows())), vec![3, 1]);
    let q = EnquiryQuery { before: Some(3), ..query() };
    assert_eq!(ids(&page(&me, &q, false, rows())), vec![2, 1]);
    let q = EnquiryQuery { before: Some(9), ..query() };
    assert!(page(&me, &q, false, rows()).is_empty());
    let mut shuffled = rows();
    shuffled.rotate_left(2);
    assert_eq!(ids(&page(&me, &query(), false, shuffled)), vec![4, 3, 2, 1]);
    let q = EnquiryQuery { limit: Some(2), ..query() };
    assert_eq!(ids(&page(&me, &q, false, rows())), vec![4, 3]);
}

#[test]
fn a_page_has_bounds() {
    assert_eq!(page_limit(None), 50);
    assert_eq!(page_limit(Some(0)), 1);
    assert_eq!(page_limit(Some(1000)), 200);
}

#[test]
fn another_s_message_cannot_be_dealt_with() {
    let done = Handled { handled: true };
    assert_eq!(set_handled(&ctx(Some(7), false), Some(7), &done).unwrap(), Some(7));
    let undone = Handled { handled: false };
    assert_eq!(set_handled(&ctx(Some(7), false), Some(7), &undone).unwrap(), None);
    assert!(matches!(
        set_handled(&ctx(Some(8), false), Some(7), &done),
        Err(AppError::NotFound(m)) if m == "no such message"
    ));
    assert!(set_handled(&ctx(Some(8), true), None, &done).is_err());
}
