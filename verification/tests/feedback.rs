use fosnie::grants::Permissions;
use fosnie::http::feedback::{
    agent_summary, delete_feedback, feedback_item, get_feedback, list_feedback, require_message_access,
    submit_feedback, AgentRating, FeedbackListQuery, FeedbackRow, RatedMessage, RatingRow,
    StoredFeedback, SubmitFeedback,
};
use fosnie::order::Dated;
use fosnie::{AppError, AuthContext, PlatformRole};

/// Items that are given the newest first, stored the other way round.
fn dated<T>(items: Vec<T>) -> Vec<Dated<T>> {
    let mut rows: Vec<Dated<T>> =
        items.into_iter().enumerate().map(|(i, item)| Dated { at: 10_000 - i as i128, item }).collect();
    rows.reverse();
    rows
}

fn permitted() -> Permissions {
    Permissions {
        announcements_manage: None,
        config_manage: None,
        feedback_view: None,
        groundedness_view: None,
        mcp_manage: None,
        telephony_manage: None,
        users_manage: None,
        users_view: None,
    }
}

fn ctx(id: Option<u128>, role: PlatformRole) -> AuthContext {
    AuthContext {
        user_id: id,
        role,
        admin: false,
        break_glass: false,
        mfa_enroll_only: false,
    }
}

fn answer(project: Option<u128>) -> Option<RatedMessage> {
    Some(RatedMessage {
        role: "assistant".into(),
        owner_user_id: 7,
        agent_id: Some(3),
        project_id: project,
    })
}

fn up(comment: Option<&str>) -> SubmitFeedback {
    SubmitFeedback { rating: "up".into(), comment: comment.map(|c| c.to_string()) }
}

fn told<T>(r: Result<T, AppError>) -> String {
    match r {
        Err(AppError::Validation(m)) => m,
        Err(AppError::Forbidden(m)) => m,
        _ => panic!("not refused"),
    }
}

#[test]
fn answers_are_rated_by_those_who_read_them() {
    let me = ctx(Some(7), PlatformRole::User);
    let other = ctx(Some(8), PlatformRole::User);
    assert_eq!(require_message_access(&me, answer(None), false).unwrap(), Some(3));
    assert!(require_message_access(&other, answer(Some(2)), true).is_ok());
    assert_eq!(
        told(require_message_access(&other, answer(None), true)),
        "not permitted to rate this message"
    );
    let question = RatedMessage { role: "user".into(), owner_user_id: 7, agent_id: None, project_id: None };
    assert_eq!(
        told(require_message_access(&me, Some(question), false)),
        "feedback is only for assistant messages"
    );
    assert_eq!(told(require_message_access(&me, None, false)), "message not found");
}

#[test]
fn rating_again_keeps_the_comment() {
    let me = ctx(Some(7), PlatformRole::User);
    let stored = || StoredFeedback {
        id: 5,
        rating: "down".into(),
        comment: Some("meh".into()),
        agent_id: None,
        model: None,
    };
    let s =
        submit_feedback(&me, up(None), answer(None), false, Some("m".into()), Some(stored()), 9).unwrap();
    assert_eq!((s.answer.id, s.answer.rating.as_str(), s.answer.comment), (5, "up", None));
    let (who, f) = (s.user_id, s.stored);
    assert_eq!((who, f.id, f.rating.as_str(), f.comment.as_deref()), (7, 5, "up", Some("meh")));
    assert_eq!((f.agent_id, f.model.as_deref()), (Some(3), Some("m")));
    let s = submit_feedback(&me, up(Some("ok")), answer(None), false, None, Some(stored()), 9).unwrap();
    assert_eq!(s.answer.comment.as_deref(), Some("ok"));
    assert_eq!(s.stored.comment.as_deref(), Some("ok"));
    let f = submit_feedback(&me, up(None), answer(None), false, None, None, 9).unwrap().stored;
    assert_eq!((f.id, f.comment), (9, None));
    let bad = SubmitFeedback { rating: "sideways".into(), comment: None };
    assert_eq!(
        told(submit_feedback(&me, bad, answer(None), false, None, None, 9)),
        "rating must be up|down"
    );
}

#[test]
fn ratings_are_counted() {
    let me = ctx(Some(7), PlatformRole::User);
    let row = |id: u128, user: u128, rating: &str| RatingRow {
        id,
        user_id: user,
        rating: rating.into(),
        comment: None,
    };
    let rows = vec![row(1, 7, "down"), row(2, 8, "up"), row(3, 9, "up")];
    let f = get_feedback(&me, answer(None), false, &rows).unwrap();
    assert_eq!((f.up, f.down), (2, 1));
    assert_eq!(f.mine.unwrap().id, 1);
    assert_eq!(delete_feedback(&me).unwrap(), 7);
    assert!(delete_feedback(&ctx(None, PlatformRole::User)).is_err());
}

#[test]
fn analytics_are_for_leads() {
    let row = |agent: u128, rating: &str, message_id: u128| AgentRating {
        agent_id: Some(agent),
        rating: rating.into(),
        message_id,
        comment: None,
    };
    let rows = || {
        let mut all: Vec<AgentRating> = (0..25).map(|i| row(3, "down", i)).collect();
        all.push(row(3, "up", 90));
        all.push(row(4, "up", 91));
        all
    };
    let s = agent_summary(&ctx(Some(7), PlatformRole::PowerUser), 3, dated(rows())).unwrap();
    assert_eq!((s.up, s.down, s.total), (1, 25, 26));
    assert_eq!((s.recent_negative.len(), s.recent_negative[19].message_id), (20, 19));
    assert_eq!(
        told(agent_summary(&ctx(Some(7), PlatformRole::User), 3, dated(rows()))),
        "feedback analytics are power-user/admin only"
    );
}

#[test]
fn an_unknown_rating_filters_nothing() {
    let q = |r: Option<&str>| FeedbackListQuery { rating: r.map(|x| x.to_string()) };
    let row = |id: u128, rating: &str| FeedbackRow {
        id,
        rating: rating.into(),
        comment: None,
        user_email: None,
        agent_name: None,
        model: None,
        excerpt: None,
        created_at: 0,
    };
    let rows = || vec![row(1, "up"), row(2, "down"), row(3, "up")];
    let ids = |r: Option<&str>| -> Vec<u128> {
        list_feedback(&q(r), permitted(), rows()).unwrap().iter().map(|f| f.id).collect()
    };
    assert_eq!(ids(Some("up")), vec![1, 3]);
    assert_eq!(ids(Some("down")), vec![2]);
    assert_eq!(ids(Some("x")), vec![1, 2, 3]);
    assert_eq!(ids(None), vec![1, 2, 3]);
    let many = (0..300).map(|i| row(i, "up")).collect();
    assert_eq!(list_feedback(&q(None), permitted(), many).unwrap().len(), 200);
    let p = Permissions { feedback_view: Some(AppError::Forbidden("no".into())), ..permitted() };
    assert!(list_feedback(&q(None), p, rows()).is_err());
    let item = feedback_item(FeedbackRow {
        id: 1,
        rating: "up".into(),
        comment: None,
        user_email: None,
        agent_name: None,
        model: None,
        excerpt: None,
        created_at: 0,
    });
    assert_eq!((item.message_excerpt.as_str(), item.created_at.as_str()), ("", "1970-01-01T00:00:00Z"));
}
