use fosnie::http::chats::{
    chat_share_out, list_chats, list_messages, rename_chat, require_chat_write, revoke_chat_share,
    share_chat, AttachmentOut, ChatRow, ChatShareRow, ListChatsParams, MessageRow, RenameChat,
};
use fosnie::http::export::ReadableChat;
use fosnie::{AppError, AuthContext, PlatformRole};

fn ctx(id: Option<u128>, admin: bool) -> AuthContext {
    AuthContext {
        user_id: id,
        role: PlatformRole::User,
        admin,
        break_glass: false,
        mfa_enroll_only: false,
    }
}

fn chat(id: u128, mode: &str, origin: &str) -> ChatRow {
    ChatRow {
        id,
        owner_user_id: 7,
        archived: false,
        title: "t".into(),
        project_id: None,
        agent_id: None,
        created_at: 10 - id as i128,
        mode: mode.into(),
        research_params: None,
        origin: origin.into(),
    }
}

fn rows() -> Vec<ChatRow> {
    vec![
        chat(1, "general", "web"),
        chat(2, "research", "web"),
        chat(3, "general", "api"),
        chat(4, "legal", "desktop"),
    ]
}

fn ids(mode: Option<&str>) -> Vec<u128> {
    let p = ListChatsParams { mode: mode.map(|m| m.to_string()) };
    list_chats(&ctx(Some(7), false), &p, rows()).unwrap().iter().map(|c| c.id).collect()
}

#[test]
fn research_is_listed_where_it_is_asked_for() {
    assert_eq!(ids(None), vec![1, 4]);
    assert_eq!(ids(Some("research")), vec![2]);
    assert_eq!(ids(Some("general")), vec![1]);
    let p = ListChatsParams { mode: Some("poetry".into()) };
    assert!(matches!(
        list_chats(&ctx(Some(7), false), &p, rows()),
        Err(AppError::Validation(m)) if m == "unknown chat mode 'poetry'"
    ));
    assert!(list_chats(&ctx(None, false), &ListChatsParams::default(), rows()).is_err());
}

#[test]
fn conversations_are_listed_to_their_owner_newest_first() {
    let list = |who: u128, rows: Vec<ChatRow>| -> Vec<u128> {
        let p = ListChatsParams::default();
        list_chats(&ctx(Some(who), true), &p, rows).unwrap().iter().map(|c| c.id).collect()
    };
    let at = |id: u128, when: i128| ChatRow { created_at: when, ..chat(id, "general", "web") };
    let gone = ChatRow { archived: true, ..at(4, 40) };
    let other = ChatRow { owner_user_id: 8, ..at(5, 50) };
    assert_eq!(list(7, vec![at(1, 10), at(2, 30), gone, other, at(3, 30)]), vec![2, 3, 1]);
    assert!(list(9, vec![at(1, 10)]).is_empty());
}

fn message(id: u128, seq: i32, role: &str, completed: bool) -> MessageRow {
    MessageRow {
        id,
        role: role.into(),
        content: "c".into(),
        sequence_number: seq,
        created_at: 0,
        activity: None,
        groundedness: None,
        completed,
        interrupted: false,
        review_decision: None,
    }
}

fn file(id: u128) -> AttachmentOut {
    AttachmentOut { id, filename: "f".into(), mime: "m".into(), byte_size: 1 }
}

#[test]
fn messages_come_oldest_first_with_what_belongs_to_them() {
    let rows = vec![
        message(11, 1, "user", false),
        message(13, 3, "system", true),
        message(12, 2, "assistant", false),
    ];
    let chat = || Some(ReadableChat { owner_user_id: 7, project_id: None, title: "t".into() });
    let none: Vec<(u128, &str)> = Vec::new();
    assert!(list_messages(&ctx(Some(8), false), chat(), false, false, Vec::new(), Vec::new(), none).is_err());
    let out = list_messages(
        &ctx(Some(7), false),
        chat(),
        false,
        false,
        rows,
        vec![(11, file(1)), (12, file(2)), (11, file(3))],
        vec![(12, "cite")],
    )
    .unwrap();
    assert_eq!(out.len(), 2);
    assert_eq!(out[0].id, 11);
    assert!(!out[0].streaming);
    assert!(out[1].streaming);
    let files: Vec<u128> = out[0].attachments.iter().map(|f| f.id).collect();
    assert_eq!(files, vec![1, 3]);
    assert_eq!(out[1].attachments[0].id, 2);
    assert_eq!(out[1].citations, vec!["cite"]);
    assert_eq!(out[0].created_at, "1970-01-01T00:00:00Z");
}

#[test]
fn the_newest_of_a_long_conversation_are_loaded() {
    let rows: Vec<MessageRow> = (1..=1002).map(|n| message(n as u128, n, "user", true)).collect();
    let chat = Some(ReadableChat { owner_user_id: 7, project_id: None, title: "t".into() });
    let none: Vec<(u128, &str)> = Vec::new();
    let out = list_messages(&ctx(Some(7), false), chat, false, false, rows, Vec::new(), none).unwrap();
    assert_eq!((out.len(), out[0].sequence_number, out[999].sequence_number), (1000, 3, 1002));
}

#[test]
fn a_chat_is_renamed_by_its_owner() {
    let body = RenameChat { title: "  New  ".into() };
    assert_eq!(rename_chat(&ctx(Some(7), false), Some(7), &body).unwrap(), "New");
    assert!(rename_chat(&ctx(Some(8), false), Some(7), &body).is_err());
    let blank = RenameChat { title: "  ".into() };
    assert!(matches!(
        rename_chat(&ctx(Some(7), false), Some(7), &blank),
        Err(AppError::Validation(m)) if m == "title cannot be empty"
    ));
    assert!(matches!(
        require_chat_write(&ctx(Some(7), false), None),
        Err(AppError::Validation(m)) if m == "chat not found"
    ));
}

#[test]
fn a_chat_is_shared_by_those_who_read_it() {
    let readable = || ReadableChat { owner_user_id: 7, project_id: None, title: "Plans".into() };
    let s = share_chat(&ctx(Some(7), false), Some(readable()), false, false, true).unwrap();
    assert_eq!((s.shared_by, s.notice.as_str()), (7, "Shared a chat: Plans"));
    assert!(share_chat(&ctx(Some(7), false), Some(readable()), false, false, false).is_err());
    assert!(share_chat(&ctx(Some(8), false), Some(readable()), false, false, true).is_err());
    assert!(share_chat(&ctx(Some(8), false), Some(readable()), false, true, true).is_ok());
    assert_eq!(revoke_chat_share(&ctx(Some(7), false), Some(7)).unwrap(), 7);
    assert!(matches!(
        revoke_chat_share(&ctx(Some(8), false), Some(7)),
        Err(AppError::Forbidden(m)) if m == "no such share to revoke"
    ));
}

#[test]
fn a_share_says_where_it_went() {
    let row = |kind: &str| ChatShareRow {
        chat_id: 1,
        chat_title: "Plans".into(),
        group_chat_id: 2,
        group_chat_kind: kind.into(),
        group_name: Some("Team".into()),
        other_member: None,
        shared_at: 0,
    };
    assert_eq!(chat_share_out(row("group")).group_chat_name, "Team");
    assert_eq!(chat_share_out(row("dm")).group_chat_name, "Chat");
}
