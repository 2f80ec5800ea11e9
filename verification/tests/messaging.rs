use fosnie::http::messaging::{
    add_member, advance_read, chat_link_type, chat_name, check_reaction, create_chat, create_note, fan_out,
    history_limit, list_chats, list_messages, memory_notice, post_message, project_chat_name, replay, require_member,
    resync_project_chat_members, search_messages, send_message, send_via_ws, should_encrypt_message, show_body,
    start_dm, toggle_reaction, update_note, AddMember, ChatLog, ChatMembers, CreateChat, CreateNote, Dm, HistoryQuery,
    LiveMessage, MemberChat, MessageRow, NewMessage, Opened, Posted, ReactBody, Reaction, ReactionRow, ReadMarker, SearchQuery,
    SendMessage,
    UpdateNote,
};
use fosnie::order::Dated;
use fosnie::{AppError, AuthContext, PlatformRole};

fn user(id: u128) -> AuthContext {
    AuthContext {
        user_id: Some(id),
        role: PlatformRole::User,
        admin: false,
        break_glass: false,
        mfa_enroll_only: false,
    }
}

#[test]
fn dm_encrypts_with_key_regardless_of_toggle() {
    assert!(should_encrypt_message(true, "dm", false));
    assert!(should_encrypt_message(true, "dm", true));
}

#[test]
fn group_project_encrypt_only_with_toggle() {
    for kind in ["group", "project"] {
        assert!(!should_encrypt_message(true, kind, false), "{kind} stays plaintext, toggle off");
        assert!(should_encrypt_message(true, kind, true), "{kind} encrypts, toggle on");
    }
}

#[test]
fn nothing_encrypts_without_a_key() {
    for kind in ["dm", "group", "project"] {
        assert!(!should_encrypt_message(false, kind, true), "{kind} needs a key");
    }
}

#[test]
fn messages_are_numbered_upwards_and_read_by_their_sender() {
    let new = |id: u128, sender: Option<u128>| NewMessage {
        id,
        sender,
        message_type: "user".into(),
        content: "tea".into(),
        sealed: "#####".into(),
        attachments: None,
        shared_resources: None,
        mentions: None,
    };
    let marker = |user_id: u128| ReadMarker { user_id, last_read_seq: 0 };
    let mut log = ChatLog { kind: "dm".into(), messages: Vec::new(), markers: vec![marker(7), marker(8)] };
    assert_eq!(post_message(&mut log, new(1, Some(7)), true, false).seq, 1);
    assert_eq!(post_message(&mut log, new(2, Some(7)), false, false).seq, 2);
    assert_eq!((log.markers[0].last_read_seq, log.markers[1].last_read_seq), (2, 0));
    assert_eq!((log.messages[0].content.as_str(), log.messages[0].content_encrypted), ("#####", true));
    assert_eq!((log.messages[1].content.as_str(), log.messages[1].content_encrypted), ("tea", false));
    assert_eq!(post_message(&mut log, new(3, None), true, false).seq, 3);
    assert_eq!(log.markers[0].last_read_seq, 2);
    log.messages[0].seq = 41;
    assert_eq!(post_message(&mut log, new(4, Some(8)), true, false).seq, 42);
    assert_eq!(log.markers[1].last_read_seq, 42);
    assert_eq!(advance_read(40, 42), 42);
    assert_eq!(advance_read(50, 42), 50);
}

#[test]
fn every_member_gets_the_frame_with_the_time_written_out() {
    let mut file = serde_json::Map::new();
    file.insert("name".into(), serde_json::Value::from("a.png"));
    let live = LiveMessage {
        id: 5,
        seq: 3,
        sender_user_id: Some(1),
        message_type: "user".into(),
        content: "hello".into(),
        attachments: Some(serde_json::Value::Object(file)),
        shared_resources: None,
    };
    let frames = fan_out(&vec![1, 2], 9, 0, &live);
    assert_eq!(frames[1].attachments, live.attachments);
    assert_eq!(frames[1].shared_resources, None);
    assert_eq!(frames.len(), 2);
    assert_eq!(frames[1].to, 2);
    assert_eq!((frames[0].chat_id, frames[0].content.as_str()), (9, "hello"));
    assert_eq!(frames[0].created_at, "1970-01-01T00:00:00Z");
}

#[test]
fn a_project_chat_follows_the_people_of_its_project() {
    let r = resync_project_chat_members(&vec![1, 2, 3], &vec![2, 4], 1);
    assert_eq!(r.add, vec![2, 4]);
    assert_eq!(r.remove, vec![3]);
}

#[test]
fn strangers_are_no_members() {
    assert!(matches!(require_member(true, &user(7), None), Err(AppError::Forbidden(_))));
    assert_eq!(require_member(true, &user(7), Some("member".into())).unwrap(), "member");
    assert!(require_member(false, &user(7), Some("member".into())).is_err());
}

#[test]
fn a_chat_is_a_group_or_a_project() {
    let body = CreateChat {
        kind: "group".into(),
        name: Some("Team".into()),
        project_id: None,
        member_user_ids: vec![7, 8],
    };
    let c = create_chat(true, &user(7), &body).unwrap();
    assert_eq!(c.owner, 7);
    assert_eq!(c.joining, vec![8]);
    let body = CreateChat { kind: "broadcast".into(), ..body };
    assert!(create_chat(true, &user(7), &body).is_err());
    let chat = |id: u128, kind: &str, members: Vec<u128>| ChatMembers { id, kind: kind.into(), members };
    let none = Vec::new();
    assert!(start_dm(true, &user(7), 7, None, &none, 99).is_err());
    let far = Some(AppError::Forbidden("not in your circle".into()));
    assert!(start_dm(true, &user(7), 8, far, &none, 99).is_err());
    assert!(matches!(
        start_dm(true, &user(7), 8, None, &none, 99),
        Ok(Dm::Make { id: 99, owner: 7, member: 8 })
    ));
    let chats = vec![chat(1, "group", vec![7, 8]), chat(2, "dm", vec![7, 9]), chat(3, "dm", vec![8, 7])];
    assert!(matches!(start_dm(true, &user(7), 8, None, &chats, 99), Ok(Dm::Existing(3))));
}

#[test]
fn those_who_run_a_chat_add_members() {
    let body = AddMember { user_id: 9, role: Some("admin".into()) };
    assert!(add_member(true, &user(7), Some("member".into()), &body).is_err());
    assert_eq!(add_member(true, &user(7), Some("owner".into()), &body).unwrap(), "admin");
}

#[test]
fn an_empty_message_needs_something_attached() {
    let mut body = SendMessage {
        content: "  ".into(),
        attachments: None,
        shared_resources: None,
        mentions: None,
    };
    assert!(send_message(true, &user(7), Some("member".into()), &body).is_err());
    body.attachments = Some(serde_json::Value::Array(vec![serde_json::Value::Bool(true)]));
    assert!(send_message(true, &user(7), Some("member".into()), &body).is_ok());
    body.attachments = Some(serde_json::Value::Array(Vec::new()));
    assert!(send_message(true, &user(7), Some("member".into()), &body).is_err());
}

#[test]
fn reactions_toggle() {
    let one = |message_id: u128, emoji: &str| Reaction { message_id, user_id: 7, emoji: emoji.into() };
    let mut all = vec![one(1, "+"), one(2, "+")];
    assert!(toggle_reaction(&mut all, 1, 7, "-").added);
    assert_eq!(all.len(), 3);
    assert!(!toggle_reaction(&mut all, 1, 7, "+").added);
    let left: Vec<(u128, &str)> = all.iter().map(|x| (x.message_id, x.emoji.as_str())).collect();
    assert_eq!(left, vec![(2, "+"), (1, "-")]);
    assert!(toggle_reaction(&mut all, 1, 8, "-").added);
    let r = check_reaction(
        true,
        &user(7),
        Some("member".into()),
        &ReactBody { emoji: " 👍 ".into() },
        true,
    );
    assert_eq!(r.unwrap(), (7, "👍".to_string()));
    assert!(check_reaction(
        true,
        &user(7),
        Some("member".into()),
        &ReactBody { emoji: "".into() },
        true
    )
    .is_err());
}

#[test]
fn history_comes_with_its_reactions() {
    let rows = vec![MessageRow {
        id: 5,
        seq: 1,
        sender_user_id: Some(7),
        message_type: "user".into(),
        content: "sealed".into(),
        content_encrypted: true,
        opened: Opened::Text("plain".into()),
        created_at: 0,
        mentions: Some(serde_json::Value::String("7".into())),
        shared_resources: None,
    }];
    let reactions = vec![
        ReactionRow { message_id: 5, emoji: "👍".into(), count: 2, mine: true },
        ReactionRow { message_id: 6, emoji: "🎉".into(), count: 1, mine: false },
    ];
    let q = HistoryQuery { since: 0, limit: None };
    let role = || Some("member".to_string());
    let mut marks = vec![ReadMarker { user_id: 7, last_read_seq: 0 }, ReadMarker { user_id: 8, last_read_seq: 0 }];
    let out = list_messages(true, &user(7), role(), &q, rows, &reactions, &mut marks).unwrap();
    assert_eq!((marks[0].last_read_seq, marks[1].last_read_seq), (1, 0));
    assert!(list_messages(true, &user(9), None, &q, Vec::new(), &reactions, &mut marks).is_err());
    assert_eq!(out[0].content, "plain");
    assert_eq!(out[0].mentions, Some(serde_json::Value::String("7".into())));
    assert_eq!(out[0].shared_resources, None);
    assert_eq!(out[0].reactions.len(), 1);
    assert_eq!(out[0].reactions[0].count, 2);
    assert_eq!(show_body("open".into(), false, Opened::NoKey), "open");
    assert_eq!(history_limit(&HistoryQuery { since: 0, limit: Some(100_000) }), 1000);
    assert_eq!(history_limit(&HistoryQuery { since: 0, limit: None }), 200);
}

#[test]
fn a_replay_goes_on_without_a_gap() {
    let row = |seq: i32| MessageRow {
        id: seq as u128,
        seq,
        sender_user_id: Some(7),
        message_type: "user".into(),
        content: "c".into(),
        content_encrypted: false,
        opened: Opened::NoKey,
        created_at: 0,
        mentions: None,
        shared_resources: None,
    };
    let rows = || vec![row(3), row(1), row(5), row(2), row(4)];
    let page = |since: i32, limit: Option<i64>| -> Vec<i32> {
        replay(rows(), &HistoryQuery { since, limit }).iter().map(|m| m.seq).collect()
    };
    assert_eq!(page(0, None), vec![1, 2, 3, 4, 5]);
    assert_eq!(page(1, Some(2)), vec![2, 3]);
    assert_eq!(page(3, Some(2)), vec![4, 5]);
    assert!(page(5, None).is_empty());
}

#[test]
fn chats_are_listed_to_their_members_newest_first() {
    let chat = |id: u128, at: i128, kind: &str, read: Option<i32>| Dated {
        at,
        item: MemberChat {
            id,
            kind: kind.into(),
            name: Some("Team".into()),
            project_id: None,
            other_member: Some("Ada".into()),
            last_read_seq: read,
            posted: vec![Posted { seq: 1, sender: Some(7) }, Posted { seq: 2, sender: None }],
        },
    };
    let rows = vec![chat(1, 1, "dm", Some(0)), chat(2, 9, "group", Some(2)), chat(3, 5, "group", None)];
    let out = list_chats(true, &user(7), rows).unwrap();
    let seen: Vec<(u128, Option<&str>, i64)> =
        out.iter().map(|c| (c.id, c.name.as_deref(), c.unread_count)).collect();
    assert_eq!(seen, vec![(2, Some("Team"), 0), (1, Some("Ada"), 1)]);
    assert!(list_chats(false, &user(7), Vec::new()).is_err());
}

#[test]
fn an_empty_search_finds_nothing() {
    let q = SearchQuery { q: "  ".into(), limit: None };
    assert_eq!(search_messages(true, &user(7), &q).unwrap(), None);
}

#[test]
fn a_stale_change_to_a_note_is_refused() {
    let body = UpdateNote { content: "new".into(), version: 3 };
    assert!(matches!(update_note(1, Some(4), body), Err(AppError::Conflict(_))));
    let body = UpdateNote { content: "new".into(), version: 3 };
    assert_eq!(update_note(1, Some(3), body).unwrap().version, 4);
}

#[test]
fn chats_are_told_things() {
    assert_eq!((chat_link_type(true), chat_link_type(false)), ("system", "user"));
    assert_eq!(memory_notice("likes tea"), "Memory added: likes tea");
    assert_eq!(project_chat_name(None), "Project chat");
    assert_eq!(project_chat_name(Some("Big case".into())), "Big case");
    assert_eq!(chat_name("dm", Some("x".into()), Some("Ann".into())).as_deref(), Some("Ann"));
    assert_eq!(chat_name("group", Some("x".into()), None).as_deref(), Some("x"));
    assert!(send_via_ws(true, &user(7), Some("member".into()), " ").is_err());
    assert!(send_via_ws(true, &user(7), Some("member".into()), "hi").is_ok());
    let n = create_note(4, CreateNote { content: "c".into() });
    assert_eq!((n.id, n.version), (4, 1));
}
