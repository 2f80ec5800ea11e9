use fosnie::http::chat_attachments as chat;
use fosnie::http::message_attachments as message;
use fosnie::{AppError, AuthContext, PlatformRole};

const ID7: &str = "00000000-0000-0000-0000-000000000007";

fn ctx(id: Option<u128>, admin: bool) -> AuthContext {
    AuthContext {
        user_id: id,
        role: PlatformRole::User,
        admin,
        break_glass: false,
        mfa_enroll_only: false,
    }
}

fn query(mime: Option<&str>) -> chat::UploadQuery {
    chat::UploadQuery { filename: "pic.png".into(), mime: mime.map(|m| m.to_string()) }
}

#[test]
fn staged_bytes_come_back_to_whoever_staged_them() {
    let me = ctx(Some(7), false);
    let bytes: Vec<u8> = vec![0, 255, 16, 7];
    let staged = || chat::stage(&me, &query(Some("image/png")), "text", &bytes, false);
    assert_eq!(staged().bytes_b64.as_deref(), Some("AP8QBw=="));
    let a = chat::take_attachment(&me, 5, &mut vec![(5, staged())]).unwrap();
    assert_eq!((a.id, a.text.as_str()), (5, "text"));
    assert_eq!(a.bytes, Some(bytes.clone()));
    assert!(chat::take_attachment(&ctx(Some(8), true), 5, &mut vec![(5, staged())]).is_none());
    let taken = chat::take_attachments(&me, &vec![1, 2, 2], &mut vec![(2, staged()), (3, staged())]);
    assert_eq!(taken.len(), 1);
    assert_eq!(taken[0].id, 2);
    assert_eq!(chat::upload_attachment(5, &staged()).chars, 4);
}

#[test]
fn a_staged_file_waits_for_its_owner_and_is_handed_out_once() {
    let me = ctx(Some(7), false);
    let mut shelf = vec![(5, chat::stage(&me, &query(None), "mine", &[1], true))];
    assert!(chat::take_attachments(&ctx(Some(8), true), &vec![5], &mut shelf).is_empty());
    assert_eq!(shelf.len(), 1);
    let got = chat::take_attachments(&me, &vec![5], &mut shelf);
    assert_eq!(got[0].text, "mine");
    assert!(shelf.is_empty());
    assert!(chat::take_attachments(&me, &vec![5], &mut shelf).is_empty());
}

#[test]
fn bytes_are_kept_where_something_uses_them() {
    let me = ctx(Some(7), false);
    assert!(chat::stage(&me, &query(None), "", &[1], false).bytes_b64.is_none());
    assert!(chat::stage(&me, &query(None), "", &[1], true).bytes_b64.is_some());
    let broken = chat::Staged {
        owner_user_id: Some(7),
        filename: "f".into(),
        text: "t".into(),
        bytes_b64: Some("not base64!".into()),
        mime: None,
    };
    assert_eq!(chat::take_attachment(&me, 1, &mut vec![(1, broken)]).unwrap().bytes, None);
    let long = "é".repeat(chat::MAX_TEXT_CHARS + 1);
    assert_eq!(chat::stage(&me, &query(None), &long, &[], false).text.chars().count(), chat::MAX_TEXT_CHARS);
}

#[test]
fn attachments_are_kept_under_plain_names() {
    assert_eq!(chat::stored_as(7, "a/b\\c"), format!("{ID7}__a_b_c"));
    assert_eq!(chat::staging_key(7), format!("chatattach:{ID7}"));
    assert_eq!(chat::mime_or_default(&None), "application/octet-stream");
    assert!(chat::inline_disposition("a\"b").contains("inline"));
}

#[test]
fn an_attachment_is_downloaded_by_those_who_read_its_chat() {
    let row = chat::AttachmentRow { chat_id: Some(3), owner_user_id: Some(7) };
    assert!(chat::download(&ctx(Some(7), false), Some(row), false).is_ok());
    assert!(chat::download(&ctx(Some(8), false), Some(row), true).is_ok());
    assert!(chat::download(&ctx(Some(8), false), Some(row), false).is_err());
    let unsent = chat::AttachmentRow { chat_id: None, ..row };
    assert!(chat::download(&ctx(Some(8), false), Some(unsent), true).is_err());
    assert!(chat::download(&ctx(Some(8), true), None, true).is_err());
}

#[test]
fn sent_files_are_never_cleared_up() {
    let f = |id: u128, message_id: Option<u128>, created_at: i128| chat::StoredFile {
        id,
        message_id,
        created_at,
    };
    let files = vec![f(1, None, 10), f(2, Some(9), 10), f(3, None, 90)];
    assert_eq!(chat::prune_orphans(&files, 100, 50), vec![1]);
}

#[test]
fn files_of_messages_have_a_size() {
    let q = || message::UploadQuery { filename: "a/b.txt".into(), mime: None };
    let u = message::upload(7, q(), 5, None).unwrap();
    assert_eq!(u.rel_path, format!("{ID7}__a_b.txt"));
    assert_eq!(u.out.mime, "application/octet-stream");
    assert!(matches!(message::upload(7, q(), 0, None), Err(AppError::Validation(m)) if m == "empty attachment"));
    assert!(matches!(
        message::upload(7, q(), message::MAX_BYTES + 1, None),
        Err(AppError::Validation(m)) if m == "attachment too large (max 15 MB)"
    ));
    assert!(message::upload(7, q(), 5, Some(AppError::Validation("no".into()))).is_err());
    assert!(message::download(&ctx(Some(8), false), Some(Some(7)), true).is_ok());
    assert!(message::download(&ctx(None, false), Some(None), true).is_err());
    assert!(message::download(&ctx(Some(8), false), None, true).is_err());
}
