use fosnie::http::conflict_names::{
    add, list, may_read, pasted_names, remove, require, tally, AddNames, ConflictName, Wanted, WhoseList,
    MAX_PER_REQUEST,
};
use fosnie::{AppError, AuthContext, PlatformRole};

fn ctx(id: Option<u128>, admin: bool) -> AuthContext {
    AuthContext {
        user_id: id,
        role: PlatformRole::User,
        admin,
        break_glass: false,
        mfa_enroll_only: false,
    }
}

fn wanted(name: &str, normalised: &str) -> Wanted {
    Wanted { name: name.into(), normalised: normalised.into() }
}

fn body() -> AddNames {
    AddNames { owner_user_id: None, names: String::new(), note: Some("  from the book  ".into()) }
}

#[test]
fn a_list_is_its_owner_s() {
    assert!(may_read(&ctx(Some(7), false), 7));
    assert!(may_read(&ctx(Some(8), true), 7));
    assert!(matches!(
        require(&ctx(Some(8), false), 7),
        Err(AppError::NotFound(m)) if m == "no such list"
    ));
    let row = |id: u128, owner_user_id: u128| ConflictName {
        id,
        owner_user_id,
        name: "Acme".into(),
        note: None,
        created_epoch: 0,
    };
    let rows = || vec![row(1, 7), row(2, 8), row(3, 7)];
    let whose = |owner_user_id: Option<u128>| WhoseList { owner_user_id };
    let ids: Vec<u128> =
        list(&ctx(Some(7), false), &whose(None), rows()).unwrap().iter().map(|n| n.id).collect();
    assert_eq!(ids, vec![1, 3]);
    assert!(list(&ctx(Some(7), false), &whose(Some(8)), rows()).is_err());
    assert_eq!(list(&ctx(Some(7), true), &whose(Some(8)), rows()).unwrap().len(), 1);
    assert!(list(&ctx(None, false), &whose(None), rows()).is_err());
}

#[test]
fn lines_are_names() {
    assert_eq!(pasted_names(" Ann \r\n\n\tBob\n  "), vec!["Ann", "Bob"]);
    assert!(pasted_names("").is_empty());
}

#[test]
fn names_without_substance_are_passed_over() {
    let offered = vec![wanted("Ann", "ann"), wanted("...", ""), wanted(&"x".repeat(300), "xxx")];
    let a = add(&ctx(Some(7), false), &body(), &offered).unwrap();
    assert_eq!(a.owner, 7);
    assert_eq!(a.note.as_deref(), Some("from the book"));
    assert_eq!(a.wanted.len(), 2);
    assert_eq!(a.wanted[1].name.len(), 200);
}

#[test]
fn a_paste_of_too_many_is_refused_whole() {
    let offered: Vec<Wanted> = (0..MAX_PER_REQUEST + 1).map(|i| wanted("n", &i.to_string())).collect();
    assert!(matches!(
        add(&ctx(Some(7), false), &body(), &offered),
        Err(AppError::Validation(m)) if m == "that is 2001 names at once; add at most 2000"
    ));
}

#[test]
fn what_was_there_is_counted() {
    let t = tally(5, 3);
    assert_eq!((t.added, t.already_there), (3, 2));
}

#[test]
fn a_name_is_taken_off_by_its_owner() {
    assert_eq!(remove(&ctx(Some(7), false), Some(7)).unwrap(), 7);
    assert!(matches!(
        remove(&ctx(Some(8), false), Some(7)),
        Err(AppError::NotFound(m)) if m == "no such name"
    ));
    assert!(remove(&ctx(Some(8), true), None).is_err());
}
