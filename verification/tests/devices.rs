use fosnie::grants::Permissions;
use fosnie::http::devices::{
    admin_revoke_device, claim_code, client_ip, code_from, create_pairing_code, hash_code, mint_code, normalise_code,
    pair_device, revoke, CodeRow, PairBody, StoredCode, Withdrawable, CODE_ALPHABET, CODE_LEN,
};
use fosnie::{AppError, AuthContext, PlatformRole};

fn permitted() -> Permissions {
    Permissions {
        announcements_manage: None,
        config_manage: None,
        feedback_view: None,
        groundedness_view: None,
        mcp_manage: None,
        telephony_manage: None,
        users_manage: None,
        users_view: None,
    }
}

fn user(id: u128) -> AuthContext {
    AuthContext {
        user_id: Some(id),
        role: PlatformRole::User,
        admin: false,
        break_glass: false,
        mfa_enroll_only: false,
    }
}

#[test]
fn pairing_code_alphabet_excludes_confusable_characters() {
    for _ in 0..1000 {
        let (code, _) = mint_code();
        assert_eq!(code.len(), CODE_LEN);
        assert!(
            code.chars().all(|c| !matches!(c, '0' | 'O' | '1' | 'I')),
            "confusable character in {code}"
        );
        assert!(code.chars().all(|c| CODE_ALPHABET.contains(&(c as u8))));
    }
}

#[test]
fn normalise_folds_grouping_and_case() {
    assert_eq!(normalise_code(" k7m2-qx4d "), "K7M2QX4D");
    assert_eq!(normalise_code("K7M2QX4D"), "K7M2QX4D");
}

#[test]
fn a_code_is_kept_as_its_digest() {
    let (code, digest) = mint_code();
    assert_eq!(hash_code(&code), digest);
    assert_eq!(digest.len(), 32);
    assert_eq!(hash_code(&normalise_code(&code.to_lowercase())), digest);
}

#[test]
fn the_same_bytes_give_the_same_code() {
    let a = code_from(&[0, 1, 2, 3, 4, 5, 6, 31]);
    let b = code_from(&[32, 33, 34, 35, 36, 37, 38, 63]);
    assert_eq!(a, b);
    assert_eq!(a.len(), CODE_LEN);
}

#[test]
fn a_pairing_code_is_claimed_once_and_in_time() {
    let (who, until) = create_pairing_code(&user(7), false, 1_000).unwrap();
    assert_eq!(who, 7);
    assert_eq!(until, 1_000 + 600 * 1_000_000_000);
    let code = StoredCode { user_id: 7, consumed: false, expires_at: until };
    let other = StoredCode { user_id: 8, ..code };
    let p = |typed: &str| {
        let body = PairBody { code: typed.into(), name: "x".into(), platform: "linux".into() };
        pair_device(&body).unwrap().code_hash
    };
    let row = |typed: &str, code: StoredCode| CodeRow { code_hash: p(typed), code };
    let mut rows = vec![row("K7M2QX4D", code), row("ABCDEFGH", other)];
    let unknown = |r: Result<u128, AppError>| matches!(r, Err(AppError::NotFound(m)) if m == "not found");
    assert!(unknown(claim_code(&mut rows, &p("k7m2-qx4d"), until)));
    assert!(unknown(claim_code(&mut rows, &p("zzzz-zzzz"), 2_000)));
    assert!(rows.iter().all(|r| !r.code.consumed));
    assert_eq!(claim_code(&mut rows, &p("k7m2-qx4d"), 2_000).unwrap(), 7);
    assert!(unknown(claim_code(&mut rows, &p("K7M2 QX4D"), 2_000)));
    assert_eq!(claim_code(&mut rows, &p("ABCDEFGH"), 2_000).unwrap(), 8);
}

#[test]
fn a_device_cannot_mint_codes() {
    assert!(matches!(create_pairing_code(&user(7), true, 0), Err(AppError::Forbidden(_))));
}

#[test]
fn a_device_is_paired_under_a_name_on_a_known_platform() {
    let body = PairBody { code: "k7m2-qx4d".into(), name: " Mac ".into(), platform: "macos".into() };
    let p = pair_device(&body).unwrap();
    assert_eq!(p.name, "Mac");
    assert_eq!(p.code_hash, hash_code("K7M2QX4D"));
    let body = PairBody { code: "k7m2-qx4d".into(), name: "  ".into(), platform: "linux".into() };
    assert_eq!(pair_device(&body).unwrap().name, "Untitled device");
    let body = PairBody { code: "k7m2-qx4d".into(), name: "x".into(), platform: "beos".into() };
    assert!(matches!(pair_device(&body), Err(AppError::Validation(_))));
}

#[test]
fn the_first_forwarded_address_is_the_client() {
    assert_eq!(client_ip(Some(" 203.0.113.9 , 10.0.0.1")), "203.0.113.9");
}

#[test]
fn a_device_is_revoked_once() {
    let d = Withdrawable { user_id: 7, revoked: false };
    assert!(revoke(Some(d), Some(7)).withdrawn);
    assert!(!revoke(Some(d), Some(8)).withdrawn);
    assert!(revoke(Some(d), None).withdrawn);
    assert!(!revoke(Some(Withdrawable { revoked: true, ..d }), None).withdrawn);
    assert!(!revoke(None, None).withdrawn);
    assert_eq!(revoke(Some(d), Some(7)).status, revoke(None, None).status);
}

#[test]
fn devices_are_withdrawn_by_administrators_and_not_by_devices() {
    let no = || Some(AppError::Forbidden("no".into()));
    assert!(admin_revoke_device(None, Permissions { users_view: no(), ..permitted() }).is_ok());
    assert!(admin_revoke_device(no(), permitted()).is_err());
    assert!(admin_revoke_device(None, Permissions { users_manage: no(), ..permitted() }).is_err());
}
