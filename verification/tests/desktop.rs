use fosnie::http::desktop::{
    accept_upload, download, download_url, ensure_supported, harvest_manifest, latest_manifest,
    manifest_for, meta_json, request_origin, safe_name, sha256_hex, superseded, upload, Accepted,
    InstallerMeta, Kind, UploadQuery, DEFAULT_DOWNLOAD_URL, NAME_MAX, PLATFORM_KEY,
};
use fosnie::AppError;

fn meta_fixture() -> InstallerMeta {
    InstallerMeta {
        version: "0.1.1".into(),
        filename: "Fosnie_0.1.1_x64_en-US.msi".into(),
        size: 42,
        sha256: "abc".into(),
        uploaded_at: "2026-07-25T10:00:00Z".into(),
        signature: Some("sig".into()),
        notes: Some("What changed.".into()),
        pub_date: Some("2026-07-24T09:00:00Z".into()),
    }
}

#[test]
fn extension_must_match_the_kind() {
    assert!(ensure_supported(Kind::Installer, "Fosnie_0.1.1_x64_en-US.msi").is_ok());
    assert!(ensure_supported(Kind::Installer, "Fosnie.MSI").is_ok());
    assert!(ensure_supported(Kind::Signature, "Fosnie.msi.sig").is_ok());
    assert!(ensure_supported(Kind::Manifest, "latest.json").is_ok());

    // Cross-kind and everything else is refused.
    assert!(ensure_supported(Kind::Installer, "latest.json").is_err());
    assert!(ensure_supported(Kind::Manifest, "Fosnie.msi").is_err());
    assert!(ensure_supported(Kind::Installer, "payload.exe").is_err());
    assert!(ensure_supported(Kind::Installer, "bundle.zip").is_err());
    assert!(ensure_supported(Kind::Installer, "installer").is_err());
}

#[test]
fn a_filename_is_a_plain_name_or_it_is_refused() {
    assert_eq!(safe_name(" Fosnie.msi ").unwrap(), "Fosnie.msi");

    for bad in [
        "",
        "..",
        ".",
        "../escape.msi",
        "a/b.msi",
        "a\\b.msi",
        "C:\\x.msi",
        ".hidden.msi",
    ] {
        assert!(safe_name(bad).is_err(), "{bad:?} should be refused");
    }
    assert!(safe_name(&format!("{}.msi", "x".repeat(NAME_MAX))).is_err());
}

#[test]
fn the_manifest_points_at_this_installation_not_the_public_channel() {
    let m = manifest_for(&meta_fixture(), "https://ai.example.org/", "SIGNATURE");
    assert_eq!(m["version"], "0.1.1");
    assert_eq!(m["notes"], "What changed.");
    assert_eq!(m["pub_date"], "2026-07-24T09:00:00Z");
    assert_eq!(m["platforms"][PLATFORM_KEY]["signature"], "SIGNATURE");
    assert_eq!(
        m["platforms"][PLATFORM_KEY]["url"],
        "https://ai.example.org/api/desktop/installer"
    );
}

#[test]
fn an_uploaded_manifest_gives_up_its_version_facts_but_not_its_location() {
    let raw = br#"{
            "version": "0.1.1",
            "notes": "Two fixes.",
            "pub_date": "2026-07-24T09:00:00Z",
            "platforms": { "windows-x86_64": {
                "signature": " SIG ",
                "url": "https://get.fosnie.dev/desktop/Fosnie_0.1.1_x64_en-US.msi"
            }}
        }"#;
    let (notes, pub_date, signature) = harvest_manifest(raw).unwrap();
    assert_eq!(notes.as_deref(), Some("Two fixes."));
    assert_eq!(pub_date.as_deref(), Some("2026-07-24T09:00:00Z"));
    assert_eq!(signature.as_deref(), Some("SIG"));

    assert!(harvest_manifest(b"not json").is_err());
}

#[test]
fn nothing_uploaded_is_reported_as_nothing_rather_than_an_error() {
    let j = meta_json(None, DEFAULT_DOWNLOAD_URL);
    assert_eq!(j["available"], false);
    assert_eq!(j["has_signature"], false);
    assert_eq!(j["download_url"], DEFAULT_DOWNLOAD_URL);

    let m = meta_fixture();
    let j = meta_json(Some(&m), DEFAULT_DOWNLOAD_URL);
    assert_eq!(j["available"], true);
    assert_eq!(j["version"], "0.1.1");
    assert_eq!(j["has_signature"], true);
    assert_eq!(j["size"], 42);
}

#[test]
fn a_served_manifest_is_harvested_as_it_was() {
    let m = manifest_for(&meta_fixture(), "https://ai.example.org", " SIG ");
    let bytes = fosnie::http::export::to_vec(&m).unwrap();
    let (notes, pub_date, signature) = harvest_manifest(&bytes).unwrap();
    assert_eq!(notes.as_deref(), Some("What changed."));
    assert_eq!(pub_date.as_deref(), Some("2026-07-24T09:00:00Z"));
    assert_eq!(signature.as_deref(), Some("SIG"));
}

#[test]
fn digests_are_written_in_small_hexadecimal() {
    assert_eq!(
        sha256_hex(b"abc"),
        "ba7816bf8f01cfea414140de5dae2223b00361a396177a9cb410ff61f20015ad"
    );
}

#[test]
fn the_origin_is_the_one_the_request_came_by() {
    assert_eq!(
        request_origin("https://conf.example", Some("ai.example.org"), Some("https, http")),
        "https://ai.example.org"
    );
    assert_eq!(
        request_origin("http://conf.example", Some("ai.example.org"), None),
        "http://ai.example.org"
    );
    assert_eq!(request_origin("https://conf.example//", None, None), "https://conf.example");
    assert_eq!(request_origin("https://conf.example/", Some(""), None), "https://conf.example");
}

#[test]
fn an_installer_is_stored_with_its_size_and_digest() {
    let q = UploadQuery {
        filename: "Fosnie.msi".into(),
        kind: Kind::Installer,
        version: "1.2.3".into(),
    };
    let up: Accepted = accept_upload(&q, b"abc").unwrap();
    let stored = upload(None, &up, b"abc", "2026-07-25T10:00:00Z").unwrap();
    assert_eq!(stored.meta.version, "1.2.3");
    assert_eq!(stored.meta.filename, "Fosnie.msi");
    assert_eq!(stored.meta.size, 3);
    assert_eq!(
        stored.meta.sha256,
        "ba7816bf8f01cfea414140de5dae2223b00361a396177a9cb410ff61f20015ad"
    );
    assert!(superseded(&Some(meta_fixture()), "1.2.3"));
    assert!(!superseded(&Some(meta_fixture()), "0.1.1"));
    assert!(!superseded(&None, "0.1.1"));
}

#[test]
fn a_signature_is_read_as_text_and_trimmed() {
    let up = Accepted {
        kind: Kind::Signature,
        version: "0.1.1".into(),
        name: "Fosnie.msi.sig".into(),
    };
    let stored = upload(Some(meta_fixture()), &up, b"  NEWSIG\n", "now").unwrap();
    assert_eq!(stored.meta.signature.as_deref(), Some("NEWSIG"));
    assert_eq!(stored.meta.sha256, "abc");
    assert!(upload(None, &up, b" \n", "now").is_err());
}

#[test]
fn nothing_of_another_version_is_kept() {
    let up = |kind: Kind, name: &str| Accepted { kind, version: "0.2.0".into(), name: name.into() };
    let sig = up(Kind::Signature, "Fosnie.msi.sig");
    let s = upload(Some(meta_fixture()), &sig, b"NEWSIG", "now").unwrap();
    assert_eq!((s.meta.version.as_str(), s.meta.filename.as_str()), ("0.2.0", ""));
    assert_eq!((s.meta.size, s.meta.sha256.as_str(), s.meta.notes.as_deref()), (0, "", None));
    assert_eq!(meta_json(Some(&s.meta), "u")["available"], false);
    assert!(download(&Some(s.meta)).is_err());
    let s = upload(Some(meta_fixture()), &sig, b"NEWSIG", "now").unwrap();
    let s = upload(Some(s.meta), &up(Kind::Installer, "Fosnie_0.2.0.msi"), b"abc", "then").unwrap();
    assert_eq!((s.meta.filename.as_str(), s.meta.size), ("Fosnie_0.2.0.msi", 3));
    assert!(s.meta.sha256.starts_with("ba7816bf"));
    assert_eq!(s.meta.signature.as_deref(), Some("NEWSIG"));
    assert_eq!(s.replaced, None);
    assert_eq!(meta_json(Some(&s.meta), "u")["available"], true);
    let s = upload(Some(meta_fixture()), &up(Kind::Installer, "Fosnie_0.2.0.msi"), b"abc", "then").unwrap();
    assert_eq!((s.meta.signature, s.meta.notes, s.meta.pub_date), (None, None, None));
}

#[test]
fn an_empty_upload_is_refused() {
    let q = UploadQuery {
        filename: "Fosnie.msi".into(),
        kind: Kind::Installer,
        version: "1.2.3".into(),
    };
    assert!(accept_upload(&q, b"").is_err());
}

#[test]
fn an_unsigned_installer_has_no_manifest() {
    let mut m = meta_fixture();
    m.signature = None;
    assert!(matches!(
        latest_manifest(&Some(m), "https://ai.example.org"),
        Err(AppError::NotFound(s)) if s == "no signed desktop update is published here"
    ));
    assert!(matches!(
        latest_manifest(&None, "https://ai.example.org"),
        Err(AppError::NotFound(s)) if s == "no desktop update is published here"
    ));
    let ok = latest_manifest(&Some(meta_fixture()), "https://ai.example.org").unwrap();
    assert_eq!(ok["platforms"][PLATFORM_KEY]["signature"], "sig");
    assert_eq!(download(&Some(meta_fixture())).unwrap(), "Fosnie_0.1.1_x64_en-US.msi");
    assert!(download(&None).is_err());
}

#[test]
fn the_download_page_can_be_configured() {
    assert_eq!(download_url(Some("https://dl.example".into())), "https://dl.example");
    assert_eq!(download_url(Some("".into())), DEFAULT_DOWNLOAD_URL);
    assert_eq!(download_url(None), DEFAULT_DOWNLOAD_URL);
}
