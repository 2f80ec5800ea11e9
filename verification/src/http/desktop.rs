//! The desktop client that an installation hands to its own users.
//!
//! One current installer is kept, with its update signature and what is known
//! about it. The update manifest is put together here and never served as it was
//! uploaded: where the client is downloaded from is always this installation.

use vstd::prelude::*;
use vstd::string::*;
use vstd::utf8::encode_utf8;

use crate::error::{not_found, refusal, validation, AppError, Refusal};
use crate::http::clone_text;
use crate::ids::{hex_bytes, hex_encode, sha256, sha256_of};
use crate::json::{
    empty_object,
    flag_value,
    json_in,
    member_at,
    null_value,
    parse_document,
    parsed,
    put,
    read_text,
    read_text_under,
    size_value,
    text_at,
    text_under,
    text_value,
    Json,
};
use crate::principal::AuthContext;
use crate::text::{
    begins,
    byte_len,
    chars_of,
    contains_char,
    cut,
    cut_at,
    cut_at_last,
    cut_last,
    cuts_are_at_the_last_mark,
    cuts_at_last_where_marked,
    cuts_where_marked,
    joined,
    joined3,
    lossy_text,
    lower,
    lowered,
    opt_str,
    opt_text,
    read_lossy,
    same,
    starts_with,
    text_between,
    trim,
    trim_end,
    trimmed,
    without_trailing,
};
use crate::trail::{entry, note, record, ActorRole, AuditEvent};

verus! {

/// The one platform that is published.
pub const PLATFORM_KEY: &'static str = "windows-x86_64";

/// Where a user is sent when this installation serves no installer of its own.
pub const DEFAULT_DOWNLOAD_URL: &'static str = "https://get.fosnie.dev/desktop/";

/// A generous ceiling on a filename, in bytes.
pub const NAME_MAX: usize = 200;

/// A generous ceiling on a version, in bytes.
pub const VERSION_MAX: usize = 64;

/// What is being uploaded. Each kind accepts exactly one extension.
#[derive(Clone, Copy, Debug, PartialEq, Eq, Structural)]
pub enum Kind {
    /// The installer itself.
    Installer,
    /// The detached update signature produced beside it.
    Signature,
    /// A published update manifest, read for its notes, date and signature.
    Manifest,
}

impl Kind {
    pub open spec fn ext(self) -> Seq<char> {
        match self {
            Kind::Installer => "msi"@,
            Kind::Signature => "sig"@,
            Kind::Manifest => "json"@,
        }
    }

    pub open spec fn label(self) -> Seq<char> {
        match self {
            Kind::Installer => "installer"@,
            Kind::Signature => "signature"@,
            Kind::Manifest => "manifest"@,
        }
    }

    pub fn extension(self) -> (r: &'static str)
        ensures
            r@ == self.ext(),
    {
        match self {
            Kind::Installer => "msi",
            Kind::Signature => "sig",
            Kind::Manifest => "json",
        }
    }

    pub fn as_str(self) -> (r: &'static str)
        ensures
            r@ == self.label(),
    {
        match self {
            Kind::Installer => "installer",
            Kind::Signature => "signature",
            Kind::Manifest => "manifest",
        }
    }
}

/// What is known about the installer that is currently served.
pub struct InstallerMeta {
    pub version: String,
    pub filename: String,
    pub size: u64,
    /// Small hexadecimal digits.
    pub sha256: String,
    pub uploaded_at: String,
    /// The detached update signature. Without it there is no manifest to offer.
    pub signature: Option<String>,
    pub notes: Option<String>,
    pub pub_date: Option<String>,
}

/// What contracts see of [`InstallerMeta`].
#[verifier::ext_equal]
pub struct Facts {
    pub version: Seq<char>,
    pub filename: Seq<char>,
    pub size: int,
    pub sha256: Seq<char>,
    pub uploaded_at: Seq<char>,
    pub signature: Option<Seq<char>>,
    pub notes: Option<Seq<char>>,
    pub pub_date: Option<Seq<char>>,
}

impl View for InstallerMeta {
    type V = Facts;

    open spec fn view(&self) -> Facts {
        Facts {
            version: self.version@,
            filename: self.filename@,
            size: self.size as int,
            sha256: self.sha256@,
            uploaded_at: self.uploaded_at@,
            signature: opt_text(self.signature),
            notes: opt_text(self.notes),
            pub_date: opt_text(self.pub_date),
        }
    }
}

pub struct UploadQuery {
    pub filename: String,
    pub kind: Kind,
    /// The version that the bytes belong to. A different one replaces whatever is
    /// stored.
    pub version: String,
}

/// A name that leads nowhere but to a file of that name.
pub open spec fn leads_elsewhere(name: Seq<char>) -> bool {
    ||| name.contains('/')
    ||| name.contains('\\')
    ||| name.contains(':')
    ||| name.contains('\0')
    ||| name == "."@
    ||| name == ".."@
}

pub open spec fn name_refusal(name: Seq<char>) -> Option<Refusal> {
    if name.len() == 0 || encode_utf8(name).len() > NAME_MAX {
        Some(Refusal::Validation("filename is empty or too long"@))
    } else if leads_elsewhere(name) {
        Some(Refusal::Validation("filename must be a plain name, without a path"@))
    } else if name.first() == '.' {
        Some(Refusal::Validation("filename must not start with a dot"@))
    } else {
        None
    }
}

/// Refuses a filename that is not a plain name, rather than making one of it.
pub fn safe_name(filename: &str) -> (r: Result<String, AppError>)
    ensures
        refusal(r) == name_refusal(trimmed(filename@)),
        r matches Ok(name) ==> name@ == trimmed(filename@),
{
    let name = trim(filename);
    if name.as_str().is_empty() || byte_len(name.as_str()) > NAME_MAX {
        return Err(validation("filename is empty or too long"));
    }
    let n = name.as_str();
    if contains_char(n, '/') || contains_char(n, '\\') || contains_char(n, ':') || contains_char(
        n,
        '\0',
    ) || same(n, ".") || same(n, "..") {
        return Err(validation("filename must be a plain name, without a path"));
    }
    if n.get_char(0) == '.' {
        return Err(validation("filename must not start with a dot"));
    }
    Ok(name)
}

/// A name that is accepted is no path: it is not empty, holds no separator, and
/// does not start with a dot.
pub proof fn accepted_names_are_plain(name: Seq<char>)
    requires
        name_refusal(name) is None,
    ensures
        name.len() > 0,
        encode_utf8(name).len() <= NAME_MAX,
        !name.contains('/'),
        !name.contains('\\'),
        name.first() != '.',
{
}

/// The last component of a path: what is left of it without trailing slashes and
/// trailing `.` components, after its last slash.
pub open spec fn last_component(path: Seq<char>) -> Seq<char>
    decreases path.len(),
{
    if path.len() == 0 {
        path
    } else if path.last() == '/' {
        last_component(path.drop_last())
    } else if path.len() >= 2 && path.last() == '.' && path[path.len() - 2] == '/' {
        last_component(path.drop_last())
    } else {
        match cut_at_last(path, '/') {
            Some(p) => p.1,
            None => path,
        }
    }
}

/// The extension of the file that a path names: what stands after the last dot of
/// its name, if anything stands before it.
pub open spec fn extension_of(path: Seq<char>) -> Option<Seq<char>> {
    let name = last_component(path);
    if name == ".."@ {
        None
    } else {
        match cut_at_last(name, '.') {
            Some(p) => if p.0.len() == 0 {
                None
            } else {
                Some(p.1)
            },
            None => None,
        }
    }
}

fn file_name(path: &str) -> (r: String)
    ensures
        r@ == last_component(path@),
{
    let v = chars_of(path);
    let mut n: usize = v.len();
    assert(v@.take(v@.len() as int) == v@);
    while n > 0 && (v[n - 1] == '/' || (n >= 2 && v[n - 1] == '.' && v[n - 2] == '/'))
        invariant
            n <= v@.len(),
            last_component(v@.take(n as int)) == last_component(v@),
        decreases n,
    {
        assert(v@.take(n as int).drop_last() == v@.take(n - 1));
        n = n - 1;
    }
    let kept = text_between(&v, 0, n);
    assert(kept@ == v@.take(n as int));
    match cut_last(kept.as_str(), '/') {
        Some((_, name)) => name,
        None => kept,
    }
}

fn file_extension(path: &str) -> (r: Option<String>)
    ensures
        opt_text(r) == extension_of(path@),
{
    let name = file_name(path);
    if same(name.as_str(), "..") {
        return None;
    }
    match cut_last(name.as_str(), '.') {
        Some((stem, ext)) => {
            if stem.as_str().is_empty() {
                None
            } else {
                Some(ext)
            }
        },
        None => None,
    }
}

/// A file of this name may be uploaded as this kind.
pub open spec fn supported(kind: Kind, filename: Seq<char>) -> bool {
    extension_of(filename) matches Some(e) && lowered(e) == kind.ext()
}

/// The extension has to match the kind, in either case of letters.
pub fn ensure_supported(kind: Kind, filename: &str) -> (r: Result<(), AppError>)
    ensures
        refusal(r) == (if supported(kind, filename@) {
            None
        } else {
            Some(
                Refusal::Validation(
                    "a "@ + kind.label() + " must be a ."@ + kind.ext() + " file"@,
                ),
            )
        }),
{
    let fits = match file_extension(filename) {
        Some(e) => {
            let small = lower(e.as_str());
            same(small.as_str(), kind.extension())
        },
        None => false,
    };
    if fits {
        return Ok(());
    }
    let mut m = joined3("a ", kind.as_str(), " must be a .");
    m.append(kind.extension());
    m.append(" file");
    Err(AppError::Validation(m))
}

/// The digest of some bytes, in small hexadecimal digits.
pub fn sha256_hex(bytes: &[u8]) -> (r: String)
    ensures
        r@ == hex_bytes(sha256(bytes@)),
{
    let d = sha256_of(bytes);
    hex_encode(d.as_slice())
}

/// The scheme that a request came by: what the proxy says, up to the first comma,
/// and otherwise that of the configured address.
pub open spec fn request_scheme(public_url: Seq<char>, forwarded_proto: Option<Seq<char>>) -> Seq<
    char,
> {
    match forwarded_proto {
        Some(p) => match cut_at(p, ',') {
            Some(x) => trimmed(x.0),
            None => trimmed(p),
        },
        None => if starts_with(public_url, "https://"@) {
            "https"@
        } else {
            "http"@
        },
    }
}

/// Where this installation is reached.
pub open spec fn reached_at(
    public_url: Seq<char>,
    host: Option<Seq<char>>,
    forwarded_proto: Option<Seq<char>>,
) -> Seq<char> {
    match host {
        Some(h) => if h.len() > 0 {
            request_scheme(public_url, forwarded_proto) + "://"@ + h
        } else {
            without_trailing(public_url, '/')
        },
        None => without_trailing(public_url, '/'),
    }
}

/// Where this installation is reached, from the request that got here; the
/// configured address where the request does not say.
pub fn request_origin(public_url: &str, host: Option<&str>, forwarded_proto: Option<&str>) -> (r:
    String)
    ensures
        r@ == reached_at(public_url@, opt_str(host), opt_str(forwarded_proto)),
{
    match host {
        Some(h) => {
            if !h.is_empty() {
                let scheme = match forwarded_proto {
                    Some(p) => match cut(p, ',') {
                        Some((first, _)) => trim(first.as_str()),
                        None => trim(p),
                    },
                    None => {
                        if begins(public_url, "https://") {
                            "https".to_owned()
                        } else {
                            "http".to_owned()
                        }
                    },
                };
                return joined3(scheme.as_str(), "://", h);
            }
        },
        None => {},
    }
    trim_end(public_url, '/')
}

/// Where a client downloads from: this installation's own route.
pub open spec fn installer_url(origin: Seq<char>) -> Seq<char> {
    without_trailing(origin, '/') + "/api/desktop/installer"@
}

/// The update manifest that a client reads, for the one platform.
pub open spec fn manifest_json(meta: InstallerMeta, origin: Seq<char>, signature: Seq<char>) -> Json {
    let platform = Json::Object(
        Map::empty().insert("signature"@, Json::Text(signature)).insert(
            "url"@,
            Json::Text(installer_url(origin)),
        ),
    );
    Json::Object(
        Map::empty().insert("version"@, Json::Text(meta.version@)).insert(
            "notes"@,
            Json::Text(
                match meta.notes {
                    Some(n) => n@,
                    None => Seq::empty(),
                },
            ),
        ).insert(
            "pub_date"@,
            Json::Text(
                match meta.pub_date {
                    Some(d) => d@,
                    None => meta.uploaded_at@,
                },
            ),
        ).insert("platforms"@, Json::Object(Map::empty().insert(PLATFORM_KEY@, platform))),
    )
}

/// The manifest of what is stored. Its location is this installation's, whatever an
/// uploaded manifest said.
pub fn manifest_for(meta: &InstallerMeta, origin: &str, signature: &str) -> (r: serde_json::Value)
    ensures
        json_in(r) == manifest_json(*meta, origin@, signature@),
{
    let base = trim_end(origin, '/');
    let url = joined(base.as_str(), "/api/desktop/installer");
    let mut platform = empty_object();
    put(&mut platform, "signature", text_value(signature));
    put(&mut platform, "url", text_value(url.as_str()));
    let mut platforms = empty_object();
    put(&mut platforms, PLATFORM_KEY, platform);
    let notes = match &meta.notes {
        Some(n) => text_value(n.as_str()),
        None => {
            let none = String::new();
            assert(none@ =~= Seq::<char>::empty());
            text_value(none.as_str())
        },
    };
    let pub_date = match &meta.pub_date {
        Some(d) => text_value(d.as_str()),
        None => text_value(meta.uploaded_at.as_str()),
    };
    let mut out = empty_object();
    put(&mut out, "version", text_value(meta.version.as_str()));
    put(&mut out, "notes", notes);
    put(&mut out, "pub_date", pub_date);
    put(&mut out, "platforms", platforms);
    out
}

/// The notes, the date and the signature that a published manifest has. Its
/// location is not among them.
#[verifier::ext_equal]
pub struct Harvest {
    pub notes: Option<Seq<char>>,
    pub pub_date: Option<Seq<char>>,
    pub signature: Option<Seq<char>>,
}

/// What is taken of a manifest.
pub open spec fn harvest(manifest: Json) -> Harvest {
    Harvest {
        notes: text_at(manifest, "notes"@),
        pub_date: text_at(manifest, "pub_date"@),
        signature: crate::text::filled(
            text_under(manifest, "platforms"@, PLATFORM_KEY@, "signature"@),
        ),
    }
}

/// A signature that is there once trimmed.
pub fn usable_signature(found: Option<String>) -> (r: Option<String>)
    ensures
        opt_text(r) == crate::text::filled(opt_text(found)),
{
    match found {
        Some(s) => {
            let t = trim(s.as_str());
            if t.as_str().is_empty() {
                None
            } else {
                Some(t)
            }
        },
        None => None,
    }
}

/// Takes from a published manifest what is still true here: what the release is and
/// how it is signed.
pub fn harvest_manifest(bytes: &[u8]) -> (r: Result<
    (Option<String>, Option<String>, Option<String>),
    AppError,
>)
    ensures
        match parsed(bytes@) {
            None => refusal(r) == Some(
                Refusal::Validation("that file is not a valid update manifest"@),
            ),
            Some(d) => r matches Ok(h) && harvest(d) == (Harvest {
                notes: opt_text(h.0),
                pub_date: opt_text(h.1),
                signature: opt_text(h.2),
            }),
        },
{
    let v = match parse_document(bytes) {
        Some(v) => v,
        None => {
            return Err(validation("that file is not a valid update manifest"));
        },
    };
    let notes = read_text(&v, "notes");
    let pub_date = read_text(&v, "pub_date");
    let signature = usable_signature(read_text_under(&v, "platforms", PLATFORM_KEY, "signature"));
    Ok((notes, pub_date, signature))
}

/// Where people download the client when it is not served here: as configured, or
/// the public channel.
pub fn download_url(configured: Option<String>) -> (r: String)
    ensures
        r@ == (match configured {
            Some(v) => if v@.len() > 0 {
                v@
            } else {
                DEFAULT_DOWNLOAD_URL@
            },
            None => DEFAULT_DOWNLOAD_URL@,
        }),
{
    match configured {
        Some(v) => {
            if v.as_str().is_empty() {
                DEFAULT_DOWNLOAD_URL.to_owned()
            } else {
                v
            }
        },
        None => DEFAULT_DOWNLOAD_URL.to_owned(),
    }
}

/// An upload that may go ahead: the trimmed version and name.
pub struct Accepted {
    pub kind: Kind,
    pub version: String,
    pub name: String,
}

/// Why an upload is refused before anything is touched: there is nothing in it, its
/// version is missing or too long, its name is no plain name, or its extension is
/// not that of its kind; in this order.
pub open spec fn upload_refusal(q: UploadQuery, body: nat) -> Option<Refusal> {
    let version = trimmed(q.version@);
    let name = trimmed(q.filename@);
    if body == 0 {
        Some(Refusal::Validation("empty upload"@))
    } else if version.len() == 0 || encode_utf8(version).len() > VERSION_MAX {
        Some(Refusal::Validation("a version is required"@))
    } else if name_refusal(name) is Some {
        name_refusal(name)
    } else if !supported(q.kind, name) {
        Some(
            Refusal::Validation("a "@ + q.kind.label() + " must be a ."@ + q.kind.ext() + " file"@),
        )
    } else {
        None
    }
}

pub fn accept_upload(q: &UploadQuery, body: &[u8]) -> (r: Result<Accepted, AppError>)
    ensures
        refusal(r) == upload_refusal(*q, body@.len()),
        r matches Ok(a) ==> a.kind == q.kind && a.version@ == trimmed(q.version@) && a.name@
            == trimmed(q.filename@),
{
    if body.len() == 0 {
        return Err(validation("empty upload"));
    }
    let version = trim(q.version.as_str());
    if version.as_str().is_empty() || byte_len(version.as_str()) > VERSION_MAX {
        return Err(validation("a version is required"));
    }
    let name = match safe_name(q.filename.as_str()) {
        Ok(n) => n,
        Err(e) => {
            return Err(e);
        },
    };
    match ensure_supported(q.kind, name.as_str()) {
        Ok(_) => {},
        Err(e) => {
            return Err(e);
        },
    }
    Ok(Accepted { kind: q.kind, version, name })
}

/// Whether what is stored belongs to another version, and goes.
pub fn superseded(stored: &Option<InstallerMeta>, version: &str) -> (r: bool)
    ensures
        r == (stored matches Some(m) && m.version@ != version@),
{
    match stored {
        Some(m) => !same(m.version.as_str(), version),
        None => false,
    }
}

/// What is known once an upload went through.
pub struct Stored {
    pub meta: InstallerMeta,
    /// An installer of another name that the new one takes the place of.
    pub replaced: Option<String>,
}

/// The facts of a version that nothing was uploaded of.
pub open spec fn no_facts(version: Seq<char>, now: Seq<char>) -> Facts {
    Facts {
        version,
        filename: Seq::empty(),
        size: 0,
        sha256: Seq::empty(),
        uploaded_at: now,
        signature: None,
        notes: None,
        pub_date: None,
    }
}

/// The facts that an upload starts from: those stored of the same version, at the upload's time;
/// nothing where nothing is stored, or something of another version.
pub open spec fn base_facts(stored: Option<Facts>, version: Seq<char>, now: Seq<char>) -> Facts {
    match stored {
        Some(m) => if m.version == version {
            Facts { uploaded_at: now, ..m }
        } else {
            no_facts(version, now)
        },
        None => no_facts(version, now),
    }
}

/// The facts after an installer of this name and content was uploaded.
pub open spec fn with_installer(m: Facts, name: Seq<char>, body: Seq<u8>) -> Facts {
    Facts { filename: name, size: body.len() as int, sha256: hex_bytes(sha256(body)), ..m }
}

/// The facts after a signature was uploaded.
pub open spec fn with_signature(m: Facts, signature: Seq<char>) -> Facts {
    Facts { signature: Some(signature), ..m }
}

/// The facts after a manifest was uploaded. A signature that was uploaded on its
/// own is the more direct statement of the two and stays.
pub open spec fn with_manifest(m: Facts, h: Harvest) -> Facts {
    Facts {
        notes: h.notes,
        pub_date: h.pub_date,
        signature: if m.signature is Some {
            m.signature
        } else {
            h.signature
        },
        ..m
    }
}

/// Why an accepted upload fails on what is in it: an empty signature, or a manifest
/// that is none.
pub open spec fn content_refusal(kind: Kind, body: Seq<u8>) -> Option<Refusal> {
    match kind {
        Kind::Installer => None,
        Kind::Signature => if trimmed(lossy_text(body)).len() == 0 {
            Some(Refusal::Validation("that signature file is empty"@))
        } else {
            None
        },
        Kind::Manifest => if parsed(body) is None {
            Some(Refusal::Validation("that file is not a valid update manifest"@))
        } else {
            None
        },
    }
}

/// What is known after an accepted upload whose content is in order.
pub open spec fn facts_after(m: Facts, kind: Kind, name: Seq<char>, body: Seq<u8>) -> Facts {
    match kind {
        Kind::Installer => with_installer(m, name, body),
        Kind::Signature => with_signature(m, trimmed(lossy_text(body))),
        Kind::Manifest => match parsed(body) {
            Some(d) => with_manifest(m, harvest(d)),
            None => m,
        },
    }
}

/// What contracts see of stored facts.
pub open spec fn facts_in(m: Option<InstallerMeta>) -> Option<Facts> {
    match m {
        Some(m) => Some(m@),
        None => None,
    }
}

/// Takes an accepted upload in. `stored` is what is there, of which nothing is kept where it is of
/// another version, and `now` the time of the upload.
pub fn upload(stored: Option<InstallerMeta>, up: &Accepted, body: &[u8], now: &str) -> (r: Result<
    Stored,
    AppError,
>)
    requires
        body@.len() <= u64::MAX,
    ensures
        refusal(r) == content_refusal(up.kind, body@),
        r matches Ok(s) ==> {
            let base = base_facts(facts_in(stored), up.version@, now@);
            &&& s.meta@ == facts_after(base, up.kind, up.name@, body@)
            &&& opt_text(s.replaced) == (if up.kind == Kind::Installer && base.filename.len() > 0
                && base.filename != up.name@ {
                Some(base.filename)
            } else {
                None
            })
        },
{
    let nothing = InstallerMeta {
        version: up.version.clone(),
        filename: String::new(),
        size: 0,
        sha256: String::new(),
        uploaded_at: now.to_owned(),
        signature: None,
        notes: None,
        pub_date: None,
    };
    let other_version = superseded(&stored, up.version.as_str());
    let mut meta = match stored {
        Some(m) => if other_version {
            nothing
        } else {
            m
        },
        None => nothing,
    };
    meta.uploaded_at = now.to_owned();
    let ghost base = base_facts(facts_in(stored), up.version@, now@);
    assert(meta@ == base);
    let mut replaced: Option<String> = None;
    match up.kind {
        Kind::Installer => {
            if !meta.filename.as_str().is_empty() && !same(
                meta.filename.as_str(),
                up.name.as_str(),
            ) {
                replaced = Some(meta.filename.clone());
            }
            meta.filename = up.name.clone();
            meta.size = body.len() as u64;
            meta.sha256 = sha256_hex(body);
        },
        Kind::Signature => {
            let all = read_lossy(body);
            let text = trim(all.as_str());
            if text.as_str().is_empty() {
                return Err(validation("that signature file is empty"));
            }
            meta.signature = Some(text);
        },
        Kind::Manifest => {
            let (notes, pub_date, signature) = match harvest_manifest(body) {
                Ok(h) => h,
                Err(e) => {
                    return Err(e);
                },
            };
            meta.notes = notes;
            meta.pub_date = pub_date;
            if meta.signature.is_none() {
                meta.signature = signature;
            }
        },
    }
    Ok(Stored { meta, replaced })
}

/// A signature and a manifest may come in either order: the signature that was
/// uploaded on its own is the one that counts.
pub proof fn own_signature_wins(m: Facts, signature: Seq<char>, h: Harvest)
    ensures
        with_manifest(with_signature(m, signature), h) == with_signature(
            with_manifest(m, h),
            signature,
        ),
{
}

/// The installer and the manifest may come in either order.
pub proof fn installer_and_manifest_commute(m: Facts, name: Seq<char>, body: Seq<u8>, h: Harvest)
    ensures
        with_manifest(with_installer(m, name, body), h) == with_installer(
            with_manifest(m, h),
            name,
            body,
        ),
{
}

/// What is stored after an upload is of the version that was uploaded, and nothing of another
/// version stays: where the version changes, an upload leaves what it would leave with nothing
/// stored. Without an installer of the new version there is then nothing to download, and with one
/// it is that installer.
pub proof fn one_version_at_a_time(
    stored: Option<Facts>,
    version: Seq<char>,
    now: Seq<char>,
    kind: Kind,
    name: Seq<char>,
    body: Seq<u8>,
)
    ensures
        ({
            let after = facts_after(base_facts(stored, version, now), kind, name, body);
            let other = stored matches Some(m) ==> m.version != version;
            &&& after.version == version
            &&& after.uploaded_at == now
            &&& other ==> after == facts_after(no_facts(version, now), kind, name, body)
            &&& other && kind != Kind::Installer ==> after.filename.len() == 0 && after.size == 0
                && after.sha256.len() == 0
            &&& other && kind == Kind::Installer ==> after.signature is None && after.notes is None
                && after.pub_date is None
        }),
{
}

/// However much of a version was uploaded before, its installer is the one that was uploaded last.
pub proof fn last_installer_counts(
    stored: Option<Facts>,
    version: Seq<char>,
    now: Seq<char>,
    name: Seq<char>,
    body: Seq<u8>,
)
    ensures
        ({
            let after = facts_after(base_facts(stored, version, now), Kind::Installer, name, body);
            &&& after.version == version
            &&& after.filename == name
            &&& after.size == body.len()
            &&& after.sha256 == hex_bytes(sha256(body))
        }),
{
}

/// The manifest that a client reads sends it nowhere but here: its location does not
/// depend on anything that was uploaded.
pub proof fn manifest_stays_here(origin: Seq<char>)
    ensures
        crate::text::ends_with(installer_url(origin), "/api/desktop/installer"@),
{
    let base = without_trailing(origin, '/');
    let tail = "/api/desktop/installer"@;
    let url = base + tail;
    assert(url.subrange(url.len() - tail.len(), url.len() as int) =~= tail);
}

/// There is something to download: an installer, and not only a signature or a
/// manifest.
pub open spec fn available(m: Option<InstallerMeta>) -> bool {
    m matches Some(x) && x.filename@.len() > 0
}

/// What people are told about the installer.
pub open spec fn installer_json(meta: Option<InstallerMeta>, download_url: Seq<char>) -> Json {
    let there = available(meta);
    let m = meta->0;
    let or_null = |j: Json|
        if there {
            j
        } else {
            Json::Null
        };
    Json::Object(
        Map::empty().insert("available"@, Json::Flag(there)).insert(
            "version"@,
            or_null(Json::Text(m.version@)),
        ).insert("filename"@, or_null(Json::Text(m.filename@))).insert(
            "size"@,
            or_null(Json::Number(m.size as int)),
        ).insert("sha256"@, or_null(Json::Text(m.sha256@))).insert(
            "uploaded_at"@,
            or_null(Json::Text(m.uploaded_at@)),
        ).insert("has_signature"@, Json::Flag(there && m.signature is Some)).insert(
            "download_url"@,
            Json::Text(download_url),
        ),
    )
}

/// What is known about the installer, and where else to get one. Nothing uploaded
/// is nothing, rather than an error.
pub fn meta_json(meta: Option<&InstallerMeta>, download_url: &str) -> (r: serde_json::Value)
    ensures
        json_in(r) == installer_json(
            match meta {
                Some(m) => Some(*m),
                None => None,
            },
            download_url@,
        ),
{
    let mut out = empty_object();
    match meta {
        Some(m) => {
            if !m.filename.as_str().is_empty() {
                put(&mut out, "available", flag_value(true));
                put(&mut out, "version", text_value(m.version.as_str()));
                put(&mut out, "filename", text_value(m.filename.as_str()));
                put(&mut out, "size", size_value(m.size));
                put(&mut out, "sha256", text_value(m.sha256.as_str()));
                put(&mut out, "uploaded_at", text_value(m.uploaded_at.as_str()));
                put(&mut out, "has_signature", flag_value(m.signature.is_some()));
                put(&mut out, "download_url", text_value(download_url));
                return out;
            }
        },
        None => {},
    }
    put(&mut out, "available", flag_value(false));
    put(&mut out, "version", null_value());
    put(&mut out, "filename", null_value());
    put(&mut out, "size", null_value());
    put(&mut out, "sha256", null_value());
    put(&mut out, "uploaded_at", null_value());
    put(&mut out, "has_signature", flag_value(false));
    put(&mut out, "download_url", text_value(download_url));
    out
}

/// The name of the installer to hand out.
pub fn download(meta: &Option<InstallerMeta>) -> (r: Result<String, AppError>)
    ensures
        match r {
            Ok(name) => available(*meta) && name@ == meta->0.filename@,
            Err(e) => !available(*meta) && e@ == Refusal::NotFound(
                "no desktop installer is published here"@,
            ),
        },
{
    match meta {
        Some(m) => {
            if m.filename.as_str().is_empty() {
                Err(not_found("no desktop installer is published here"))
            } else {
                Ok(m.filename.clone())
            }
        },
        None => Err(not_found("no desktop installer is published here")),
    }
}

/// The update manifest for clients of this installation. An installer without a
/// signature has none, since no client could check it.
pub fn latest_manifest(meta: &Option<InstallerMeta>, origin: &str) -> (r: Result<
    serde_json::Value,
    AppError,
>)
    ensures
        refusal(r) == (if !available(*meta) {
            Some(Refusal::NotFound("no desktop update is published here"@))
        } else if meta->0.signature is None {
            Some(Refusal::NotFound("no signed desktop update is published here"@))
        } else {
            None
        }),
        r matches Ok(m) ==> json_in(m) == manifest_json(meta->0, origin@, meta->0.signature->0@),
{
    let m = match meta {
        Some(m) => m,
        None => {
            return Err(not_found("no desktop update is published here"));
        },
    };
    if m.filename.as_str().is_empty() {
        return Err(not_found("no desktop update is published here"));
    }
    match clone_text(&m.signature) {
        Some(s) => Ok(manifest_for(m, origin, s.as_str())),
        None => Err(not_found("no signed desktop update is published here")),
    }
}

/// A manifest that is served here says what the release is, and is read back as that by an
/// installation that it is uploaded to; where to download from is not taken over.
pub proof fn served_manifests_read_back(meta: InstallerMeta, origin: Seq<char>, signature: Seq<char>)
    ensures
        harvest(manifest_json(meta, origin, signature)).notes == Some(
            match meta.notes {
                Some(n) => n@,
                None => Seq::empty(),
            },
        ),
        harvest(manifest_json(meta, origin, signature)).pub_date == Some(
            match meta.pub_date {
                Some(d) => d@,
                None => meta.uploaded_at@,
            },
        ),
        harvest(manifest_json(meta, origin, signature)).signature == crate::text::filled(
            Some(signature),
        ),
        text_under(
            manifest_json(meta, origin, signature),
            "platforms"@,
            PLATFORM_KEY@,
            "url"@,
        ) == Some(installer_url(origin)),
{
    reveal_strlit("version");
    reveal_strlit("notes");
    reveal_strlit("pub_date");
    reveal_strlit("platforms");
    reveal_strlit("signature");
    reveal_strlit("url");
    assert("version"@.len() == 7 && "notes"@.len() == 5 && "pub_date"@.len() == 8
        && "platforms"@.len() == 9);
    assert("signature"@.len() != "url"@.len());
}

/// What is written down of an upload.
pub open spec fn uploaded_doc(kind: Kind, version: Seq<char>, name: Seq<char>, sha256: Seq<char>) -> Json {
    Json::Object(
        Map::empty().insert("kind"@, Json::Text(kind.label())).insert(
            "version"@,
            Json::Text(version),
        ).insert("filename"@, Json::Text(name)).insert("sha256"@, Json::Text(sha256)),
    )
}

pub fn uploaded_event(ctx: &AuthContext, up: &Accepted, meta: &InstallerMeta) -> (e: AuditEvent)
    ensures
        e@ == entry(
            "desktop.installer_uploaded"@,
            ActorRole::Platform(ctx.role),
            None,
            "desktop_installer"@,
            None,
        ).noting(uploaded_doc(up.kind, meta.version@, up.name@, meta.sha256@)),
{
    let mut doc = empty_object();
    put(&mut doc, "kind", text_value(up.kind.as_str()));
    put(&mut doc, "version", text_value(meta.version.as_str()));
    put(&mut doc, "filename", text_value(up.name.as_str()));
    put(&mut doc, "sha256", text_value(meta.sha256.as_str()));
    let role = ActorRole::Platform(ctx.role);
    note(record("desktop.installer_uploaded", role, None, "desktop_installer", None), doc)
}

/// What is written down of an installer that is served no more.
pub open spec fn removed_doc(version: Seq<char>, sha256: Seq<char>) -> Json {
    Json::Object(
        Map::empty().insert("version"@, Json::Text(version)).insert("sha256"@, Json::Text(sha256)),
    )
}

/// What is written down when nothing is to be served any more: only that something was.
pub fn clear(ctx: &AuthContext, had: &Option<InstallerMeta>) -> (r: Option<AuditEvent>)
    ensures
        match *had {
            None => r is None,
            Some(m) => r matches Some(e) && e@ == entry(
                "desktop.installer_removed"@,
                ActorRole::Platform(ctx.role),
                None,
                "desktop_installer"@,
                None,
            ).noting(removed_doc(m.version@, m.sha256@)),
        },
{
    match had {
        None => None,
        Some(m) => {
            let mut doc = empty_object();
            put(&mut doc, "version", text_value(m.version.as_str()));
            put(&mut doc, "sha256", text_value(m.sha256.as_str()));
            let role = ActorRole::Platform(ctx.role);
            Some(note(record("desktop.installer_removed", role, None, "desktop_installer", None), doc))
        },
    }
}

/// A file's name is taken where it is neither empty nor longer than two hundred bytes, leads nowhere
/// else and does not begin with a dot.
pub proof fn which_file_names_are_taken(name: Seq<char>)
    ensures
        name_refusal(name) is None
            <==> 0 < name.len()
                && encode_utf8(name).len() <= 200
                && !name.contains('/')
                && !name.contains('\\')
                && !name.contains(':')
                && !name.contains('\0')
                && name[0] != '.',
{
    reveal_strlit(".");
    reveal_strlit("..");
}

/// A file is taken where it is not empty, with a version of at most sixty-four bytes, under a name
/// that can be had and that fits its kind.
pub proof fn which_files_are_taken(q: UploadQuery, body: nat)
    ensures
        upload_refusal(q, body) is None
            <==> body > 0
                && 0 < trimmed(q.version@).len()
                && encode_utf8(trimmed(q.version@)).len() <= 64
                && (
                    0 < trimmed(q.filename@).len()
                        && encode_utf8(trimmed(q.filename@)).len() <= 200
                        && !trimmed(q.filename@).contains('/')
                        && !trimmed(q.filename@).contains('\\')
                        && !trimmed(q.filename@).contains(':')
                        && !trimmed(q.filename@).contains('\0')
                        && trimmed(q.filename@)[0] != '.'
                )
                && supported(q.kind, trimmed(q.filename@)),
{
    which_file_names_are_taken(trimmed(q.filename@));
}

/// An installer may hold anything, a signature some text, and a manifest has to be one.
pub proof fn which_contents_are_taken(kind: Kind, body: Seq<u8>)
    ensures
        content_refusal(kind, body) is None
            <==> (kind == Kind::Signature ==> trimmed(lossy_text(body)).len() > 0)
                && (kind == Kind::Manifest ==> parsed(body) is Some),
{
}

/// What stands in `uploaded_doc` under each name; there is no other name in it.
pub proof fn what_uploaded_doc_holds(
    kind: Kind,
    version: Seq<char>,
    name: Seq<char>,
    sha256: Seq<char>,
)
    ensures
        member_at(uploaded_doc(kind, version, name, sha256), "kind"@)
            == Some(Json::Text(kind.label())),
        member_at(uploaded_doc(kind, version, name, sha256), "version"@)
            == Some(Json::Text(version)),
        member_at(uploaded_doc(kind, version, name, sha256), "filename"@) == Some(Json::Text(name)),
        member_at(uploaded_doc(kind, version, name, sha256), "sha256"@) == Some(Json::Text(sha256)),
        forall|name: Seq<char>|
            #[trigger] member_at(uploaded_doc(kind, version, name, sha256), name) is Some
                ==> name == "kind"@
                    || name == "version"@
                    || name == "filename"@
                    || name == "sha256"@,
{
    reveal_strlit("kind");
    reveal_strlit("version");
    reveal_strlit("filename");
    reveal_strlit("sha256");
    assert("kind"@.len() != "version"@.len());
    assert("kind"@.len() != "filename"@.len());
    assert("kind"@.len() != "sha256"@.len());
    assert("version"@.len() != "filename"@.len());
    assert("version"@.len() != "sha256"@.len());
    assert("filename"@.len() != "sha256"@.len());
}

/// What stands in `removed_doc` under each name; there is no other name in it.
pub proof fn what_removed_doc_holds(version: Seq<char>, sha256: Seq<char>)
    ensures
        member_at(removed_doc(version, sha256), "version"@) == Some(Json::Text(version)),
        member_at(removed_doc(version, sha256), "sha256"@) == Some(Json::Text(sha256)),
        forall|name: Seq<char>|
            #[trigger] member_at(removed_doc(version, sha256), name) is Some
                ==> name == "version"@ || name == "sha256"@,
{
    reveal_strlit("version");
    reveal_strlit("sha256");
    assert("version"@.len() != "sha256"@.len());
}

/// Each kind of file has its own ending and its own name.
pub proof fn kinds_of_files(kind: Kind)
    ensures
        Kind::Installer.ext() == "msi"@,
        Kind::Signature.ext() == "sig"@,
        Kind::Manifest.ext() == "json"@,
        Kind::Installer.label() == "installer"@,
        Kind::Signature.label() == "signature"@,
        Kind::Manifest.label() == "manifest"@,
        NAME_MAX == 200,
        VERSION_MAX == 64,
{
}

/// A plain name is its own last part, and so it is behind a path and before strokes.
pub proof fn names_are_last_parts(path: Seq<char>, name: Seq<char>)
    requires
        name.len() > 0,
        !name.contains('/'),
        name.last() != '.' || name.len() > 1,
    ensures
        last_component(name) == name,
        last_component(path.push('/') + name) == name,
        last_component(name.push('/')) == name,
{
    let all = path.push('/') + name;
    assert(name.contains(name.last()));
    if name.len() > 1 {
        assert(name.contains(name[name.len() - 2]));
    }
    cuts_are_at_the_last_mark(name, '/');
    assert(all.last() == name.last());
    assert(all.contains('/')) by {
        assert(all[path.len() as int] == '/');
    }
    cuts_are_at_the_last_mark(all, '/');
    let p = cut_at_last(all, '/')->0;
    assert(p.1 =~= name) by {
        if p.1.len() > name.len() {
            let k = p.1.len() - name.len() - 1;
            assert(p.1[k] == all[p.0.len() + 1 + k]);
            assert(all[path.len() as int] == '/');
            assert(p.0.len() + 1 + k == path.len());
            assert(p.1.contains('/'));
        } else if p.1.len() < name.len() {
            let k = name.len() - p.1.len() - 1;
            assert(all[p.0.len() as int] == '/');
            assert(name[k] == all[path.len() + 1 + k]);
            assert(name.contains('/'));
        } else {
            assert forall|k: int| 0 <= k < name.len() implies p.1[k] == name[k] by {
                assert(p.1[k] == all[p.0.len() + 1 + k]);
                assert(name[k] == all[path.len() + 1 + k]);
            }
        }
    }
    if all.len() >= 2 && name.len() > 1 {
        assert(all[all.len() - 2] == name[name.len() - 2]);
    }
    assert(name.push('/').drop_last() =~= name);
    assert(name.push('/').last() == '/');
    assert(last_component(name.push('/')) == last_component(name));
}

/// The ending of a name is what is behind its last dot, where something is before the dot.
pub proof fn endings_are_behind_the_last_dot(stem: Seq<char>, ending: Seq<char>)
    requires
        stem.len() > 0,
        !stem.contains('/'),
        ending.len() > 0,
        !ending.contains('/'),
        !ending.contains('.'),
    ensures
        extension_of(stem.push('.') + ending) == Some(ending),
        extension_of(ending) is None,
        extension_of(seq!['.'] + ending) is None,
{
    reveal_strlit("..");
    let name = stem.push('.') + ending;
    let bare = seq!['.'] + ending;
    assert(ending.contains(ending.last()));
    assert forall|k: int| 0 <= k < name.len() implies #[trigger] name[k] != '/' by {
        if k < stem.len() {
            assert(stem.contains(stem[k]));
        } else if k > stem.len() {
            assert(ending.contains(ending[k - stem.len() - 1]));
        }
    }
    assert forall|k: int| 0 <= k < bare.len() implies #[trigger] bare[k] != '/' by {
        if k > 0 {
            assert(ending.contains(ending[k - 1]));
        }
    }
    assert(name.last() == ending.last() && bare.last() == ending.last());
    names_are_last_parts(stem, name);
    names_are_last_parts(stem, bare);
    names_are_last_parts(stem, ending);
    cuts_at_last_where_marked(stem, ending, '.');
    cuts_at_last_where_marked(Seq::empty(), ending, '.');
    assert(Seq::<char>::empty().push('.') + ending =~= bare);
}

/// A file fits its kind where its ending is the kind's, in capitals or not.
pub proof fn files_fit_their_kind(kind: Kind, filename: Seq<char>)
    ensures
        supported(kind, filename) <==> (extension_of(filename) matches Some(e) && lowered(e) == (
        match kind {
            Kind::Installer => "msi"@,
            Kind::Signature => "sig"@,
            Kind::Manifest => "json"@,
        })),
{
}

/// The platform is reached at the host that was asked, by the first scheme that was forwarded or else
/// by that of its own address; where no host was named, at its own address without strokes at its end.
pub proof fn where_the_platform_is_reached(
    public_url: Seq<char>,
    host: Option<Seq<char>>,
    proto: Option<Seq<char>>,
    a: Seq<char>,
    b: Seq<char>,
)
    ensures
        !a.contains(',') ==> request_scheme(public_url, Some(a)) == trimmed(a),
        !a.contains(',') ==> request_scheme(public_url, Some(a.push(',') + b)) == trimmed(a),
        request_scheme(public_url, None)
            == (if starts_with(public_url, "https://"@) { "https"@ } else { "http"@ }),
        (host matches Some(h) && h.len() > 0)
            ==> reached_at(public_url, host, proto)
                == request_scheme(public_url, proto) + "://"@ + host->0,
        !(host matches Some(h) && h.len() > 0)
            ==> reached_at(public_url, host, proto) == without_trailing(public_url, '/'),
{
    cuts_where_marked(a, b, ',');
}

/// An installer is told of where there is one: what it is, and whether it is signed; where there is
/// none, that, and where else to get it.
pub proof fn what_is_told_of_the_installer(meta: Option<InstallerMeta>, url: Seq<char>)
    ensures
        available(meta) <==> (meta matches Some(m) && m.filename@.len() > 0),
        member_at(installer_json(meta, url), "available"@) == Some(Json::Flag(available(meta))),
        member_at(installer_json(meta, url), "download_url"@) == Some(Json::Text(url)),
        available(meta)
            ==> member_at(installer_json(meta, url), "version"@)
                == Some(Json::Text(meta->0.version@)),
        available(meta)
            ==> member_at(installer_json(meta, url), "filename"@)
                == Some(Json::Text(meta->0.filename@)),
        available(meta)
            ==> member_at(installer_json(meta, url), "size"@)
                == Some(Json::Number(meta->0.size as int)),
        available(meta)
            ==> member_at(installer_json(meta, url), "sha256"@) == Some(Json::Text(meta->0.sha256@)),
        available(meta)
            ==> member_at(installer_json(meta, url), "uploaded_at"@)
                == Some(Json::Text(meta->0.uploaded_at@)),
        member_at(installer_json(meta, url), "has_signature"@)
            == Some(Json::Flag(available(meta) && meta->0.signature is Some)),
        !available(meta)
            ==> forall|name: Seq<char>|
                #[trigger] member_at(installer_json(meta, url), name) is Some
                    ==> name == "available"@
                        || name == "download_url"@
                        || name == "has_signature"@
                        || member_at(installer_json(meta, url), name) == Some(Json::Null),
{
    reveal_strlit("available");
    reveal_strlit("version");
    reveal_strlit("filename");
    reveal_strlit("size");
    reveal_strlit("sha256");
    reveal_strlit("uploaded_at");
    reveal_strlit("has_signature");
    reveal_strlit("download_url");
    assert("available"@.len() != "version"@.len());
    assert("available"@.len() != "filename"@.len());
    assert("available"@.len() != "size"@.len());
    assert("available"@.len() != "sha256"@.len());
    assert("available"@.len() != "uploaded_at"@.len());
    assert("available"@.len() != "has_signature"@.len());
    assert("available"@.len() != "download_url"@.len());
    assert("version"@.len() != "filename"@.len());
    assert("version"@.len() != "size"@.len());
    assert("version"@.len() != "sha256"@.len());
    assert("version"@.len() != "uploaded_at"@.len());
    assert("version"@.len() != "has_signature"@.len());
    assert("version"@.len() != "download_url"@.len());
    assert("filename"@.len() != "size"@.len());
    assert("filename"@.len() != "sha256"@.len());
    assert("filename"@.len() != "uploaded_at"@.len());
    assert("filename"@.len() != "has_signature"@.len());
    assert("filename"@.len() != "download_url"@.len());
    assert("size"@.len() != "sha256"@.len());
    assert("size"@.len() != "uploaded_at"@.len());
    assert("size"@.len() != "has_signature"@.len());
    assert("size"@.len() != "download_url"@.len());
    assert("sha256"@.len() != "uploaded_at"@.len());
    assert("sha256"@.len() != "has_signature"@.len());
    assert("sha256"@.len() != "download_url"@.len());
    assert("uploaded_at"@.len() != "has_signature"@.len());
    assert("uploaded_at"@.len() != "download_url"@.len());
    assert("has_signature"@.len() != "download_url"@.len());
}

/// What is known of a version is kept while that version is uploaded, and dropped for another. Each kind
/// of file sets its own facts and leaves the others.
pub proof fn facts_are_kept_for_one_version(
    stored: Option<Facts>,
    version: Seq<char>,
    now: Seq<char>,
    m: Facts,
    name: Seq<char>,
    body: Seq<u8>,
    manifest: Json,
    origin: Seq<char>,
)
    ensures
        (stored matches Some(s) && s.version == version)
            ==> base_facts(stored, version, now) == (Facts { uploaded_at: now, ..stored->0 }),
        !(stored matches Some(s) && s.version == version)
            ==> base_facts(stored, version, now)
                == (
                    Facts {
                        version,
                        filename: Seq::empty(),
                        size: 0,
                        sha256: Seq::empty(),
                        uploaded_at: now,
                        signature: None,
                        notes: None,
                        pub_date: None,
                    }
                ),
        facts_after(m, Kind::Installer, name, body)
            == (
                Facts {
                    filename: name,
                    size: body.len() as int,
                    sha256: hex_bytes(sha256(body)),
                    ..m
                }
            ),
        facts_after(m, Kind::Signature, name, body)
            == (Facts { signature: Some(trimmed(lossy_text(body))), ..m }),
        parsed(body) is None ==> facts_after(m, Kind::Manifest, name, body) == m,
        parsed(body) matches Some(d)
            ==> facts_after(m, Kind::Manifest, name, body)
                == (
                    Facts {
                        notes: text_at(d, "notes"@),
                        pub_date: text_at(d, "pub_date"@),
                        signature: if m.signature is Some { m.signature } else {
                            crate::text::filled(
                                text_under(d, "platforms"@, "windows-x86_64"@, "signature"@)
                            )
                        },
                        ..m
                    }
                ),
        installer_url(origin) == without_trailing(origin, '/') + "/api/desktop/installer"@,
        DEFAULT_DOWNLOAD_URL@ == "https://get.fosnie.dev/desktop/"@,
{
}

/// A manifest says which version there is, what is new in it, when it came out, and where it is had.
pub proof fn what_manifests_say(meta: InstallerMeta, origin: Seq<char>, signature: Seq<char>)
    ensures
        member_at(manifest_json(meta, origin, signature), "version"@)
            == Some(Json::Text(meta.version@)),
        member_at(manifest_json(meta, origin, signature), "notes"@)
            == Some(Json::Text(match meta.notes { Some(n) => n@, None => Seq::empty() })),
        member_at(manifest_json(meta, origin, signature), "pub_date"@)
            == Some(Json::Text(match meta.pub_date { Some(d) => d@, None => meta.uploaded_at@ })),
        text_under(
            manifest_json(meta, origin, signature),
            "platforms"@,
            "windows-x86_64"@,
            "signature"@,
        )
            == Some(signature),
        text_under(manifest_json(meta, origin, signature), "platforms"@, "windows-x86_64"@, "url"@)
            == Some(installer_url(origin)),
        forall|name: Seq<char>|
            #[trigger] member_at(manifest_json(meta, origin, signature), name) is Some
                ==> name == "version"@
                    || name == "notes"@
                    || name == "pub_date"@
                    || name == "platforms"@,
{
    reveal_strlit("version");
    reveal_strlit("notes");
    reveal_strlit("pub_date");
    reveal_strlit("platforms");
    assert("version"@.len() != "notes"@.len());
    assert("version"@.len() != "pub_date"@.len());
    assert("version"@.len() != "platforms"@.len());
    assert("notes"@.len() != "pub_date"@.len());
    assert("notes"@.len() != "platforms"@.len());
    assert("pub_date"@.len() != "platforms"@.len());
    reveal_strlit("signature");
    reveal_strlit("url");
    assert("signature"@.len() != "url"@.len());
}

/// What is kept of an installer is seen whole.
pub proof fn installers_are_seen_whole(m: InstallerMeta)
    ensures
        m@.version == m.version@,
        m@.filename == m.filename@,
        m@.size == m.size,
        m@.sha256 == m.sha256@,
        m@.uploaded_at == m.uploaded_at@,
        m@.signature == opt_text(m.signature),
        m@.notes == opt_text(m.notes),
        m@.pub_date == opt_text(m.pub_date),
        facts_in(Some(m)) == Some(m@),
        facts_in(None) is None,
{
}

/// Of several things that are wrong, `name_refusal` tells the first.
pub proof fn name_refusal_tells_the_first_thing(name: Seq<char>)
    ensures
        (name.len() == 0 || encode_utf8(name).len() > NAME_MAX)
            ==> name_refusal(name) == Some(Refusal::Validation("filename is empty or too long"@)),
        !(name.len() == 0 || encode_utf8(name).len() > NAME_MAX) && leads_elsewhere(name)
            ==> name_refusal(name)
                == Some(Refusal::Validation("filename must be a plain name, without a path"@)),
        !(name.len() == 0 || encode_utf8(name).len() > NAME_MAX)
            && !leads_elsewhere(name)
            && name.first() == '.'
            ==> name_refusal(name)
                == Some(Refusal::Validation("filename must not start with a dot"@)),
        !(name.len() == 0 || encode_utf8(name).len() > NAME_MAX)
            && !leads_elsewhere(name)
            && !(name.first() == '.')
            ==> name_refusal(name) is None,
{
}

/// Of several things that are wrong, `upload_refusal` tells the first.
pub proof fn upload_refusal_tells_the_first_thing(q: UploadQuery, body: nat)
    ensures
        (
            {
                let version = trimmed(q.version@); let name = trimmed(q.filename@); body == 0
                    ==> upload_refusal(q, body) == Some(Refusal::Validation("empty upload"@))
            }
        ),
        (
            {
                let version = trimmed(q.version@); let name = trimmed(q.filename@); !(body == 0)
                    && (version.len() == 0 || encode_utf8(version).len() > VERSION_MAX)
                    ==> upload_refusal(q, body)
                        == Some(Refusal::Validation("a version is required"@))
            }
        ),
        (
            {
                let version = trimmed(q.version@); let name = trimmed(q.filename@); !(body == 0)
                    && !(version.len() == 0 || encode_utf8(version).len() > VERSION_MAX)
                    && name_refusal(name) is Some
                    ==> upload_refusal(q, body) == name_refusal(name)
            }
        ),
        (
            {
                let version = trimmed(q.version@); let name = trimmed(q.filename@); !(body == 0)
                    && !(version.len() == 0 || encode_utf8(version).len() > VERSION_MAX)
                    && !(name_refusal(name) is Some)
                    && !supported(q.kind, name)
                    ==> upload_refusal(q, body)
                        == Some(
                            Refusal::Validation(
                                "a "@ + q.kind.label() + " must be a ."@ + q.kind.ext() + " file"@
                            )
                        )
            }
        ),
        (
            {
                let version = trimmed(q.version@); let name = trimmed(q.filename@); !(body == 0)
                    && !(version.len() == 0 || encode_utf8(version).len() > VERSION_MAX)
                    && !(name_refusal(name) is Some)
                    && !(!supported(q.kind, name))
                    ==> upload_refusal(q, body) is None
            }
        ),
{
}

} // verus!
