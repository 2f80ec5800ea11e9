//! Pairing of desktop devices: a short code, read off one screen and typed into another, is
//! exchanged once for a token of the device's own.

use vstd::prelude::*;
use vstd::string::*;
use vstd::utf8::encode_utf8;

use crate::lists::selects_last;
use crate::clock::Instant;
use crate::error::{forbidden, not_found, refusal, validation, AppError, Refusal};
use crate::http::api_keys::{withdrawn_doc, withdrawn_value};
use crate::grants::{refusal_in, Permissions};
use crate::http::auth::{first_address, first_hop};
use crate::ids::{sha256, sha256_of};
use crate::json::{empty_object, json_in, member_at, put, text_value, Json};
use crate::order::{highest_first, ordered_lists_descend, rank_list, Ranked};
use crate::principal::{AuthContext, Id};
use crate::text::{
    ascii_upper,
    chars_of,
    clip,
    clipped,
    is_blank,
    is_white_space,
    opt_str,
    same,
    trim,
    trimmed,
    trimmed_empty_iff_blank,
    upper_char,
    white_space,
};
use crate::trail::{entry, entry_by, note, record, record_by, ActorRole, AuditEvent};

verus! {

/// The length of a pairing code, in characters.
pub const CODE_LEN: usize = 8;

/// Digits and capitals that are not mistaken for one another: no `0` and `O`, no `1` and
/// `I`. There are thirty-two, so that five bits of a random byte pick one evenly.
pub const CODE_ALPHABET: [u8; 32] = [
    50, 51, 52, 53, 54, 55, 56, 57, 65, 66, 67, 68, 69, 70, 71, 72, 74, 75, 76, 77, 78, 80, 81, 82,
    83, 84, 85, 86, 87, 88, 89, 90,
];

/// How long a code is good for, in minutes.
pub const CODE_TTL_MINUTES: i64 = 10;

pub struct PairBody {
    pub code: String,
    pub name: String,
    pub platform: String,
}

/// The account whose devices they are.
pub fn owner(ctx: &AuthContext) -> (r: Result<Id, AppError>)
    ensures
        match r {
            Ok(id) => ctx.user_id == Some(id),
            Err(e) => ctx.user_id is None && e@ == Refusal::Forbidden(
                "a user account is required to manage devices"@,
            ),
        },
{
    match ctx.user_id {
        Some(id) => Ok(id),
        None => Err(forbidden("a user account is required to manage devices")),
    }
}

/// The character that a number below thirty-two picks.
pub open spec fn code_char(n: int) -> char {
    CODE_ALPHABET@[n] as char
}

/// A character of the alphabet.
pub open spec fn is_code_char(c: char) -> bool {
    ||| '2' <= c <= '9'
    ||| 'A' <= c <= 'H'
    ||| 'J' <= c <= 'N'
    ||| 'P' <= c <= 'Z'
}

proof fn code_char_is_plain(n: int)
    requires
        0 <= n < 32,
    ensures
        is_code_char(code_char(n)),
{
}

/// The code that some bytes stand for, one character each.
pub open spec fn code_text(bytes: Seq<u8>) -> Seq<char> {
    bytes.map_values(|b: u8| code_char(b as int % 32))
}

/// The code that random bytes give.
pub fn code_from(bytes: &[u8]) -> (r: String)
    ensures
        r@ == code_text(bytes@),
{
    let mut out = String::new();
    let mut i: usize = 0;
    while i < bytes.len()
        invariant
            i <= bytes@.len(),
            out@ == code_text(bytes@).take(i as int),
        decreases bytes@.len() - i,
    {
        let b: u8 = bytes[i];
        let k: u8 = b & 31;
        assert(k == b % 32) by (bit_vector)
            requires
                k == b & 31,
        ;
        out.push(CODE_ALPHABET[k as usize] as char);
        i = i + 1;
        assert(code_text(bytes@).take(i as int).drop_last() == code_text(bytes@).take(i - 1));
    }
    assert(code_text(bytes@).take(bytes@.len() as int) == code_text(bytes@));
    out
}

/// Every code is as long as its bytes are many, and made of characters that are not mistaken
/// for one another.
pub proof fn codes_are_not_confusable(bytes: Seq<u8>, i: int)
    requires
        0 <= i < bytes.len(),
    ensures
        code_text(bytes).len() == bytes.len(),
        is_code_char(code_text(bytes)[i]),
        code_text(bytes)[i] != '0',
        code_text(bytes)[i] != 'O',
        code_text(bytes)[i] != '1',
        code_text(bytes)[i] != 'I',
{
    code_char_is_plain(bytes[i] as int % 32);
}

/// `OsRng::fill_bytes`: eight bytes that nobody can foretell.
#[verifier::external_body]
fn random_bytes() -> [u8; 8] {
    let mut bytes = [0u8; 8];
    argon2::password_hash::rand_core::RngCore::fill_bytes(
        &mut argon2::password_hash::rand_core::OsRng,
        &mut bytes,
    );
    bytes
}

/// A code that might have been minted.
pub open spec fn is_code(s: Seq<char>) -> bool {
    s.len() == CODE_LEN && forall|i: int| 0 <= i < s.len() ==> is_code_char(#[trigger] s[i])
}

/// A fresh pairing code, and the hash of it that is stored.
pub fn mint_code() -> (r: (String, Vec<u8>))
    ensures
        is_code(r.0@),
        r.1@ == code_hash(r.0@),
        r.1@.len() == 32,
{
    let bytes = random_bytes();
    let code = code_from(bytes.as_slice());
    proof {
        assert forall|i: int| 0 <= i < code@.len() implies is_code_char(#[trigger] code@[i]) by {
            codes_are_not_confusable(bytes@, i);
        }
    }
    let hash = hash_code(code.as_str());
    (code, hash)
}

/// A typed code is looked up under this.
pub open spec fn code_hash(code: Seq<char>) -> Seq<u8> {
    sha256(encode_utf8(code))
}

pub fn hash_code(code: &str) -> (r: Vec<u8>)
    ensures
        r@ == code_hash(code@),
        r@.len() == 32,
{
    sha256_of(code.as_bytes())
}

/// A typed code without white space and hyphens, in capitals.
pub open spec fn folded(raw: Seq<char>) -> Seq<char>
    decreases raw.len(),
{
    if raw.len() == 0 {
        Seq::empty()
    } else {
        let before = folded(raw.drop_last());
        if is_white_space(raw.last()) || raw.last() == '-' {
            before
        } else {
            before.push(ascii_upper(raw.last()))
        }
    }
}

/// Folds a typed code to the form it was minted in: people group it, write it small, and
/// leave spaces in it.
pub fn normalise_code(raw: &str) -> (r: String)
    ensures
        r@ == folded(raw@),
{
    let v = chars_of(raw);
    let mut out = String::new();
    let mut i: usize = 0;
    assert(v@.take(0) == Seq::<char>::empty());
    while i < v.len()
        invariant
            i <= v@.len(),
            out@ == folded(v@.take(i as int)),
        decreases v@.len() - i,
    {
        assert(v@.take(i as int + 1).drop_last() == v@.take(i as int));
        let c: char = v[i];
        if !white_space(c) && c != '-' {
            out.push(upper_char(c));
        }
        i = i + 1;
    }
    assert(v@.take(v@.len() as int) == v@);
    out
}

proof fn folded_concat(a: Seq<char>, b: Seq<char>)
    ensures
        folded(a + b) == folded(a) + folded(b),
    decreases b.len(),
{
    if b.len() == 0 {
        assert(a + b == a);
    } else {
        folded_concat(a, b.drop_last());
        assert((a + b).drop_last() == a + b.drop_last());
    }
}

proof fn folded_code(s: Seq<char>)
    requires
        forall|i: int| 0 <= i < s.len() ==> is_code_char(#[trigger] s[i]),
    ensures
        folded(s) == s,
        folded(crate::text::lowered(s)) == s,
    decreases s.len(),
{
    let small = crate::text::lowered(s);
    if s.len() > 0 {
        let t = s.drop_last();
        assert forall|i: int| 0 <= i < t.len() implies is_code_char(#[trigger] t[i]) by {
            assert(s[i] == t[i]);
        }
        folded_code(t);
        assert(is_code_char(s[s.len() - 1]));
        assert(small.drop_last() =~= crate::text::lowered(t));
        assert(t.push(s.last()) =~= s);
    } else {
        assert(small =~= s);
    }
}

/// Where white space and hyphens stand in what is typed, and how many there are, does not
/// matter.
pub proof fn separators_do_not_count(a: Seq<char>, c: char, b: Seq<char>)
    requires
        is_white_space(c) || c == '-',
    ensures
        folded(a + seq![c] + b) == folded(a + b),
{
    folded_concat(a + seq![c], b);
    folded_concat(a, seq![c]);
    folded_concat(a, b);
    assert(seq![c].drop_last() =~= Seq::<char>::empty());
    assert(folded(seq![c].drop_last()) =~= Seq::<char>::empty());
    assert(folded(seq![c]) =~= Seq::<char>::empty());
    assert(folded(a) + folded(seq![c]) =~= folded(a));
}

/// However a code is typed, as long as it folds to the code, it is looked up under the hash that
/// the code was stored under. It does so as it was minted, in small letters, or in two groups
/// with a hyphen or a space between them.
pub proof fn typed_codes_find_their_hash(code: Seq<char>, typed: Seq<char>)
    requires
        is_code(code),
    ensures
        folded(typed) == code ==> code_hash(folded(typed)) == code_hash(code),
        code_hash(folded(code)) == code_hash(code),
        code_hash(folded(crate::text::lowered(code))) == code_hash(code),
        code_hash(folded(code.take(4) + seq!['-'] + code.skip(4))) == code_hash(code),
        code_hash(folded(code.take(4) + seq![' '] + code.skip(4))) == code_hash(code),
{
    folded_code(code);
    let a = code.take(4);
    let b = code.skip(4);
    assert forall|i: int| 0 <= i < a.len() implies is_code_char(#[trigger] a[i]) by {
        assert(code[i] == a[i]);
    }
    assert forall|i: int| 0 <= i < b.len() implies is_code_char(#[trigger] b[i]) by {
        assert(code[i + 4] == b[i]);
    }
    folded_code(a);
    folded_code(b);
    assert(a + b =~= code);
    separators_do_not_count(a, '-', b);
    separators_do_not_count(a, ' ', b);
    assert(folded(a + seq!['-'] + b) == code);
    assert(folded(a + seq![' '] + b) == code);
}

/// Folding a code that is folded changes nothing.
pub proof fn folding_twice_is_once(raw: Seq<char>)
    ensures
        folded(folded(raw)) == folded(raw),
    decreases raw.len(),
{
    if raw.len() > 0 {
        folding_twice_is_once(raw.drop_last());
        let before = folded(raw.drop_last());
        let c = raw.last();
        if !is_white_space(c) && c != '-' {
            assert(before.push(ascii_upper(c)).drop_last() =~= before);
        }
    }
}

/// Where a client comes from, as far as the proxy in front says.
pub fn client_ip(forwarded_for: Option<&str>) -> (r: String)
    ensures
        r@ == (match first_hop(opt_str(forwarded_for)) {
            Some(a) => a,
            None => "unknown"@,
        }),
{
    match first_address(forwarded_for) {
        Some(a) => a,
        None => "unknown".to_owned(),
    }
}

pub open spec fn mint_refusal(ctx: AuthContext, from_device: bool) -> Option<Refusal> {
    if ctx.mfa_enroll_only {
        Some(
            Refusal::Forbidden(
                "finish setting up two-factor authentication before pairing a device"@,
            ),
        )
    } else if from_device {
        Some(
            Refusal::Forbidden("pairing a new device must be done from the web, not from a device"@),
        )
    } else if ctx.user_id is None {
        Some(Refusal::Forbidden("a user account is required to manage devices"@))
    } else {
        None
    }
}

/// The nanoseconds that a code is good for.
pub open spec fn code_life() -> int {
    CODE_TTL_MINUTES * 60_000_000_000int
}

/// Lets a code be minted, from a full session and not from a device; says for whom, and when
/// it lapses.
pub fn create_pairing_code(ctx: &AuthContext, from_device: bool, now: Instant) -> (r: Result<
    (Id, Instant),
    AppError,
>)
    requires
        now + code_life() <= i128::MAX,
    ensures
        refusal(r) == mint_refusal(*ctx, from_device),
        r matches Ok(x) ==> ctx.user_id == Some(x.0) && x.1 == now + code_life(),
{
    if ctx.mfa_enroll_only {
        return Err(
            forbidden("finish setting up two-factor authentication before pairing a device"),
        );
    }
    if from_device {
        return Err(
            forbidden("pairing a new device must be done from the web, not from a device"),
        );
    }
    match owner(ctx) {
        Ok(uid) => Ok((uid, now + (CODE_TTL_MINUTES as i128) * 60_000_000_000)),
        Err(e) => Err(e),
    }
}

/// A device never pairs another, and neither does a session that only sets up a second
/// factor.
pub proof fn only_full_sessions_pair(ctx: AuthContext, from_device: bool)
    requires
        mint_refusal(ctx, from_device) is None,
    ensures
        !from_device,
        !ctx.mfa_enroll_only,
        ctx.user_id is Some,
{
}

pub open spec fn is_platform(p: Seq<char>) -> bool {
    p == "windows"@ || p == "macos"@ || p == "linux"@
}

/// A device's name, up to a hundred and twenty characters of it.
pub open spec fn device_name(typed: Seq<char>) -> Seq<char> {
    if trimmed(typed).len() == 0 {
        "Untitled device"@
    } else {
        clipped(trimmed(typed), 120)
    }
}

/// A device to be paired: its name, and the hash its code is looked up under.
pub struct Pairing {
    pub name: String,
    pub code_hash: Vec<u8>,
}

pub fn pair_device(body: &PairBody) -> (r: Result<Pairing, AppError>)
    ensures
        refusal(r) == (if is_platform(body.platform@) {
            None
        } else {
            Some(Refusal::Validation("platform must be one of windows, macos, linux"@))
        }),
        r matches Ok(p) ==> p.name@ == device_name(body.name@) && p.code_hash@ == code_hash(
            folded(body.code@),
        ),
{
    let p = body.platform.as_str();
    if !same(p, "windows") && !same(p, "macos") && !same(p, "linux") {
        return Err(validation("platform must be one of windows, macos, linux"));
    }
    let n = trim(body.name.as_str());
    let name = if n.as_str().is_empty() {
        "Untitled device".to_owned()
    } else {
        clip(n.as_str(), 120)
    };
    let code = normalise_code(body.code.as_str());
    Ok(Pairing { name, code_hash: hash_code(code.as_str()) })
}

/// A code as it is stored, under the hash of what it is typed as.
pub struct CodeRow {
    pub code_hash: Vec<u8>,
    pub code: StoredCode,
}

/// A code that is stored: for whom, whether it was used, and when it lapses.
#[derive(Clone, Copy, Debug, PartialEq, Eq, Structural)]
pub struct StoredCode {
    pub user_id: Id,
    pub consumed: bool,
    pub expires_at: Instant,
}

/// The codes by the hashes they are stored under.
pub open spec fn codes_by_hash(rows: Seq<CodeRow>) -> Map<Seq<u8>, StoredCode>
    decreases rows.len(),
{
    if rows.len() == 0 {
        Map::empty()
    } else {
        codes_by_hash(rows.drop_last()).insert(rows.last().code_hash@, rows.last().code)
    }
}

/// Whom a code pairs a device with: nobody where it is unknown, used or lapsed.
pub open spec fn claimed_by(codes: Map<Seq<u8>, StoredCode>, hash: Seq<u8>, now: Instant) -> Option<Id> {
    if codes.dom().contains(hash) && !codes[hash].consumed && codes[hash].expires_at > now {
        Some(codes[hash].user_id)
    } else {
        None
    }
}

/// The codes after one was tried: it is used where it paired a device, and all is as it was where
/// it did not.
pub open spec fn codes_after(codes: Map<Seq<u8>, StoredCode>, hash: Seq<u8>, now: Instant) -> Map<
    Seq<u8>,
    StoredCode,
> {
    if claimed_by(codes, hash, now) is Some {
        codes.insert(hash, StoredCode { consumed: true, ..codes[hash] })
    } else {
        codes
    }
}

fn same_bytes(a: &Vec<u8>, b: &Vec<u8>) -> (r: bool)
    ensures
        r == (a@ == b@),
{
    if a.len() != b.len() {
        return false;
    }
    let mut i: usize = 0;
    while i < a.len()
        invariant
            a@.len() == b@.len(),
            i <= a@.len(),
            a@.take(i as int) =~= b@.take(i as int),
        decreases a@.len() - i,
    {
        if a[i] != b[i] {
            assert(a@[i as int] != b@[i as int]);
            return false;
        }
        assert(a@.take(i as int + 1) =~= a@.take(i as int).push(a@[i as int]));
        assert(b@.take(i as int + 1) =~= b@.take(i as int).push(b@[i as int]));
        i = i + 1;
    }
    assert(a@.take(i as int) =~= a@);
    assert(b@.take(i as int) =~= b@);
    true
}

fn find_code(rows: &Vec<CodeRow>, hash: &Vec<u8>) -> (r: Option<usize>)
    ensures
        match r {
            Some(i) => i < rows@.len() && rows@[i as int].code_hash@ == hash@ && codes_by_hash(
                rows@,
            ).dom().contains(hash@) && codes_by_hash(rows@)[hash@] == rows@[i as int].code,
            None => !codes_by_hash(rows@).dom().contains(hash@),
        },
{
    let mut found: Option<usize> = None;
    let mut i: usize = 0;
    assert(rows@.take(0) == Seq::<CodeRow>::empty());
    while i < rows.len()
        invariant
            i <= rows@.len(),
            match found {
                Some(k) => k < i && rows@[k as int].code_hash@ == hash@ && codes_by_hash(
                    rows@.take(i as int),
                ).dom().contains(hash@) && codes_by_hash(rows@.take(i as int))[hash@]
                    == rows@[k as int].code,
                None => !codes_by_hash(rows@.take(i as int)).dom().contains(hash@),
            },
        decreases rows@.len() - i,
    {
        assert(rows@.take(i as int + 1).drop_last() == rows@.take(i as int));
        if same_bytes(&rows[i].code_hash, hash) {
            found = Some(i);
        }
        i = i + 1;
    }
    assert(rows@.take(i as int) == rows@);
    found
}

/// Claims a code, which is used up by it: whom it pairs a device with. A code that pairs nobody
/// is not found, and whether it is unknown, used or lapsed is not said.
pub fn claim_code(rows: &mut Vec<CodeRow>, code_hash: &Vec<u8>, now: Instant) -> (r: Result<Id, AppError>)
    ensures
        match r {
            Ok(id) => claimed_by(codes_by_hash(old(rows)@), code_hash@, now) == Some(id),
            Err(e) => claimed_by(codes_by_hash(old(rows)@), code_hash@, now) is None && e@
                == Refusal::NotFound("not found"@),
        },
        codes_by_hash(final(rows)@) == codes_after(codes_by_hash(old(rows)@), code_hash@, now),
{
    let i: usize = match find_code(rows, code_hash) {
        Some(i) => i,
        None => {
            return Err(not_found("not found"));
        },
    };
    let c = rows[i].code;
    if c.consumed || c.expires_at <= now {
        return Err(not_found("not found"));
    }
    let ghost had = rows@;
    let used = StoredCode { user_id: c.user_id, consumed: true, expires_at: c.expires_at };
    let row = rows.remove(i);
    let ghost rest = rows@;
    rows.push(CodeRow { code_hash: row.code_hash, code: used });
    proof {
        assert(rows@.drop_last() =~= rest);
        assert(rest == had.remove(i as int));
        let is = codes_by_hash(rows@);
        let want = codes_after(codes_by_hash(had), code_hash@, now);
        assert(is == codes_by_hash(rest).insert(code_hash@, used));
        assert forall|h: Seq<u8>| #[trigger] is.dom().contains(h) <==> want.dom().contains(h) by {
            if h != code_hash@ {
                other_codes_stay(had, i as int, h);
            }
        }
        assert forall|h: Seq<u8>| is.dom().contains(h) implies #[trigger] is[h] == want[h] by {
            if h != code_hash@ {
                other_codes_stay(had, i as int, h);
            }
        }
        assert(is =~= want);
    }
    Ok(c.user_id)
}

proof fn other_codes_stay(rows: Seq<CodeRow>, i: int, h: Seq<u8>)
    requires
        0 <= i < rows.len(),
        h != rows[i].code_hash@,
    ensures
        codes_by_hash(rows.remove(i)).dom().contains(h) == codes_by_hash(rows).dom().contains(h),
        codes_by_hash(rows).dom().contains(h) ==> codes_by_hash(rows.remove(i))[h] == codes_by_hash(
            rows,
        )[h],
    decreases rows.len(),
{
    let front = rows.drop_last();
    let with = codes_by_hash(rows);
    let without = codes_by_hash(rows.remove(i));
    assert(with == codes_by_hash(front).insert(rows.last().code_hash@, rows.last().code));
    if i == rows.len() - 1 {
        assert(rows.remove(i) =~= front);
    } else {
        assert(front[i] == rows[i]);
        other_codes_stay(front, i, h);
        assert(rows.remove(i).drop_last() =~= front.remove(i));
        assert(rows.remove(i).last() == rows.last());
        assert(without == codes_by_hash(front.remove(i)).insert(
            rows.last().code_hash@,
            rows.last().code,
        ));
    }
}

/// A code pairs one device: once it was claimed, whatever is typed that reads as the same code
/// pairs nobody, and every other code is as it was.
pub proof fn codes_are_claimed_once(
    codes: Map<Seq<u8>, StoredCode>,
    typed: Seq<char>,
    again: Seq<char>,
    other: Seq<u8>,
    now: Instant,
    later: Instant,
)
    requires
        folded(typed) == folded(again),
        claimed_by(codes, code_hash(folded(typed)), now) is Some,
        other != code_hash(folded(typed)),
    ensures
        ({
            let after = codes_after(codes, code_hash(folded(typed)), now);
            &&& claimed_by(after, code_hash(folded(again)), later) is None
            &&& codes_after(after, code_hash(folded(again)), later) == after
            &&& claimed_by(after, other, later) == claimed_by(codes, other, later)
        }),
{
}

/// Something that can be withdrawn: whose it is, and whether it was.
#[derive(Clone, Copy, Debug, PartialEq, Eq, Structural)]
pub struct Withdrawable {
    pub user_id: Id,
    pub revoked: bool,
}

/// Whether a request withdraws anything: what is there, not withdrawn yet, and the caller's
/// own where the request is restricted to that.
pub open spec fn withdraws(row: Option<Withdrawable>, restrict_to: Option<Id>) -> bool {
    row matches Some(x) && !x.revoked && (restrict_to is None || restrict_to == Some(x.user_id))
}

/// How a request to withdraw something ends.
#[derive(Clone, Copy, Debug, PartialEq, Eq, Structural)]
pub struct Withdrawal {
    /// The status of the answer.
    pub status: u16,
    /// Whether anything is withdrawn.
    pub withdrawn: bool,
}

/// Withdraws what may be withdrawn. What is not there, not the caller's or withdrawn already is
/// answered in the same way as what is, so that nothing can be learned by asking.
pub fn revoke(row: Option<Withdrawable>, restrict_to: Option<Id>) -> (r: Withdrawal)
    ensures
        r.withdrawn == withdraws(row, restrict_to),
        r.status == 204,
{
    let withdrawn = match row {
        Some(x) => {
            let own = match restrict_to {
                Some(id) => id == x.user_id,
                None => true,
            };
            !x.revoked && own
        },
        None => false,
    };
    Withdrawal { status: 204, withdrawn }
}

/// Nobody withdraws what is another's, and nothing is withdrawn twice.
pub proof fn withdrawal_is_own_and_once(row: Withdrawable, me: Id)
    ensures
        withdraws(Some(row), Some(me)) ==> row.user_id == me,
        !withdraws(Some(Withdrawable { revoked: true, ..row }), None),
{
}

/// An administrator withdraws another's device from a session, not from a device of their
/// own, and with the permission to manage accounts. `device_refusal` is what is said to a device.
pub fn admin_revoke_device(
    device_refusal: Option<AppError>,
    permissions: Permissions,
) -> (r: Result<(), AppError>)
    ensures
        refusal(r) == (if device_refusal is Some {
            refusal_in(device_refusal)
        } else {
            refusal_in(permissions.users_manage)
        }),
{
    match device_refusal {
        Some(e) => {
            return Err(e);
        },
        None => {},
    }
    match permissions.users_manage {
        Some(e) => Err(e),
        None => Ok(()),
    }
}

/// What is written down of a pairing code: when it lapses. Neither the code nor its hash is part
/// of it.
pub open spec fn pairing_doc(expires_at: Json) -> Json {
    Json::Object(Map::empty().insert("expires_at"@, expires_at))
}

/// `expires_at` is the end of the code as the trail writes instants.
pub fn pairing_code_event(ctx: &AuthContext, user_id: Id, expires_at: serde_json::Value) -> (e:
    AuditEvent)
    ensures
        e@ == entry(
            "device.pairing_code.created"@,
            ActorRole::Platform(ctx.role),
            Some(user_id),
            "device_pairing_code"@,
            None,
        ).noting(pairing_doc(json_in(expires_at))),
{
    let mut doc = empty_object();
    put(&mut doc, "expires_at", expires_at);
    let role = ActorRole::Platform(ctx.role);
    let action = "device.pairing_code.created";
    note(record(action, role, Some(user_id), "device_pairing_code", None), doc)
}

/// What is written down of a device that was paired.
pub open spec fn paired_doc(name: Seq<char>, platform: Seq<char>, display_prefix: Seq<char>) -> Json {
    Json::Object(
        Map::empty().insert("name"@, Json::Text(name)).insert("platform"@, Json::Text(platform)).insert(
            "display_prefix"@,
            Json::Text(display_prefix),
        ),
    )
}

/// `owner` is the account that the code was made for.
pub fn paired_event(
    owner: &AuthContext,
    owner_id: Id,
    device_id: Id,
    name: &str,
    platform: &str,
    display_prefix: &str,
) -> (e: AuditEvent)
    ensures
        e@ == entry(
            "device.paired"@,
            ActorRole::Platform(owner.role),
            Some(owner_id),
            "device"@,
            Some(device_id),
        ).noting(paired_doc(name@, platform@, display_prefix@)),
{
    let mut doc = empty_object();
    put(&mut doc, "name", text_value(name));
    put(&mut doc, "platform", text_value(platform));
    put(&mut doc, "display_prefix", text_value(display_prefix));
    let role = ActorRole::Platform(owner.role);
    note(record("device.paired", role, Some(owner_id), "device", Some(device_id)), doc)
}

pub fn revoked_event(ctx: &AuthContext, id: Id, name: &str, owner: Id) -> (e: AuditEvent)
    ensures
        e@ == entry_by(*ctx, "device.revoked"@, "device"@, id).noting(withdrawn_doc(name@, owner)),
{
    note(record_by(ctx, "device.revoked", "device", id), withdrawn_value(name, owner))
}

/// The trail never holds a pairing code: all it notes of one is when it lapses.
pub proof fn codes_are_not_in_the_trail(expires_at: Json, member: Seq<char>)
    requires
        member_at(pairing_doc(expires_at), member) is Some,
    ensures
        member == "expires_at"@,
{
}

pub struct DeviceOut {
    pub id: Id,
    pub name: String,
    pub platform: String,
    pub created_at: Instant,
    pub last_seen_at: Option<Instant>,
    pub revoked_at: Option<Instant>,
}

/// A stored device, with the account that it was paired for.
pub struct StoredDevice {
    pub user_id: Id,
    pub device: DeviceOut,
}

impl Ranked for StoredDevice {
    /// The newest come first.
    open spec fn rank(self) -> (int, int) {
        (self.device.created_at as int, 0)
    }

    fn outranks(&self, other: &StoredDevice) -> (r: bool) {
        self.device.created_at > other.device.created_at
    }
}

/// The devices of an account, in their order.
pub open spec fn devices_of(rows: Seq<StoredDevice>, user_id: Id) -> Seq<DeviceOut>
    decreases rows.len(),
{
    if rows.len() == 0 {
        Seq::empty()
    } else {
        let before = devices_of(rows.drop_last(), user_id);
        if rows.last().user_id == user_id {
            before.push(rows.last().device)
        } else {
            before
        }
    }
}

pub fn load_devices(rows: Vec<StoredDevice>, user_id: Id) -> (r: Vec<DeviceOut>)
    ensures
        r@ == devices_of(highest_first(rows@), user_id),
{
    let rows = rank_list(rows);
    let n: usize = rows.len();
    let mut rest = rows;
    let mut out: Vec<DeviceOut> = Vec::new();
    let mut i: usize = 0;
    assert(rows@.take(0) == Seq::<StoredDevice>::empty());
    while i < n
        invariant
            n == rows@.len(),
            i <= n,
            rest@ == rows@.skip(i as int),
            out@ == devices_of(rows@.take(i as int), user_id),
        decreases n - i,
    {
        let row = rest.remove(0);
        assert(row == rows@[i as int]);
        assert(rest@ =~= rows@.skip(i as int + 1));
        assert(rows@.take(i as int + 1).drop_last() == rows@.take(i as int));
        if row.user_id == user_id {
            out.push(row.device);
        }
        i = i + 1;
    }
    assert(rows@.take(rows@.len() as int) == rows@);
    out
}

/// The caller's own devices.
pub fn list_devices(ctx: &AuthContext, rows: Vec<StoredDevice>) -> (r: Result<
    Vec<DeviceOut>,
    AppError,
>)
    ensures
        match r {
            Ok(v) => ctx.user_id matches Some(me) && v@ == devices_of(highest_first(rows@), me),
            Err(e) => ctx.user_id is None && e@ == Refusal::Forbidden(
                "a user account is required to manage devices"@,
            ),
        },
{
    match owner(ctx) {
        Ok(me) => Ok(load_devices(rows, me)),
        Err(e) => Err(e),
    }
}

/// Somebody's devices, for whoever may look at accounts.
pub fn admin_list_devices(
    permissions: Permissions,
    rows: Vec<StoredDevice>,
    user_id: Id,
) -> (r: Result<Vec<DeviceOut>, AppError>)
    ensures
        refusal(r) == refusal_in(permissions.users_view),
        r matches Ok(v) ==> v@ == devices_of(highest_first(rows@), user_id),
{
    match permissions.users_view {
        Some(e) => Err(e),
        None => Ok(load_devices(rows, user_id)),
    }
}

/// The devices of an account are all of its own, and no other.
pub proof fn devices_are_listed_to_their_owner(user_id: Id, s: Seq<StoredDevice>)
    ensures
        devices_of(s, user_id)
            == s.filter(
                |x: StoredDevice| x.user_id == user_id
            ).map_values(|x: StoredDevice| x.device),
    decreases s.len(),
{
    let p = |x: StoredDevice| x.user_id == user_id;
    selects_last(s, p);
    if s.len() > 0 {
        devices_are_listed_to_their_owner(user_id, s.drop_last());
    }
    assert(devices_of(s, user_id) =~= s.filter(p).map_values(|x: StoredDevice| x.device));
}

/// Devices are listed by when they were paired, the latest first.
pub proof fn newer_devices_come_first(rows: Seq<StoredDevice>, i: int, j: int)
    requires
        0 <= i < j < rows.len(),
    ensures
        highest_first(rows)[i].device.created_at >= highest_first(rows)[j].device.created_at,
{
    ordered_lists_descend(rows, i, j);
}

/// A device is paired by somebody with an account who has settled their second factor, and not from a
/// device. It is withdrawn once, by its owner or by whoever manages all of them.
pub proof fn who_pairs_devices(
    ctx: AuthContext,
    from_device: bool,
    row: Option<Withdrawable>,
    restrict_to: Option<Id>,
)
    ensures
        mint_refusal(ctx, from_device) is None
            <==> !ctx.mfa_enroll_only && !from_device && ctx.user_id is Some,
        withdraws(row, restrict_to)
            <==> (
                row matches Some(x)
                    && !x.revoked
                    && (restrict_to matches Some(me) ==> me == x.user_id)
            ),
{
}

/// A code is read without its blanks and hyphens, in capitals.
pub proof fn codes_are_folded(s: Seq<char>)
    ensures
        folded(s)
            == s.filter(|x: char| !is_white_space(x) && x != '-').map_values(
                |x: char| if 'a' <= x <= 'z' { (x as u32 - 32) as char } else { x }
            ),
    decreases s.len(),
{
    let p = |x: char| !is_white_space(x) && x != '-';
    selects_last(s, p);
    if s.len() > 0 {
        codes_are_folded(s.drop_last());
    }
    assert(
        folded(s) =~= s.filter(p).map_values(
            |x: char| if 'a' <= x <= 'z' { (x as u32 - 32) as char } else { x }
        )
    );
}

/// A code is found by its hash, the one that was stored last where there are two.
pub proof fn codes_are_found_by_their_hash(s: Seq<CodeRow>)
    ensures
        forall|k: int|
            0 <= k < s.len() ==> codes_by_hash(s).contains_key((#[trigger] s[k]).code_hash@),
        forall|k: int|
            0 <= k < s.len()
                && (
                    forall|j: int|
                        k < j < s.len() ==> (#[trigger] s[j]).code_hash@ != s[k].code_hash@
                )
                ==> codes_by_hash(s)[(#[trigger] s[k]).code_hash@] == s[k].code,
        forall|q| #[trigger] codes_by_hash(s).contains_key(q) ==> exists|k: int|
            0 <= k < s.len() && (#[trigger] s[k]).code_hash@ == q,
    decreases s.len(),
{
    if s.len() > 0 {
        let front = s.drop_last();
        codes_are_found_by_their_hash(front);
        assert(s[s.len() - 1] == s.last());
        assert forall|k: int|
            0 <= k < s.len()
            implies codes_by_hash(s).contains_key((#[trigger] s[k]).code_hash@) by {
            if k < front.len() {
                assert(front[k] == s[k]);
            }
        }
        assert forall|k: int|
            0 <= k < s.len()
                && (
                    forall|j: int|
                        k < j < s.len() ==> (#[trigger] s[j]).code_hash@ != s[k].code_hash@
                )
                implies codes_by_hash(s)[(#[trigger] s[k]).code_hash@] == s[k].code by {
            if k < front.len() {
                assert(front[k] == s[k]);
                assert(s[s.len() - 1].code_hash@ != s[k].code_hash@);
                assert forall|j: int|
                    k < j < front.len()
                    implies (#[trigger] front[j]).code_hash@ != front[k].code_hash@ by {
                    assert(s[j] == front[j]);
                }
            }
        }
        assert forall|q| #[trigger] codes_by_hash(s).contains_key(q) implies exists|k: int|
            0 <= k < s.len() && (#[trigger] s[k]).code_hash@ == q by {
            if s.last().code_hash@ != q {
                assert(codes_by_hash(front).contains_key(q));
                let k = choose|k: int| 0 <= k < front.len() && (#[trigger] front[k]).code_hash@ == q;
                assert(s[k] == front[k]);
            }
        }
    }
}

/// What stands in `paired_doc` under each name; there is no other name in it.
pub proof fn what_paired_doc_holds(name: Seq<char>, platform: Seq<char>, display_prefix: Seq<char>)
    ensures
        member_at(paired_doc(name, platform, display_prefix), "name"@) == Some(Json::Text(name)),
        member_at(paired_doc(name, platform, display_prefix), "platform"@)
            == Some(Json::Text(platform)),
        member_at(paired_doc(name, platform, display_prefix), "display_prefix"@)
            == Some(Json::Text(display_prefix)),
        forall|name: Seq<char>|
            #[trigger] member_at(paired_doc(name, platform, display_prefix), name) is Some
                ==> name == "name"@ || name == "platform"@ || name == "display_prefix"@,
{
    reveal_strlit("name");
    reveal_strlit("platform");
    reveal_strlit("display_prefix");
    assert("name"@.len() != "platform"@.len());
    assert("name"@.len() != "display_prefix"@.len());
    assert("platform"@.len() != "display_prefix"@.len());
}

/// A device is called as it was typed, without the blanks around and with a hundred and twenty
/// characters at most, or has the name of those that have none. A code lives ten minutes.
pub proof fn devices_are_named(typed: Seq<char>, p: Seq<char>)
    ensures
        is_blank(typed) ==> device_name(typed) == "Untitled device"@,
        !is_blank(typed)
            ==> device_name(typed).len()
                == (if trimmed(typed).len() < 120 { trimmed(typed).len() } else { 120nat }),
        !is_blank(typed)
            ==> forall|i: int|
                0 <= i < device_name(typed).len()
                    ==> #[trigger] device_name(typed)[i] == trimmed(typed)[i],
        is_platform(p) <==> p == "windows"@ || p == "macos"@ || p == "linux"@,
        code_life() == 10 * 60 * 1_000_000_000,
        CODE_LEN == 8,
{
    trimmed_empty_iff_blank(typed);
}

/// What stands in `pairing_doc` under each name; there is no other name in it.
pub proof fn what_pairing_doc_holds(expires_at: Json)
    ensures
        member_at(pairing_doc(expires_at), "expires_at"@) == Some(expires_at),
        forall|name: Seq<char>|
            #[trigger] member_at(pairing_doc(expires_at), name) is Some ==> name == "expires_at"@,
{
}

/// A code is claimed once, before it expires, by whoever knows it; claiming it uses it up and changes
/// nothing else.
pub proof fn codes_are_claimed_in_time(
    codes: Map<Seq<u8>, StoredCode>,
    hash: Seq<u8>,
    now: Instant,
    other: Seq<u8>,
    s: Seq<char>,
    bytes: Seq<u8>,
)
    ensures
        claimed_by(codes, hash, now) is Some
            <==> codes.contains_key(hash) && !codes[hash].consumed && codes[hash].expires_at > now,
        claimed_by(codes, hash, now) matches Some(id) ==> id == codes[hash].user_id,
        claimed_by(codes, hash, now) is None ==> codes_after(codes, hash, now) == codes,
        claimed_by(codes, hash, now) is Some
            ==> codes_after(codes, hash, now).contains_key(hash)
                && codes_after(codes, hash, now)[hash]
                    == (StoredCode { consumed: true, ..codes[hash] }),
        codes_after(codes, hash, now).dom() == codes.dom(),
        other != hash ==> codes_after(codes, hash, now)[other] == codes[other],
        is_code(s)
            <==> s.len() == 8
                && forall|i: int|
                    #![trigger s[i]]
                    0 <= i < s.len()
                        ==> (
                            '2' <= s[i] <= '9' || ('A' <= s[i] <= 'Z' && s[i] != 'I' && s[i] != 'O')
                        ),
        code_text(bytes).len() == bytes.len(),
{
    assert(codes_after(codes, hash, now).dom() =~= codes.dom());
}

/// Of several things that are wrong, `mint_refusal` tells the first.
pub proof fn mint_refusal_tells_the_first_thing(ctx: AuthContext, from_device: bool)
    ensures
        ctx.mfa_enroll_only
            ==> mint_refusal(ctx, from_device)
                == Some(
                    Refusal::Forbidden(
                        "finish setting up two-factor authentication before pairing a device"@
                    )
                ),
        !ctx.mfa_enroll_only && from_device
            ==> mint_refusal(ctx, from_device)
                == Some(
                    Refusal::Forbidden(
                        "pairing a new device must be done from the web, not from a device"@
                    )
                ),
        !ctx.mfa_enroll_only && !from_device && ctx.user_id is None
            ==> mint_refusal(ctx, from_device)
                == Some(Refusal::Forbidden("a user account is required to manage devices"@)),
        !ctx.mfa_enroll_only && !from_device && !(ctx.user_id is None)
            ==> mint_refusal(ctx, from_device) is None,
{
}

/// A code is looked up under the digest of its bytes.
pub proof fn codes_are_looked_up_by_their_bytes(code: Seq<char>)
    ensures
        code_hash(code) == sha256(encode_utf8(code)),
{
}

} // verus!
