//! Files attached to one turn of a chat: staged with their text until the turn takes
//! them, once, for whoever staged them.

use vstd::prelude::*;
use vstd::string::*;

use crate::lists::selects_last;
use crate::encoding::{base64_text, from_base64, to_base64};
use crate::clock::Instant;
use crate::error::{forbidden, refusal, validation, AppError, Refusal};
use crate::http::clone_text;
use crate::ids::{id_text, id_to_text};
use crate::principal::{same_id, AuthContext, Id};
use crate::text::{begins, clip, clipped, joined, joined3, opt_text, starts_with, underscore, underscored};

verus! {

/// How long a staged attachment waits for its turn, in seconds.
pub const TTL_SECS: i64 = 3600;

/// How much of a file's text is staged, in characters.
pub const MAX_TEXT_CHARS: usize = 100_000;

/// The largest file that is staged for the code interpreter, in bytes.
pub const MAX_INPUT_BYTES: usize = 10 * 1024 * 1024;

/// The largest image that is staged to be seen, in bytes.
pub const MAX_IMAGE_BYTES: usize = 5 * 1024 * 1024;

pub struct UploadQuery {
    pub filename: String,
    pub mime: Option<String>,
}

pub struct UploadedAttachment {
    pub id: Id,
    pub filename: String,
    pub chars: usize,
}

/// A file that waits for its turn.
pub struct Staged {
    pub owner_user_id: Option<Id>,
    pub filename: String,
    pub text: String,
    pub bytes_b64: Option<String>,
    pub mime: Option<String>,
}

/// A file as its turn gets it.
pub struct Attachment {
    pub id: Id,
    pub filename: String,
    pub text: String,
    pub bytes: Option<Vec<u8>>,
    pub mime: Option<String>,
}

/// A file's name without separators, behind its identifier.
pub open spec fn stored_name(id: Id, filename: Seq<char>) -> Seq<char> {
    id_text(id) + "__"@ + underscored(filename, false, false)
}

/// Where a file is stored, relative to its directory.
pub fn stored_as(id: Id, filename: &str) -> (r: String)
    ensures
        r@ == stored_name(id, filename@),
{
    let own = id_to_text(id);
    let safe = underscore(filename, false, false);
    joined3(own.as_str(), "__", safe.as_str())
}

/// A file's type where nobody says.
pub fn mime_or_default(mime: &Option<String>) -> (r: String)
    ensures
        r@ == (match mime {
            Some(m) => m@,
            None => "application/octet-stream"@,
        }),
{
    match mime {
        Some(m) => m.clone(),
        None => "application/octet-stream".to_owned(),
    }
}

/// Under what a staged file is kept.
pub fn staging_key(id: Id) -> (r: String)
    ensures
        r@ == "chatattach:"@ + id_text(id),
{
    let own = id_to_text(id);
    joined("chatattach:", own.as_str())
}

/// The bytes are kept where the code interpreter runs and the file is not too large for
/// it, and for an image that is not too large to be seen.
pub open spec fn keeps_bytes(mime: Option<Seq<char>>, size: nat, code_interpreter: bool) -> bool {
    ||| code_interpreter && size <= MAX_INPUT_BYTES
    ||| (mime matches Some(m) && starts_with(m, "image/"@)) && size <= MAX_IMAGE_BYTES
}

/// What is staged of a file: the beginning of its text, and its bytes where anything can
/// use them.
pub fn stage(
    ctx: &AuthContext,
    q: &UploadQuery,
    text: &str,
    body: &[u8],
    code_interpreter: bool,
) -> (r: Staged)
    ensures
        r.owner_user_id == ctx.user_id,
        r.filename@ == q.filename@,
        r.text@ == clipped(text@, MAX_TEXT_CHARS as nat),
        opt_text(r.bytes_b64) == (if keeps_bytes(
            opt_text(q.mime),
            body@.len(),
            code_interpreter,
        ) {
            Some(base64_text(body@))
        } else {
            None
        }),
        opt_text(r.mime) == opt_text(q.mime),
{
    let is_image = match &q.mime {
        Some(m) => begins(m.as_str(), "image/"),
        None => false,
    };
    let keep_for_ci = code_interpreter && body.len() <= MAX_INPUT_BYTES;
    let keep_for_vision = is_image && body.len() <= MAX_IMAGE_BYTES;
    let bytes_b64 = if keep_for_ci || keep_for_vision {
        Some(to_base64(body))
    } else {
        None
    };
    Staged {
        owner_user_id: ctx.user_id,
        filename: q.filename.clone(),
        text: clip(text, MAX_TEXT_CHARS),
        bytes_b64,
        mime: clone_text(&q.mime),
    }
}

/// What the uploader is told.
pub fn upload_attachment(id: Id, staged: &Staged) -> (r: UploadedAttachment)
    ensures
        r.id == id,
        r.filename@ == staged.filename@,
        r.chars == staged.text@.len(),
{
    UploadedAttachment {
        id,
        filename: staged.filename.clone(),
        chars: staged.text.as_str().unicode_len(),
    }
}

/// What a turn gets of a staged file: nothing of one that is gone or another's.
pub open spec fn taken(
    ctx: AuthContext,
    id: Id,
    staged: Option<Staged>,
    r: Option<Attachment>,
) -> bool {
    match staged {
        None => r is None,
        Some(s) => if s.owner_user_id == ctx.user_id {
            r matches Some(a) && {
                &&& a.id == id
                &&& a.filename@ == s.filename@
                &&& a.text@ == s.text@
                &&& opt_text(a.mime) == opt_text(s.mime)
                &&& match s.bytes_b64 {
                    None => a.bytes is None,
                    Some(t) => forall|b: Seq<u8>|
                        (a.bytes matches Some(v) && v@ == b) <==> t@ == #[trigger] base64_text(b),
                }
            }
        } else {
            r is None
        },
    }
}

/// The staged files by their names. Staging a file under a name that is taken replaces what
/// is there.
pub open spec fn shelved(shelf: Seq<(Id, Staged)>) -> Map<Id, Staged>
    decreases shelf.len(),
{
    if shelf.len() == 0 {
        Map::empty()
    } else {
        shelved(shelf.drop_last()).insert(shelf.last().0, shelf.last().1)
    }
}

/// The staged file of that name.
pub open spec fn staged_as(shelf: Map<Id, Staged>, id: Id) -> Option<Staged> {
    if shelf.dom().contains(id) {
        Some(shelf[id])
    } else {
        None
    }
}

/// What is still staged after the caller took the files of these names: all but the caller's
/// own among them.
pub open spec fn left_of(ctx: AuthContext, ids: Seq<Id>, shelf: Map<Id, Staged>) -> Map<Id, Staged> {
    Map::new(
        |id: Id|
            shelf.dom().contains(id) && !(ids.contains(id) && shelf[id].owner_user_id
                == ctx.user_id),
        |id: Id| shelf[id],
    )
}

/// Takes a file off the shelf, whoever it belongs to.
fn unshelve(shelf: &mut Vec<(Id, Staged)>, id: Id) -> (r: Option<Staged>)
    ensures
        r == staged_as(shelved(old(shelf)@), id),
        shelved(final(shelf)@) == shelved(old(shelf)@).remove(id),
{
    let ghost all = shelf@;
    let n: usize = shelf.len();
    let mut kept: Vec<(Id, Staged)> = Vec::new();
    let mut found: Option<Staged> = None;
    let mut i: usize = 0;
    assert(all.take(0) == Seq::<(Id, Staged)>::empty());
    assert(shelved(kept@) =~= shelved(all.take(0)).remove(id));
    while i < n
        invariant
            n == all.len(),
            i <= n,
            shelf@ == all.skip(i as int),
            found == staged_as(shelved(all.take(i as int)), id),
            shelved(kept@) == shelved(all.take(i as int)).remove(id),
        decreases n - i,
    {
        let entry = shelf.remove(0);
        assert(entry == all[i as int]);
        assert(shelf@ =~= all.skip(i as int + 1));
        let ghost more = all.take(i as int + 1);
        assert(more.drop_last() == all.take(i as int));
        assert(more.last() == entry);
        let ghost had = kept@;
        if entry.0 == id {
            found = Some(entry.1);
        } else {
            kept.push(entry);
            assert(kept@.drop_last() =~= had);
        }
        assert(shelved(kept@) =~= shelved(more).remove(id));
        i = i + 1;
    }
    assert(all.take(n as int) =~= all);
    *shelf = kept;
    found
}

/// Takes one staged file: the caller's own is handed out and is gone, and another's stays
/// where it is.
pub fn take_attachment(ctx: &AuthContext, id: Id, shelf: &mut Vec<(Id, Staged)>) -> (r: Option<
    Attachment,
>)
    ensures
        taken(*ctx, id, staged_as(shelved(old(shelf)@), id), r),
        shelved(final(shelf)@) == left_of(*ctx, seq![id], shelved(old(shelf)@)),
{
    let ghost was = shelved(shelf@);
    let s = match unshelve(shelf, id) {
        Some(s) => s,
        None => {
            assert(shelved(shelf@) =~= left_of(*ctx, seq![id], was));
            return None;
        },
    };
    assert(seq![id].contains(id)) by {
        assert(seq![id][0] == id);
    }
    if !same_id(s.owner_user_id, ctx.user_id) {
        let ghost had = shelf@;
        shelf.push((id, s));
        assert(shelf@.drop_last() =~= had);
        assert(shelved(shelf@) =~= left_of(*ctx, seq![id], was));
        return None;
    }
    assert(shelved(shelf@) =~= left_of(*ctx, seq![id], was));
    let bytes = match &s.bytes_b64 {
        Some(b) => from_base64(b.as_str()),
        None => None,
    };
    Some(Attachment { id, filename: s.filename, text: s.text, bytes, mime: s.mime })
}

proof fn taking_goes_on(ctx: AuthContext, ids: Seq<Id>, i: int, shelf: Map<Id, Staged>)
    requires
        0 <= i < ids.len(),
    ensures
        left_of(ctx, seq![ids[i]], left_of(ctx, ids.take(i), shelf)) == left_of(
            ctx,
            ids.take(i + 1),
            shelf,
        ),
{
    let one = seq![ids[i]];
    assert(one[0] == ids[i]);
    assert forall|id: Id| ids.take(i + 1).contains(id) <==> (ids.take(i).contains(id) || #[trigger]
    one.contains(id)) by {
        if ids.take(i + 1).contains(id) {
            let k = ids.take(i + 1).index_of(id);
            if k < i {
                assert(ids.take(i)[k] == id);
            }
        }
        if ids.take(i).contains(id) {
            let k = ids.take(i).index_of(id);
            assert(ids.take(i + 1)[k] == id);
        }
        if one.contains(id) {
            assert(ids.take(i + 1)[i] == id);
        }
    }
    assert(left_of(ctx, one, left_of(ctx, ids.take(i), shelf)) =~= left_of(
        ctx,
        ids.take(i + 1),
        shelf,
    ));
}

/// Takes the staged files of a turn, in the order in which they are named, each once. Files
/// that are unknown, expired or another's are passed over, and another's stay for whoever
/// staged them.
pub fn take_attachments(ctx: &AuthContext, ids: &Vec<Id>, shelf: &mut Vec<(Id, Staged)>) -> (r: Vec<
    Attachment,
>)
    ensures
        exists|each: Seq<Option<Attachment>>|
            #![trigger present(each)]
            each.len() == ids@.len() && (forall|i: int|
                0 <= i < ids@.len() ==> taken(
                    *ctx,
                    ids@[i],
                    staged_as(left_of(*ctx, ids@.take(i), shelved(old(shelf)@)), ids@[i]),
                    #[trigger] each[i],
                )) && r@ == present(each),
        shelved(final(shelf)@) == left_of(*ctx, ids@, shelved(old(shelf)@)),
{
    let ghost was = shelved(shelf@);
    let mut out: Vec<Attachment> = Vec::new();
    let ghost mut each: Seq<Option<Attachment>> = Seq::empty();
    let mut i: usize = 0;
    assert(left_of(*ctx, ids@.take(0), was) =~= was);
    while i < ids.len()
        invariant
            i <= ids@.len(),
            shelved(shelf@) == left_of(*ctx, ids@.take(i as int), was),
            each.len() == i,
            forall|k: int|
                0 <= k < i ==> taken(
                    *ctx,
                    ids@[k],
                    staged_as(left_of(*ctx, ids@.take(k), was), ids@[k]),
                    #[trigger] each[k],
                ),
            out@ == present(each),
        decreases ids@.len() - i,
    {
        let got = take_attachment(ctx, ids[i], shelf);
        proof {
            taking_goes_on(*ctx, ids@, i as int, was);
            let before = each;
            each = each.push(got);
            assert(each.drop_last() == before);
        }
        match got {
            Some(a) => {
                out.push(a);
            },
            None => {},
        }
        i = i + 1;
    }
    assert(ids@.take(i as int) =~= ids@);
    out
}

/// A staged file waits for whoever staged it: another who names it gets nothing and leaves it
/// where it is, its owner then gets it, and after that it is gone for everybody.
pub proof fn files_are_handed_out_once(
    owner: AuthContext,
    other: AuthContext,
    anybody: AuthContext,
    names: Seq<Id>,
    shelf: Map<Id, Staged>,
    id: Id,
    r: Option<Attachment>,
)
    requires
        shelf.dom().contains(id),
        shelf[id].owner_user_id == owner.user_id,
        other.user_id != owner.user_id,
        names.contains(id),
    ensures
        taken(other, id, staged_as(shelf, id), r) ==> r is None,
        ({
            let then = left_of(other, names, shelf);
            let after = left_of(owner, names, then);
            &&& staged_as(then, id) == Some(shelf[id])
            &&& taken(owner, id, staged_as(then, id), r) ==> r is Some
            &&& staged_as(after, id) is None
            &&& taken(anybody, id, staged_as(after, id), r) ==> r is None
        }),
{
}

/// Taking files touches no file that is not named.
pub proof fn other_files_stay(ctx: AuthContext, names: Seq<Id>, shelf: Map<Id, Staged>, id: Id)
    requires
        !names.contains(id),
    ensures
        staged_as(left_of(ctx, names, shelf), id) == staged_as(shelf, id),
{
}

/// The ones that are there, in their order.
pub open spec fn present(each: Seq<Option<Attachment>>) -> Seq<Attachment>
    decreases each.len(),
{
    if each.len() == 0 {
        Seq::empty()
    } else {
        let before = present(each.drop_last());
        match each.last() {
            Some(a) => before.push(a),
            None => before,
        }
    }
}

/// Whoever staged a file gets its bytes back as they were, where they were kept.
pub proof fn staged_bytes_come_back(
    ctx: AuthContext,
    id: Id,
    s: Staged,
    body: Seq<u8>,
    r: Option<Attachment>,
)
    requires
        s.owner_user_id == ctx.user_id,
        opt_text(s.bytes_b64) == Some(base64_text(body)),
        taken(ctx, id, Some(s), r),
    ensures
        r matches Some(a) && a.bytes matches Some(v) && v@ == body,
{
}

/// Nobody else gets a staged file.
pub proof fn staged_files_are_private(ctx: AuthContext, id: Id, s: Staged, r: Option<Attachment>)
    requires
        s.owner_user_id != ctx.user_id,
        taken(ctx, id, Some(s), r),
    ensures
        r is None,
{
}

/// Who may download an attachment: an administrator, whoever uploaded it, and whoever
/// reads the chat that it was sent in. One that was never sent is its uploader's alone.
pub open spec fn may_download(
    ctx: AuthContext,
    owner: Option<Id>,
    chat_id: Option<Id>,
    chat_readable: bool,
) -> bool {
    ctx.admin || ctx.owns(owner) || (chat_id is Some && chat_readable)
}

/// A stored attachment, as far as access to it goes.
#[derive(Clone, Copy, Debug, PartialEq, Eq, Structural)]
pub struct AttachmentRow {
    pub chat_id: Option<Id>,
    pub owner_user_id: Option<Id>,
}

pub fn download(ctx: &AuthContext, row: Option<AttachmentRow>, chat_readable: bool) -> (r: Result<
    (),
    AppError,
>)
    ensures
        refusal(r) == (match row {
            None => Some(Refusal::Validation("attachment not found"@)),
            Some(a) => if may_download(*ctx, a.owner_user_id, a.chat_id, chat_readable) {
                None
            } else {
                Some(Refusal::Forbidden("not permitted to access this attachment"@))
            },
        }),
{
    let a = match row {
        Some(a) => a,
        None => {
            return Err(validation("attachment not found"));
        },
    };
    let by_chat = a.chat_id.is_some() && chat_readable;
    if ctx.is_admin() || ctx.is_owner(a.owner_user_id) || by_chat {
        Ok(())
    } else {
        Err(forbidden("not permitted to access this attachment"))
    }
}

/// The disposition header of a file that is shown in place.
pub fn inline_disposition(filename: &str) -> (r: String)
    ensures
        r@ == "inline; filename=\""@ + filename@ + "\""@,
{
    joined3("inline; filename=\"", filename, "\"")
}

/// A stored file, as far as clearing up goes.
#[derive(Clone, Copy, Debug, PartialEq, Eq, Structural)]
pub struct StoredFile {
    pub id: Id,
    pub message_id: Option<Id>,
    pub created_at: Instant,
}

/// The files that were never sent and are older than allowed.
pub open spec fn orphans(files: Seq<StoredFile>, cutoff: Instant) -> Seq<Id>
    decreases files.len(),
{
    if files.len() == 0 {
        Seq::empty()
    } else {
        let before = orphans(files.drop_last(), cutoff);
        if files.last().message_id is None && files.last().created_at < cutoff {
            before.push(files.last().id)
        } else {
            before
        }
    }
}

/// Finds the files to be cleared up: those without a message that are older than `older_than`.
pub fn prune_orphans(files: &Vec<StoredFile>, now: Instant, older_than: i128) -> (r: Vec<Id>)
    requires
        i128::MIN <= now - older_than <= i128::MAX,
    ensures
        r@ == orphans(files@, (now - older_than) as i128),
{
    let cutoff: Instant = now - older_than;
    let mut out: Vec<Id> = Vec::new();
    let mut i: usize = 0;
    assert(files@.take(0) == Seq::<StoredFile>::empty());
    while i < files.len()
        invariant
            i <= files@.len(),
            out@ == orphans(files@.take(i as int), cutoff),
        decreases files@.len() - i,
    {
        assert(files@.take(i as int + 1).drop_last() == files@.take(i as int));
        let f = files[i];
        if f.message_id.is_none() && f.created_at < cutoff {
            out.push(f.id);
        }
        i = i + 1;
    }
    assert(files@.take(files@.len() as int) == files@);
    out
}

/// A file that was sent with a message is never cleared up.
pub proof fn sent_files_stay(files: Seq<StoredFile>, cutoff: Instant, id: Id)
    requires
        forall|i: int|
            0 <= i < files.len() && (#[trigger] files[i]).id == id ==> files[i].message_id is Some,
    ensures
        !orphans(files, cutoff).contains(id),
    decreases files.len(),
{
    if files.len() > 0 {
        let before = files.drop_last();
        assert forall|i: int| 0 <= i < before.len() && (#[trigger] before[i]).id == id implies
            before[i].message_id is Some by {
            assert(before[i] == files[i]);
        }
        sent_files_stay(before, cutoff, id);
        let all = orphans(files, cutoff);
        let earlier = orphans(before, cutoff);
        if all.contains(id) {
            let k = all.index_of(id);
            if k < earlier.len() {
                assert(earlier[k] == id);
            } else {
                assert(files[files.len() - 1].id == id);
            }
        }
    }
}

/// A turn gets every file that was there, in the order in which they were named.
pub proof fn files_that_are_there_are_taken(s: Seq<Option<Attachment>>)
    ensures
        present(s)
            == s.filter(|x: Option<Attachment>| x is Some).map_values(|x: Option<Attachment>| x->0),
    decreases s.len(),
{
    let p = |x: Option<Attachment>| x is Some;
    selects_last(s, p);
    if s.len() > 0 {
        files_that_are_there_are_taken(s.drop_last());
    }
    assert(present(s) =~= s.filter(p).map_values(|x: Option<Attachment>| x->0));
}

/// Every file that was never sent and is older than the cutoff is cleared up, and no other.
pub proof fn unsent_files_are_cleared_up(cutoff: Instant, s: Seq<StoredFile>)
    ensures
        orphans(s, cutoff)
            == s.filter(
                |x: StoredFile| x.message_id is None && x.created_at < cutoff
            ).map_values(|x: StoredFile| x.id),
    decreases s.len(),
{
    let p = |x: StoredFile| x.message_id is None && x.created_at < cutoff;
    selects_last(s, p);
    if s.len() > 0 {
        unsent_files_are_cleared_up(cutoff, s.drop_last());
    }
    assert(orphans(s, cutoff) =~= s.filter(p).map_values(|x: StoredFile| x.id));
}

/// An attachment is had by administrators, by whoever staged it, and by those who read its chat.
pub proof fn who_downloads_attachments(
    ctx: AuthContext,
    owner: Option<Id>,
    chat_id: Option<Id>,
    chat_readable: bool,
)
    ensures
        may_download(ctx, owner, chat_id, chat_readable)
            <==> ctx.admin
                || (owner is Some && ctx.user_id == owner)
                || (chat_id is Some && chat_readable),
{
}

/// A shelf holds under a name what was put there last, and nothing that was not put there.
#[verifier::rlimit(60)]
pub proof fn the_shelf_holds_what_was_put_last(s: Seq<(Id, Staged)>)
    ensures
        forall|k: int| 0 <= k < s.len() ==> shelved(s).contains_key((#[trigger] s[k]).0),
        forall|k: int|
            0 <= k < s.len() && (forall|j: int| k < j < s.len() ==> (#[trigger] s[j]).0 != s[k].0)
                ==> shelved(s)[(#[trigger] s[k]).0] == s[k].1,
        forall|q| #[trigger] shelved(s).contains_key(q) ==> exists|k: int|
            0 <= k < s.len() && (#[trigger] s[k]).0 == q,
    decreases s.len(),
{
    if s.len() > 0 {
        let front = s.drop_last();
        the_shelf_holds_what_was_put_last(front);
        assert(s[s.len() - 1] == s.last());
        assert forall|k: int|
            0 <= k < s.len()
            implies shelved(s).contains_key((#[trigger] s[k]).0) by {
            if k < front.len() {
                assert(front[k] == s[k]);
            }
        }
        assert forall|k: int|
            0 <= k < s.len() && (forall|j: int| k < j < s.len() ==> (#[trigger] s[j]).0 != s[k].0)
                implies shelved(s)[(#[trigger] s[k]).0] == s[k].1 by {
            if k < front.len() {
                assert(front[k] == s[k]);
                assert(s[s.len() - 1].0 != s[k].0);
                assert forall|j: int|
                    k < j < front.len()
                    implies (#[trigger] front[j]).0 != front[k].0 by {
                    assert(s[j] == front[j]);
                }
            }
        }
        assert forall|q| #[trigger] shelved(s).contains_key(q) implies exists|k: int|
            0 <= k < s.len() && (#[trigger] s[k]).0 == q by {
            if s.last().0 != q {
                assert(shelved(front).contains_key(q));
                let k = choose|k: int| 0 <= k < front.len() && (#[trigger] front[k]).0 == q;
                assert(s[k] == front[k]);
            }
        }
    }
}

/// A file's bytes are kept where they can be computed on and are ten mebibytes at most, or where it is a
/// picture of five at most; it is stored under its own name, without strokes.
pub proof fn small_files_are_kept(
    mime: Option<Seq<char>>,
    size: nat,
    code: bool,
    id: Id,
    filename: Seq<char>,
)
    ensures
        keeps_bytes(mime, size, code)
            <==> (code && size <= 10 * 1024 * 1024)
                || ((mime matches Some(m) && starts_with(m, "image/"@)) && size <= 5 * 1024 * 1024),
        stored_name(id, filename) == id_text(id) + "__"@ + underscored(filename, false, false),
        TTL_SECS == 60 * 60,
        MAX_TEXT_CHARS == 100_000,
{
}

/// A staged file is taken by whoever staged it, as it was staged, and by nobody else; what is taken is
/// no longer there, and the rest is.
pub proof fn files_are_taken_by_their_owner(
    ctx: AuthContext,
    id: Id,
    s: Staged,
    r: Option<Attachment>,
    shelf: Map<Id, Staged>,
    ids: Seq<Id>,
    other: Id,
)
    ensures
        taken(ctx, id, None, r) <==> r is None,
        s.owner_user_id != ctx.user_id ==> (taken(ctx, id, Some(s), r) <==> r is None),
        s.owner_user_id == ctx.user_id && taken(ctx, id, Some(s), r)
            ==> (
                r matches Some(a)
                    && a.id == id
                    && a.filename@ == s.filename@
                    && a.text@ == s.text@
                    && opt_text(a.mime) == opt_text(s.mime)
                    && (s.bytes_b64 is None ==> a.bytes is None)
            ),
        s.owner_user_id == ctx.user_id && taken(ctx, id, Some(s), r)
            ==> (
                s.bytes_b64 matches Some(t)
                    ==> forall|b: Seq<u8>|
                        t@ == #[trigger] base64_text(b) ==> (r->0.bytes matches Some(v) && v@ == b)
            ),
        staged_as(shelf, id) == (if shelf.contains_key(id) { Some(shelf[id]) } else { None }),
        left_of(ctx, ids, shelf).contains_key(other)
            <==> shelf.contains_key(other)
                && !(ids.contains(other) && shelf[other].owner_user_id == ctx.user_id),
        left_of(ctx, ids, shelf).contains_key(other)
            ==> left_of(ctx, ids, shelf)[other] == shelf[other],
{
}

} // verus!
