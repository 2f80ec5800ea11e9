//! Files attached to team messages: kept, and open to whoever is in a chat where one was
//! posted.

use vstd::prelude::*;
use vstd::string::*;

use crate::error::{forbidden, refusal, validation, AppError, Refusal};
use crate::http::chat_attachments::{mime_or_default, stored_as, stored_name};
use crate::principal::{AuthContext, Id};

verus! {

/// The largest file, in bytes.
pub const MAX_BYTES: usize = 15 * 1024 * 1024;

pub struct UploadQuery {
    pub filename: String,
    pub mime: Option<String>,
}

pub struct Uploaded {
    pub id: Id,
    pub filename: String,
    pub mime: String,
}

/// A file that may be stored, and under which name.
pub struct Upload {
    pub out: Uploaded,
    pub rel_path: String,
}

/// Why a file is not taken.
pub open spec fn size_refusal(size: nat) -> Option<Refusal> {
    if size == 0 {
        Some(Refusal::Validation("empty attachment"@))
    } else if size > MAX_BYTES {
        Some(Refusal::Validation("attachment too large (max 15 MB)"@))
    } else {
        None
    }
}

/// Takes a file: not empty, not too large, and of a kind that is supported, which
/// `unsupported` says.
pub fn upload(id: Id, q: UploadQuery, size: usize, unsupported: Option<AppError>) -> (r: Result<
    Upload,
    AppError,
>)
    ensures
        refusal(r) == (if size_refusal(size as nat) is Some {
            size_refusal(size as nat)
        } else {
            crate::grants::refusal_in(unsupported)
        }),
        r matches Ok(u) ==> {
            &&& u.out.id == id
            &&& u.out.filename@ == q.filename@
            &&& u.out.mime@ == (match q.mime {
                Some(m) => m@,
                None => "application/octet-stream"@,
            })
            &&& u.rel_path@ == stored_name(id, q.filename@)
        },
{
    if size == 0 {
        return Err(validation("empty attachment"));
    }
    if size > MAX_BYTES {
        return Err(validation("attachment too large (max 15 MB)"));
    }
    match unsupported {
        Some(e) => {
            return Err(e);
        },
        None => {},
    }
    let mime = mime_or_default(&q.mime);
    let rel_path = stored_as(id, q.filename.as_str());
    Ok(Upload { out: Uploaded { id, filename: q.filename, mime }, rel_path })
}

/// Who may download a file: an administrator, whoever uploaded it, and, with an account,
/// whoever is in a chat where it was posted.
pub open spec fn may_download(ctx: AuthContext, uploaded_by: Option<Id>, in_chat: bool) -> bool {
    ctx.admin || ctx.owns(uploaded_by) || (ctx.user_id is Some && in_chat)
}

/// Lets a download through. `row` is who uploaded the file, where there is such a file.
pub fn download(ctx: &AuthContext, row: Option<Option<Id>>, in_chat: bool) -> (r: Result<
    (),
    AppError,
>)
    ensures
        refusal(r) == (match row {
            None => Some(Refusal::Validation("attachment not found"@)),
            Some(uploaded_by) => if may_download(*ctx, uploaded_by, in_chat) {
                None
            } else {
                Some(Refusal::Forbidden("not permitted to access this attachment"@))
            },
        }),
{
    let uploaded_by = match row {
        Some(u) => u,
        None => {
            return Err(validation("attachment not found"));
        },
    };
    if ctx.is_admin() || ctx.is_owner(uploaded_by) || (ctx.user_id.is_some() && in_chat) {
        Ok(())
    } else {
        Err(forbidden("not permitted to access this attachment"))
    }
}

/// An attachment is taken where it is neither empty nor larger than fifteen mebibytes. It is had by
/// administrators, by whoever uploaded it, and by those in a chat where it was posted.
pub proof fn which_attachments_are_taken(
    size: nat,
    ctx: AuthContext,
    uploaded_by: Option<Id>,
    in_chat: bool,
)
    ensures
        size_refusal(size) is None <==> 1 <= size <= 15 * 1024 * 1024,
        may_download(ctx, uploaded_by, in_chat)
            <==> ctx.admin
                || (uploaded_by is Some && ctx.user_id == uploaded_by)
                || (ctx.user_id is Some && in_chat),
{
}

/// Of several things that are wrong, `size_refusal` tells the first.
pub proof fn size_refusal_tells_the_first_thing(size: nat)
    ensures
        size == 0 ==> size_refusal(size) == Some(Refusal::Validation("empty attachment"@)),
        !(size == 0) && size > MAX_BYTES
            ==> size_refusal(size) == Some(Refusal::Validation("attachment too large (max 15 MB)"@)),
        !(size == 0) && !(size > MAX_BYTES) ==> size_refusal(size) is None,
{
}

} // verus!
