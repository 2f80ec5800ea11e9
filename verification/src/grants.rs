//! What the keeper of grants and permissions says about a caller. It is asked about each right
//! by itself, and each rule reads the answer for the right that it needs.

use vstd::prelude::*;

use crate::error::{AppError, Refusal};

verus! {

/// The refusal that an answer is, where it is one.
pub open spec fn refusal_in(e: Option<AppError>) -> Option<Refusal> {
    match e {
        Some(e) => Some(e@),
        None => None,
    }
}

/// What the caller's grants in a project say: why it may not be read, and why it may not be
/// changed. Nothing stands where it may.
pub struct ProjectGrants {
    pub read: Option<AppError>,
    pub write: Option<AppError>,
}

/// What the caller's grants in a knowledge base say: why it may not be read, and why it may not
/// be managed.
pub struct KbGrants {
    pub read: Option<AppError>,
    pub manage: Option<AppError>,
}

/// What the caller's permissions say: for each, why the caller does not have it. Nothing
/// stands where the caller has.
pub struct Permissions {
    pub announcements_manage: Option<AppError>,
    pub config_manage: Option<AppError>,
    pub feedback_view: Option<AppError>,
    pub groundedness_view: Option<AppError>,
    pub mcp_manage: Option<AppError>,
    pub telephony_manage: Option<AppError>,
    pub users_manage: Option<AppError>,
    pub users_view: Option<AppError>,
}

/// A grant is refused with its error, and not refused where it is none.
pub proof fn grants_are_refused_or_not(e: AppError)
    ensures
        refusal_in(None) is None,
        refusal_in(Some(e)) == Some(e@),
{
}

} // verus!
