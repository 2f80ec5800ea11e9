//! Who is asking.

use vstd::prelude::*;

verus! {

/// A record's identifier: the 128 bits of a UUID.
pub type Id = u128;

/// The platform-wide tier of an account.
#[derive(Clone, Copy, Debug, PartialEq, Eq, Structural)]
pub enum PlatformRole {
    User,
    PowerUser,
    ClientAdmin,
    SuperAdmin,
}

impl PlatformRole {
    /// A team lead, or anybody above one.
    pub open spec fn leads(self) -> bool {
        self != PlatformRole::User
    }
}

/// The authenticated caller of a request.
///
/// `admin` is the platform's own answer to whether the caller administers it;
/// it is settled where the context is loaded.
#[derive(Clone, Copy, Debug, PartialEq, Eq, Structural)]
pub struct AuthContext {
    pub user_id: Option<Id>,
    pub role: PlatformRole,
    pub admin: bool,
    pub break_glass: bool,
    pub mfa_enroll_only: bool,
}

impl AuthContext {
    /// Whether the caller administers the platform.
    pub fn is_admin(&self) -> (r: bool)
        ensures
            r == self.admin,
    {
        self.admin
    }

    /// The caller is the account `id`.
    pub open spec fn is(self, id: Id) -> bool {
        self.user_id == Some(id)
    }

    pub fn is_user(&self, id: Id) -> (r: bool)
        ensures
            r == self.is(id),
    {
        match self.user_id {
            Some(me) => me == id,
            None => false,
        }
    }

    /// The caller owns what has this owner: an owner is recorded and it is the
    /// caller.
    pub open spec fn owns(self, owner: Option<Id>) -> bool {
        owner is Some && self.user_id == owner
    }

    pub fn is_owner(&self, owner: Option<Id>) -> (r: bool)
        ensures
            r == self.owns(owner),
    {
        match owner {
            Some(id) => self.is_user(id),
            None => false,
        }
    }
}

/// Whether a role leads teams: power user, client administrator or super
/// administrator.
pub fn is_lead(role: PlatformRole) -> (r: bool)
    ensures
        r == role.leads(),
{
    match role {
        PlatformRole::User => false,
        PlatformRole::PowerUser => true,
        PlatformRole::ClientAdmin => true,
        PlatformRole::SuperAdmin => true,
    }
}

/// Whether two optional identifiers are equal, absent ones included.
pub fn same_id(a: Option<Id>, b: Option<Id>) -> (r: bool)
    ensures
        r == (a == b),
{
    match (a, b) {
        (Some(x), Some(y)) => x == y,
        (None, None) => true,
        _ => false,
    }
}

/// Somebody is the account they came with and owns what has that account for its owner; what has none
/// is nobody's. Everybody leads but those with the plainest role.
pub proof fn who_somebody_is(ctx: AuthContext, id: Id, owner: Option<Id>, role: PlatformRole)
    ensures
        ctx.is(id) <==> ctx.user_id == Some(id),
        ctx.owns(owner) <==> (owner matches Some(o) && ctx.user_id == Some(o)),
        role.leads() <==> role != PlatformRole::User,
{
}

} // verus!
