//! The audit trail: what is written down of what was done, by whom, and to what.

use vstd::prelude::*;
use vstd::string::*;

use crate::json::{json_in, Json};
use crate::principal::{AuthContext, Id, PlatformRole};
use crate::text::{opt_str, opt_text};

verus! {

/// In what role something was done.
#[derive(Clone, Copy, Debug, PartialEq, Eq, Structural)]
pub enum ActorRole {
    Platform(PlatformRole),
    /// Somebody whose role is not known yet, as on the way into an account.
    User,
    /// The platform itself, in the background.
    System,
}

/// One entry of the trail.
pub struct AuditEvent {
    pub action: String,
    pub role: ActorRole,
    pub actor_user_id: Option<Id>,
    pub resource_type: Option<String>,
    pub resource_id: Option<Id>,
    pub payload: Option<serde_json::Value>,
    pub risk_anomaly_flag: bool,
    pub outcome_reason: Option<String>,
}

/// What an entry says.
pub struct Entry {
    pub action: Seq<char>,
    pub role: ActorRole,
    pub actor: Option<Id>,
    pub resource_type: Option<Seq<char>>,
    pub resource_id: Option<Id>,
    pub payload: Option<Json>,
    pub risky: bool,
    pub reason: Option<Seq<char>>,
}

impl View for AuditEvent {
    type V = Entry;

    open spec fn view(&self) -> Entry {
        Entry {
            action: self.action@,
            role: self.role,
            actor: self.actor_user_id,
            resource_type: opt_text(self.resource_type),
            resource_id: self.resource_id,
            payload: match self.payload {
                Some(v) => Some(json_in(v)),
                None => None,
            },
            risky: self.risk_anomaly_flag,
            reason: opt_text(self.outcome_reason),
        }
    }
}

/// The entry of something done to a resource, with nothing more to say of it.
pub open spec fn entry(
    action: Seq<char>,
    role: ActorRole,
    actor: Option<Id>,
    resource_type: Seq<char>,
    resource_id: Option<Id>,
) -> Entry {
    Entry {
        action,
        role,
        actor,
        resource_type: Some(resource_type),
        resource_id,
        payload: None,
        risky: false,
        reason: None,
    }
}

/// The entry of something that the caller did.
pub open spec fn entry_by(
    ctx: AuthContext,
    action: Seq<char>,
    resource_type: Seq<char>,
    resource_id: Id,
) -> Entry {
    entry(action, ActorRole::Platform(ctx.role), ctx.user_id, resource_type, Some(resource_id))
}

impl Entry {
    /// The same entry with a note.
    pub open spec fn noting(self, payload: Json) -> Entry {
        Entry { payload: Some(payload), ..self }
    }

    /// The same entry, marked for a second look.
    pub open spec fn marked(self) -> Entry {
        Entry { risky: true, ..self }
    }
}

pub(crate) fn record(
    action: &str,
    role: ActorRole,
    actor: Option<Id>,
    resource_type: &str,
    resource_id: Option<Id>,
) -> (e: AuditEvent)
    ensures
        e@ == entry(action@, role, actor, resource_type@, resource_id),
{
    AuditEvent {
        action: action.to_owned(),
        role,
        actor_user_id: actor,
        resource_type: Some(resource_type.to_owned()),
        resource_id,
        payload: None,
        risk_anomaly_flag: false,
        outcome_reason: None,
    }
}

pub(crate) fn record_by(ctx: &AuthContext, action: &str, resource_type: &str, resource_id: Id) -> (e:
    AuditEvent)
    ensures
        e@ == entry_by(*ctx, action@, resource_type@, resource_id),
{
    record(action, ActorRole::Platform(ctx.role), ctx.user_id, resource_type, Some(resource_id))
}

pub(crate) fn note(e: AuditEvent, payload: serde_json::Value) -> (r: AuditEvent)
    ensures
        r@ == e@.noting(json_in(payload)),
{
    let mut out = e;
    out.payload = Some(payload);
    out
}

/// Marks an entry for a second look, with why it came out as it did.
pub(crate) fn mark(e: AuditEvent, reason: Option<&str>) -> (r: AuditEvent)
    ensures
        r@ == (Entry { risky: true, reason: opt_str(reason), ..e@ }),
{
    let mut out = e;
    out.risk_anomaly_flag = true;
    out.outcome_reason = match reason {
        Some(s) => Some(s.to_owned()),
        None => None,
    };
    out
}

/// An entry in the trail says who did what to which thing; it is not risky and says no more until it
/// is marked and noted, and that changes nothing else.
pub proof fn what_entries_say(
    ctx: AuthContext,
    action: Seq<char>,
    role: ActorRole,
    actor: Option<Id>,
    kind: Seq<char>,
    id: Option<Id>,
    payload: Json,
    about: Id,
)
    ensures
        entry(action, role, actor, kind, id).action == action,
        entry(action, role, actor, kind, id).role == role,
        entry(action, role, actor, kind, id).actor == actor,
        entry(action, role, actor, kind, id).resource_type == Some(kind),
        entry(action, role, actor, kind, id).resource_id == id,
        entry(action, role, actor, kind, id).payload is None,
        !entry(action, role, actor, kind, id).risky,
        entry(action, role, actor, kind, id).reason is None,
        entry_by(ctx, action, kind, about)
            == entry(action, ActorRole::Platform(ctx.role), ctx.user_id, kind, Some(about)),
        (
            {
                let e = entry(action, role, actor, kind, id); e.noting(payload)
                    == (Entry { payload: Some(payload), ..e })
                    && e.marked() == (Entry { risky: true, ..e })
            }
        ),
{
}

/// An event of the trail is seen with all that it says.
pub proof fn entries_are_seen_whole(e: AuditEvent)
    ensures
        e@.action == e.action@,
        e@.role == e.role,
        e@.actor == e.actor_user_id,
        e@.resource_type == opt_text(e.resource_type),
        e@.resource_id == e.resource_id,
        e@.payload == (match e.payload { Some(v) => Some(json_in(v)), None => None }),
        e@.risky == e.risk_anomaly_flag,
{
}

} // verus!
