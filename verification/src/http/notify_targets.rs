//! Where an account wants to be told about what its lines took.
//!
//! An address is a credential: whoever holds it can post there. It goes in and never comes
//! out; what is shown of it is its host.

use vstd::prelude::*;
use vstd::string::*;

use crate::lists::{selects_just, selects_last};
use crate::address::{host_in, url_host};
use crate::error::{not_found, refusal, validation, AppError, Refusal};
use crate::grants::refusal_in;
use crate::ids::id_text;
use crate::json::{
    empty_object,
    id_value,
    json_in,
    member_at,
    put,
    strings_value,
    text_list,
    text_value,
    Json,
};
use crate::principal::{AuthContext, Id};
use crate::text::{
    as_text, debug_text, filled, joined, opt_text, quoted, same, texts, trim, trim_filled, trimmed,
};
use crate::trail::{entry_by, note, record_by, AuditEvent};

verus! {

/// What happens on a line that somebody can be told of.
#[derive(Clone, Copy, Debug, PartialEq, Eq, Structural)]
pub enum Event {
    MessageTaken,
    AppointmentBooked,
}

impl Event {
    pub open spec fn label(self) -> Seq<char> {
        match self {
            Event::MessageTaken => "message_taken"@,
            Event::AppointmentBooked => "appointment_booked"@,
        }
    }

    pub fn as_str(self) -> (r: &'static str)
        ensures
            r@ == self.label(),
    {
        match self {
            Event::MessageTaken => "message_taken",
            Event::AppointmentBooked => "appointment_booked",
        }
    }
}

/// Whether the caller arranges an account's notifications.
pub open spec fn arranges(ctx: AuthContext, owner: Id) -> bool {
    ctx.admin || ctx.is(owner)
}

/// The account itself, or an administrator of the platform. To others there is nothing:
/// whether an account is told of its calls, and where, is not a stranger's business.
pub fn require(ctx: &AuthContext, owner_user_id: Id) -> (r: Result<(), AppError>)
    ensures
        refusal(r) == (if arranges(*ctx, owner_user_id) {
            None
        } else {
            Some(Refusal::NotFound("no such notification target"@))
        }),
{
    if ctx.is_admin() || ctx.is_user(owner_user_id) {
        Ok(())
    } else {
        Err(not_found("no such notification target"))
    }
}

pub open spec fn is_kind(kind: Seq<char>) -> bool {
    kind == "slack"@ || kind == "teams"@ || kind == "webhook"@
}

pub open spec fn kind_refusal(kind: Seq<char>) -> Option<Refusal> {
    if is_kind(kind) {
        None
    } else {
        Some(
            Refusal::Validation(
                "a notification target is a Slack channel, a Teams channel, or any address that accepts a posted message"@,
            ),
        )
    }
}

/// The services that a target may be.
pub fn check_kind(kind: &str) -> (r: Result<(), AppError>)
    ensures
        refusal(r) == kind_refusal(kind@),
{
    if same(kind, "slack") || same(kind, "teams") || same(kind, "webhook") {
        Ok(())
    } else {
        Err(
            validation(
                "a notification target is a Slack channel, a Teams channel, or any address that accepts a posted message",
            ),
        )
    }
}

pub open spec fn is_event(e: Seq<char>) -> bool {
    exists|k: Event| #[trigger] k.label() == e
}

/// What is wrong with the first event that there is none of.
pub open spec fn events_refusal(events: Seq<Seq<char>>) -> Option<Refusal>
    decreases events.len(),
{
    if events.len() == 0 {
        None
    } else {
        match events_refusal(events.drop_last()) {
            Some(e) => Some(e),
            None => if is_event(events.last()) {
                None
            } else {
                Some(
                    Refusal::Validation("nothing on a line ever produces "@ + debug_text(
                        events.last(),
                    )),
                )
            },
        }
    }
}

proof fn events_refusal_prefix(events: Seq<Seq<char>>, i: int)
    requires
        0 <= i <= events.len(),
        events_refusal(events.take(i)) is Some,
    ensures
        events_refusal(events) == events_refusal(events.take(i)),
    decreases events.len() - i,
{
    if i < events.len() {
        assert(events.take(i + 1).drop_last() == events.take(i));
        events_refusal_prefix(events, i + 1);
    } else {
        assert(events.take(i) == events);
    }
}

fn known_event(e: &str) -> (r: bool)
    ensures
        r == is_event(e@),
{
    if same(e, Event::MessageTaken.as_str()) {
        assert(Event::MessageTaken.label() == e@);
        true
    } else if same(e, Event::AppointmentBooked.as_str()) {
        assert(Event::AppointmentBooked.label() == e@);
        true
    } else {
        assert forall|k: Event| #[trigger] k.label() != e@ by {
            match k {
                Event::MessageTaken => {},
                Event::AppointmentBooked => {},
            }
        }
        false
    }
}

/// A target takes events that there are; one that takes none is allowed, and silent.
pub fn check_events(events: &[String]) -> (r: Result<(), AppError>)
    ensures
        refusal(r) == events_refusal(texts(events@)),
{
    let ghost all = texts(events@);
    let mut i: usize = 0;
    assert(all.take(0) == Seq::<Seq<char>>::empty());
    while i < events.len()
        invariant
            i <= events@.len(),
            all == texts(events@),
            events_refusal(all.take(i as int)) is None,
        decreases events@.len() - i,
    {
        proof {
            assert(all.take(i as int + 1).drop_last() == all.take(i as int));
            assert(all.take(i as int + 1).last() == events@[i as int]@);
        }
        if !known_event(events[i].as_str()) {
            proof {
                events_refusal_prefix(all, i as int + 1);
            }
            let q = quoted(events[i].as_str());
            return Err(
                AppError::Validation(joined("nothing on a line ever produces ", q.as_str())),
            );
        }
        i = i + 1;
    }
    assert(all.take(events@.len() as int) == all);
    Ok(())
}

/// What is shown of an address.
pub open spec fn host_shown(url: Seq<char>) -> Seq<char> {
    match url_host(url) {
        Some(h) => h,
        None => "unreadable"@,
    }
}

/// What is shown of a host that was read, or could not be.
pub fn host_or_unreadable(host: Option<String>) -> (r: String)
    ensures
        r@ == (match host {
            Some(h) => h@,
            None => "unreadable"@,
        }),
{
    match host {
        Some(h) => h,
        None => "unreadable".to_owned(),
    }
}

/// What a reader is shown: the host, never the address.
pub fn host_of(url: &str) -> (r: String)
    ensures
        r@ == host_shown(url@),
{
    host_or_unreadable(host_in(url))
}

/// The host of a stored address, which may fail to be decrypted.
pub fn stored_host(url: Option<String>) -> (r: String)
    ensures
        r@ == (match url {
            Some(u) => host_shown(u@),
            None => "unreadable"@,
        }),
{
    match url {
        Some(u) => host_of(u.as_str()),
        None => "unreadable".to_owned(),
    }
}

/// The account that is meant, where the caller arranges it.
pub fn whose(ctx: &AuthContext, asked: Option<Id>) -> (r: Result<Id, AppError>)
    ensures
        match r {
            Ok(owner) => crate::http::diary::meant(*ctx, asked) == Some(owner) && arranges(
                *ctx,
                owner,
            ),
            Err(e) => !(crate::http::diary::meant(*ctx, asked) matches Some(owner) && arranges(
                *ctx,
                owner,
            )) && e@ == Refusal::NotFound("no such notification target"@),
        },
{
    let owner = match asked {
        Some(id) => id,
        None => match ctx.user_id {
            Some(id) => id,
            None => {
                return Err(not_found("no such notification target"));
            },
        },
    };
    match require(ctx, owner) {
        Ok(_) => Ok(owner),
        Err(e) => Err(e),
    }
}

/// A stored target. Its address is decrypted where it can be.
pub struct StoredTarget {
    pub id: Id,
    pub owner_user_id: Id,
    pub label: String,
    pub kind: String,
    pub url: Option<String>,
    pub events: Vec<String>,
    pub enabled: bool,
    pub created_epoch: i64,
}

/// A target as it is shown: where it leads, and not the address.
pub struct TargetOut {
    pub id: Id,
    pub owner_user_id: Id,
    pub label: String,
    pub kind: String,
    pub host: String,
    pub events: Vec<String>,
    pub enabled: bool,
    pub created_epoch: i64,
}

/// What is shown of a stored target: of its address the host, and no more.
pub open spec fn target_shown(row: StoredTarget, o: TargetOut) -> bool {
    &&& o.id == row.id
    &&& o.owner_user_id == row.owner_user_id
    &&& o.label == row.label
    &&& o.kind == row.kind
    &&& o.host@ == (match row.url {
        Some(u) => host_shown(u@),
        None => "unreadable"@,
    })
    &&& o.events == row.events
    &&& o.enabled == row.enabled
    &&& o.created_epoch == row.created_epoch
}

/// The targets of an account, in the order in which they are given.
pub open spec fn targets_of(rows: Seq<StoredTarget>, owner: Id) -> Seq<StoredTarget>
    decreases rows.len(),
{
    if rows.len() == 0 {
        Seq::empty()
    } else {
        let before = targets_of(rows.drop_last(), owner);
        if rows.last().owner_user_id == owner {
            before.push(rows.last())
        } else {
            before
        }
    }
}

/// Where an account is told about its calls, for whoever arranges that.
pub fn list(ctx: &AuthContext, asked: Option<Id>, rows: Vec<StoredTarget>) -> (r: Result<
    Vec<TargetOut>,
    AppError,
>)
    ensures
        match r {
            Ok(v) => crate::http::diary::meant(*ctx, asked) matches Some(owner) && {
                &&& arranges(*ctx, owner)
                &&& v@.len() == targets_of(rows@, owner).len()
                &&& forall|i: int|
                    0 <= i < v@.len() ==> target_shown(targets_of(rows@, owner)[i], #[trigger] v@[i])
            },
            Err(e) => !(crate::http::diary::meant(*ctx, asked) matches Some(owner) && arranges(
                *ctx,
                owner,
            )) && e@ == Refusal::NotFound("no such notification target"@),
        },
{
    let owner = match whose(ctx, asked) {
        Ok(id) => id,
        Err(e) => {
            return Err(e);
        },
    };
    let n: usize = rows.len();
    let mut rest = rows;
    let mut out: Vec<TargetOut> = Vec::new();
    let mut i: usize = 0;
    assert(rows@.take(0) == Seq::<StoredTarget>::empty());
    while i < n
        invariant
            n == rows@.len(),
            i <= n,
            rest@ == rows@.skip(i as int),
            out@.len() == targets_of(rows@.take(i as int), owner).len(),
            forall|k: int|
                0 <= k < out@.len() ==> target_shown(
                    targets_of(rows@.take(i as int), owner)[k],
                    #[trigger] out@[k],
                ),
        decreases n - i,
    {
        let row = rest.remove(0);
        assert(row == rows@[i as int]);
        assert(rest@ =~= rows@.skip(i as int + 1));
        assert(rows@.take(i as int + 1).drop_last() == rows@.take(i as int));
        if row.owner_user_id == owner {
            out.push(
                TargetOut {
                    id: row.id,
                    owner_user_id: row.owner_user_id,
                    label: row.label,
                    kind: row.kind,
                    host: stored_host(row.url),
                    events: row.events,
                    enabled: row.enabled,
                    created_epoch: row.created_epoch,
                },
            );
        }
        i = i + 1;
    }
    assert(rows@.take(rows@.len() as int) == rows@);
    Ok(out)
}

pub struct NewTarget {
    pub owner_user_id: Option<Id>,
    pub label: String,
    pub kind: String,
    pub url: String,
    pub events: Vec<String>,
    pub enabled: bool,
}

/// A target that is added is on where nobody says.
pub fn yes() -> (r: bool)
    ensures
        r,
{
    true
}

/// A target to be stored: its owner, its name, and the address to be encrypted.
pub struct TargetPlan {
    pub owner: Id,
    pub label: String,
    pub url: String,
}

pub open spec fn create_refusal(
    ctx: AuthContext,
    body: NewTarget,
    url_refusal: Option<Refusal>,
) -> Option<Refusal> {
    if !(crate::http::diary::meant(ctx, body.owner_user_id) matches Some(owner) && arranges(
        ctx,
        owner,
    )) {
        Some(Refusal::NotFound("no such notification target"@))
    } else if trimmed(body.label@).len() == 0 {
        Some(Refusal::Validation("a notification target needs a name to tell it by"@))
    } else if kind_refusal(body.kind@) is Some {
        kind_refusal(body.kind@)
    } else if events_refusal(texts(body.events@)) is Some {
        events_refusal(texts(body.events@))
    } else {
        url_refusal
    }
}

/// Adds a target. `url_refusal` is what is wrong with the address.
pub fn create(ctx: &AuthContext, body: &NewTarget, url_refusal: Option<AppError>) -> (r: Result<
    TargetPlan,
    AppError,
>)
    ensures
        refusal(r) == create_refusal(*ctx, *body, refusal_in(url_refusal)),
        r matches Ok(t) ==> {
            &&& crate::http::diary::meant(*ctx, body.owner_user_id) == Some(t.owner)
            &&& t.label@ == trimmed(body.label@)
            &&& t.url@ == trimmed(body.url@)
        },
{
    let owner = match whose(ctx, body.owner_user_id) {
        Ok(o) => o,
        Err(e) => {
            return Err(e);
        },
    };
    let label = trim(body.label.as_str());
    if label.as_str().is_empty() {
        return Err(validation("a notification target needs a name to tell it by"));
    }
    match check_kind(body.kind.as_str()) {
        Ok(_) => {},
        Err(e) => {
            return Err(e);
        },
    }
    match check_events(body.events.as_slice()) {
        Ok(_) => {},
        Err(e) => {
            return Err(e);
        },
    }
    match url_refusal {
        Some(e) => {
            return Err(e);
        },
        None => {},
    }
    Ok(TargetPlan { owner, label, url: trim(body.url.as_str()) })
}

/// An address that could not be encrypted is not stored.
pub fn sealed(stored: Option<String>) -> (r: Result<String, AppError>)
    ensures
        match stored {
            Some(s) => r == Ok::<String, AppError>(s),
            None => refusal(r) == Some(Refusal::Config("the address could not be stored safely"@)),
        },
{
    match stored {
        Some(s) => Ok(s),
        None => Err(AppError::Config("the address could not be stored safely".to_owned())),
    }
}

pub struct EditTarget {
    pub label: Option<String>,
    /// Absent leaves the address alone: it is never sent back.
    pub url: Option<String>,
    pub events: Option<Vec<String>>,
    pub enabled: Option<bool>,
}

/// What a change touches: a name and an address that are not blank.
pub struct TargetChange {
    pub label: Option<String>,
    pub url: Option<String>,
}

pub open spec fn edit_refusal(
    ctx: AuthContext,
    owner: Option<Id>,
    body: EditTarget,
    url_refusal: Option<Refusal>,
) -> Option<Refusal> {
    if !(owner matches Some(o) && arranges(ctx, o)) {
        Some(Refusal::NotFound("no such notification target"@))
    } else if body.events matches Some(events) && events_refusal(texts(events@)) is Some {
        events_refusal(texts(body.events->0@))
    } else if filled(opt_text(body.url)) is Some {
        url_refusal
    } else {
        None
    }
}

/// Changes a target. `owner` is whose it is, `url_refusal` what is wrong with the new
/// address, where there is one.
pub fn update(
    ctx: &AuthContext,
    owner: Option<Id>,
    body: &EditTarget,
    url_refusal: Option<AppError>,
) -> (r: Result<TargetChange, AppError>)
    ensures
        refusal(r) == edit_refusal(*ctx, owner, *body, refusal_in(url_refusal)),
        r matches Ok(c) ==> opt_text(c.label) == filled(opt_text(body.label)) && opt_text(c.url)
            == filled(opt_text(body.url)),
{
    let o = match owner {
        Some(o) => o,
        None => {
            return Err(not_found("no such notification target"));
        },
    };
    match require(ctx, o) {
        Ok(_) => {},
        Err(e) => {
            return Err(e);
        },
    }
    match &body.events {
        Some(events) => match check_events(events.as_slice()) {
            Ok(_) => {},
            Err(e) => {
                return Err(e);
            },
        },
        None => {},
    }
    let url = trim_filled(as_text(&body.url));
    if url.is_some() {
        match url_refusal {
            Some(e) => {
                return Err(e);
            },
            None => {},
        }
    }
    Ok(TargetChange { label: trim_filled(as_text(&body.label)), url })
}

/// Takes a target away, or tries it: for whoever arranges it.
pub fn require_target(ctx: &AuthContext, owner: Option<Id>) -> (r: Result<(), AppError>)
    ensures
        refusal(r) == (if owner matches Some(o) && arranges(*ctx, o) {
            None
        } else {
            Some(Refusal::NotFound("no such notification target"@))
        }),
{
    match owner {
        Some(o) => require(ctx, o),
        None => Err(not_found("no such notification target")),
    }
}

/// What the trail says of an address: its host where one was given, and never the address.
pub fn audited_host(url: &str) -> (r: Option<String>)
    ensures
        opt_text(r) == (if url@.len() == 0 {
            None
        } else {
            Some(host_shown(trimmed(url@)))
        }),
{
    if url.is_empty() {
        None
    } else {
        let t = trim(url);
        Some(host_of(t.as_str()))
    }
}

/// What a target is sent when it is tried.
pub const TEST_TEXT: &'static str = "This is a test from your telephone line. Nobody rang.";

/// What is handed over for delivery, to try a target out.
pub open spec fn trial_doc(id: Id) -> Json {
    Json::Object(
        Map::empty().insert("target_id"@, Json::Text(id_text(id))).insert(
            "event"@,
            Json::Text(Event::MessageTaken.label()),
        ).insert("text"@, Json::Text(TEST_TEXT@)),
    )
}

/// Tries a target, for whoever arranges it: what is handed over for delivery.
pub fn test(ctx: &AuthContext, id: Id, owner: Option<Id>) -> (r: Result<serde_json::Value, AppError>)
    ensures
        refusal(r) == (if owner matches Some(o) && arranges(*ctx, o) {
            None
        } else {
            Some(Refusal::NotFound("no such notification target"@))
        }),
        r matches Ok(x) ==> json_in(x) == trial_doc(id),
{
    match require_target(ctx, owner) {
        Ok(_) => {
            let mut doc = empty_object();
            put(&mut doc, "target_id", id_value(id));
            put(&mut doc, "event", text_value(Event::MessageTaken.as_str()));
            put(&mut doc, "text", text_value(TEST_TEXT));
            Ok(doc)
        },
        Err(e) => Err(e),
    }
}

/// What is written down of a notification target: what it is and what it is told, and the host it
/// is at where the address was given. The address is a credential, and is no part of it.
pub open spec fn target_doc(kind: Seq<char>, events: Seq<Seq<char>>, url: Seq<char>) -> Json {
    let known = Map::empty().insert("kind"@, Json::Text(kind)).insert("events"@, text_list(events));
    Json::Object(
        if url.len() == 0 {
            known
        } else {
            known.insert("host"@, Json::Text(host_shown(trimmed(url))))
        },
    )
}

pub fn audit_target(
    ctx: &AuthContext,
    action: &str,
    id: Id,
    kind: &str,
    events: &Vec<String>,
    url: &str,
) -> (e: AuditEvent)
    ensures
        e@ == entry_by(*ctx, action@, "notify_target"@, id).noting(
            target_doc(kind@, texts(events@), url@),
        ),
{
    let mut doc = empty_object();
    put(&mut doc, "kind", text_value(kind));
    put(&mut doc, "events", strings_value(events));
    match audited_host(url) {
        Some(host) => {
            put(&mut doc, "host", text_value(host.as_str()));
        },
        None => {},
    }
    note(record_by(ctx, action, "notify_target", id), doc)
}

/// Of an address the trail notes the host and nothing else.
pub proof fn addresses_are_not_in_the_trail(
    kind: Seq<char>,
    events: Seq<Seq<char>>,
    url: Seq<char>,
    member: Seq<char>,
)
    requires
        member_at(target_doc(kind, events, url), member) is Some,
    ensures
        member == "kind"@ || member == "events"@ || (member == "host"@ && member_at(
            target_doc(kind, events, url),
            member,
        ) == Some(Json::Text(host_shown(trimmed(url))))),
{
}

/// The targets of an account are all of its own, and no other.
pub proof fn targets_are_listed_to_their_owner(owner: Id, s: Seq<StoredTarget>)
    ensures
        targets_of(s, owner) == s.filter(|x: StoredTarget| x.owner_user_id == owner),
        forall|x: StoredTarget|
            #[trigger] targets_of(s, owner).contains(x)
                <==> s.contains(x) && (x.owner_user_id == owner),
    decreases s.len(),
{
    let p = |x: StoredTarget| x.owner_user_id == owner;
    selects_last(s, p);
    selects_just(s, p);
    if s.len() > 0 {
        targets_are_listed_to_their_owner(owner, s.drop_last());
    }
    assert(targets_of(s, owner) =~= s.filter(p));
    assert forall|x: StoredTarget|
        #[trigger] targets_of(s, owner).contains(x) <==> s.contains(x) && (x.owner_user_id == owner) by {
        assert(s.filter(p).contains(x) <==> s.contains(x) && p(x));
    }
}

/// A target is made for oneself, or for anybody by administrators, with a name, of a kind that there
/// is, for events that there are, at an address that may be reached.
pub proof fn who_arranges_targets(
    ctx: AuthContext,
    body: NewTarget,
    url_refusal: Option<Refusal>,
    owner: Id,
    kind: Seq<char>,
)
    ensures
        arranges(ctx, owner) <==> ctx.admin || ctx.user_id == Some(owner),
        kind_refusal(kind) is None <==> kind == "slack"@ || kind == "teams"@ || kind == "webhook"@,
        create_refusal(ctx, body, url_refusal) is None
            <==> (
                (body.owner_user_id matches Some(o) && (ctx.admin || ctx.user_id == Some(o)))
                    || (body.owner_user_id is None && ctx.user_id is Some)
            )
                && trimmed(body.label@).len() > 0
                && (body.kind@ == "slack"@ || body.kind@ == "teams"@ || body.kind@ == "webhook"@)
                && events_refusal(texts(body.events@)) is None
                && url_refusal is None,
{
}

/// A target is changed by whoever it is for and by administrators, to events that there are and an
/// address that may be reached.
pub proof fn who_changes_targets(
    ctx: AuthContext,
    owner: Option<Id>,
    body: EditTarget,
    url_refusal: Option<Refusal>,
)
    ensures
        edit_refusal(ctx, owner, body, url_refusal) is None
            <==> owner is Some
                && (ctx.admin || ctx.user_id == owner)
                && (body.events matches Some(e) ==> events_refusal(texts(e@)) is None)
                && ((body.url matches Some(v) && trimmed(v@).len() > 0) ==> url_refusal is None),
{
}

/// Events are taken where each of them is one that there is; else the first that is none is named.
pub proof fn events_are_checked_in_turn(s: Seq<Seq<char>>) -> (at: int)
    ensures
        events_refusal(s) is None <==> forall|k: int|
            #![trigger s[k]]
            0 <= k < s.len() ==> is_event(s[k]),
        events_refusal(s) is Some ==> {
            &&& 0 <= at < s.len()
            &&& !(is_event(s[at]))
            &&& events_refusal(s)
                    == Some(
                        Refusal::Validation("nothing on a line ever produces "@ + debug_text(s[at]))
                    )
            &&& forall|k: int| #![trigger s[k]] 0 <= k < at ==> is_event(s[k])
        },
    decreases s.len(),
{
    if s.len() == 0 {
        0
    } else {
        let front = s.drop_last();
        let at = events_are_checked_in_turn(front);
        assert forall|k: int| #![trigger s[k]] 0 <= k < front.len() implies s[k] == front[k] by {}
        if events_refusal(front) is Some {
            assert(s[at] == front[at]);
            at
        } else {
            assert forall|k: int| #![trigger s[k]] 0 <= k < front.len() implies is_event(s[k]) by {
                assert(front[k] == s[k]);
            }
            s.len() - 1
        }
    }
}

/// What stands in `trial_doc` under each name; there is no other name in it.
pub proof fn what_trial_doc_holds(id: Id)
    ensures
        member_at(trial_doc(id), "target_id"@) == Some(Json::Text(id_text(id))),
        member_at(trial_doc(id), "event"@) == Some(Json::Text(Event::MessageTaken.label())),
        member_at(trial_doc(id), "text"@) == Some(Json::Text(TEST_TEXT@)),
        forall|name: Seq<char>|
            #[trigger] member_at(trial_doc(id), name) is Some
                ==> name == "target_id"@ || name == "event"@ || name == "text"@,
{
    reveal_strlit("target_id");
    reveal_strlit("event");
    reveal_strlit("text");
    assert("target_id"@.len() != "event"@.len());
    assert("target_id"@.len() != "text"@.len());
    assert("event"@.len() != "text"@.len());
}

/// A target is shown as it is stored, its address by the host alone.
pub proof fn targets_are_shown_whole(row: StoredTarget, o: TargetOut)
    ensures
        target_shown(row, o) ==> {
            &&& o.id == row.id
            &&& o.owner_user_id == row.owner_user_id
            &&& o.label == row.label
            &&& o.kind == row.kind
            &&& o.host@ == (match row.url { Some(u) => host_shown(u@), None => "unreadable"@, })
            &&& o.events == row.events
            &&& o.enabled == row.enabled
            &&& o.created_epoch == row.created_epoch
        },
{
}

/// There are two events, each under its own name.
pub proof fn which_events_there_are(e: Seq<char>, k: Event)
    ensures
        is_event(e) <==> e == "message_taken"@ || e == "appointment_booked"@,
        Event::MessageTaken.label() == "message_taken"@,
        Event::AppointmentBooked.label() == "appointment_booked"@,
{
    assert(Event::MessageTaken.label() == "message_taken"@);
    assert(Event::AppointmentBooked.label() == "appointment_booked"@);
}

/// What is told of a target is its kind, its events and the host of its address, and never the address.
pub proof fn what_is_told_of_targets(kind: Seq<char>, events: Seq<Seq<char>>, url: Seq<char>)
    ensures
        member_at(target_doc(kind, events, url), "kind"@) == Some(Json::Text(kind)),
        member_at(target_doc(kind, events, url), "events"@) == Some(text_list(events)),
        member_at(target_doc(kind, events, url), "host"@)
            == (if url.len() > 0 { Some(Json::Text(host_shown(trimmed(url)))) } else { None }),
        forall|name: Seq<char>|
            #[trigger] member_at(target_doc(kind, events, url), name) is Some
                ==> name == "kind"@ || name == "events"@ || name == "host"@,
{
    reveal_strlit("kind");
    reveal_strlit("events");
    reveal_strlit("host");
    assert("kind"@.len() != "events"@.len());
    assert("kind"@[0] != "host"@[0]);
    assert("events"@.len() != "host"@.len());
}

/// Of several things that are wrong, `kind_refusal` tells the first.
pub proof fn kind_refusal_tells_the_first_thing(kind: Seq<char>)
    ensures
        is_kind(kind) ==> kind_refusal(kind) is None,
        !is_kind(kind)
            ==> kind_refusal(kind)
                == Some(
                    Refusal::Validation(
                        "a notification target is a Slack channel, a Teams channel, or any address that accepts a posted message"@
                    )
                ),
{
}

/// Of several things that are wrong, `create_refusal` tells the first.
pub proof fn create_refusal_tells_the_first_thing(
    ctx: AuthContext,
    body: NewTarget,
    url_refusal: Option<Refusal>,
)
    ensures
        (
            !(
                crate::http::diary::meant(ctx, body.owner_user_id) matches Some(owner)
                    && arranges(ctx, owner)
            )
        )
            ==> create_refusal(ctx, body, url_refusal)
                == Some(Refusal::NotFound("no such notification target"@)),
        !(
            !(
                crate::http::diary::meant(ctx, body.owner_user_id) matches Some(owner)
                    && arranges(ctx, owner)
            )
        )
            && trimmed(body.label@).len() == 0
            ==> create_refusal(ctx, body, url_refusal)
                == Some(Refusal::Validation("a notification target needs a name to tell it by"@)),
        !(
            !(
                crate::http::diary::meant(ctx, body.owner_user_id) matches Some(owner)
                    && arranges(ctx, owner)
            )
        )
            && !(trimmed(body.label@).len() == 0)
            && kind_refusal(body.kind@) is Some
            ==> create_refusal(ctx, body, url_refusal) == kind_refusal(body.kind@),
        !(
            !(
                crate::http::diary::meant(ctx, body.owner_user_id) matches Some(owner)
                    && arranges(ctx, owner)
            )
        )
            && !(trimmed(body.label@).len() == 0)
            && !(kind_refusal(body.kind@) is Some)
            && events_refusal(texts(body.events@)) is Some
            ==> create_refusal(ctx, body, url_refusal) == events_refusal(texts(body.events@)),
        !(
            !(
                crate::http::diary::meant(ctx, body.owner_user_id) matches Some(owner)
                    && arranges(ctx, owner)
            )
        )
            && !(trimmed(body.label@).len() == 0)
            && !(kind_refusal(body.kind@) is Some)
            && !(events_refusal(texts(body.events@)) is Some)
            ==> create_refusal(ctx, body, url_refusal) == url_refusal,
{
}

/// Of several things that are wrong, `edit_refusal` tells the first.
pub proof fn edit_refusal_tells_the_first_thing(
    ctx: AuthContext,
    owner: Option<Id>,
    body: EditTarget,
    url_refusal: Option<Refusal>,
)
    ensures
        (!(owner matches Some(o) && arranges(ctx, o)))
            ==> edit_refusal(ctx, owner, body, url_refusal)
                == Some(Refusal::NotFound("no such notification target"@)),
        !(!(owner matches Some(o) && arranges(ctx, o)))
            && (body.events matches Some(events) && events_refusal(texts(events@)) is Some)
            ==> edit_refusal(ctx, owner, body, url_refusal)
                == events_refusal(texts(body.events->0@)),
        !(!(owner matches Some(o) && arranges(ctx, o)))
            && !(body.events matches Some(events) && events_refusal(texts(events@)) is Some)
            && filled(opt_text(body.url)) is Some
            ==> edit_refusal(ctx, owner, body, url_refusal) == url_refusal,
        !(!(owner matches Some(o) && arranges(ctx, o)))
            && !(body.events matches Some(events) && events_refusal(texts(events@)) is Some)
            && !(filled(opt_text(body.url)) is Some)
            ==> edit_refusal(ctx, owner, body, url_refusal) is None,
{
}

/// An address is shown by its host alone, and as unreadable where it has none.
pub proof fn addresses_are_shown_by_their_host(url: Seq<char>)
    ensures
        url_host(url) matches Some(h) ==> host_shown(url) == h,
        url_host(url) is None ==> host_shown(url) == "unreadable"@,
{
}

} // verus!
