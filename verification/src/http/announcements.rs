//! Notices to everybody: banners, and the message that greets people who sign in.

use vstd::prelude::*;
use vstd::string::*;

use crate::lists::{selects_just, selects_last};
use crate::grants::{refusal_in, Permissions};
use crate::error::{refusal, validation, AppError, Refusal};
use crate::json::{empty_object, member_at, put, text_value, Json};
use crate::order::{highest_first, ordered_lists_descend, rank_list, Ranked};
use crate::principal::{AuthContext, Id};
use crate::text::{
    blank, chars_of, control, decimal, is_control, joined, joined3, number, opt_text, same, trim,
    trimmed,
};
use crate::trail::{entry_by, note, record_by, AuditEvent};

verus! {

/// The longest banner, in characters.
pub const CONTENT_MAX: usize = 1000;

/// The longest title of a greeting, in characters.
pub const WELCOME_TITLE_MAX: usize = 200;

/// The longest greeting, in characters.
pub const WELCOME_BODY_MAX: usize = 4000;

/// A character that free text may not hold: a control character that is neither a line
/// break nor a tab.
pub open spec fn is_stray(c: char) -> bool {
    is_control(c) && c != '\n' && c != '\t'
}

pub open spec fn has_stray(s: Seq<char>) -> bool {
    exists|i: int| 0 <= i < s.len() && is_stray(#[trigger] s[i])
}

/// What is wrong with a text, once trimmed.
pub open spec fn text_refusal(v: Seq<char>, max: nat, field: Seq<char>) -> Option<Refusal> {
    if v.len() == 0 {
        Some(Refusal::Validation(field + " must not be empty"@))
    } else if v.len() > max {
        Some(Refusal::Validation(field + " must be ≤ "@ + decimal(max) + " characters"@))
    } else if has_stray(v) {
        Some(Refusal::Validation(field + " contains control characters"@))
    } else {
        None
    }
}

fn any_stray(s: &str) -> (r: bool)
    ensures
        r == has_stray(s@),
{
    let v = chars_of(s);
    let mut i: usize = 0;
    while i < v.len()
        invariant
            i <= v@.len(),
            v@ == s@,
            forall|k: int| 0 <= k < i ==> !is_stray(#[trigger] s@[k]),
        decreases v@.len() - i,
    {
        let c: char = v[i];
        if control(c) && c != '\n' && c != '\t' {
            assert(is_stray(s@[i as int]));
            return true;
        }
        i = i + 1;
    }
    false
}

/// Accepts a text, trimmed: not empty, not too long, and without stray control characters.
pub fn validate_text(s: &str, max: usize, field: &str) -> (r: Result<String, AppError>)
    ensures
        refusal(r) == text_refusal(trimmed(s@), max as nat, field@),
        r matches Ok(v) ==> v@ == trimmed(s@),
{
    let v = trim(s);
    if v.as_str().is_empty() {
        return Err(AppError::Validation(joined(field, " must not be empty")));
    }
    if v.as_str().unicode_len() > max {
        let n = number(max as u64);
        let mut m = joined3(field, " must be ≤ ", n.as_str());
        m.append(" characters");
        return Err(AppError::Validation(m));
    }
    if any_stray(v.as_str()) {
        return Err(AppError::Validation(joined(field, " contains control characters")));
    }
    Ok(v)
}

/// Text that was accepted is accepted again as it is.
pub proof fn accepted_text_stays_accepted(s: Seq<char>, max: nat, field: Seq<char>)
    requires
        text_refusal(trimmed(s), max, field) is None,
    ensures
        text_refusal(trimmed(trimmed(s)), max, field) is None,
{
    crate::text::trimmed_twice(s);
}

pub open spec fn is_severity(s: Seq<char>) -> bool {
    s == "info"@ || s == "success"@ || s == "warning"@ || s == "error"@
}

pub open spec fn severity_refusal(s: Seq<char>) -> Option<Refusal> {
    if is_severity(s) {
        None
    } else {
        Some(Refusal::Validation("severity must be info|success|warning|error"@))
    }
}

pub fn validate_severity(s: &str) -> (r: Result<String, AppError>)
    ensures
        refusal(r) == severity_refusal(s@),
        r matches Ok(v) ==> v@ == s@,
{
    if same(s, "info") || same(s, "success") || same(s, "warning") || same(s, "error") {
        Ok(s.to_owned())
    } else {
        Err(validation("severity must be info|success|warning|error"))
    }
}

/// A banner.
pub struct AnnouncementOut {
    pub id: Id,
    pub content: String,
    pub severity: String,
    pub dismissible: bool,
    pub active: bool,
    pub sort_order: i32,
}

impl Ranked for AnnouncementOut {
    /// The lower its place, the earlier a banner is shown.
    open spec fn rank(self) -> (int, int) {
        (-(self.sort_order as int), 0)
    }

    fn outranks(&self, other: &AnnouncementOut) -> (r: bool) {
        self.sort_order < other.sort_order
    }
}

/// The greeting.
pub struct WelcomeOut {
    pub enabled: bool,
    pub title: String,
    pub body: String,
}

impl Default for WelcomeOut {
    /// No greeting.
    fn default() -> (r: WelcomeOut)
        ensures
            !r.enabled,
            r.title@.len() == 0,
            r.body@.len() == 0,
    {
        WelcomeOut { enabled: false, title: String::new(), body: String::new() }
    }
}

pub struct CreateAnnouncement {
    pub content: String,
    pub severity: String,
    pub dismissible: bool,
    pub active: bool,
    pub sort_order: i32,
}

pub struct UpdateAnnouncement {
    pub content: Option<String>,
    pub severity: Option<String>,
    pub dismissible: Option<bool>,
    pub active: Option<bool>,
    pub sort_order: Option<i32>,
}

pub struct SetWelcome {
    pub enabled: bool,
    pub title: String,
    pub body: String,
}

/// How severe a banner is where nobody says.
pub fn default_severity() -> (r: String)
    ensures
        r@ == "info"@,
{
    "info".to_owned()
}

/// What is on where nobody says.
pub fn default_true() -> (r: bool)
    ensures
        r,
{
    true
}

/// The greeting as it is stored; off and empty where it is not.
pub fn read_welcome(enabled: Option<String>, title: Option<String>, body: Option<String>) -> (r:
    WelcomeOut)
    ensures
        r.enabled == (opt_text(enabled) == Some("true"@)),
        r.title@ == (match title {
            Some(t) => t@,
            None => Seq::empty(),
        }),
        r.body@ == (match body {
            Some(b) => b@,
            None => Seq::empty(),
        }),
{
    let on = match &enabled {
        Some(e) => same(e.as_str(), "true"),
        None => false,
    };
    WelcomeOut {
        enabled: on,
        title: match title {
            Some(t) => t,
            None => String::new(),
        },
        body: match body {
            Some(b) => b,
            None => String::new(),
        },
    }
}

/// A greeting is given where it is on and there is something to it.
pub open spec fn greets(w: WelcomeOut) -> bool {
    w.enabled && trimmed(w.title@).len() > 0 && trimmed(w.body@).len() > 0
}

/// The greeting that people get, if any.
pub fn shown_welcome(w: WelcomeOut) -> (r: Option<WelcomeOut>)
    ensures
        r == (if greets(w) {
            Some(w)
        } else {
            None
        }),
{
    if w.enabled && !blank(w.title.as_str()) && !blank(w.body.as_str()) {
        Some(w)
    } else {
        None
    }
}

/// All banners, those that are off too, for whoever manages them. `rows` are from the oldest on:
/// those of one place come in that order.
pub fn list_announcements(permissions: Permissions, rows: Vec<AnnouncementOut>) -> (r: Result<
    Vec<AnnouncementOut>,
    AppError,
>)
    ensures
        refusal(r) == refusal_in(permissions.announcements_manage),
        r matches Ok(v) ==> v@ == highest_first(rows@),
{
    match permissions.announcements_manage {
        Some(e) => Err(e),
        None => Ok(rank_list(rows)),
    }
}

pub open spec fn create_refusal(permissions: Permissions, body: CreateAnnouncement) -> Option<
    Refusal,
> {
    if permissions.announcements_manage is Some {
        refusal_in(permissions.announcements_manage)
    } else if text_refusal(trimmed(body.content@), CONTENT_MAX as nat, "content"@) is Some {
        text_refusal(trimmed(body.content@), CONTENT_MAX as nat, "content"@)
    } else {
        severity_refusal(body.severity@)
    }
}

/// A banner to be stored.
pub fn create_announcement(permissions: Permissions, id: Id, body: CreateAnnouncement) -> (r: Result<
    AnnouncementOut,
    AppError,
>)
    ensures
        refusal(r) == create_refusal(permissions, body),
        r matches Ok(a) ==> {
            &&& a.id == id
            &&& a.content@ == trimmed(body.content@)
            &&& a.severity@ == body.severity@
            &&& a.dismissible == body.dismissible
            &&& a.active == body.active
            &&& a.sort_order == body.sort_order
        },
{
    match permissions.announcements_manage {
        Some(e) => {
            return Err(e);
        },
        None => {},
    }
    let content = match validate_text(body.content.as_str(), CONTENT_MAX, "content") {
        Ok(c) => c,
        Err(e) => {
            return Err(e);
        },
    };
    let severity = match validate_severity(body.severity.as_str()) {
        Ok(s) => s,
        Err(e) => {
            return Err(e);
        },
    };
    Ok(
        AnnouncementOut {
            id,
            content,
            severity,
            dismissible: body.dismissible,
            active: body.active,
            sort_order: body.sort_order,
        },
    )
}

pub open spec fn update_refusal(
    permissions: Permissions,
    body: UpdateAnnouncement,
    exists_already: bool,
) -> Option<Refusal> {
    if permissions.announcements_manage is Some {
        refusal_in(permissions.announcements_manage)
    } else if body.content matches Some(c) && text_refusal(
        trimmed(c@),
        CONTENT_MAX as nat,
        "content"@,
    ) is Some {
        text_refusal(trimmed(body.content->0@), CONTENT_MAX as nat, "content"@)
    } else if body.severity matches Some(s) && severity_refusal(s@) is Some {
        severity_refusal(body.severity->0@)
    } else if !exists_already {
        Some(Refusal::Validation("no announcement with that id"@))
    } else {
        None
    }
}

/// A banner after a change: what is not given stays.
pub fn update_announcement(
    permissions: Permissions,
    current: Option<AnnouncementOut>,
    body: UpdateAnnouncement,
) -> (r: Result<AnnouncementOut, AppError>)
    ensures
        refusal(r) == update_refusal(permissions, body, current is Some),
        r matches Ok(a) ==> current matches Some(c) && {
            &&& a.id == c.id
            &&& a.content@ == (match body.content {
                Some(x) => trimmed(x@),
                None => c.content@,
            })
            &&& a.severity@ == (match body.severity {
                Some(x) => x@,
                None => c.severity@,
            })
            &&& a.dismissible == (match body.dismissible {
                Some(x) => x,
                None => c.dismissible,
            })
            &&& a.active == (match body.active {
                Some(x) => x,
                None => c.active,
            })
            &&& a.sort_order == (match body.sort_order {
                Some(x) => x,
                None => c.sort_order,
            })
        },
{
    match permissions.announcements_manage {
        Some(e) => {
            return Err(e);
        },
        None => {},
    }
    let content = match &body.content {
        Some(c) => match validate_text(c.as_str(), CONTENT_MAX, "content") {
            Ok(x) => Some(x),
            Err(e) => {
                return Err(e);
            },
        },
        None => None,
    };
    let severity = match &body.severity {
        Some(s) => match validate_severity(s.as_str()) {
            Ok(x) => Some(x),
            Err(e) => {
                return Err(e);
            },
        },
        None => None,
    };
    let c = match current {
        Some(c) => c,
        None => {
            return Err(validation("no announcement with that id"));
        },
    };
    Ok(
        AnnouncementOut {
            id: c.id,
            content: match content {
                Some(x) => x,
                None => c.content,
            },
            severity: match severity {
                Some(x) => x,
                None => c.severity,
            },
            dismissible: match body.dismissible {
                Some(x) => x,
                None => c.dismissible,
            },
            active: match body.active {
                Some(x) => x,
                None => c.active,
            },
            sort_order: match body.sort_order {
                Some(x) => x,
                None => c.sort_order,
            },
        },
    )
}

/// A banner that is not there cannot be deleted.
pub fn delete_announcement(permissions: Permissions, found: bool) -> (r: Result<(), AppError>)
    ensures
        refusal(r) == (if permissions.announcements_manage is Some {
            refusal_in(permissions.announcements_manage)
        } else if !found {
            Some(Refusal::Validation("no announcement with that id"@))
        } else {
            None
        }),
{
    match permissions.announcements_manage {
        Some(e) => {
            return Err(e);
        },
        None => {},
    }
    if !found {
        Err(validation("no announcement with that id"))
    } else {
        Ok(())
    }
}

pub open spec fn welcome_refusal(permissions: Permissions, body: SetWelcome) -> Option<Refusal> {
    if permissions.announcements_manage is Some {
        refusal_in(permissions.announcements_manage)
    } else if !body.enabled {
        None
    } else if text_refusal(trimmed(body.title@), WELCOME_TITLE_MAX as nat, "title"@) is Some {
        text_refusal(trimmed(body.title@), WELCOME_TITLE_MAX as nat, "title"@)
    } else {
        text_refusal(trimmed(body.body@), WELCOME_BODY_MAX as nat, "body"@)
    }
}

/// The greeting to be stored. To be switched on it needs a title and a text; to be switched
/// off it needs nothing.
pub fn set_welcome(permissions: Permissions, body: &SetWelcome) -> (r: Result<WelcomeOut, AppError>)
    ensures
        refusal(r) == welcome_refusal(permissions, *body),
        r matches Ok(w) ==> {
            &&& w.enabled == body.enabled
            &&& w.title@ == trimmed(body.title@)
            &&& w.body@ == trimmed(body.body@)
        },
{
    match permissions.announcements_manage {
        Some(e) => {
            return Err(e);
        },
        None => {},
    }
    if body.enabled {
        let title = match validate_text(body.title.as_str(), WELCOME_TITLE_MAX, "title") {
            Ok(t) => t,
            Err(e) => {
                return Err(e);
            },
        };
        let text = match validate_text(body.body.as_str(), WELCOME_BODY_MAX, "body") {
            Ok(t) => t,
            Err(e) => {
                return Err(e);
            },
        };
        Ok(WelcomeOut { enabled: true, title, body: text })
    } else {
        Ok(
            WelcomeOut {
                enabled: false,
                title: trim(body.title.as_str()),
                body: trim(body.body.as_str()),
            },
        )
    }
}

/// A greeting that was switched on is given, and one that was switched off is not.
pub proof fn stored_welcome_greets_when_enabled(
    permissions: Permissions,
    body: SetWelcome,
    w: WelcomeOut,
)
    requires
        welcome_refusal(permissions, body) is None,
        w.enabled == body.enabled,
        w.title@ == trimmed(body.title@),
        w.body@ == trimmed(body.body@),
    ensures
        greets(w) <==> body.enabled,
{
    crate::text::trimmed_twice(body.title@);
    crate::text::trimmed_twice(body.body@);
}

/// What is written down of a change to an announcement: how severe it is, and never what it says.
pub open spec fn severity_doc(severity: Seq<char>) -> Json {
    Json::Object(Map::empty().insert("severity"@, Json::Text(severity)))
}

pub fn audit_announcement(ctx: &AuthContext, action: &str, id: Id, severity: &str) -> (e: AuditEvent)
    ensures
        e@ == entry_by(*ctx, action@, "announcement"@, id).noting(severity_doc(severity@)),
{
    let mut doc = empty_object();
    put(&mut doc, "severity", text_value(severity));
    note(record_by(ctx, action, "announcement", id), doc)
}

/// What everybody sees: the announcements that are on, and the welcome where there is one.
pub struct NoticesOut {
    pub banners: Vec<AnnouncementOut>,
    pub welcome: Option<WelcomeOut>,
}

pub open spec fn active_among(rows: Seq<AnnouncementOut>) -> Seq<AnnouncementOut>
    decreases rows.len(),
{
    if rows.len() == 0 {
        Seq::empty()
    } else {
        let before = active_among(rows.drop_last());
        if rows.last().active {
            before.push(rows.last())
        } else {
            before
        }
    }
}

/// What everybody sees. `rows` are all announcements, from the oldest on: those of one place are
/// shown in that order.
pub fn get_notices(rows: Vec<AnnouncementOut>, w: WelcomeOut) -> (r: NoticesOut)
    ensures
        r.banners@ == active_among(highest_first(rows@)),
        r.welcome == (if greets(w) {
            Some(w)
        } else {
            None
        }),
{
    let rows = rank_list(rows);
    let n: usize = rows.len();
    let mut rest = rows;
    let mut banners: Vec<AnnouncementOut> = Vec::new();
    let mut i: usize = 0;
    assert(rows@.take(0) == Seq::<AnnouncementOut>::empty());
    while i < n
        invariant
            n == rows@.len(),
            i <= n,
            rest@ == rows@.skip(i as int),
            banners@ == active_among(rows@.take(i as int)),
        decreases n - i,
    {
        let row = rest.remove(0);
        assert(row == rows@[i as int]);
        assert(rest@ =~= rows@.skip(i as int + 1));
        assert(rows@.take(i as int + 1).drop_last() == rows@.take(i as int));
        if row.active {
            banners.push(row);
        }
        i = i + 1;
    }
    assert(rows@.take(rows@.len() as int) == rows@);
    NoticesOut { banners, welcome: shown_welcome(w) }
}

/// An announcement that is switched off is shown to nobody, and one that is on to everybody.
pub proof fn switched_off_is_hidden(rows: Seq<AnnouncementOut>, a: AnnouncementOut)
    ensures
        active_among(rows).contains(a) <==> rows.contains(a) && a.active,
    decreases rows.len(),
{
    if rows.len() > 0 {
        let before = active_among(rows.drop_last());
        switched_off_is_hidden(rows.drop_last(), a);
        if active_among(rows).contains(a) {
            let i = active_among(rows).index_of(a);
            if i < before.len() {
                assert(before[i] == a);
                let k = rows.drop_last().index_of(a);
                assert(rows[k] == a);
            } else {
                assert(rows.last() == a);
            }
        }
        if rows.contains(a) && a.active {
            let k = rows.index_of(a);
            if k < rows.len() - 1 {
                assert(rows.drop_last()[k] == a);
                let i = before.index_of(a);
                assert(active_among(rows)[i] == a);
            } else {
                assert(active_among(rows).last() == a);
            }
        }
    }
}

/// Everybody sees every banner that is switched on, and no other, in their order.
pub proof fn active_banners_are_shown(s: Seq<AnnouncementOut>)
    ensures
        active_among(s) == s.filter(|x: AnnouncementOut| x.active),
        forall|x: AnnouncementOut|
            #[trigger] active_among(s).contains(x) <==> s.contains(x) && (x.active),
    decreases s.len(),
{
    let p = |x: AnnouncementOut| x.active;
    selects_last(s, p);
    selects_just(s, p);
    if s.len() > 0 {
        active_banners_are_shown(s.drop_last());
    }
    assert(active_among(s) =~= s.filter(p));
    assert forall|x: AnnouncementOut|
        #[trigger] active_among(s).contains(x) <==> s.contains(x) && (x.active) by {
        assert(s.filter(p).contains(x) <==> s.contains(x) && p(x));
    }
}

/// Announcements are listed by their place, the lowest first.
pub proof fn announcements_are_in_their_order(rows: Seq<AnnouncementOut>, i: int, j: int)
    requires
        0 <= i < j < rows.len(),
    ensures
        highest_first(rows)[i].sort_order <= highest_first(rows)[j].sort_order,
{
    ordered_lists_descend(rows, i, j);
}

/// A text is taken where it is neither empty nor too long and holds no control characters but line
/// breaks and tabs. A severity is one of four.
pub proof fn which_texts_are_taken(v: Seq<char>, max: nat, field: Seq<char>, s: Seq<char>)
    ensures
        text_refusal(v, max, field) is None
            <==> 1 <= v.len() <= max
                && forall|i: int|
                    #![trigger v[i]]
                    0 <= i < v.len() ==> !is_control(v[i]) || v[i] == '\n' || v[i] == '\t',
        severity_refusal(s) is None
            <==> (s == "info"@ || s == "success"@ || s == "warning"@ || s == "error"@),
{
    if !has_stray(v) {
        assert forall|i: int| #![trigger v[i]] 0 <= i < v.len() implies !is_control(v[i]) || v[i]
            == '\n' || v[i] == '\t' by {
            assert(!is_stray(v[i]));
        }
    }
}

/// An announcement is taken from whoever manages them, with a text of at most a thousand characters
/// and a severity that there is; a change is held to what it sets.
pub proof fn which_announcements_are_taken(
    permissions: Permissions,
    body: CreateAnnouncement,
    change: UpdateAnnouncement,
    there: bool,
)
    ensures
        create_refusal(permissions, body) is None
            <==> permissions.announcements_manage is None
                && (
                    1 <= trimmed(body.content@).len() <= 1000
                        && forall|i: int|
                            #![trigger trimmed(body.content@)[i]]
                            0 <= i < trimmed(body.content@).len()
                                ==> !is_control(trimmed(body.content@)[i])
                                    || trimmed(body.content@)[i] == '\n'
                                    || trimmed(body.content@)[i] == '\t'
                )
                && (
                    body.severity@ == "info"@
                        || body.severity@ == "success"@
                        || body.severity@ == "warning"@
                        || body.severity@ == "error"@
                ),
        update_refusal(permissions, change, there) is None
            <==> permissions.announcements_manage is None
                && there
                && (
                    change.content matches Some(c)
                        ==> (
                            1 <= trimmed(c@).len() <= 1000
                                && forall|i: int|
                                    #![trigger trimmed(c@)[i]]
                                    0 <= i < trimmed(c@).len()
                                        ==> !is_control(trimmed(c@)[i])
                                            || trimmed(c@)[i] == '\n'
                                            || trimmed(c@)[i] == '\t'
                        )
                )
                && (
                    change.severity matches Some(s)
                        ==> (
                            s@ == "info"@ || s@ == "success"@ || s@ == "warning"@ || s@ == "error"@
                        )
                ),
{
    which_texts_are_taken(trimmed(body.content@), 1000, "content"@, body.severity@);
    if let Some(c) = change.content {
        which_texts_are_taken(trimmed(c@), 1000, "content"@, body.severity@);
    }
}

/// A greeting that is switched on needs a title and a text; one that is switched off needs neither.
/// It is shown where it is on and has both.
pub proof fn which_greetings_are_taken(permissions: Permissions, body: SetWelcome, w: WelcomeOut)
    ensures
        welcome_refusal(permissions, body) is None
            <==> permissions.announcements_manage is None
                && (
                    body.enabled
                        ==> (
                            1 <= trimmed(body.title@).len() <= 200
                                && forall|i: int|
                                    #![trigger trimmed(body.title@)[i]]
                                    0 <= i < trimmed(body.title@).len()
                                        ==> !is_control(trimmed(body.title@)[i])
                                            || trimmed(body.title@)[i] == '\n'
                                            || trimmed(body.title@)[i] == '\t'
                        )
                            && (
                                1 <= trimmed(body.body@).len() <= 4000
                                    && forall|i: int|
                                        #![trigger trimmed(body.body@)[i]]
                                        0 <= i < trimmed(body.body@).len()
                                            ==> !is_control(trimmed(body.body@)[i])
                                                || trimmed(body.body@)[i] == '\n'
                                                || trimmed(body.body@)[i] == '\t'
                            )
                ),
        greets(w) <==> w.enabled && trimmed(w.title@).len() > 0 && trimmed(w.body@).len() > 0,
{
    which_texts_are_taken(trimmed(body.title@), 200, "title"@, "info"@);
    which_texts_are_taken(trimmed(body.body@), 4000, "body"@, "info"@);
}

/// What stands in `severity_doc` under each name; there is no other name in it.
pub proof fn what_severity_doc_holds(severity: Seq<char>)
    ensures
        member_at(severity_doc(severity), "severity"@) == Some(Json::Text(severity)),
        forall|name: Seq<char>|
            #[trigger] member_at(severity_doc(severity), name) is Some ==> name == "severity"@,
{
}

/// Of several things that are wrong, `text_refusal` tells the first.
pub proof fn text_refusal_tells_the_first_thing(v: Seq<char>, max: nat, field: Seq<char>)
    ensures
        v.len() == 0
            ==> text_refusal(v, max, field)
                == Some(Refusal::Validation(field + " must not be empty"@)),
        !(v.len() == 0) && v.len() > max
            ==> text_refusal(v, max, field)
                == Some(Refusal::Validation(field + " must be ≤ "@ + decimal(max) + " characters"@)),
        !(v.len() == 0) && !(v.len() > max) && has_stray(v)
            ==> text_refusal(v, max, field)
                == Some(Refusal::Validation(field + " contains control characters"@)),
        !(v.len() == 0) && !(v.len() > max) && !has_stray(v) ==> text_refusal(v, max, field) is None,
{
}

/// Of several things that are wrong, `severity_refusal` tells the first.
pub proof fn severity_refusal_tells_the_first_thing(s: Seq<char>)
    ensures
        is_severity(s) ==> severity_refusal(s) is None,
        !is_severity(s)
            ==> severity_refusal(s)
                == Some(Refusal::Validation("severity must be info|success|warning|error"@)),
{
}

/// Of several things that are wrong, `create_refusal` tells the first.
pub proof fn create_refusal_tells_the_first_thing(
    permissions: Permissions,
    body: CreateAnnouncement,
)
    ensures
        permissions.announcements_manage is Some
            ==> create_refusal(permissions, body) == refusal_in(permissions.announcements_manage),
        !(permissions.announcements_manage is Some)
            && text_refusal(trimmed(body.content@), CONTENT_MAX as nat, "content"@) is Some
            ==> create_refusal(permissions, body)
                == text_refusal(trimmed(body.content@), CONTENT_MAX as nat, "content"@),
        !(permissions.announcements_manage is Some)
            && !(text_refusal(trimmed(body.content@), CONTENT_MAX as nat, "content"@) is Some)
            ==> create_refusal(permissions, body) == severity_refusal(body.severity@),
{
}

/// Of several things that are wrong, `update_refusal` tells the first.
pub proof fn update_refusal_tells_the_first_thing(
    permissions: Permissions,
    body: UpdateAnnouncement,
    exists_already: bool,
)
    ensures
        permissions.announcements_manage is Some
            ==> update_refusal(permissions, body, exists_already)
                == refusal_in(permissions.announcements_manage),
        !(permissions.announcements_manage is Some)
            && (
                body.content matches Some(c)
                    && text_refusal(trimmed(c@), CONTENT_MAX as nat, "content"@) is Some
            )
            ==> update_refusal(permissions, body, exists_already)
                == text_refusal(trimmed(body.content->0@), CONTENT_MAX as nat, "content"@),
        !(permissions.announcements_manage is Some)
            && !(
                body.content matches Some(c)
                    && text_refusal(trimmed(c@), CONTENT_MAX as nat, "content"@) is Some
            )
            && (body.severity matches Some(s) && severity_refusal(s@) is Some)
            ==> update_refusal(permissions, body, exists_already)
                == severity_refusal(body.severity->0@),
        !(permissions.announcements_manage is Some)
            && !(
                body.content matches Some(c)
                    && text_refusal(trimmed(c@), CONTENT_MAX as nat, "content"@) is Some
            )
            && !(body.severity matches Some(s) && severity_refusal(s@) is Some)
            && !exists_already
            ==> update_refusal(permissions, body, exists_already)
                == Some(Refusal::Validation("no announcement with that id"@)),
        !(permissions.announcements_manage is Some)
            && !(
                body.content matches Some(c)
                    && text_refusal(trimmed(c@), CONTENT_MAX as nat, "content"@) is Some
            )
            && !(body.severity matches Some(s) && severity_refusal(s@) is Some)
            && exists_already
            ==> update_refusal(permissions, body, exists_already) is None,
{
}

/// Of several things that are wrong, `welcome_refusal` tells the first.
pub proof fn welcome_refusal_tells_the_first_thing(permissions: Permissions, body: SetWelcome)
    ensures
        permissions.announcements_manage is Some
            ==> welcome_refusal(permissions, body) == refusal_in(permissions.announcements_manage),
        !(permissions.announcements_manage is Some) && !body.enabled
            ==> welcome_refusal(permissions, body) is None,
        !(permissions.announcements_manage is Some)
            && body.enabled
            && text_refusal(trimmed(body.title@), WELCOME_TITLE_MAX as nat, "title"@) is Some
            ==> welcome_refusal(permissions, body)
                == text_refusal(trimmed(body.title@), WELCOME_TITLE_MAX as nat, "title"@),
        !(permissions.announcements_manage is Some)
            && body.enabled
            && !(text_refusal(trimmed(body.title@), WELCOME_TITLE_MAX as nat, "title"@) is Some)
            ==> welcome_refusal(permissions, body)
                == text_refusal(trimmed(body.body@), WELCOME_BODY_MAX as nat, "body"@),
{
}

} // verus!
