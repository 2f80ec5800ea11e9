//! Generated artefacts: who may read them, what they can be turned into, and under
//! what name they are downloaded.

use vstd::prelude::*;
use vstd::string::*;

use crate::lists::selects_last;
use crate::grants::{refusal_in, ProjectGrants};
use crate::error::{forbidden, refusal, validation, AppError, Refusal};
use crate::ids::{id_text, id_to_text};
use crate::json::{empty_object, id_value, json_in, jsons, member_at, put, text_value, Json};
use crate::order::{above, by_time, highest_first, newest_first, ordered_lists_are_whole, ordered_lists_hold_the_same, Dated, Ranked};
use crate::principal::{same_id, AuthContext, Id};
use crate::text::{blank, joined3, same, trimmed, underscore, underscored};
use crate::trail::{entry_by, note, record_by, AuditEvent};

verus! {

/// A chat, as far as access to it goes.
#[derive(Clone, Copy, Debug, PartialEq, Eq, Structural)]
pub struct ChatRow {
    pub owner_user_id: Id,
    pub project_id: Option<Id>,
}

/// The project whose grants decide whether the caller reads a chat: none where the
/// chat is the caller's own or the caller administers the platform.
pub open spec fn deciding_project(ctx: AuthContext, chat: ChatRow) -> Option<Id> {
    if ctx.is(chat.owner_user_id) || ctx.admin {
        None
    } else {
        chat.project_id
    }
}

pub fn project_to_ask(ctx: &AuthContext, chat: &ChatRow) -> (r: Option<Id>)
    ensures
        r == deciding_project(*ctx, *chat),
{
    if ctx.is_user(chat.owner_user_id) || ctx.is_admin() {
        None
    } else {
        chat.project_id
    }
}

/// Why the caller may not read a chat. `project_refusal` is what the project's
/// grants have against reading it.
pub open spec fn chat_read_refusal(
    ctx: AuthContext,
    chat: Option<ChatRow>,
    project_refusal: Option<Refusal>,
) -> Option<Refusal> {
    match chat {
        None => Some(Refusal::Validation("chat not found"@)),
        Some(c) => if ctx.is(c.owner_user_id) || ctx.admin {
            None
        } else if c.project_id is Some {
            project_refusal
        } else {
            Some(Refusal::Forbidden("not permitted to access this chat"@))
        },
    }
}

/// Read access to a chat: its owner, an administrator, or a reader of its project.
pub fn require_chat_read(
    ctx: &AuthContext,
    chat: Option<ChatRow>,
    grants: ProjectGrants,
) -> (r: Result<(), AppError>)
    ensures
        refusal(r) == chat_read_refusal(*ctx, chat, refusal_in(grants.read)),
{
    let c = match chat {
        Some(c) => c,
        None => {
            return Err(validation("chat not found"));
        },
    };
    if ctx.is_user(c.owner_user_id) || ctx.is_admin() {
        return Ok(());
    }
    if c.project_id.is_some() {
        return match grants.read {
            Some(e) => Err(e),
            None => Ok(()),
        };
    }
    Err(forbidden("not permitted to access this chat"))
}

/// An artefact as it is listed.
pub struct ArtefactOut {
    pub id: Id,
    pub kind: String,
    pub title: String,
    pub mime: String,
    pub message_id: Option<Id>,
    pub chat_mode: Option<String>,
}

/// What to convert an artefact to.
pub struct ConvertIn {
    pub to: String,
}

/// A stored artefact and the mode of its chat.
pub struct ArtefactRow {
    pub chat_id: Id,
    pub message_id: Option<Id>,
    pub title: String,
    pub kind: String,
    pub mode: String,
}

/// An artefact of a chat.
pub struct ArtefactEntry {
    pub chat_id: Id,
    pub out: ArtefactOut,
}

/// The same artefact was made before: of the same message, in the same chat, under the same title,
/// and of the same kind.
pub open spec fn is_same(e: ArtefactEntry, a: ArtefactRow, kind: Seq<char>) -> bool {
    e.chat_id == a.chat_id && e.out.title@ == a.title@ && e.out.kind@ == kind && e.out.message_id
        == a.message_id
}

/// The first of the artefacts that is the same.
pub open spec fn first_same(entries: Seq<ArtefactEntry>, a: ArtefactRow, kind: Seq<char>) -> Option<
    ArtefactOut,
>
    decreases entries.len(),
{
    if entries.len() == 0 {
        None
    } else {
        match first_same(entries.drop_last(), a, kind) {
            Some(e) => Some(e),
            None => if is_same(entries.last(), a, kind) {
                Some(ArtefactOut { chat_mode: None, ..entries.last().out })
            } else {
                None
            },
        }
    }
}

proof fn first_same_stays(entries: Seq<ArtefactEntry>, a: ArtefactRow, kind: Seq<char>, i: int)
    requires
        0 <= i <= entries.len(),
        first_same(entries.take(i), a, kind) is Some,
    ensures
        first_same(entries, a, kind) == first_same(entries.take(i), a, kind),
    decreases entries.len() - i,
{
    if i < entries.len() {
        assert(entries.take(i + 1).drop_last() == entries.take(i));
        first_same_stays(entries, a, kind, i + 1);
    } else {
        assert(entries.take(i) == entries);
    }
}

fn find_same(entries: Vec<ArtefactEntry>, a: &ArtefactRow, kind: &str) -> (r: Option<ArtefactOut>)
    ensures
        r == first_same(entries@, *a, kind@),
{
    let n: usize = entries.len();
    let mut rest = entries;
    let mut i: usize = 0;
    assert(entries@.take(0) == Seq::<ArtefactEntry>::empty());
    while i < n
        invariant
            n == entries@.len(),
            i <= n,
            rest@ == entries@.skip(i as int),
            first_same(entries@.take(i as int), *a, kind@) is None,
        decreases n - i,
    {
        let e = rest.remove(0);
        assert(e == entries@[i as int]);
        assert(rest@ =~= entries@.skip(i as int + 1));
        assert(entries@.take(i as int + 1).drop_last() == entries@.take(i as int));
        if e.chat_id == a.chat_id && same(e.out.title.as_str(), a.title.as_str()) && same(
            e.out.kind.as_str(),
            kind,
        ) && same_id(e.out.message_id, a.message_id) {
            proof {
                first_same_stays(entries@, *a, kind@, i as int + 1);
            }
            return Some(
                ArtefactOut {
                    id: e.out.id,
                    kind: e.out.kind,
                    title: e.out.title,
                    mime: e.out.mime,
                    message_id: e.out.message_id,
                    chat_mode: None,
                },
            );
        }
        i = i + 1;
    }
    assert(entries@.take(entries@.len() as int) == entries@);
    None
}

/// What becomes of a request to make another artefact out of one.
pub enum Derived {
    /// The same was made before: it is returned as it is.
    Existing(ArtefactOut),
    /// It is to be made, and stored under this relative path.
    Make { rel_path: String },
}

/// Where a chat's artefact is stored: in a directory of the chat, under its own
/// identifier.
pub open spec fn artefact_path(chat_id: Id, id: Id, kind: Seq<char>) -> Seq<char> {
    id_text(chat_id) + "/"@ + id_text(id) + "."@ + kind
}

fn path_of(chat_id: Id, id: Id, kind: &str) -> (r: String)
    ensures
        r@ == artefact_path(chat_id, id, kind@),
{
    let mut out = id_to_text(chat_id);
    out.append("/");
    let own = id_to_text(id);
    out.append(own.as_str());
    out.append(".");
    out.append(kind);
    out
}

/// Why an artefact is not converted: an unknown target, an artefact that is not
/// there, a chat that may not be read, or one that is not Markdown; in this order.
pub open spec fn convert_refusal(
    ctx: AuthContext,
    to: Seq<char>,
    artefact: Option<ArtefactRow>,
    chat: Option<ChatRow>,
    project_refusal: Option<Refusal>,
) -> Option<Refusal> {
    if to != "docx"@ && to != "pdf"@ {
        Some(Refusal::Validation("cannot convert to '"@ + to + "' — docx or pdf only"@))
    } else {
        match artefact {
            None => Some(Refusal::Validation("artefact not found"@)),
            Some(a) => match chat_read_refusal(ctx, chat, project_refusal) {
                Some(e) => Some(e),
                None => if a.kind@ != "md"@ {
                    Some(Refusal::Validation("only markdown artefacts can be converted"@))
                } else {
                    None
                },
            },
        }
    }
}

/// What a derived artefact amounts to.
pub open spec fn derived_as(
    r: Derived,
    earlier: Seq<ArtefactEntry>,
    a: ArtefactRow,
    new_id: Id,
    kind: Seq<char>,
) -> bool {
    match first_same(earlier, a, kind) {
        Some(e) => r == Derived::Existing(e),
        None => r matches Derived::Make { rel_path } && rel_path@ == artefact_path(
            a.chat_id,
            new_id,
            kind,
        ),
    }
}

/// Converts a Markdown artefact to a document. The same conversion made earlier is
/// returned rather than made again; `earlier` are the artefacts there are, of
/// which the newest counts.
pub fn convert_artefact(
    ctx: &AuthContext,
    body: &ConvertIn,
    artefact: &Option<ArtefactRow>,
    chat: Option<ChatRow>,
    grants: ProjectGrants,
    earlier: Vec<Dated<ArtefactEntry>>,
    new_id: Id,
) -> (r: Result<Derived, AppError>)
    ensures
        refusal(r) == convert_refusal(
            *ctx,
            body.to@,
            *artefact,
            chat,
            refusal_in(grants.read),
        ),
        r matches Ok(d) ==> artefact is Some && derived_as(
            d,
            newest_first(earlier@),
            artefact->0,
            new_id,
            body.to@,
        ),
{
    let to = body.to.as_str();
    if !same(to, "docx") && !same(to, "pdf") {
        return Err(
            AppError::Validation(joined3("cannot convert to '", to, "' — docx or pdf only")),
        );
    }
    let a = match artefact {
        Some(a) => a,
        None => {
            return Err(validation("artefact not found"));
        },
    };
    match require_chat_read(ctx, chat, grants) {
        Ok(_) => {},
        Err(e) => {
            return Err(e);
        },
    }
    if !same(a.kind.as_str(), "md") {
        return Err(validation("only markdown artefacts can be converted"));
    }
    let earlier = by_time(earlier);
    match find_same(earlier, a, to) {
        Some(e) => Ok(Derived::Existing(e)),
        None => Ok(Derived::Make { rel_path: path_of(a.chat_id, new_id, to) }),
    }
}

/// Why no page is made of an artefact: it is not there, its chat may not be read,
/// it is not Markdown, or it is no research report; in this order.
pub open spec fn page_refusal(
    ctx: AuthContext,
    artefact: Option<ArtefactRow>,
    chat: Option<ChatRow>,
    project_refusal: Option<Refusal>,
) -> Option<Refusal> {
    match artefact {
        None => Some(Refusal::Validation("artefact not found"@)),
        Some(a) => match chat_read_refusal(ctx, chat, project_refusal) {
            Some(e) => Some(e),
            None => if a.kind@ != "md"@ {
                Some(Refusal::Validation("only markdown reports can become a page"@))
            } else if a.mode@ != "research"@ {
                Some(Refusal::Validation("Create page is available on Deep Research reports"@))
            } else {
                None
            },
        },
    }
}

/// Makes a page of a research report. The same page made earlier is returned rather
/// than made again; `earlier` are the artefacts there are, of
/// which the newest counts.
pub fn create_page(
    ctx: &AuthContext,
    artefact: &Option<ArtefactRow>,
    chat: Option<ChatRow>,
    grants: ProjectGrants,
    earlier: Vec<Dated<ArtefactEntry>>,
    new_id: Id,
) -> (r: Result<Derived, AppError>)
    ensures
        refusal(r) == page_refusal(*ctx, *artefact, chat, refusal_in(grants.read)),
        r matches Ok(d) ==> artefact is Some && derived_as(
            d,
            newest_first(earlier@),
            artefact->0,
            new_id,
            "html"@,
        ),
{
    let a = match artefact {
        Some(a) => a,
        None => {
            return Err(validation("artefact not found"));
        },
    };
    match require_chat_read(ctx, chat, grants) {
        Ok(_) => {},
        Err(e) => {
            return Err(e);
        },
    }
    if !same(a.kind.as_str(), "md") {
        return Err(validation("only markdown reports can become a page"));
    }
    if !same(a.mode.as_str(), "research") {
        return Err(validation("Create page is available on Deep Research reports"));
    }
    let earlier = by_time(earlier);
    match find_same(earlier, a, "html") {
        Some(e) => Ok(Derived::Existing(e)),
        None => Ok(Derived::Make { rel_path: path_of(a.chat_id, new_id, "html") }),
    }
}

/// What making a page needs beside the report: the skill that writes pages, and
/// something written by it.
pub fn page_material(skill: Option<String>) -> (r: Result<String, AppError>)
    ensures
        match skill {
            Some(s) => r == Ok::<String, AppError>(s),
            None => refusal(r) == Some(
                Refusal::Unavailable("the report-to-page skill is not installed"@),
            ),
        },
{
    match skill {
        Some(s) => Ok(s),
        None => Err(AppError::Unavailable("the report-to-page skill is not installed".to_owned())),
    }
}

/// A page that was written has something in it.
pub fn check_page(html: &str) -> (r: Result<(), AppError>)
    ensures
        refusal(r) == (if trimmed(html@).len() == 0 {
            Some(Refusal::Other("report-to-page produced no HTML"@))
        } else {
            None
        }),
{
    if blank(html) {
        Err(AppError::Other("report-to-page produced no HTML".to_owned()))
    } else {
        Ok(())
    }
}

/// The artefact that was just made of another.
pub fn made_artefact(id: Id, kind: &str, from: ArtefactRow, mime: String) -> (r: ArtefactOut)
    ensures
        r.id == id,
        r.kind@ == kind@,
        r.title == from.title,
        r.mime == mime,
        r.message_id == from.message_id,
        r.chat_mode is None,
{
    ArtefactOut {
        id,
        kind: kind.to_owned(),
        title: from.title,
        mime,
        message_id: from.message_id,
        chat_mode: None,
    }
}

proof fn first_same_is_there(entries: Seq<ArtefactEntry>, a: ArtefactRow, kind: Seq<char>) -> (m: int)
    requires
        exists|i: int| 0 <= i < entries.len() && is_same(#[trigger] entries[i], a, kind),
    ensures
        0 <= m < entries.len(),
        is_same(entries[m], a, kind),
        first_same(entries, a, kind) == Some(ArtefactOut { chat_mode: None, ..entries[m].out }),
        forall|i: int| 0 <= i < m ==> !is_same(#[trigger] entries[i], a, kind),
    decreases entries.len(),
{
    let front = entries.drop_last();
    if exists|i: int| 0 <= i < front.len() && is_same(#[trigger] front[i], a, kind) {
        let m = first_same_is_there(front, a, kind);
        assert(entries[m] == front[m]);
        assert forall|i: int| 0 <= i < m implies !is_same(#[trigger] entries[i], a, kind) by {
            assert(front[i] == entries[i]);
        }
        m
    } else {
        assert forall|i: int| 0 <= i < front.len() implies !is_same(#[trigger] entries[i], a, kind) by {
            assert(front[i] == entries[i]);
        }
        none_is_first(front, a, kind);
        entries.len() - 1
    }
}

proof fn none_is_first(entries: Seq<ArtefactEntry>, a: ArtefactRow, kind: Seq<char>)
    requires
        forall|i: int| 0 <= i < entries.len() ==> !is_same(#[trigger] entries[i], a, kind),
    ensures
        first_same(entries, a, kind) is None,
    decreases entries.len(),
{
    if entries.len() > 0 {
        let front = entries.drop_last();
        assert forall|i: int| 0 <= i < front.len() implies !is_same(#[trigger] front[i], a, kind) by {
            assert(entries[i] == front[i]);
        }
        none_is_first(front, a, kind);
        assert(!is_same(entries[entries.len() - 1], a, kind));
    }
}

/// What was made once is not made again: with an artefact among the earlier ones that is the
/// same, the request makes nothing and gives back the newest that is the same.
pub proof fn nothing_is_made_twice(
    earlier: Seq<Dated<ArtefactEntry>>,
    a: ArtefactRow,
    kind: Seq<char>,
    i: int,
) -> (newest: int)
    requires
        0 <= i < earlier.len(),
        is_same(earlier[i].item, a, kind),
    ensures
        0 <= newest < earlier.len(),
        is_same(earlier[newest].item, a, kind),
        first_same(newest_first(earlier), a, kind) == Some(
            ArtefactOut { chat_mode: None, ..earlier[newest].item.out },
        ),
        forall|k: int|
            0 <= k < earlier.len() && is_same((#[trigger] earlier[k]).item, a, kind)
                ==> earlier[k].at <= earlier[newest].at,
{
    let ordered = highest_first(earlier);
    let items = newest_first(earlier);
    ordered_lists_are_whole(earlier);
    ordered_lists_hold_the_same(earlier, earlier[i]);
    assert(earlier.contains(earlier[i]));
    let at = ordered.index_of(earlier[i]);
    assert(is_same(items[at], a, kind));
    let m = first_same_is_there(items, a, kind);
    ordered_lists_hold_the_same(earlier, ordered[m]);
    assert(ordered.contains(ordered[m]));
    let newest = earlier.index_of(ordered[m]);
    assert forall|k: int|
        0 <= k < earlier.len() && is_same((#[trigger] earlier[k]).item, a, kind) implies earlier[k].at
        <= earlier[newest].at by {
        ordered_lists_hold_the_same(earlier, earlier[k]);
        assert(earlier.contains(earlier[k]));
        let p = ordered.index_of(earlier[k]);
        assert(items[p] == earlier[k].item);
        assert(p >= m);
        if p > m {
            assert(!above(ordered[p].rank(), ordered[m].rank()));
        }
    }
    newest
}

/// The name under which an artefact is downloaded.
pub open spec fn download_name(title: Seq<char>, kind: Seq<char>) -> Seq<char> {
    underscored(title, true, false) + "."@ + kind
}

/// The disposition header of a downloaded artefact.
pub fn download_artefact(title: &str, kind: &str) -> (r: String)
    ensures
        r@ == "attachment; filename=\""@ + download_name(title@, kind@) + "\""@,
{
    let safe = underscore(title, true, false);
    let name = joined3(safe.as_str(), ".", kind);
    joined3("attachment; filename=\"", name.as_str(), "\"")
}

/// An artefact's title cannot end the quoted name that it is downloaded under, nor
/// lead out of the directory that it is saved in.
pub proof fn download_name_is_plain(title: Seq<char>)
    ensures
        !underscored(title, true, false).contains('"'),
        !underscored(title, true, false).contains('/'),
        !underscored(title, true, false).contains('\\'),
        underscored(title, true, false).len() == title.len(),
{
}

/// What is written down of an artefact made of another: what it was made of, what it was made
/// into, and in which chat.
pub open spec fn converted_doc(from: Id, to: Seq<char>, chat_id: Id) -> Json {
    Json::Object(
        Map::empty().insert("from"@, Json::Text(id_text(from))).insert("to"@, Json::Text(to)).insert(
            "chat_id"@,
            Json::Text(id_text(chat_id)),
        ),
    )
}

pub fn converted_event(ctx: &AuthContext, new_id: Id, from: Id, to: &str, chat_id: Id) -> (e:
    AuditEvent)
    ensures
        e@ == entry_by(*ctx, "artefact.converted"@, "artefact"@, new_id).noting(
            converted_doc(from, to@, chat_id),
        ),
{
    let mut doc = empty_object();
    put(&mut doc, "from", id_value(from));
    put(&mut doc, "to", text_value(to));
    put(&mut doc, "chat_id", id_value(chat_id));
    note(record_by(ctx, "artefact.converted", "artefact", new_id), doc)
}

pub open spec fn page_doc(from: Id, chat_id: Id) -> Json {
    Json::Object(
        Map::empty().insert("from"@, Json::Text(id_text(from))).insert(
            "chat_id"@,
            Json::Text(id_text(chat_id)),
        ),
    )
}

pub fn page_event(ctx: &AuthContext, new_id: Id, from: Id, chat_id: Id) -> (e: AuditEvent)
    ensures
        e@ == entry_by(*ctx, "artefact.page_created"@, "artefact"@, new_id).noting(
            page_doc(from, chat_id),
        ),
{
    let mut doc = empty_object();
    put(&mut doc, "from", id_value(from));
    put(&mut doc, "chat_id", id_value(chat_id));
    note(record_by(ctx, "artefact.page_created", "artefact", new_id), doc)
}

pub fn downloaded_event(ctx: &AuthContext, artefact_id: Id) -> (e: AuditEvent)
    ensures
        e@ == entry_by(*ctx, "artefact.downloaded"@, "artefact"@, artefact_id),
{
    record_by(ctx, "artefact.downloaded", "artefact", artefact_id)
}

/// One turn of a conversation with a model.
pub open spec fn turn_doc(role: Seq<char>, content: Seq<char>) -> Json {
    Json::Object(
        Map::empty().insert("role"@, Json::Text(role)).insert("content"@, Json::Text(content)),
    )
}

fn turn_value(role: &str, content: &str) -> (r: serde_json::Value)
    ensures
        json_in(r) == turn_doc(role@, content@),
{
    let mut doc = empty_object();
    put(&mut doc, "role", text_value(role));
    put(&mut doc, "content", text_value(content));
    doc
}

/// What the model that writes pages is told: the skill as its instructions, and the report.
pub fn page_messages(skill: &str, report: &str) -> (r: Vec<serde_json::Value>)
    ensures
        jsons(r@) == seq![turn_doc("system"@, skill@), turn_doc("user"@, report@)],
{
    let mut out: Vec<serde_json::Value> = Vec::new();
    out.push(turn_value("system", skill));
    out.push(turn_value("user", report));
    assert(jsons(out@) =~= seq![turn_doc("system"@, skill@), turn_doc("user"@, report@)]);
    out
}

/// What was made in a chat, in its order.
pub open spec fn artefacts_of(rows: Seq<ArtefactEntry>, chat_id: Id) -> Seq<ArtefactOut>
    decreases rows.len(),
{
    if rows.len() == 0 {
        Seq::empty()
    } else {
        let before = artefacts_of(rows.drop_last(), chat_id);
        if rows.last().chat_id == chat_id {
            before.push(rows.last().out)
        } else {
            before
        }
    }
}

/// What was made in a chat, for whoever may read it, the newest first.
pub fn list_artefacts(
    ctx: &AuthContext,
    chat: Option<ChatRow>,
    grants: ProjectGrants,
    rows: Vec<Dated<ArtefactEntry>>,
    chat_id: Id,
) -> (r: Result<Vec<ArtefactOut>, AppError>)
    ensures
        refusal(r) == chat_read_refusal(*ctx, chat, refusal_in(grants.read)),
        r matches Ok(v) ==> v@ == artefacts_of(newest_first(rows@), chat_id),
{
    match require_chat_read(ctx, chat, grants) {
        Ok(_) => {},
        Err(e) => {
            return Err(e);
        },
    }
    let rows = by_time(rows);
    let n: usize = rows.len();
    let mut rest = rows;
    let mut out: Vec<ArtefactOut> = Vec::new();
    let mut i: usize = 0;
    assert(rows@.take(0) == Seq::<ArtefactEntry>::empty());
    while i < n
        invariant
            n == rows@.len(),
            i <= n,
            rest@ == rows@.skip(i as int),
            out@ == artefacts_of(rows@.take(i as int), chat_id),
        decreases n - i,
    {
        let row = rest.remove(0);
        assert(row == rows@[i as int]);
        assert(rest@ =~= rows@.skip(i as int + 1));
        assert(rows@.take(i as int + 1).drop_last() == rows@.take(i as int));
        if row.chat_id == chat_id {
            out.push(row.out);
        }
        i = i + 1;
    }
    assert(rows@.take(rows@.len() as int) == rows@);
    Ok(out)
}

/// What was made in a chat is listed with it, all of it and nothing else.
pub proof fn artefacts_are_listed_with_their_chat(chat_id: Id, s: Seq<ArtefactEntry>)
    ensures
        artefacts_of(s, chat_id)
            == s.filter(
                |x: ArtefactEntry| x.chat_id == chat_id
            ).map_values(|x: ArtefactEntry| x.out),
    decreases s.len(),
{
    let p = |x: ArtefactEntry| x.chat_id == chat_id;
    selects_last(s, p);
    if s.len() > 0 {
        artefacts_are_listed_with_their_chat(chat_id, s.drop_last());
    }
    assert(artefacts_of(s, chat_id) =~= s.filter(p).map_values(|x: ArtefactEntry| x.out));
}

/// A chat and what was made in it are read by its owner, by administrators and by those who read its
/// project. Markdown alone is converted, to two formats; a page is made of research alone.
pub proof fn who_reads_artefacts(
    ctx: AuthContext,
    to: Seq<char>,
    artefact: Option<ArtefactRow>,
    chat: Option<ChatRow>,
    project_refusal: Option<Refusal>,
)
    ensures
        chat_read_refusal(ctx, chat, project_refusal) is None
            <==> (
                chat matches Some(c)
                    && (
                        ctx.user_id == Some(c.owner_user_id)
                            || ctx.admin
                            || (c.project_id is Some && project_refusal is None)
                    )
            ),
        convert_refusal(ctx, to, artefact, chat, project_refusal) is None
            <==> (to == "docx"@ || to == "pdf"@)
                && (artefact matches Some(a) && a.kind@ == "md"@)
                && (
                    chat matches Some(c)
                        && (
                            ctx.user_id == Some(c.owner_user_id)
                                || ctx.admin
                                || (c.project_id is Some && project_refusal is None)
                        )
                ),
        page_refusal(ctx, artefact, chat, project_refusal) is None
            <==> (artefact matches Some(a) && a.kind@ == "md"@ && a.mode@ == "research"@)
                && (
                    chat matches Some(c)
                        && (
                            ctx.user_id == Some(c.owner_user_id)
                                || ctx.admin
                                || (c.project_id is Some && project_refusal is None)
                        )
                ),
{
}

/// What stands in `converted_doc` under each name; there is no other name in it.
pub proof fn what_converted_doc_holds(from: Id, to: Seq<char>, chat_id: Id)
    ensures
        member_at(converted_doc(from, to, chat_id), "from"@) == Some(Json::Text(id_text(from))),
        member_at(converted_doc(from, to, chat_id), "to"@) == Some(Json::Text(to)),
        member_at(converted_doc(from, to, chat_id), "chat_id"@)
            == Some(Json::Text(id_text(chat_id))),
        forall|name: Seq<char>|
            #[trigger] member_at(converted_doc(from, to, chat_id), name) is Some
                ==> name == "from"@ || name == "to"@ || name == "chat_id"@,
{
    reveal_strlit("from");
    reveal_strlit("to");
    reveal_strlit("chat_id");
    assert("from"@.len() != "to"@.len());
    assert("from"@.len() != "chat_id"@.len());
    assert("to"@.len() != "chat_id"@.len());
}

/// What stands in `page_doc` under each name; there is no other name in it.
pub proof fn what_page_doc_holds(from: Id, chat_id: Id)
    ensures
        member_at(page_doc(from, chat_id), "from"@) == Some(Json::Text(id_text(from))),
        member_at(page_doc(from, chat_id), "chat_id"@) == Some(Json::Text(id_text(chat_id))),
        forall|name: Seq<char>|
            #[trigger] member_at(page_doc(from, chat_id), name) is Some
                ==> name == "from"@ || name == "chat_id"@,
{
    reveal_strlit("from");
    reveal_strlit("chat_id");
    assert("from"@.len() != "chat_id"@.len());
}

/// What stands in `turn_doc` under each name; there is no other name in it.
pub proof fn what_turn_doc_holds(role: Seq<char>, content: Seq<char>)
    ensures
        member_at(turn_doc(role, content), "role"@) == Some(Json::Text(role)),
        member_at(turn_doc(role, content), "content"@) == Some(Json::Text(content)),
        forall|name: Seq<char>|
            #[trigger] member_at(turn_doc(role, content), name) is Some
                ==> name == "role"@ || name == "content"@,
{
    reveal_strlit("role");
    reveal_strlit("content");
    assert("role"@.len() != "content"@.len());
}

/// What was made of an artefact once is not made again; else it is kept under the chat's and its own
/// name. The project decides on a chat for those it does not belong to.
pub proof fn derived_files_are_found_again(
    ctx: AuthContext,
    chat: ChatRow,
    r: Derived,
    earlier: Seq<ArtefactEntry>,
    a: ArtefactRow,
    new_id: Id,
    kind: Seq<char>,
    title: Seq<char>,
)
    ensures
        ctx.admin || ctx.user_id == Some(chat.owner_user_id) ==> deciding_project(ctx, chat) is None,
        !ctx.admin && ctx.user_id != Some(chat.owner_user_id)
            ==> deciding_project(ctx, chat) == chat.project_id,
        derived_as(r, earlier, a, new_id, kind) && first_same(earlier, a, kind) is Some
            ==> r == Derived::Existing(first_same(earlier, a, kind)->0),
        derived_as(r, earlier, a, new_id, kind) && first_same(earlier, a, kind) is None
            ==> (
                r matches Derived::Make { rel_path }
                    && rel_path@ == id_text(a.chat_id) + "/"@ + id_text(new_id) + "."@ + kind
            ),
        download_name(title, kind) == underscored(title, true, false) + "."@ + kind,
{
}

/// What was made of an artefact before is the first with its chat, its title, its message and the kind
/// that is asked for.
pub proof fn the_first_derived_counts(
    a: ArtefactRow,
    kind: Seq<char>,
    s: Seq<ArtefactEntry>,
) -> (at: int)
    ensures
        match first_same(s, a, kind) {
            Some(v) => 0 <= at < s.len()
                && (
                    s[at].chat_id == a.chat_id
                        && s[at].out.title@ == a.title@
                        && s[at].out.kind@ == kind
                        && s[at].out.message_id == a.message_id
                )
                && v == (ArtefactOut { chat_mode: None, ..s[at].out })
                && forall|k: int|
                #![trigger s[k]]
                0 <= k < at
                    ==> !(
                        s[k].chat_id == a.chat_id
                            && s[k].out.title@ == a.title@
                            && s[k].out.kind@ == kind
                            && s[k].out.message_id == a.message_id
                    ),
            None => forall|k: int| #![trigger s[k]] 0 <= k < s.len() ==> !(
                s[k].chat_id == a.chat_id
                    && s[k].out.title@ == a.title@
                    && s[k].out.kind@ == kind
                    && s[k].out.message_id == a.message_id
            ),
        },
    decreases s.len(),
{
    if s.len() == 0 {
        0
    } else {
        let front = s.drop_last();
        let at = the_first_derived_counts(a, kind, front);
        assert forall|k: int| #![trigger s[k]] 0 <= k < front.len() implies s[k] == front[k] by {}
        if first_same(front, a, kind) is Some {
            assert(s[at] == front[at]);
            at
        } else {
            s.len() - 1
        }
    }
}

/// A chat that is not there is not found; on one in a project the project decides, and any other of
/// somebody else is forbidden.
pub proof fn why_artefacts_are_refused(
    ctx: AuthContext,
    c: ChatRow,
    project_refusal: Option<Refusal>,
)
    ensures
        chat_read_refusal(ctx, None, project_refusal)
            == Some(Refusal::Validation("chat not found"@)),
        !ctx.admin && ctx.user_id != Some(c.owner_user_id) && c.project_id is Some
            ==> chat_read_refusal(ctx, Some(c), project_refusal) == project_refusal,
        !ctx.admin && ctx.user_id != Some(c.owner_user_id) && c.project_id is None
            ==> chat_read_refusal(ctx, Some(c), project_refusal)
                == Some(Refusal::Forbidden("not permitted to access this chat"@)),
{
}

} // verus!
