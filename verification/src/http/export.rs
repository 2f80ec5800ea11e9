//! Exports: conversations for those who read them, and projects for administrators. What
//! is exported is text; embeddings never leave.

use vstd::prelude::*;
use vstd::string::*;
use vstd::utf8::encode_utf8;

use crate::lists::selects_last;
use crate::clock::{spell, spelled, Instant};
use crate::error::{forbidden, refusal, told, validation, AppError, Refusal};
use crate::grants::refusal_in;
use crate::http::messaging::among;
use crate::ids::{id_text, id_to_text};
use crate::json::{
    array_value,
    count_value,
    empty_object,
    flag_value,
    id_or_null,
    id_or_null_value,
    id_value,
    is_plain,
    is_reserved,
    json_in,
    jsons,
    member_at,
    number_value,
    parsed,
    pretty_json,
    put,
    text_or_null,
    text_or_null_value,
    text_value,
    write_document,
    Json,
};
use crate::order::{highest_first, ordered_lists_descend, rank_list, Ranked};
use crate::principal::{AuthContext, Id};
use crate::text::{
    cut_at_last,
    cut_last,
    cuts_at_last_where_marked,
    joined,
    joined3,
    opt_text,
    same,
    signed_decimal,
    signed_number,
    underscore,
    underscored,
};
use crate::trail::{entry, note, record, ActorRole, AuditEvent};

verus! {

/// What is written down of an export: what kind it is.
pub open spec fn kind_doc(kind: Seq<char>) -> Json {
    Json::Object(Map::empty().insert("kind"@, Json::Text(kind)))
}

fn kind_value(kind: &str) -> (r: serde_json::Value)
    ensures
        json_in(r) == kind_doc(kind@),
{
    let mut doc = empty_object();
    put(&mut doc, "kind", text_value(kind));
    doc
}

/// The entry of a step that somebody took in an export.
pub fn audit_export(ctx: &AuthContext, phase: &str, kind: &str, id: Option<Id>) -> (e: AuditEvent)
    ensures
        e@ == entry(
            "export."@ + phase@,
            ActorRole::Platform(ctx.role),
            ctx.user_id,
            "export"@,
            id,
        ).noting(kind_doc(kind@)),
{
    let action = joined("export.", phase);
    let role = ActorRole::Platform(ctx.role);
    note(record(action.as_str(), role, ctx.user_id, "export", id), kind_value(kind))
}

/// The entry of a step that the platform took in an export, for whoever asked for it.
pub fn audit_export_sys(phase: &str, kind: &str, id: Id, actor: Id) -> (e: AuditEvent)
    ensures
        e@ == entry(
            "export."@ + phase@,
            ActorRole::System,
            Some(actor),
            "export"@,
            Some(id),
        ).noting(kind_doc(kind@)),
{
    let action = joined("export.", phase);
    note(record(action.as_str(), ActorRole::System, Some(actor), "export", Some(id)), kind_value(kind))
}

pub open spec fn admin_refusal(ctx: AuthContext) -> Option<Refusal> {
    if ctx.admin || ctx.break_glass {
        None
    } else {
        Some(Refusal::Forbidden("admin only"@))
    }
}

/// An administrator, or the holder of an emergency grant.
pub fn require_admin(ctx: &AuthContext) -> (r: Result<(), AppError>)
    ensures
        refusal(r) == admin_refusal(*ctx),
{
    if ctx.is_admin() || ctx.break_glass {
        Ok(())
    } else {
        Err(forbidden("admin only"))
    }
}

/// A file that was made: what is in it, what it is, and what it is called.
pub struct ExportFile {
    pub bytes: Vec<u8>,
    pub mime: String,
    pub filename: String,
}

/// The makers of further kinds of exports, by kind.
pub struct ExportRegistry<H> {
    entries: Vec<(String, H)>,
}

impl<H> View for ExportRegistry<H> {
    type V = Map<Seq<char>, H>;

    closed spec fn view(&self) -> Map<Seq<char>, H> {
        made_by(self.entries@)
    }
}

/// The map of kinds to makers; a later entry replaces an earlier one.
pub open spec fn made_by<H>(entries: Seq<(String, H)>) -> Map<Seq<char>, H>
    decreases entries.len(),
{
    if entries.len() == 0 {
        Map::empty()
    } else {
        made_by(entries.drop_last()).insert(entries.last().0@, entries.last().1)
    }
}

impl<H> Default for ExportRegistry<H> {
    /// A registry without further kinds.
    fn default() -> (r: ExportRegistry<H>)
        ensures
            r@ == Map::<Seq<char>, H>::empty(),
    {
        ExportRegistry { entries: Vec::new() }
    }
}

impl<H> ExportRegistry<H> {
    /// Registers the maker of a kind, in place of the one it had.
    pub fn register(&mut self, kind: &str, handler: H)
        ensures
            final(self)@ == old(self)@.insert(kind@, handler),
    {
        let ghost before = self.entries@;
        self.entries.push((kind.to_owned(), handler));
        assert(self.entries@.drop_last() =~= before);
    }

    /// The maker of a kind.
    pub fn get(&self, kind: &str) -> (r: Option<&H>)
        ensures
            match r {
                Some(h) => self@.dom().contains(kind@) && self@[kind@] == *h,
                None => !self@.dom().contains(kind@),
            },
    {
        let mut i: usize = self.entries.len();
        assert(self.entries@.take(i as int) =~= self.entries@);
        while 0 < i
            invariant
                i <= self.entries@.len(),
                self@ == made_by(self.entries@),
                ({
                    let part = made_by(self.entries@.take(i as int));
                    &&& self@.dom().contains(kind@) <==> part.dom().contains(kind@)
                    &&& part.dom().contains(kind@) ==> part[kind@] == self@[kind@]
                }),
            decreases i,
        {
            assert(self.entries@.take(i as int).drop_last() =~= self.entries@.take(i - 1));
            if same(self.entries[i - 1].0.as_str(), kind) {
                return Some(&self.entries[i - 1].1);
            }
            i = i - 1;
        }
        None
    }
}

/// The JSON document of a value, to be exported.
pub fn to_vec(v: &serde_json::Value) -> (r: Result<Vec<u8>, AppError>)
    ensures
        r matches Ok(bytes) && bytes@ == pretty_json(*v) && (is_plain(json_in(*v), 100)
            ==> parsed(bytes@) == Some(json_in(*v))),
{
    match write_document(v) {
        Some(bytes) => Ok(bytes),
        None => Err(AppError::Other("serialise export".to_owned())),
    }
}

/// A name as it can stand in the name of a file: quotes, slashes and spaces made `_`.
pub fn safe(name: &str) -> (r: String)
    ensures
        r@ == underscored(name@, true, true),
{
    underscore(name, true, true)
}

/// The name of an exported file cannot end the quoted name in a header, nor lead out of the
/// directory that it is saved in.
pub proof fn safe_names_are_plain(name: Seq<char>)
    ensures
        !underscored(name, true, true).contains('"'),
        !underscored(name, true, true).contains('/'),
        !underscored(name, true, true).contains('\\'),
        !underscored(name, true, true).contains(' '),
        underscored(name, true, true).len() == name.len(),
{
}

pub open spec fn extension(filename: Seq<char>) -> Seq<char> {
    match cut_at_last(filename, '.') {
        Some(parts) => parts.1,
        None => "bin"@,
    }
}

/// What follows the last dot of a name.
pub fn ext_of(filename: &str) -> (r: String)
    ensures
        r@ == extension(filename@),
{
    match cut_last(filename, '.') {
        Some(parts) => parts.1,
        None => "bin".to_owned(),
    }
}

/// A message of a conversation.
pub struct ChatMessage {
    pub role: String,
    pub content: String,
    pub sequence_number: i32,
}

impl Ranked for ChatMessage {
    /// The earlier a message, the earlier it is written out.
    open spec fn rank(self) -> (int, int) {
        (-(self.sequence_number as int), 0)
    }

    fn outranks(&self, other: &ChatMessage) -> (r: bool) {
        self.sequence_number < other.sequence_number
    }
}

/// A message in a transcript: who, and what.
pub open spec fn message_text(m: ChatMessage) -> Seq<char> {
    "## "@ + m.role@ + "\n\n"@ + m.content@ + "\n\n"@
}

pub open spec fn messages_text(messages: Seq<ChatMessage>) -> Seq<char>
    decreases messages.len(),
{
    if messages.len() == 0 {
        Seq::empty()
    } else {
        messages_text(messages.drop_last()) + message_text(messages.last())
    }
}

/// A conversation as Markdown: its title, and its messages in their order.
pub open spec fn transcript_of(title: Seq<char>, messages: Seq<ChatMessage>) -> Seq<char> {
    "# "@ + title + "\n\n"@ + messages_text(messages)
}

/// Writes a conversation out as Markdown.
pub fn transcript(title: &str, messages: &Vec<ChatMessage>) -> (r: String)
    ensures
        r@ == transcript_of(title@, messages@),
{
    let mut out = joined3("# ", title, "\n\n");
    let ghost heading = out@;
    let mut i: usize = 0;
    assert(messages@.take(0) == Seq::<ChatMessage>::empty());
    assert(heading + Seq::<char>::empty() =~= heading);
    while i < messages.len()
        invariant
            i <= messages@.len(),
            out@ == heading + messages_text(messages@.take(i as int)),
        decreases messages@.len() - i,
    {
        let m = &messages[i];
        assert(messages@.take(i as int + 1).drop_last() == messages@.take(i as int));
        let ghost before = out@;
        out.append("## ");
        out.append(m.role.as_str());
        out.append("\n\n");
        out.append(m.content.as_str());
        out.append("\n\n");
        assert(out@ =~= before + message_text(*m));
        assert(out@ =~= heading + messages_text(messages@.take(i as int + 1)));
        i = i + 1;
    }
    assert(messages@.take(messages@.len() as int) == messages@);
    out
}

/// A message as JSON.
pub open spec fn message_json(m: ChatMessage) -> Json {
    Json::Object(
        Map::empty().insert("role"@, Json::Text(m.role@)).insert(
            "content"@,
            Json::Text(m.content@),
        ).insert("seq"@, Json::Number(m.sequence_number as int)),
    )
}

fn message_value(m: &ChatMessage) -> (r: serde_json::Value)
    ensures
        json_in(r) == message_json(*m),
{
    let mut v = empty_object();
    put(&mut v, "role", text_value(m.role.as_str()));
    put(&mut v, "content", text_value(m.content.as_str()));
    put(&mut v, "seq", number_value(m.sequence_number as i64));
    v
}

/// A conversation as JSON.
pub open spec fn chat_json(chat_id: Id, title: Seq<char>, messages: Seq<ChatMessage>) -> Json {
    Json::Object(
        Map::empty().insert("chat_id"@, Json::Text(id_text(chat_id))).insert(
            "title"@,
            Json::Text(title),
        ).insert("messages"@, Json::List(messages.map_values(|m: ChatMessage| message_json(m)))),
    )
}

fn chat_value(chat_id: Id, title: &str, messages: &Vec<ChatMessage>) -> (r: serde_json::Value)
    ensures
        json_in(r) == chat_json(chat_id, title@, messages@),
{
    let mut items: Vec<serde_json::Value> = Vec::new();
    let mut i: usize = 0;
    while i < messages.len()
        invariant
            i <= messages@.len(),
            items@.len() == i,
            forall|k: int|
                0 <= k < i ==> json_in(#[trigger] items@[k]) == message_json(messages@[k]),
        decreases messages@.len() - i,
    {
        items.push(message_value(&messages[i]));
        i = i + 1;
    }
    assert(jsons(items@) =~= messages@.map_values(|m: ChatMessage| message_json(m)));
    let id = id_to_text(chat_id);
    let mut v = empty_object();
    put(&mut v, "chat_id", text_value(id.as_str()));
    put(&mut v, "title", text_value(title));
    put(&mut v, "messages", array_value(items));
    v
}

proof fn export_names_are_free()
    ensures
        !is_reserved("role"@),
        !is_reserved("content"@),
        !is_reserved("seq"@),
        !is_reserved("chat_id"@),
        !is_reserved("title"@),
        !is_reserved("messages"@),
        !is_reserved("id"@),
        !is_reserved("name"@),
        !is_reserved("description"@),
        !is_reserved("sector"@),
        !is_reserved("created_at"@),
        !is_reserved("owner_user_id"@),
        !is_reserved("pinned"@),
        !is_reserved("filename"@),
        !is_reserved("mime"@),
        !is_reserved("current_version_id"@),
        !is_reserved("status"@),
        !is_reserved("project"@),
        !is_reserved("chats"@),
        !is_reserved("memory_facts"@),
        !is_reserved("documents"@),
        !is_reserved("documents_excluded_by_source_acl"@),
        !is_reserved("tabular_reviews"@),
        !is_reserved("note"@),
{
    reveal_strlit("$serde_json::private::Number");
    reveal_strlit("$serde_json::private::RawValue");
    assert forall|name: Seq<char>| name.len() > 0 && #[trigger] name[0] != '$' implies !is_reserved(
        name,
    ) by {}
    reveal_strlit("role");
    assert("role"@[0] != '$');
    reveal_strlit("content");
    assert("content"@[0] != '$');
    reveal_strlit("seq");
    assert("seq"@[0] != '$');
    reveal_strlit("chat_id");
    assert("chat_id"@[0] != '$');
    reveal_strlit("title");
    assert("title"@[0] != '$');
    reveal_strlit("messages");
    assert("messages"@[0] != '$');
    reveal_strlit("id");
    assert("id"@[0] != '$');
    reveal_strlit("name");
    assert("name"@[0] != '$');
    reveal_strlit("description");
    assert("description"@[0] != '$');
    reveal_strlit("sector");
    assert("sector"@[0] != '$');
    reveal_strlit("created_at");
    assert("created_at"@[0] != '$');
    reveal_strlit("owner_user_id");
    assert("owner_user_id"@[0] != '$');
    reveal_strlit("pinned");
    assert("pinned"@[0] != '$');
    reveal_strlit("filename");
    assert("filename"@[0] != '$');
    reveal_strlit("mime");
    assert("mime"@[0] != '$');
    reveal_strlit("current_version_id");
    assert("current_version_id"@[0] != '$');
    reveal_strlit("status");
    assert("status"@[0] != '$');
    reveal_strlit("project");
    assert("project"@[0] != '$');
    reveal_strlit("chats");
    assert("chats"@[0] != '$');
    reveal_strlit("memory_facts");
    assert("memory_facts"@[0] != '$');
    reveal_strlit("documents");
    assert("documents"@[0] != '$');
    reveal_strlit("documents_excluded_by_source_acl");
    assert("documents_excluded_by_source_acl"@[0] != '$');
    reveal_strlit("tabular_reviews");
    assert("tabular_reviews"@[0] != '$');
    reveal_strlit("note");
    assert("note"@[0] != '$');
}

proof fn chat_json_is_plain(chat_id: Id, title: Seq<char>, messages: Seq<ChatMessage>)
    ensures
        is_plain(chat_json(chat_id, title, messages), 100),
{
    export_names_are_free();
    reveal_with_fuel(is_plain, 5);
    let list = messages.map_values(|m: ChatMessage| message_json(m));
    assert forall|i: int| 0 <= i < list.len() implies is_plain(#[trigger] list[i], 98) by {
        assert(list[i] == message_json(messages[i]));
    }
    assert(is_plain(Json::List(list), 99));
}

/// A conversation that is exported: a file, or what the maker of documents needs for one.
pub enum ChatExport {
    File(ExportFile),
    Render { title: String, transcript: String },
}

pub open spec fn is_chat_format(format: Seq<char>) -> bool {
    format == "json"@ || format == "md"@ || format == "pdf"@
}

pub open spec fn build_refusal(title: Option<Seq<char>>, format: Seq<char>) -> Option<Refusal> {
    if title is None {
        Some(Refusal::Validation("chat not found"@))
    } else if !is_chat_format(format) {
        Some(Refusal::Validation("unknown export format: "@ + format))
    } else {
        None
    }
}

/// What an export of a conversation is in each format.
pub open spec fn exported(
    chat_id: Id,
    title: Seq<char>,
    messages: Seq<ChatMessage>,
    format: Seq<char>,
    e: ChatExport,
) -> bool {
    if format == "json"@ {
        e matches ChatExport::File(f) && {
            &&& parsed(f.bytes@) == Some(chat_json(chat_id, title, messages))
            &&& f.mime@ == "application/json"@
            &&& f.filename@ == underscored(title, true, true) + ".json"@
        }
    } else if format == "md"@ {
        e matches ChatExport::File(f) && {
            &&& f.bytes@ == encode_utf8(transcript_of(title, messages))
            &&& f.mime@ == "text/markdown"@
            &&& f.filename@ == underscored(title, true, true) + ".md"@
        }
    } else {
        e matches ChatExport::Render { title: t, transcript: text } && t@ == title && text@
            == transcript_of(title, messages)
    }
}

/// Makes the export of a conversation, its messages in the order of their numbers. `title` is the conversation's, where there is one.
pub fn build_chat_export(
    chat_id: Id,
    title: Option<String>,
    messages: Vec<ChatMessage>,
    format: &str,
) -> (r: Result<ChatExport, AppError>)
    ensures
        refusal(r) == build_refusal(opt_text(title), format@),
        r matches Ok(e) ==> title matches Some(t) && exported(
            chat_id,
            t@,
            highest_first(messages@),
            format@,
            e,
        ),
{
    let messages = rank_list(messages);
    let title = match title {
        Some(t) => t,
        None => {
            return Err(validation("chat not found"));
        },
    };
    let name = safe(title.as_str());
    if same(format, "json") {
        let v = chat_value(chat_id, title.as_str(), &messages);
        proof {
            chat_json_is_plain(chat_id, title@, messages@);
        }
        let bytes = match to_vec(&v) {
            Ok(b) => b,
            Err(e) => {
                return Err(e);
            },
        };
        return Ok(
            ChatExport::File(
                ExportFile {
                    bytes,
                    mime: "application/json".to_owned(),
                    filename: joined(name.as_str(), ".json"),
                },
            ),
        );
    }
    let text = transcript(title.as_str(), &messages);
    if same(format, "md") {
        proof {
            reveal_strlit("json");
            reveal_strlit("md");
        }
        return Ok(
            ChatExport::File(
                ExportFile {
                    bytes: text.as_str().as_bytes_vec(),
                    mime: "text/markdown".to_owned(),
                    filename: joined(name.as_str(), ".md"),
                },
            ),
        );
    }
    if same(format, "pdf") {
        return Ok(ChatExport::Render { title, transcript: text });
    }
    Err(AppError::Validation(joined("unknown export format: ", format)))
}

/// A rendered conversation as a file.
pub fn rendered_export(title: &str, bytes: Vec<u8>, mime: String) -> (r: ExportFile)
    ensures
        r.bytes == bytes,
        r.mime == mime,
        r.filename@ == underscored(title@, true, true) + ".pdf"@,
{
    let name = safe(title);
    ExportFile { bytes, mime, filename: joined(name.as_str(), ".pdf") }
}

pub struct ProjectRecord {
    pub id: Id,
    pub name: String,
    pub description: Option<String>,
    pub sector: String,
    pub created_at: Instant,
}

pub open spec fn project_json(p: ProjectRecord) -> Json {
    Json::Object(
        Map::empty().insert("id"@, Json::Text(id_text(p.id))).insert(
            "name"@,
            Json::Text(p.name@),
        ).insert("description"@, text_or_null(opt_text(p.description))).insert(
            "sector"@,
            Json::Text(p.sector@),
        ).insert("created_at"@, Json::Text(spelled(p.created_at))),
    )
}

fn project_value(p: &ProjectRecord) -> (r: serde_json::Value)
    ensures
        json_in(r) == project_json(*p),
{
    let at = spell(p.created_at);
    let mut v = empty_object();
    put(&mut v, "id", id_value(p.id));
    put(&mut v, "name", text_value(p.name.as_str()));
    put(&mut v, "description", text_or_null_value(&p.description));
    put(&mut v, "sector", text_value(p.sector.as_str()));
    put(&mut v, "created_at", text_value(at.as_str()));
    v
}

pub struct ChatRecord {
    pub id: Id,
    pub title: String,
    pub owner_user_id: Id,
    pub created_at: Instant,
}

pub open spec fn chat_record_json(c: ChatRecord) -> Json {
    Json::Object(
        Map::empty().insert("id"@, Json::Text(id_text(c.id))).insert(
            "title"@,
            Json::Text(c.title@),
        ).insert("owner_user_id"@, Json::Text(id_text(c.owner_user_id))).insert(
            "created_at"@,
            Json::Text(spelled(c.created_at)),
        ),
    )
}

fn chat_record_value(c: &ChatRecord) -> (r: serde_json::Value)
    ensures
        json_in(r) == chat_record_json(*c),
{
    let at = spell(c.created_at);
    let mut v = empty_object();
    put(&mut v, "id", id_value(c.id));
    put(&mut v, "title", text_value(c.title.as_str()));
    put(&mut v, "owner_user_id", id_value(c.owner_user_id));
    put(&mut v, "created_at", text_value(at.as_str()));
    v
}

pub struct MessageRecord {
    pub id: Id,
    pub chat_id: Id,
    pub role: String,
    pub content: String,
    pub sequence_number: i32,
}

impl Ranked for MessageRecord {
    /// By conversation, and the earlier message of one before the later.
    open spec fn rank(self) -> (int, int) {
        (-(self.chat_id as int), -(self.sequence_number as int))
    }

    fn outranks(&self, other: &MessageRecord) -> (r: bool) {
        self.chat_id < other.chat_id || (self.chat_id == other.chat_id && self.sequence_number
            < other.sequence_number)
    }
}

pub open spec fn message_record_json(m: MessageRecord) -> Json {
    Json::Object(
        Map::empty().insert("id"@, Json::Text(id_text(m.id))).insert(
            "chat_id"@,
            Json::Text(id_text(m.chat_id)),
        ).insert("role"@, Json::Text(m.role@)).insert("content"@, Json::Text(m.content@)).insert(
            "seq"@,
            Json::Number(m.sequence_number as int),
        ),
    )
}

fn message_record_value(m: &MessageRecord) -> (r: serde_json::Value)
    ensures
        json_in(r) == message_record_json(*m),
{
    let mut v = empty_object();
    put(&mut v, "id", id_value(m.id));
    put(&mut v, "chat_id", id_value(m.chat_id));
    put(&mut v, "role", text_value(m.role.as_str()));
    put(&mut v, "content", text_value(m.content.as_str()));
    put(&mut v, "seq", number_value(m.sequence_number as i64));
    v
}

pub struct FactRecord {
    pub id: Id,
    pub content: String,
    pub pinned: bool,
}

pub open spec fn fact_json(f: FactRecord) -> Json {
    Json::Object(
        Map::empty().insert("id"@, Json::Text(id_text(f.id))).insert(
            "content"@,
            Json::Text(f.content@),
        ).insert("pinned"@, Json::Flag(f.pinned)),
    )
}

fn fact_value(f: &FactRecord) -> (r: serde_json::Value)
    ensures
        json_in(r) == fact_json(*f),
{
    let mut v = empty_object();
    put(&mut v, "id", id_value(f.id));
    put(&mut v, "content", text_value(f.content.as_str()));
    put(&mut v, "pinned", flag_value(f.pinned));
    v
}

pub struct DocumentRecord {
    pub id: Id,
    pub filename: String,
    pub mime: Option<String>,
    pub current_version_id: Option<Id>,
}

pub open spec fn document_json(d: DocumentRecord) -> Json {
    Json::Object(
        Map::empty().insert("id"@, Json::Text(id_text(d.id))).insert(
            "filename"@,
            Json::Text(d.filename@),
        ).insert("mime"@, text_or_null(opt_text(d.mime))).insert(
            "current_version_id"@,
            id_or_null(d.current_version_id),
        ),
    )
}

fn document_value(d: &DocumentRecord) -> (r: serde_json::Value)
    ensures
        json_in(r) == document_json(*d),
{
    let mut v = empty_object();
    put(&mut v, "id", id_value(d.id));
    put(&mut v, "filename", text_value(d.filename.as_str()));
    put(&mut v, "mime", text_or_null_value(&d.mime));
    put(&mut v, "current_version_id", id_or_null_value(d.current_version_id));
    v
}

pub struct ReviewRecord {
    pub id: Id,
    pub name: String,
    pub status: String,
}

pub open spec fn review_json(x: ReviewRecord) -> Json {
    Json::Object(
        Map::empty().insert("id"@, Json::Text(id_text(x.id))).insert(
            "name"@,
            Json::Text(x.name@),
        ).insert("status"@, Json::Text(x.status@)),
    )
}

fn review_value(x: &ReviewRecord) -> (r: serde_json::Value)
    ensures
        json_in(r) == review_json(*x),
{
    let mut v = empty_object();
    put(&mut v, "id", id_value(x.id));
    put(&mut v, "name", text_value(x.name.as_str()));
    put(&mut v, "status", text_value(x.status.as_str()));
    v
}

/// What a project holds.
pub struct ProjectRecords {
    pub chats: Vec<ChatRecord>,
    pub messages: Vec<MessageRecord>,
    pub memory: Vec<FactRecord>,
    pub documents: Vec<DocumentRecord>,
    pub reviews: Vec<ReviewRecord>,
}

/// The documents that are allowed, as JSON, in their order.
pub open spec fn allowed_documents(documents: Seq<DocumentRecord>, allowed: Seq<Id>) -> Seq<Json>
    decreases documents.len(),
{
    if documents.len() == 0 {
        Seq::empty()
    } else {
        let before = allowed_documents(documents.drop_last(), allowed);
        if allowed.contains(documents.last().id) {
            before.push(document_json(documents.last()))
        } else {
            before
        }
    }
}

/// What every export of a project says.
pub const EXPORT_NOTE: &'static str = "Qdrant vectors are intentionally NOT exported (embedding-inversion risk — §B.19).";

/// The JSON document that a project is exported as. `allowed` are the documents that whoever
/// asks for it may read.
pub open spec fn project_document(p: ProjectRecord, r: ProjectRecords, allowed: Seq<Id>) -> Json {
    let documents = allowed_documents(r.documents@, allowed);
    Json::Object(
        Map::empty().insert("project"@, project_json(p)).insert(
            "chats"@,
            Json::List(r.chats@.map_values(|c: ChatRecord| chat_record_json(c))),
        ).insert(
            "messages"@,
            Json::List(
                highest_first(r.messages@).map_values(|m: MessageRecord| message_record_json(m)),
            ),
        ).insert(
            "memory_facts"@,
            Json::List(r.memory@.map_values(|f: FactRecord| fact_json(f))),
        ).insert("documents"@, Json::List(documents)).insert(
            "documents_excluded_by_source_acl"@,
            Json::Number(r.documents@.len() - documents.len()),
        ).insert(
            "tabular_reviews"@,
            Json::List(r.reviews@.map_values(|x: ReviewRecord| review_json(x))),
        ).insert("note"@, Json::Text(EXPORT_NOTE@)),
    )
}

fn chats_value(rows: &Vec<ChatRecord>) -> (r: serde_json::Value)
    ensures
        json_in(r) == Json::List(rows@.map_values(|c: ChatRecord| chat_record_json(c))),
{
    let mut items: Vec<serde_json::Value> = Vec::new();
    let mut i: usize = 0;
    while i < rows.len()
        invariant
            i <= rows@.len(),
            items@.len() == i,
            forall|k: int|
                0 <= k < i ==> json_in(#[trigger] items@[k]) == chat_record_json(rows@[k]),
        decreases rows@.len() - i,
    {
        items.push(chat_record_value(&rows[i]));
        i = i + 1;
    }
    assert(jsons(items@) =~= rows@.map_values(|c: ChatRecord| chat_record_json(c)));
    array_value(items)
}

fn messages_value(rows: &Vec<MessageRecord>) -> (r: serde_json::Value)
    ensures
        json_in(r) == Json::List(rows@.map_values(|m: MessageRecord| message_record_json(m))),
{
    let mut items: Vec<serde_json::Value> = Vec::new();
    let mut i: usize = 0;
    while i < rows.len()
        invariant
            i <= rows@.len(),
            items@.len() == i,
            forall|k: int|
                0 <= k < i ==> json_in(#[trigger] items@[k]) == message_record_json(rows@[k]),
        decreases rows@.len() - i,
    {
        items.push(message_record_value(&rows[i]));
        i = i + 1;
    }
    assert(jsons(items@) =~= rows@.map_values(|m: MessageRecord| message_record_json(m)));
    array_value(items)
}

fn memory_value(rows: &Vec<FactRecord>) -> (r: serde_json::Value)
    ensures
        json_in(r) == Json::List(rows@.map_values(|f: FactRecord| fact_json(f))),
{
    let mut items: Vec<serde_json::Value> = Vec::new();
    let mut i: usize = 0;
    while i < rows.len()
        invariant
            i <= rows@.len(),
            items@.len() == i,
            forall|k: int| 0 <= k < i ==> json_in(#[trigger] items@[k]) == fact_json(rows@[k]),
        decreases rows@.len() - i,
    {
        items.push(fact_value(&rows[i]));
        i = i + 1;
    }
    assert(jsons(items@) =~= rows@.map_values(|f: FactRecord| fact_json(f)));
    array_value(items)
}

fn reviews_value(rows: &Vec<ReviewRecord>) -> (r: serde_json::Value)
    ensures
        json_in(r) == Json::List(rows@.map_values(|x: ReviewRecord| review_json(x))),
{
    let mut items: Vec<serde_json::Value> = Vec::new();
    let mut i: usize = 0;
    while i < rows.len()
        invariant
            i <= rows@.len(),
            items@.len() == i,
            forall|k: int| 0 <= k < i ==> json_in(#[trigger] items@[k]) == review_json(rows@[k]),
        decreases rows@.len() - i,
    {
        items.push(review_value(&rows[i]));
        i = i + 1;
    }
    assert(jsons(items@) =~= rows@.map_values(|x: ReviewRecord| review_json(x)));
    array_value(items)
}

fn allowed_values(rows: &Vec<DocumentRecord>, allowed: &Vec<Id>) -> (r: Vec<serde_json::Value>)
    ensures
        jsons(r@) == allowed_documents(rows@, allowed@),
        r@.len() <= rows@.len(),
{
    let mut items: Vec<serde_json::Value> = Vec::new();
    let mut i: usize = 0;
    assert(rows@.take(0) == Seq::<DocumentRecord>::empty());
    while i < rows.len()
        invariant
            i <= rows@.len(),
            items@.len() <= i,
            jsons(items@) == allowed_documents(rows@.take(i as int), allowed@),
        decreases rows@.len() - i,
    {
        assert(rows@.take(i as int + 1).drop_last() == rows@.take(i as int));
        if among(allowed, rows[i].id) {
            let ghost had = items@;
            let v = document_value(&rows[i]);
            items.push(v);
            assert(jsons(items@) =~= jsons(had).push(json_in(v)));
        }
        i = i + 1;
    }
    assert(rows@.take(rows@.len() as int) == rows@);
    items
}

proof fn allowed_documents_are_plain(documents: Seq<DocumentRecord>, allowed: Seq<Id>, depth: nat)
    requires
        depth > 0,
    ensures
        forall|i: int|
            0 <= i < allowed_documents(documents, allowed).len() ==> is_plain(
                #[trigger] allowed_documents(documents, allowed)[i],
                depth,
            ),
    decreases documents.len(),
{
    if documents.len() > 0 {
        allowed_documents_are_plain(documents.drop_last(), allowed, depth);
        export_names_are_free();
        reveal_with_fuel(is_plain, 2);
        let all = allowed_documents(documents, allowed);
        let before = allowed_documents(documents.drop_last(), allowed);
        assert(is_plain(document_json(documents.last()), depth));
        assert forall|i: int| 0 <= i < all.len() implies is_plain(#[trigger] all[i], depth) by {
            if i < before.len() {
                assert(all[i] == before[i]);
            }
        }
    }
}

proof fn project_document_is_plain(p: ProjectRecord, r: ProjectRecords, allowed: Seq<Id>)
    ensures
        is_plain(project_document(p, r, allowed), 100),
{
    export_names_are_free();
    reveal_with_fuel(is_plain, 2);
    let chats = r.chats@.map_values(|c: ChatRecord| chat_record_json(c));
    assert forall|i: int| 0 <= i < chats.len() implies is_plain(#[trigger] chats[i], 98) by {
        assert(chats[i] == chat_record_json(r.chats@[i]));
    }
    assert(is_plain(Json::List(chats), 99));
    let ordered = highest_first(r.messages@);
    let messages = ordered.map_values(|m: MessageRecord| message_record_json(m));
    assert forall|i: int| 0 <= i < messages.len() implies is_plain(
        #[trigger] messages[i],
        98,
    ) by {
        assert(messages[i] == message_record_json(ordered[i]));
    }
    assert(is_plain(Json::List(messages), 99));
    let memory = r.memory@.map_values(|f: FactRecord| fact_json(f));
    assert forall|i: int| 0 <= i < memory.len() implies is_plain(#[trigger] memory[i], 98) by {
        assert(memory[i] == fact_json(r.memory@[i]));
    }
    assert(is_plain(Json::List(memory), 99));
    let reviews = r.reviews@.map_values(|x: ReviewRecord| review_json(x));
    assert forall|i: int| 0 <= i < reviews.len() implies is_plain(#[trigger] reviews[i], 98) by {
        assert(reviews[i] == review_json(r.reviews@[i]));
    }
    assert(is_plain(Json::List(reviews), 99));
    allowed_documents_are_plain(r.documents@, allowed, 98);
    assert(is_plain(Json::List(allowed_documents(r.documents@, allowed)), 99));
    assert(is_plain(project_json(p), 99));
}

/// Makes the export of a project, its messages by conversation and number. `allowed` are the documents that whoever asks for it may
/// read; the others are left out and counted.
pub fn build_project_db_export(
    project: Option<ProjectRecord>,
    records: ProjectRecords,
    allowed: &Vec<Id>,
) -> (r: Result<ExportFile, AppError>)
    ensures
        match (r, project) {
            (Ok(f), Some(p)) => {
                &&& parsed(f.bytes@) == Some(project_document(p, records, allowed@))
                &&& f.mime@ == "application/json"@
                &&& f.filename@ == underscored(p.name@, true, true) + ".json"@
            },
            (Err(e), None) => e@ == Refusal::Validation("project not found"@),
            _ => false,
        },
{
    let p = match project {
        Some(p) => p,
        None => {
            return Err(validation("project not found"));
        },
    };
    let messages = rank_list(records.messages);
    let documents = allowed_values(&records.documents, allowed);
    let excluded: usize = records.documents.len() - documents.len();
    assert(jsons(documents@).len() == documents@.len());
    let mut v = empty_object();
    put(&mut v, "project", project_value(&p));
    put(&mut v, "chats", chats_value(&records.chats));
    put(&mut v, "messages", messages_value(&messages));
    put(&mut v, "memory_facts", memory_value(&records.memory));
    put(&mut v, "documents", array_value(documents));
    put(&mut v, "documents_excluded_by_source_acl", count_value(excluded));
    put(&mut v, "tabular_reviews", reviews_value(&records.reviews));
    put(&mut v, "note", text_value(EXPORT_NOTE));
    proof {
        project_document_is_plain(p, records, allowed@);
    }
    let bytes = match to_vec(&v) {
        Ok(b) => b,
        Err(e) => {
            return Err(e);
        },
    };
    let name = safe(p.name.as_str());
    Ok(
        ExportFile {
            bytes,
            mime: "application/json".to_owned(),
            filename: joined(name.as_str(), ".json"),
        },
    )
}

/// No document that whoever asks may not read is in the export of a project, and those that
/// were left out are all counted.
pub proof fn walled_documents_stay_out(documents: Seq<DocumentRecord>, allowed: Seq<Id>, i: int)
    requires
        0 <= i < allowed_documents(documents, allowed).len(),
    ensures
        exists|d: DocumentRecord|
            #[trigger] documents.contains(d) && allowed.contains(d.id) && allowed_documents(
                documents,
                allowed,
            )[i] == document_json(d),
        allowed_documents(documents, allowed).len() <= documents.len(),
    decreases documents.len(),
{
    let before = allowed_documents(documents.drop_last(), allowed);
    if i < before.len() {
        walled_documents_stay_out(documents.drop_last(), allowed, i);
        let d = choose|d: DocumentRecord|
            #[trigger] documents.drop_last().contains(d) && allowed.contains(d.id) && before[i]
                == document_json(d);
        let k = documents.drop_last().index_of(d);
        assert(documents[k] == d);
        assert(documents.contains(d));
        assert(allowed_documents(documents, allowed)[i] == document_json(d));
    } else {
        assert(documents.contains(documents.last()));
        if before.len() > 0 {
            walled_documents_stay_out(documents.drop_last(), allowed, 0);
        }
    }
}

pub struct ChatExportQuery {
    pub format: String,
}

/// The format of an export where none is asked for.
pub fn default_format() -> (r: String)
    ensures
        r@ == "md"@,
{
    "md".to_owned()
}

/// A chat, as far as reading it goes.
pub struct ReadableChat {
    pub owner_user_id: Id,
    pub project_id: Option<Id>,
    pub title: String,
}

/// The caller reads a chat: its owner, an administrator, a reader of its project, or a member
/// of a chat that it was shared into.
pub open spec fn reads_chat(
    ctx: AuthContext,
    owner: Id,
    project_id: Option<Id>,
    reads_project: bool,
    shared_with: bool,
) -> bool {
    ||| ctx.is(owner)
    ||| ctx.admin
    ||| project_id is Some && reads_project
    ||| ctx.user_id is Some && shared_with
}

pub open spec fn chat_read_refusal(
    ctx: AuthContext,
    chat: Option<ReadableChat>,
    reads_project: bool,
    shared_with: bool,
) -> Option<Refusal> {
    match chat {
        None => Some(Refusal::Validation("chat not found"@)),
        Some(c) => if reads_chat(ctx, c.owner_user_id, c.project_id, reads_project, shared_with) {
            None
        } else {
            Some(Refusal::Forbidden("not permitted to read this chat"@))
        },
    }
}

/// Reading a chat. `reads_project` is whether the grants of its project let the caller read,
/// and `shared_with` whether it was shared into a chat that the caller is in.
pub fn require_chat_read(
    ctx: &AuthContext,
    chat: Option<ReadableChat>,
    reads_project: bool,
    shared_with: bool,
) -> (r: Result<(Option<Id>, String), AppError>)
    ensures
        refusal(r) == chat_read_refusal(*ctx, chat, reads_project, shared_with),
        r matches Ok(x) ==> chat matches Some(c) && x.0 == c.project_id && x.1 == c.title,
{
    let c = match chat {
        Some(c) => c,
        None => {
            return Err(validation("chat not found"));
        },
    };
    if ctx.is_user(c.owner_user_id) || ctx.is_admin() {
        return Ok((c.project_id, c.title));
    }
    if c.project_id.is_some() && reads_project {
        return Ok((c.project_id, c.title));
    }
    if ctx.user_id.is_some() && shared_with {
        return Ok((c.project_id, c.title));
    }
    Err(forbidden("not permitted to read this chat"))
}

/// Whoever read a chat only because it was shared with them no longer reads it once it is
/// not.
pub proof fn revoking_a_share_cuts_access(ctx: AuthContext, chat: ReadableChat)
    requires
        !ctx.is(chat.owner_user_id),
        !ctx.admin,
    ensures
        chat_read_refusal(ctx, Some(chat), false, false) == Some(
            Refusal::Forbidden("not permitted to read this chat"@),
        ),
        ctx.user_id is Some ==> chat_read_refusal(ctx, Some(chat), false, true) is None,
{
}

/// The most exports that an account may have under way.
pub const MAX_INFLIGHT_EXPORTS: i64 = 3;

pub struct CreateExport {
    pub kind: String,
    pub target_id: Option<Id>,
    pub format: Option<String>,
}

/// What there is to know before an export is queued.
pub struct QueueFacts {
    pub within_rate: bool,
    pub inflight: i64,
    /// What is against the caller reading the chat that is to be exported.
    pub chat_refusal: Option<AppError>,
    /// What is against the caller exporting the audit trail.
    pub audit_refusal: Option<AppError>,
}

/// The format of a queued export.
pub open spec fn queued_format(asked: Option<Seq<char>>) -> Seq<char> {
    match asked {
        Some(f) => f,
        None => "json"@,
    }
}

pub open spec fn kind_refusal(ctx: AuthContext, body: CreateExport, f: QueueFacts) -> Option<Refusal> {
    if body.kind@ == "chat"@ {
        if body.target_id is None {
            Some(Refusal::Validation("target_id (chat) required"@))
        } else if f.chat_refusal is Some {
            refusal_in(f.chat_refusal)
        } else if !is_chat_format(queued_format(opt_text(body.format))) {
            Some(Refusal::Validation("format must be md|json|pdf"@))
        } else {
            None
        }
    } else if body.kind@ == "project_db"@ {
        if admin_refusal(ctx) is Some {
            admin_refusal(ctx)
        } else if body.target_id is None {
            Some(Refusal::Validation("target_id (project) required"@))
        } else {
            None
        }
    } else if body.kind@ == "audit"@ {
        if admin_refusal(ctx) is Some {
            admin_refusal(ctx)
        } else {
            refusal_in(f.audit_refusal)
        }
    } else {
        Some(Refusal::Validation("unknown export kind: "@ + body.kind@))
    }
}

pub open spec fn queue_refusal(ctx: AuthContext, body: CreateExport, f: QueueFacts) -> Option<
    Refusal,
> {
    if ctx.user_id is None {
        Some(Refusal::Forbidden("a user is required"@))
    } else if !f.within_rate {
        Some(Refusal::TooManyRequests("export rate limit; try again shortly"@))
    } else if f.inflight >= MAX_INFLIGHT_EXPORTS {
        Some(
            Refusal::Validation(
                "too many exports in progress ("@ + signed_decimal(f.inflight as int)
                    + "); wait for one to finish"@,
            ),
        )
    } else {
        kind_refusal(ctx, body, f)
    }
}

fn check_kind(ctx: &AuthContext, body: &CreateExport, format: &str, f: QueueFacts) -> (r: Result<
    (),
    AppError,
>)
    requires
        format@ == queued_format(opt_text(body.format)),
    ensures
        refusal(r) == kind_refusal(*ctx, *body, f),
{
    let kind = body.kind.as_str();
    if same(kind, "chat") {
        if body.target_id.is_none() {
            return Err(validation("target_id (chat) required"));
        }
        match f.chat_refusal {
            Some(e) => {
                return Err(e);
            },
            None => {},
        }
        if !same(format, "md") && !same(format, "json") && !same(format, "pdf") {
            return Err(validation("format must be md|json|pdf"));
        }
        Ok(())
    } else if same(kind, "project_db") {
        match require_admin(ctx) {
            Ok(_) => {},
            Err(e) => {
                return Err(e);
            },
        }
        if body.target_id.is_none() {
            return Err(validation("target_id (project) required"));
        }
        Ok(())
    } else if same(kind, "audit") {
        match require_admin(ctx) {
            Ok(_) => {},
            Err(e) => {
                return Err(e);
            },
        }
        match f.audit_refusal {
            Some(e) => Err(e),
            None => Ok(()),
        }
    } else {
        Err(AppError::Validation(joined("unknown export kind: ", kind)))
    }
}

/// A queued export: who asked for it, and its format.
pub struct QueuedExport {
    pub requested_by: Id,
    pub format: String,
}

/// Queues an export, under the same rules as one that is made at once.
pub fn create_export(ctx: &AuthContext, body: &CreateExport, f: QueueFacts) -> (r: Result<
    QueuedExport,
    AppError,
>)
    ensures
        refusal(r) == queue_refusal(*ctx, *body, f),
        r matches Ok(q) ==> ctx.user_id == Some(q.requested_by) && q.format@ == queued_format(
            opt_text(body.format),
        ),
{
    let uid = match ctx.user_id {
        Some(id) => id,
        None => {
            return Err(forbidden("a user is required"));
        },
    };
    if !f.within_rate {
        return Err(AppError::TooManyRequests("export rate limit; try again shortly".to_owned()));
    }
    if f.inflight >= MAX_INFLIGHT_EXPORTS {
        let n = signed_number(f.inflight);
        return Err(
            AppError::Validation(
                joined3(
                    "too many exports in progress (",
                    n.as_str(),
                    "); wait for one to finish",
                ),
            ),
        );
    }
    let format = match &body.format {
        Some(x) => x.clone(),
        None => "json".to_owned(),
    };
    match check_kind(ctx, body, format.as_str(), f) {
        Ok(_) => Ok(QueuedExport { requested_by: uid, format }),
        Err(e) => Err(e),
    }
}

/// Nobody but an administrator gets a whole project or the audit trail, and no account has more
/// than so many exports under way.
pub proof fn queued_exports_are_within_bounds(ctx: AuthContext, body: CreateExport, f: QueueFacts)
    requires
        queue_refusal(ctx, body, f) is None,
    ensures
        f.inflight + 1 <= MAX_INFLIGHT_EXPORTS,
        body.kind@ == "chat"@ || ctx.admin || ctx.break_glass,
        body.kind@ == "chat"@ ==> f.chat_refusal is None,
{
}

/// A stored export.
pub struct ExportRecord {
    pub id: Id,
    pub kind: String,
    pub status: String,
    pub format: String,
    pub target_id: Option<Id>,
    pub filename: Option<String>,
    pub error: Option<String>,
    pub created_at: Instant,
    pub completed_at: Option<Instant>,
}

impl Ranked for ExportRecord {
    /// The newest come first.
    open spec fn rank(self) -> (int, int) {
        (self.created_at as int, 0)
    }

    fn outranks(&self, other: &ExportRecord) -> (r: bool) {
        self.created_at > other.created_at
    }
}

pub struct ExportRow {
    pub id: Id,
    pub kind: String,
    pub status: String,
    pub format: String,
    pub target_id: Option<Id>,
    pub filename: Option<String>,
    pub error: Option<String>,
    pub created_at: String,
    pub completed_at: Option<String>,
}

pub open spec fn export_shown(x: ExportRecord, r: ExportRow) -> bool {
    &&& r.id == x.id
    &&& r.kind == x.kind
    &&& r.status == x.status
    &&& r.format == x.format
    &&& r.target_id == x.target_id
    &&& r.filename == x.filename
    &&& r.error == x.error
    &&& r.created_at@ == spelled(x.created_at)
    &&& opt_text(r.completed_at) == (match x.completed_at {
        Some(t) => Some(spelled(t)),
        None => None,
    })
}

/// An export as it is listed.
pub fn export_row(x: ExportRecord) -> (r: ExportRow)
    ensures
        export_shown(x, r),
{
    ExportRow {
        id: x.id,
        kind: x.kind,
        status: x.status,
        format: x.format,
        target_id: x.target_id,
        filename: x.filename,
        error: x.error,
        created_at: spell(x.created_at),
        completed_at: match x.completed_at {
            Some(t) => Some(spell(t)),
            None => None,
        },
    }
}

pub open spec fn access_refusal(ctx: AuthContext, requester: Option<Id>) -> Option<Refusal> {
    match requester {
        None => Some(Refusal::Validation("export not found"@)),
        Some(who) => if ctx.is(who) || ctx.admin {
            None
        } else {
            Some(Refusal::Forbidden("not your export"@))
        },
    }
}

/// An export is for whoever asked for it and for administrators.
pub fn require_export_access(ctx: &AuthContext, requester: Option<Id>) -> (r: Result<Id, AppError>)
    ensures
        refusal(r) == access_refusal(*ctx, requester),
        r matches Ok(who) ==> requester == Some(who),
{
    match requester {
        None => Err(validation("export not found")),
        Some(who) => {
            if ctx.is_user(who) || ctx.is_admin() {
                Ok(who)
            } else {
                Err(forbidden("not your export"))
            }
        },
    }
}

/// A stored export that is to be downloaded.
pub struct StoredExport {
    pub status: String,
    pub disk_path: Option<String>,
    pub mime: Option<String>,
    pub filename: Option<String>,
}

/// Where an export lies, what it is, and what it is called.
pub struct Download {
    pub path: String,
    pub mime: String,
    pub filename: String,
}

pub open spec fn download_refusal(
    ctx: AuthContext,
    requester: Option<Id>,
    status: Seq<char>,
    path: Option<Seq<char>>,
) -> Option<Refusal> {
    if access_refusal(ctx, requester) is Some {
        access_refusal(ctx, requester)
    } else if status != "ready"@ {
        Some(Refusal::Conflict("export is '"@ + status + "', not ready"@))
    } else if path is None {
        Some(Refusal::Other("ready export has no path"@))
    } else {
        None
    }
}

/// Downloads an export once it is ready.
pub fn download_export(ctx: &AuthContext, id: Id, requester: Option<Id>, stored: StoredExport) -> (r:
    Result<Download, AppError>)
    ensures
        refusal(r) == download_refusal(
            *ctx,
            requester,
            stored.status@,
            opt_text(stored.disk_path),
        ),
        r matches Ok(d) ==> {
            &&& stored.disk_path == Some(d.path)
            &&& d.mime@ == (match stored.mime {
                Some(m) => m@,
                None => "application/octet-stream"@,
            })
            &&& d.filename@ == (match stored.filename {
                Some(n) => n@,
                None => id_text(id) + ".bin"@,
            })
        },
{
    match require_export_access(ctx, requester) {
        Ok(_) => {},
        Err(e) => {
            return Err(e);
        },
    }
    if !same(stored.status.as_str(), "ready") {
        return Err(
            AppError::Conflict(joined3("export is '", stored.status.as_str(), "', not ready")),
        );
    }
    let path = match stored.disk_path {
        Some(p) => p,
        None => {
            return Err(AppError::Other("ready export has no path".to_owned()));
        },
    };
    let mime = match stored.mime {
        Some(m) => m,
        None => "application/octet-stream".to_owned(),
    };
    let filename = match stored.filename {
        Some(n) => n,
        None => {
            let name = id_to_text(id);
            joined(name.as_str(), ".bin")
        },
    };
    Ok(Download { path, mime, filename })
}

/// An export that is due.
pub struct ExportJob {
    pub requested_by: Id,
    pub kind: String,
    pub target_id: Option<Id>,
    pub format: String,
}

/// How a due export is made.
pub enum ExportPlan {
    Chat(Id),
    /// A project, as whoever asked for it.
    Project { project: Id, viewer: Id },
    /// By the maker that is registered for its kind.
    Registered,
    /// Not at all: it is marked as failed.
    Fail(AppError),
}

pub open spec fn plan_refusal(job: Option<ExportJob>) -> Option<Refusal> {
    match job {
        None => Some(Refusal::Validation("export not found"@)),
        Some(_) => None,
    }
}

/// What is done about a due export.
pub open spec fn plan_for(job: ExportJob, registered: bool, p: ExportPlan) -> bool {
    if job.kind@ == "chat"@ {
        match job.target_id {
            Some(id) => p == ExportPlan::Chat(id),
            None => p matches ExportPlan::Fail(e) && e@ == Refusal::Validation(
                "chat export missing target"@,
            ),
        }
    } else if job.kind@ == "project_db"@ {
        match job.target_id {
            Some(project) => p == (ExportPlan::Project { project, viewer: job.requested_by }),
            None => p matches ExportPlan::Fail(e) && e@ == Refusal::Validation(
                "project export missing target"@,
            ),
        }
    } else if registered {
        p is Registered
    } else {
        p matches ExportPlan::Fail(e) && e@ == Refusal::Validation(
            "unknown export kind: "@ + job.kind@,
        )
    }
}

/// Decides how a due export is made. `registered` is whether a maker is registered for its
/// kind. An export that cannot be made ends as failed, and none is left running.
pub fn plan_export(job: Option<ExportJob>, registered: bool) -> (r: Result<ExportPlan, AppError>)
    ensures
        refusal(r) == plan_refusal(job),
        r matches Ok(p) ==> job matches Some(j) && plan_for(j, registered, p),
{
    let j = match job {
        Some(j) => j,
        None => {
            return Err(validation("export not found"));
        },
    };
    if same(j.kind.as_str(), "chat") {
        return match j.target_id {
            Some(id) => Ok(ExportPlan::Chat(id)),
            None => Ok(ExportPlan::Fail(validation("chat export missing target"))),
        };
    }
    if same(j.kind.as_str(), "project_db") {
        return match j.target_id {
            Some(project) => Ok(ExportPlan::Project { project, viewer: j.requested_by }),
            None => Ok(ExportPlan::Fail(validation("project export missing target"))),
        };
    }
    if registered {
        return Ok(ExportPlan::Registered);
    }
    Ok(
        ExportPlan::Fail(
            AppError::Validation(joined("unknown export kind: ", j.kind.as_str())),
        ),
    )
}

/// What is stored of an export once it was made, or was not.
pub struct ExportOutcome {
    pub status: &'static str,
    /// Where the file is written to, below the directory of exports.
    pub disk_path: Option<String>,
    pub mime: Option<String>,
    pub filename: Option<String>,
    /// What went wrong.
    pub error: Option<String>,
    /// The phase that is recorded.
    pub phase: &'static str,
}

/// Ends an export.
pub fn run_export(export_id: Id, built: &Result<ExportFile, AppError>) -> (r: ExportOutcome)
    ensures
        match built {
            Ok(f) => {
                &&& r.status@ == "ready"@
                &&& opt_text(r.disk_path) == Some(
                    id_text(export_id) + "."@ + extension(f.filename@),
                )
                &&& opt_text(r.mime) == Some(f.mime@)
                &&& opt_text(r.filename) == Some(f.filename@)
                &&& r.error is None
                &&& r.phase@ == "completed"@
            },
            Err(e) => {
                &&& r.status@ == "failed"@
                &&& r.disk_path is None
                &&& r.mime is None
                &&& r.filename is None
                &&& opt_text(r.error) == Some(told(e@))
                &&& r.phase@ == "failed"@
            },
        },
{
    match built {
        Ok(f) => {
            let id = id_to_text(export_id);
            let ext = ext_of(f.filename.as_str());
            ExportOutcome {
                status: "ready",
                disk_path: Some(joined3(id.as_str(), ".", ext.as_str())),
                mime: Some(f.mime.clone()),
                filename: Some(f.filename.clone()),
                error: None,
                phase: "completed",
            }
        },
        Err(e) => ExportOutcome {
            status: "failed",
            disk_path: None,
            mime: None,
            filename: None,
            error: Some(e.text().to_owned()),
            phase: "failed",
        },
    }
}

/// The disposition header of a downloaded export.
pub fn text_response(filename: &str) -> (r: String)
    ensures
        r@ == "attachment; filename=\""@ + filename@ + "\""@,
{
    joined3("attachment; filename=\"", filename, "\"")
}

/// An export that was made can be downloaded by whoever asked for it.
pub proof fn made_exports_can_be_downloaded(ctx: AuthContext, who: Id, path: Seq<char>)
    requires
        ctx.is(who),
    ensures
        download_refusal(ctx, Some(who), "ready"@, Some(path)) is None,
{
}

/// How many exports are listed.
pub const MAX_EXPORTS_SHOWN: usize = 100;

/// The exports that an account asked for, in their order. With each comes who asked.
pub open spec fn exports_of(rows: Seq<(Id, ExportRecord)>, me: Id) -> Seq<ExportRecord>
    decreases rows.len(),
{
    if rows.len() == 0 {
        Seq::empty()
    } else {
        let before = exports_of(rows.drop_last(), me);
        if rows.last().0 == me {
            before.push(rows.last().1)
        } else {
            before
        }
    }
}

/// The caller's exports: the newest so many, the newest first.
pub fn list_exports(ctx: &AuthContext, rows: Vec<(Id, ExportRecord)>) -> (r: Result<
    Vec<ExportRow>,
    AppError,
>)
    ensures
        match r {
            Ok(v) => ctx.user_id matches Some(me) && {
                let own = exports_of(highest_first(rows@), me);
                &&& v@.len() == (if own.len() < MAX_EXPORTS_SHOWN {
                    own.len()
                } else {
                    MAX_EXPORTS_SHOWN as nat
                })
                &&& forall|i: int| 0 <= i < v@.len() ==> export_shown(own[i], #[trigger] v@[i])
            },
            Err(e) => ctx.user_id is None && e@ == Refusal::Forbidden("a user is required"@),
        },
{
    let me = match ctx.user_id {
        Some(id) => id,
        None => {
            return Err(forbidden("a user is required"));
        },
    };
    let rows = rank_list(rows);
    let n: usize = rows.len();
    let mut rest = rows;
    let mut out: Vec<ExportRow> = Vec::new();
    let mut i: usize = 0;
    assert(rows@.take(0) == Seq::<(Id, ExportRecord)>::empty());
    while i < n
        invariant
            n == rows@.len(),
            i <= n,
            rest@ == rows@.skip(i as int),
            out@.len() == (if exports_of(rows@.take(i as int), me).len() < MAX_EXPORTS_SHOWN {
                exports_of(rows@.take(i as int), me).len()
            } else {
                MAX_EXPORTS_SHOWN as nat
            }),
            forall|k: int|
                0 <= k < out@.len() ==> export_shown(
                    exports_of(rows@.take(i as int), me)[k],
                    #[trigger] out@[k],
                ),
        decreases n - i,
    {
        let row = rest.remove(0);
        assert(row == rows@[i as int]);
        assert(rest@ =~= rows@.skip(i as int + 1));
        assert(rows@.take(i as int + 1).drop_last() == rows@.take(i as int));
        if row.0 == me && out.len() < MAX_EXPORTS_SHOWN {
            out.push(export_row(row.1));
        }
        i = i + 1;
    }
    assert(rows@.take(rows@.len() as int) == rows@);
    Ok(out)
}

/// An export, for whoever asked for it.
pub fn get_export(ctx: &AuthContext, requester: Option<Id>, x: ExportRecord) -> (r: Result<
    ExportRow,
    AppError,
>)
    ensures
        refusal(r) == access_refusal(*ctx, requester),
        r matches Ok(row) ==> export_shown(x, row),
{
    match require_export_access(ctx, requester) {
        Ok(_) => Ok(export_row(x)),
        Err(e) => Err(e),
    }
}

/// One more message makes the transcript longer by its heading and its words, however long the
/// conversation is; without messages the transcript is its title.
pub proof fn transcripts_grow_by_each_message(
    title: Seq<char>,
    messages: Seq<ChatMessage>,
    m: ChatMessage,
)
    ensures
        transcript_of(title, Seq::empty()) == "# "@ + title + "\n\n"@,
        transcript_of(title, messages.push(m)) == transcript_of(title, messages) + ("## "@ + m.role@
            + "\n\n"@ + m.content@ + "\n\n"@),
{
    let head = "# "@ + title + "\n\n"@;
    assert(messages.push(m).drop_last() =~= messages);
    assert(messages.push(m).last() == m);
    assert(messages_text(Seq::<ChatMessage>::empty()) =~= Seq::<char>::empty());
    assert(head + Seq::<char>::empty() =~= head);
    assert(transcript_of(title, messages.push(m)) =~= transcript_of(title, messages) + ("## "@
        + m.role@ + "\n\n"@ + m.content@ + "\n\n"@));
}

/// A transcript holds every message of its conversation in full, behind the transcript of what
/// came before it.
pub proof fn transcripts_hold_every_message(title: Seq<char>, messages: Seq<ChatMessage>, i: int)
    requires
        0 <= i < messages.len(),
    ensures
        ({
            let before = transcript_of(title, messages.take(i));
            let said = "## "@ + messages[i].role@ + "\n\n"@ + messages[i].content@ + "\n\n"@;
            let all = transcript_of(title, messages);
            &&& all.len() >= before.len() + said.len()
            &&& all.take((before.len() + said.len()) as int) == before + said
        }),
    decreases messages.len(),
{
    let before = transcript_of(title, messages.take(i));
    let said = "## "@ + messages[i].role@ + "\n\n"@ + messages[i].content@ + "\n\n"@;
    let front = messages.drop_last();
    assert(messages =~= front.push(messages.last()));
    transcripts_grow_by_each_message(title, front, messages.last());
    let n = (before.len() + said.len()) as int;
    if i < front.len() {
        assert(front.take(i) =~= messages.take(i));
        transcripts_hold_every_message(title, front, i);
        assert(transcript_of(title, messages).take(n) =~= transcript_of(title, front).take(n));
    } else {
        assert(front =~= messages.take(i));
        assert(transcript_of(title, messages).take(n) =~= before + said);
    }
}

/// An account is shown every export that it asked for, and no other.
pub proof fn exports_are_ones_own(me: Id, s: Seq<(Id, ExportRecord)>)
    ensures
        exports_of(s, me)
            == s.filter(|x: (Id, ExportRecord)| x.0 == me).map_values(|x: (Id, ExportRecord)| x.1),
    decreases s.len(),
{
    let p = |x: (Id, ExportRecord)| x.0 == me;
    selects_last(s, p);
    if s.len() > 0 {
        exports_are_ones_own(me, s.drop_last());
    }
    assert(exports_of(s, me) =~= s.filter(p).map_values(|x: (Id, ExportRecord)| x.1));
}

/// The messages of a transcript stand by their number, the lowest first.
pub proof fn transcripts_are_in_order(rows: Seq<ChatMessage>, i: int, j: int)
    requires
        0 <= i < j < rows.len(),
    ensures
        highest_first(rows)[i].sequence_number <= highest_first(rows)[j].sequence_number,
{
    ordered_lists_descend(rows, i, j);
}

/// Records of messages stand by their chat, and in a chat by their number.
pub proof fn records_are_in_order(rows: Seq<MessageRecord>, i: int, j: int)
    requires
        0 <= i < j < rows.len(),
    ensures
        highest_first(rows)[i].chat_id < highest_first(rows)[j].chat_id
            || (
                highest_first(rows)[i].chat_id == highest_first(rows)[j].chat_id
                    && highest_first(rows)[i].sequence_number
                        <= highest_first(rows)[j].sequence_number
            ),
{
    ordered_lists_descend(rows, i, j);
}

/// Exports are listed by when they were asked for, the latest first.
pub proof fn newer_exports_come_first(rows: Seq<(Id, ExportRecord)>, i: int, j: int)
    requires
        0 <= i < j < rows.len(),
    ensures
        highest_first(rows)[i].1.created_at >= highest_first(rows)[j].1.created_at,
{
    ordered_lists_descend(rows, i, j);
}

/// Exports of all the platform are for administrators and for those who broke the glass. A chat is
/// read by its owner, by administrators, by those who read its project and by those it is shared
/// with.
pub proof fn who_exports(
    ctx: AuthContext,
    title: Option<Seq<char>>,
    format: Seq<char>,
    owner: Id,
    project_id: Option<Id>,
    reads_project: bool,
    shared_with: bool,
)
    ensures
        admin_refusal(ctx) is None <==> ctx.admin || ctx.break_glass,
        build_refusal(title, format) is None
            <==> title is Some && (format == "json"@ || format == "md"@ || format == "pdf"@),
        reads_chat(ctx, owner, project_id, reads_project, shared_with)
            <==> (
                ctx.user_id == Some(owner)
                    || ctx.admin
                    || (project_id is Some && reads_project)
                    || (ctx.user_id is Some && shared_with)
            ),
        queued_format(None) == "json"@,
        queued_format(Some(format)) == format,
{
}

/// An export is queued for somebody with an account, within the rate and with fewer than three under
/// way: of a chat that may be read, in a format that there is, of a project or of the audit trail.
pub proof fn which_exports_are_queued(ctx: AuthContext, body: CreateExport, f: QueueFacts)
    ensures
        kind_refusal(ctx, body, f) is None
            <==> (
                (
                    body.kind@ == "chat"@
                        && body.target_id is Some
                        && f.chat_refusal is None
                        && (
                            body.format matches Some(x)
                                ==> (x@ == "json"@ || x@ == "md"@ || x@ == "pdf"@)
                        )
                )
                    || (
                        body.kind@ == "project_db"@
                            && (ctx.admin || ctx.break_glass)
                            && body.target_id is Some
                    )
                    || (
                        body.kind@ == "audit"@
                            && (ctx.admin || ctx.break_glass)
                            && f.audit_refusal is None
                    )
            ),
        queue_refusal(ctx, body, f) is None
            <==> ctx.user_id is Some
                && f.within_rate
                && f.inflight < 3
                && (
                    (
                        body.kind@ == "chat"@
                            && body.target_id is Some
                            && f.chat_refusal is None
                            && (
                                body.format matches Some(x)
                                    ==> (x@ == "json"@ || x@ == "md"@ || x@ == "pdf"@)
                            )
                    )
                        || (
                            body.kind@ == "project_db"@
                                && (ctx.admin || ctx.break_glass)
                                && body.target_id is Some
                        )
                        || (
                            body.kind@ == "audit"@
                                && (ctx.admin || ctx.break_glass)
                                && f.audit_refusal is None
                        )
                ),
{
    reveal_strlit("chat");
    reveal_strlit("project_db");
    reveal_strlit("audit");
    reveal_strlit("json");
    assert("chat"@.len() != "project_db"@.len() && "chat"@.len() != "audit"@.len());
    assert("project_db"@.len() != "audit"@.len());
}

/// An export is had by whoever asked for it and by administrators, and downloaded once it is ready.
pub proof fn who_has_exports(
    ctx: AuthContext,
    requester: Option<Id>,
    status: Seq<char>,
    path: Option<Seq<char>>,
    job: Option<ExportJob>,
    chat: Option<ReadableChat>,
    reads_project: bool,
    shared_with: bool,
)
    ensures
        access_refusal(ctx, requester) is None
            <==> requester is Some && (ctx.user_id == requester || ctx.admin),
        download_refusal(ctx, requester, status, path) is None
            <==> requester is Some
                && (ctx.user_id == requester || ctx.admin)
                && status == "ready"@
                && path is Some,
        plan_refusal(job) is None <==> job is Some,
        chat_read_refusal(ctx, chat, reads_project, shared_with) is None
            <==> (
                chat matches Some(c)
                    && (
                        ctx.user_id == Some(c.owner_user_id)
                            || ctx.admin
                            || (c.project_id is Some && reads_project)
                            || (ctx.user_id is Some && shared_with)
                    )
            ),
{
}

/// A project's documents are exported where they are allowed, each as it is, in their order.
pub proof fn documents_are_exported_as_allowed(allowed: Seq<Id>, s: Seq<DocumentRecord>)
    ensures
        allowed_documents(s, allowed)
            == s.filter(
                |x: DocumentRecord| allowed.contains(x.id)
            ).map_values(|x: DocumentRecord| document_json(x)),
    decreases s.len(),
{
    let p = |x: DocumentRecord| allowed.contains(x.id);
    selects_last(s, p);
    if s.len() > 0 {
        documents_are_exported_as_allowed(allowed, s.drop_last());
    }
    assert(
        allowed_documents(s, allowed) =~= s.filter(p).map_values(
            |x: DocumentRecord| document_json(x)
        )
    );
}

/// What makes exports of a kind is what was entered for it last, and nothing else.
pub proof fn exporters_are_found_by_their_kind<H>(s: Seq<(String, H)>)
    ensures
        forall|k: int| 0 <= k < s.len() ==> made_by::<H>(s).contains_key((#[trigger] s[k]).0@),
        forall|k: int|
            0 <= k < s.len() && (forall|j: int| k < j < s.len() ==> (#[trigger] s[j]).0@ != s[k].0@)
                ==> made_by::<H>(s)[(#[trigger] s[k]).0@] == s[k].1,
        forall|q| #[trigger] made_by::<H>(s).contains_key(q) ==> exists|k: int|
            0 <= k < s.len() && (#[trigger] s[k]).0@ == q,
    decreases s.len(),
{
    if s.len() > 0 {
        let front = s.drop_last();
        exporters_are_found_by_their_kind(front);
        assert(s[s.len() - 1] == s.last());
        assert forall|k: int|
            0 <= k < s.len()
            implies made_by::<H>(s).contains_key((#[trigger] s[k]).0@) by {
            if k < front.len() {
                assert(front[k] == s[k]);
            }
        }
        assert forall|k: int|
            0 <= k < s.len() && (forall|j: int| k < j < s.len() ==> (#[trigger] s[j]).0@ != s[k].0@)
                implies made_by::<H>(s)[(#[trigger] s[k]).0@] == s[k].1 by {
            if k < front.len() {
                assert(front[k] == s[k]);
                assert(s[s.len() - 1].0@ != s[k].0@);
                assert forall|j: int|
                    k < j < front.len()
                    implies (#[trigger] front[j]).0@ != front[k].0@ by {
                    assert(s[j] == front[j]);
                }
            }
        }
        assert forall|q| #[trigger] made_by::<H>(s).contains_key(q) implies exists|k: int|
            0 <= k < s.len() && (#[trigger] s[k]).0@ == q by {
            if s.last().0@ != q {
                assert(made_by::<H>(front).contains_key(q));
                let k = choose|k: int| 0 <= k < front.len() && (#[trigger] front[k]).0@ == q;
                assert(s[k] == front[k]);
            }
        }
    }
}

/// What stands in `kind_doc` under each name; there is no other name in it.
pub proof fn what_kind_doc_holds(kind: Seq<char>)
    ensures
        member_at(kind_doc(kind), "kind"@) == Some(Json::Text(kind)),
        forall|name: Seq<char>|
            #[trigger] member_at(kind_doc(kind), name) is Some ==> name == "kind"@,
{
}

/// What stands in `message_json` under each name; there is no other name in it.
pub proof fn what_message_json_holds(m: ChatMessage)
    ensures
        member_at(message_json(m), "role"@) == Some(Json::Text(m.role@)),
        member_at(message_json(m), "content"@) == Some(Json::Text(m.content@)),
        member_at(message_json(m), "seq"@) == Some(Json::Number(m.sequence_number as int)),
        forall|name: Seq<char>|
            #[trigger] member_at(message_json(m), name) is Some
                ==> name == "role"@ || name == "content"@ || name == "seq"@,
{
    reveal_strlit("role");
    reveal_strlit("content");
    reveal_strlit("seq");
    assert("role"@.len() != "content"@.len());
    assert("role"@.len() != "seq"@.len());
    assert("content"@.len() != "seq"@.len());
}

/// What stands in `project_json` under each name; there is no other name in it.
pub proof fn what_project_json_holds(p: ProjectRecord)
    ensures
        member_at(project_json(p), "id"@) == Some(Json::Text(id_text(p.id))),
        member_at(project_json(p), "name"@) == Some(Json::Text(p.name@)),
        member_at(project_json(p), "description"@) == Some(text_or_null(opt_text(p.description))),
        member_at(project_json(p), "sector"@) == Some(Json::Text(p.sector@)),
        member_at(project_json(p), "created_at"@) == Some(Json::Text(spelled(p.created_at))),
        forall|name: Seq<char>|
            #[trigger] member_at(project_json(p), name) is Some
                ==> name == "id"@
                    || name == "name"@
                    || name == "description"@
                    || name == "sector"@
                    || name == "created_at"@,
{
    reveal_strlit("id");
    reveal_strlit("name");
    reveal_strlit("description");
    reveal_strlit("sector");
    reveal_strlit("created_at");
    assert("id"@.len() != "name"@.len());
    assert("id"@.len() != "description"@.len());
    assert("id"@.len() != "sector"@.len());
    assert("id"@.len() != "created_at"@.len());
    assert("name"@.len() != "description"@.len());
    assert("name"@.len() != "sector"@.len());
    assert("name"@.len() != "created_at"@.len());
    assert("description"@.len() != "sector"@.len());
    assert("description"@.len() != "created_at"@.len());
    assert("sector"@.len() != "created_at"@.len());
}

/// What stands in `chat_record_json` under each name; there is no other name in it.
pub proof fn what_chat_record_json_holds(c: ChatRecord)
    ensures
        member_at(chat_record_json(c), "id"@) == Some(Json::Text(id_text(c.id))),
        member_at(chat_record_json(c), "title"@) == Some(Json::Text(c.title@)),
        member_at(chat_record_json(c), "owner_user_id"@)
            == Some(Json::Text(id_text(c.owner_user_id))),
        member_at(chat_record_json(c), "created_at"@) == Some(Json::Text(spelled(c.created_at))),
        forall|name: Seq<char>|
            #[trigger] member_at(chat_record_json(c), name) is Some
                ==> name == "id"@
                    || name == "title"@
                    || name == "owner_user_id"@
                    || name == "created_at"@,
{
    reveal_strlit("id");
    reveal_strlit("title");
    reveal_strlit("owner_user_id");
    reveal_strlit("created_at");
    assert("id"@.len() != "title"@.len());
    assert("id"@.len() != "owner_user_id"@.len());
    assert("id"@.len() != "created_at"@.len());
    assert("title"@.len() != "owner_user_id"@.len());
    assert("title"@.len() != "created_at"@.len());
    assert("owner_user_id"@.len() != "created_at"@.len());
}

/// What stands in `message_record_json` under each name; there is no other name in it.
pub proof fn what_message_record_json_holds(m: MessageRecord)
    ensures
        member_at(message_record_json(m), "id"@) == Some(Json::Text(id_text(m.id))),
        member_at(message_record_json(m), "chat_id"@) == Some(Json::Text(id_text(m.chat_id))),
        member_at(message_record_json(m), "role"@) == Some(Json::Text(m.role@)),
        member_at(message_record_json(m), "content"@) == Some(Json::Text(m.content@)),
        member_at(message_record_json(m), "seq"@) == Some(Json::Number(m.sequence_number as int)),
        forall|name: Seq<char>|
            #[trigger] member_at(message_record_json(m), name) is Some
                ==> name == "id"@
                    || name == "chat_id"@
                    || name == "role"@
                    || name == "content"@
                    || name == "seq"@,
{
    reveal_strlit("id");
    reveal_strlit("chat_id");
    reveal_strlit("role");
    reveal_strlit("content");
    reveal_strlit("seq");
    assert("id"@.len() != "chat_id"@.len());
    assert("id"@.len() != "role"@.len());
    assert("id"@.len() != "content"@.len());
    assert("id"@.len() != "seq"@.len());
    assert("chat_id"@.len() != "role"@.len());
    assert("chat_id"@[1] != "content"@[1]);
    assert("chat_id"@.len() != "seq"@.len());
    assert("role"@.len() != "content"@.len());
    assert("role"@.len() != "seq"@.len());
    assert("content"@.len() != "seq"@.len());
}

/// What stands in `fact_json` under each name; there is no other name in it.
pub proof fn what_fact_json_holds(f: FactRecord)
    ensures
        member_at(fact_json(f), "id"@) == Some(Json::Text(id_text(f.id))),
        member_at(fact_json(f), "content"@) == Some(Json::Text(f.content@)),
        member_at(fact_json(f), "pinned"@) == Some(Json::Flag(f.pinned)),
        forall|name: Seq<char>|
            #[trigger] member_at(fact_json(f), name) is Some
                ==> name == "id"@ || name == "content"@ || name == "pinned"@,
{
    reveal_strlit("id");
    reveal_strlit("content");
    reveal_strlit("pinned");
    assert("id"@.len() != "content"@.len());
    assert("id"@.len() != "pinned"@.len());
    assert("content"@.len() != "pinned"@.len());
}

/// What stands in `review_json` under each name; there is no other name in it.
pub proof fn what_review_json_holds(x: ReviewRecord)
    ensures
        member_at(review_json(x), "id"@) == Some(Json::Text(id_text(x.id))),
        member_at(review_json(x), "name"@) == Some(Json::Text(x.name@)),
        member_at(review_json(x), "status"@) == Some(Json::Text(x.status@)),
        forall|name: Seq<char>|
            #[trigger] member_at(review_json(x), name) is Some
                ==> name == "id"@ || name == "name"@ || name == "status"@,
{
    reveal_strlit("id");
    reveal_strlit("name");
    reveal_strlit("status");
    assert("id"@.len() != "name"@.len());
    assert("id"@.len() != "status"@.len());
    assert("name"@.len() != "status"@.len());
}

/// An export is shown as it is stored.
pub proof fn exports_are_shown_whole(x: ExportRecord, r: ExportRow)
    ensures
        export_shown(x, r) ==> {
            &&& r.id == x.id
            &&& r.kind == x.kind
            &&& r.status == x.status
            &&& r.format == x.format
            &&& r.target_id == x.target_id
            &&& r.filename == x.filename
            &&& r.error == x.error
            &&& r.created_at@ == spelled(x.created_at)
            &&& opt_text(r.completed_at)
                    == (match x.completed_at { Some(t) => Some(spelled(t)), None => None, })
        },
{
}

/// A chat is exported as data, as text or as a page, each under the chat's name.
pub proof fn chats_are_exported_in_their_format(
    chat_id: Id,
    title: Seq<char>,
    messages: Seq<ChatMessage>,
    e: ChatExport,
    stem: Seq<char>,
    ending: Seq<char>,
)
    ensures
        exported(chat_id, title, messages, "json"@, e)
            ==> (
                e matches ChatExport::File(f)
                    && parsed(f.bytes@) == Some(chat_json(chat_id, title, messages))
                    && f.mime@ == "application/json"@
                    && f.filename@ == underscored(title, true, true) + ".json"@
            ),
        exported(chat_id, title, messages, "md"@, e)
            ==> (
                e matches ChatExport::File(f)
                    && f.bytes@ == encode_utf8(transcript_of(title, messages))
                    && f.mime@ == "text/markdown"@
                    && f.filename@ == underscored(title, true, true) + ".md"@
            ),
        exported(chat_id, title, messages, "pdf"@, e)
            ==> (
                e matches ChatExport::Render { title: t, transcript: x }
                    && t@ == title
                    && x@ == transcript_of(title, messages)
            ),
        !ending.contains('.') ==> extension(stem.push('.') + ending) == ending,
        !ending.contains('.') ==> extension(ending) == "bin"@,
{
    reveal_strlit("json");
    reveal_strlit("md");
    reveal_strlit("pdf");
    assert("json"@.len() != "md"@.len());
    assert("json"@.len() != "pdf"@.len());
    assert("md"@.len() != "pdf"@.len());
    cuts_at_last_where_marked(stem, ending, '.');
}

/// A job exports the chat or the project that it names, and fails where it names none; of another kind
/// it goes to what was registered for that, and fails where nothing was.
pub proof fn jobs_are_planned_by_their_kind(job: ExportJob, registered: bool, p: ExportPlan)
    ensures
        plan_for(job, registered, p) && job.kind@ == "chat"@ && job.target_id is Some
            ==> p == ExportPlan::Chat(job.target_id->0),
        plan_for(job, registered, p) && job.kind@ == "project_db"@ && job.target_id is Some
            ==> p == (ExportPlan::Project { project: job.target_id->0, viewer: job.requested_by }),
        plan_for(job, registered, p)
            && (job.kind@ == "chat"@ || job.kind@ == "project_db"@)
            && job.target_id is None
            ==> p is Fail,
        plan_for(job, registered, p) && job.kind@ != "chat"@ && job.kind@ != "project_db"@
            ==> (registered ==> p is Registered) && (!registered ==> p is Fail),
{
    reveal_strlit("chat");
    reveal_strlit("project_db");
    assert("chat"@.len() != "project_db"@.len());
}

/// An export of a project holds the project, its chats, messages, memories and reviews, each as it is,
/// the documents that are allowed, and how many were left out.
pub proof fn what_project_exports_hold(p: ProjectRecord, r: ProjectRecords, allowed: Seq<Id>)
    ensures
        member_at(project_document(p, r, allowed), "project"@) == Some(project_json(p)),
        member_at(project_document(p, r, allowed), "chats"@)
            == Some(Json::List(r.chats@.map_values(|c: ChatRecord| chat_record_json(c)))),
        member_at(project_document(p, r, allowed), "messages"@)
            == Some(
                Json::List(
                    highest_first(r.messages@).map_values(|m: MessageRecord| message_record_json(m))
                )
            ),
        member_at(project_document(p, r, allowed), "memory_facts"@)
            == Some(Json::List(r.memory@.map_values(|f: FactRecord| fact_json(f)))),
        member_at(project_document(p, r, allowed), "documents"@)
            == Some(
                Json::List(
                    r.documents@.filter(
                        |x: DocumentRecord| allowed.contains(x.id)
                    ).map_values(|x: DocumentRecord| document_json(x))
                )
            ),
        member_at(project_document(p, r, allowed), "documents_excluded_by_source_acl"@)
            == Some(
                Json::Number(
                    r.documents@.len() - r.documents@.filter(
                        |x: DocumentRecord| allowed.contains(x.id)
                    ).len()
                )
            ),
        member_at(project_document(p, r, allowed), "tabular_reviews"@)
            == Some(Json::List(r.reviews@.map_values(|x: ReviewRecord| review_json(x)))),
        member_at(project_document(p, r, allowed), "note"@) == Some(Json::Text(EXPORT_NOTE@)),
        forall|name: Seq<char>|
            #[trigger] member_at(project_document(p, r, allowed), name) is Some
                ==> name == "project"@
                    || name == "chats"@
                    || name == "messages"@
                    || name == "memory_facts"@
                    || name == "documents"@
                    || name == "documents_excluded_by_source_acl"@
                    || name == "tabular_reviews"@
                    || name == "note"@,
{
    reveal_strlit("project");
    reveal_strlit("chats");
    reveal_strlit("messages");
    reveal_strlit("memory_facts");
    reveal_strlit("documents");
    reveal_strlit("documents_excluded_by_source_acl");
    reveal_strlit("tabular_reviews");
    reveal_strlit("note");
    assert("project"@.len() != "chats"@.len());
    assert("project"@.len() != "messages"@.len());
    assert("project"@.len() != "memory_facts"@.len());
    assert("project"@.len() != "documents"@.len());
    assert("project"@.len() != "documents_excluded_by_source_acl"@.len());
    assert("project"@.len() != "tabular_reviews"@.len());
    assert("project"@.len() != "note"@.len());
    assert("chats"@.len() != "messages"@.len());
    assert("chats"@.len() != "memory_facts"@.len());
    assert("chats"@.len() != "documents"@.len());
    assert("chats"@.len() != "documents_excluded_by_source_acl"@.len());
    assert("chats"@.len() != "tabular_reviews"@.len());
    assert("chats"@.len() != "note"@.len());
    assert("messages"@.len() != "memory_facts"@.len());
    assert("messages"@.len() != "documents"@.len());
    assert("messages"@.len() != "documents_excluded_by_source_acl"@.len());
    assert("messages"@.len() != "tabular_reviews"@.len());
    assert("messages"@.len() != "note"@.len());
    assert("memory_facts"@.len() != "documents"@.len());
    assert("memory_facts"@.len() != "documents_excluded_by_source_acl"@.len());
    assert("memory_facts"@.len() != "tabular_reviews"@.len());
    assert("memory_facts"@.len() != "note"@.len());
    assert("documents"@.len() != "documents_excluded_by_source_acl"@.len());
    assert("documents"@.len() != "tabular_reviews"@.len());
    assert("documents"@.len() != "note"@.len());
    assert("documents_excluded_by_source_acl"@.len() != "tabular_reviews"@.len());
    assert("documents_excluded_by_source_acl"@.len() != "note"@.len());
    assert("tabular_reviews"@.len() != "note"@.len());
    documents_are_exported_as_allowed(allowed, r.documents@);
}

/// Of several things that are wrong, `admin_refusal` tells the first.
pub proof fn admin_refusal_tells_the_first_thing(ctx: AuthContext)
    ensures
        (ctx.admin || ctx.break_glass) ==> admin_refusal(ctx) is None,
        !(ctx.admin || ctx.break_glass)
            ==> admin_refusal(ctx) == Some(Refusal::Forbidden("admin only"@)),
{
}

/// Of several things that are wrong, `build_refusal` tells the first.
pub proof fn build_refusal_tells_the_first_thing(title: Option<Seq<char>>, format: Seq<char>)
    ensures
        title is None
            ==> build_refusal(title, format) == Some(Refusal::Validation("chat not found"@)),
        !(title is None) && !is_chat_format(format)
            ==> build_refusal(title, format)
                == Some(Refusal::Validation("unknown export format: "@ + format)),
        !(title is None) && is_chat_format(format) ==> build_refusal(title, format) is None,
{
}

/// Of several things that are wrong, `queue_refusal` tells the first.
pub proof fn queue_refusal_tells_the_first_thing(
    ctx: AuthContext,
    body: CreateExport,
    f: QueueFacts,
)
    ensures
        ctx.user_id is None
            ==> queue_refusal(ctx, body, f) == Some(Refusal::Forbidden("a user is required"@)),
        !(ctx.user_id is None) && !f.within_rate
            ==> queue_refusal(ctx, body, f)
                == Some(Refusal::TooManyRequests("export rate limit; try again shortly"@)),
        !(ctx.user_id is None) && f.within_rate && f.inflight >= MAX_INFLIGHT_EXPORTS
            ==> queue_refusal(ctx, body, f)
                == Some(
                    Refusal::Validation(
                        "too many exports in progress ("@
                            + signed_decimal(f.inflight as int)
                            + "); wait for one to finish"@
                    )
                ),
        !(ctx.user_id is None) && f.within_rate && !(f.inflight >= MAX_INFLIGHT_EXPORTS)
            ==> queue_refusal(ctx, body, f) == kind_refusal(ctx, body, f),
{
}

/// Of several things that are wrong, `download_refusal` tells the first.
pub proof fn download_refusal_tells_the_first_thing(
    ctx: AuthContext,
    requester: Option<Id>,
    status: Seq<char>,
    path: Option<Seq<char>>,
)
    ensures
        access_refusal(ctx, requester) is Some
            ==> download_refusal(ctx, requester, status, path) == access_refusal(ctx, requester),
        !(access_refusal(ctx, requester) is Some) && status != "ready"@
            ==> download_refusal(ctx, requester, status, path)
                == Some(Refusal::Conflict("export is '"@ + status + "', not ready"@)),
        !(access_refusal(ctx, requester) is Some) && !(status != "ready"@) && path is None
            ==> download_refusal(ctx, requester, status, path)
                == Some(Refusal::Other("ready export has no path"@)),
        !(access_refusal(ctx, requester) is Some) && !(status != "ready"@) && !(path is None)
            ==> download_refusal(ctx, requester, status, path) is None,
{
}

/// An export that is not there is not found, and that of somebody else is forbidden.
pub proof fn exports_of_others_are_refused(ctx: AuthContext, owner: Option<Id>)
    ensures
        access_refusal(ctx, None) == Some(Refusal::Validation("export not found"@)),
        owner is Some && ctx.user_id != owner && !ctx.admin
            ==> access_refusal(ctx, owner) == Some(Refusal::Forbidden("not your export"@)),
{
}

} // verus!
