//! Conversations: which of them are listed, what is in them, and with whom they are shared.

use vstd::prelude::*;
use vstd::string::*;

use crate::lists::{selects_just, selects_last};
use crate::clock::{show, shown, Instant};
use crate::error::{forbidden, refusal, validation, AppError, Refusal};
use crate::http::export::{chat_read_refusal, require_chat_read, ReadableChat};
use crate::http::first;
use crate::order::{
    above,
    highest_first,
    ordered_lists_are_whole,
    ordered_lists_descend,
    ordered_lists_hold_the_same,
    rank_list,
    Ranked,
};
use crate::principal::{AuthContext, Id};
use crate::text::{as_text, blank, joined, joined3, opt_text, same, trim, trimmed};
use crate::trail::{entry_by, record_by, AuditEvent};

verus! {

/// A stored conversation.
pub struct ChatRow {
    pub id: Id,
    pub owner_user_id: Id,
    pub archived: bool,
    pub title: String,
    pub project_id: Option<Id>,
    pub agent_id: Option<Id>,
    pub created_at: Instant,
    pub mode: String,
    pub research_params: Option<serde_json::Value>,
    pub origin: String,
}

impl Ranked for ChatRow {
    /// What was begun last comes first.
    open spec fn rank(self) -> (int, int) {
        (self.created_at as int, 0)
    }

    fn outranks(&self, other: &ChatRow) -> (r: bool) {
        self.created_at > other.created_at
    }
}

pub struct ChatSummary {
    pub id: Id,
    pub title: String,
    pub project_id: Option<Id>,
    pub agent_id: Option<Id>,
    pub created_at: String,
    pub mode: String,
    pub research_params: Option<serde_json::Value>,
    pub origin: String,
}

pub struct ListChatsParams {
    pub mode: Option<String>,
}

impl Default for ListChatsParams {
    /// No mode in particular.
    fn default() -> (r: ListChatsParams)
        ensures
            r.mode is None,
    {
        ListChatsParams { mode: None }
    }
}

pub open spec fn is_chat_mode(m: Seq<char>) -> bool {
    m == "general"@ || m == "legal"@ || m == "research"@
}

pub open spec fn listing_refusal(ctx: AuthContext, mode: Option<Seq<char>>) -> Option<Refusal> {
    if ctx.user_id is None {
        Some(Refusal::Forbidden("a user is required"@))
    } else if mode matches Some(m) && !is_chat_mode(m) {
        Some(Refusal::Validation("unknown chat mode '"@ + mode->0 + "'"@))
    } else {
        None
    }
}

/// Whether a conversation is listed where `mode` is asked for. Those of other applications
/// are not, and research is listed where it is asked for alone.
pub open spec fn is_shown(chat_mode: Seq<char>, origin: Seq<char>, mode: Option<Seq<char>>) -> bool {
    origin != "api"@ && match mode {
        None => chat_mode != "research"@,
        Some(m) => chat_mode == m,
    }
}

pub fn belongs_in_list(chat_mode: &str, origin: &str, mode: Option<&str>) -> (r: bool)
    ensures
        r == is_shown(chat_mode@, origin@, crate::text::opt_str(mode)),
{
    if same(origin, "api") {
        return false;
    }
    match mode {
        None => !same(chat_mode, "research"),
        Some(m) => same(chat_mode, m),
    }
}

/// Whether a conversation is listed to the caller: one of their own that is not archived.
pub open spec fn chat_is_listed(ctx: AuthContext, row: ChatRow, mode: Option<Seq<char>>) -> bool {
    &&& ctx.is(row.owner_user_id)
    &&& !row.archived
    &&& is_shown(row.mode@, row.origin@, mode)
}

/// The conversations that are listed, in the order in which they are stored.
pub open spec fn listed_chats(ctx: AuthContext, rows: Seq<ChatRow>, mode: Option<Seq<char>>) -> Seq<
    ChatRow,
>
    decreases rows.len(),
{
    if rows.len() == 0 {
        Seq::empty()
    } else {
        let before = listed_chats(ctx, rows.drop_last(), mode);
        if chat_is_listed(ctx, rows.last(), mode) {
            before.push(rows.last())
        } else {
            before
        }
    }
}

pub open spec fn summarises(row: ChatRow, s: ChatSummary) -> bool {
    &&& s.id == row.id
    &&& s.title == row.title
    &&& s.project_id == row.project_id
    &&& s.agent_id == row.agent_id
    &&& s.created_at@ == shown(row.created_at)
    &&& s.mode == row.mode
    &&& s.research_params == row.research_params
    &&& s.origin == row.origin
}

/// The caller's conversations, the newest first.
pub fn list_chats(ctx: &AuthContext, params: &ListChatsParams, rows: Vec<ChatRow>) -> (r: Result<
    Vec<ChatSummary>,
    AppError,
>)
    ensures
        refusal(r) == listing_refusal(*ctx, opt_text(params.mode)),
        r matches Ok(v) ==> {
            let shown_rows = highest_first(listed_chats(*ctx, rows@, opt_text(params.mode)));
            &&& v@.len() == shown_rows.len()
            &&& forall|i: int| 0 <= i < v@.len() ==> summarises(shown_rows[i], #[trigger] v@[i])
        },
{
    if ctx.user_id.is_none() {
        return Err(forbidden("a user is required"));
    }
    match &params.mode {
        Some(m) => {
            if !same(m.as_str(), "general") && !same(m.as_str(), "legal") && !same(
                m.as_str(),
                "research",
            ) {
                return Err(
                    AppError::Validation(joined3("unknown chat mode '", m.as_str(), "'")),
                );
            }
        },
        None => {},
    }
    let mode = as_text(&params.mode);
    let ghost m = opt_text(params.mode);
    let n: usize = rows.len();
    let mut rest = rows;
    let mut found: Vec<ChatRow> = Vec::new();
    let mut i: usize = 0;
    assert(rows@.take(0) == Seq::<ChatRow>::empty());
    while i < n
        invariant
            n == rows@.len(),
            i <= n,
            crate::text::opt_str(mode) == m,
            rest@ == rows@.skip(i as int),
            found@ == listed_chats(*ctx, rows@.take(i as int), m),
        decreases n - i,
    {
        let row = rest.remove(0);
        assert(row == rows@[i as int]);
        assert(rest@ =~= rows@.skip(i as int + 1));
        assert(rows@.take(i as int + 1).drop_last() == rows@.take(i as int));
        if ctx.is_user(row.owner_user_id) && !row.archived && belongs_in_list(
            row.mode.as_str(),
            row.origin.as_str(),
            mode,
        ) {
            found.push(row);
        }
        i = i + 1;
    }
    assert(rows@.take(n as int) == rows@);
    Ok(summaries(rank_list(found)))
}

fn summaries(rows: Vec<ChatRow>) -> (r: Vec<ChatSummary>)
    ensures
        r@.len() == rows@.len(),
        forall|i: int| 0 <= i < r@.len() ==> summarises(rows@[i], #[trigger] r@[i]),
{
    let n: usize = rows.len();
    let mut rest = rows;
    let mut out: Vec<ChatSummary> = Vec::new();
    let mut i: usize = 0;
    while i < n
        invariant
            n == rows@.len(),
            i <= n,
            rest@ == rows@.skip(i as int),
            out@.len() == i,
            forall|k: int| 0 <= k < i ==> summarises(rows@[k], #[trigger] out@[k]),
        decreases n - i,
    {
        let row = rest.remove(0);
        assert(row == rows@[i as int]);
        assert(rest@ =~= rows@.skip(i as int + 1));
        out.push(
            ChatSummary {
                id: row.id,
                title: row.title,
                project_id: row.project_id,
                agent_id: row.agent_id,
                created_at: show(row.created_at),
                mode: row.mode,
                research_params: row.research_params,
                origin: row.origin,
            },
        );
        i = i + 1;
    }
    out
}

proof fn listed_chats_are_listed(
    ctx: AuthContext,
    rows: Seq<ChatRow>,
    mode: Option<Seq<char>>,
    i: int,
)
    requires
        0 <= i < listed_chats(ctx, rows, mode).len(),
    ensures
        chat_is_listed(ctx, listed_chats(ctx, rows, mode)[i], mode),
    decreases rows.len(),
{
    if i < listed_chats(ctx, rows.drop_last(), mode).len() {
        listed_chats_are_listed(ctx, rows.drop_last(), mode, i);
    }
}

/// No conversation of somebody else or of another application is listed, none that is archived,
/// and none of research where no mode is asked for; and none stands before a newer one.
pub proof fn lists_leave_out(
    ctx: AuthContext,
    rows: Seq<ChatRow>,
    mode: Option<Seq<char>>,
    i: int,
    j: int,
)
    requires
        0 <= i <= j < highest_first(listed_chats(ctx, rows, mode)).len(),
    ensures
        ({
            let all = highest_first(listed_chats(ctx, rows, mode));
            &&& ctx.is(all[i].owner_user_id)
            &&& !all[i].archived
            &&& all[i].origin@ != "api"@
            &&& mode is None ==> all[i].mode@ != "research"@
            &&& mode matches Some(m) ==> all[i].mode@ == m
            &&& all[j].created_at <= all[i].created_at
        }),
{
    broadcast use vstd::seq_lib::group_to_multiset_ensures;

    let some = listed_chats(ctx, rows, mode);
    let all = highest_first(some);
    ordered_lists_are_whole(some);
    assert(all.contains(all[i]));
    assert(all.to_multiset().count(all[i]) > 0);
    assert(some.contains(all[i]));
    listed_chats_are_listed(ctx, rows, mode, some.index_of(all[i]));
    if i < j {
        assert(!above(all[j].rank(), all[i].rank()));
    }
}

/// The most messages of a conversation that are loaded: the newest.
pub const MSG_CAP: usize = 1000;

pub struct AttachmentOut {
    pub id: Id,
    pub filename: String,
    pub mime: String,
    pub byte_size: i64,
}

/// A stored message.
pub struct MessageRow {
    pub id: Id,
    pub role: String,
    pub content: String,
    pub sequence_number: i32,
    pub created_at: Instant,
    pub activity: Option<serde_json::Value>,
    pub groundedness: Option<serde_json::Value>,
    pub completed: bool,
    pub interrupted: bool,
    pub review_decision: Option<String>,
}

impl Ranked for MessageRow {
    /// The higher its number, the newer a message is.
    open spec fn rank(self) -> (int, int) {
        (self.sequence_number as int, 0)
    }

    fn outranks(&self, other: &MessageRow) -> (r: bool) {
        self.sequence_number > other.sequence_number
    }
}

/// A message as it is shown, with the files and the sources that belong to it.
pub struct MessageOut<C> {
    pub id: Id,
    pub role: String,
    pub content: String,
    pub sequence_number: i32,
    pub created_at: String,
    pub activity: Option<serde_json::Value>,
    pub groundedness: Option<serde_json::Value>,
    pub streaming: bool,
    pub review_decision: Option<String>,
    pub attachments: Vec<AttachmentOut>,
    pub citations: Vec<C>,
}

/// An answer that is still being written.
pub open spec fn is_streaming(m: MessageRow) -> bool {
    !m.completed && !m.interrupted && m.role@ == "assistant"@
}

/// What belongs to a message, in the order it is kept in.
pub open spec fn belonging<T>(rows: Seq<(Id, T)>, id: Id) -> Seq<T>
    decreases rows.len(),
{
    if rows.len() == 0 {
        Seq::empty()
    } else {
        let before = belonging(rows.drop_last(), id);
        if rows.last().0 == id {
            before.push(rows.last().1)
        } else {
            before
        }
    }
}

/// Takes out what belongs to a message; what belongs to others stays.
fn take_belonging<T>(rows: &mut Vec<(Id, T)>, id: Id) -> (r: Vec<T>)
    ensures
        r@ == belonging(old(rows)@, id),
        forall|other: Id|
            #[trigger] belonging(final(rows)@, other) == (if other == id {
                Seq::empty()
            } else {
                belonging(old(rows)@, other)
            }),
{
    let ghost all = rows@;
    let n: usize = rows.len();
    let mut taken: Vec<T> = Vec::new();
    let mut kept: Vec<(Id, T)> = Vec::new();
    let mut i: usize = 0;
    assert(all.take(0) == Seq::<(Id, T)>::empty());
    while i < n
        invariant
            n == all.len(),
            i <= n,
            rows@ == all.skip(i as int),
            taken@ == belonging(all.take(i as int), id),
            forall|other: Id|
                #[trigger] belonging(kept@, other) == (if other == id {
                    Seq::empty()
                } else {
                    belonging(all.take(i as int), other)
                }),
        decreases n - i,
    {
        let row = rows.remove(0);
        assert(row == all[i as int]);
        assert(rows@ =~= all.skip(i as int + 1));
        assert(all.take(i as int + 1).drop_last() == all.take(i as int));
        let ghost had = kept@;
        if row.0 == id {
            taken.push(row.1);
        } else {
            kept.push(row);
        }
        proof {
            let ahead = all.take(i as int + 1);
            assert(ahead.last() == row);
            assert forall|other: Id| #[trigger] belonging(kept@, other) == (if other == id {
                Seq::empty()
            } else {
                belonging(ahead, other)
            }) by {
                let before = belonging(had, other);
                if row.0 != id {
                    assert(kept@.drop_last() =~= had);
                    assert(kept@.last() == row);
                }
                assert(other != id ==> before == belonging(ahead.drop_last(), other));
            }
        }
        i = i + 1;
    }
    assert(all.take(n as int) =~= all);
    *rows = kept;
    taken
}

/// Whether a message of the same identifier stands before.
pub open spec fn repeated(rows: Seq<MessageRow>, i: int) -> bool {
    exists|k: int| 0 <= k < i && (#[trigger] rows[k]).id == rows[i].id
}

/// What belongs to a message of a conversation. What belongs to a message is shown once.
pub open spec fn shown_with<T>(rows: Seq<MessageRow>, i: int, all: Seq<(Id, T)>) -> Seq<T> {
    if repeated(rows, i) {
        Seq::empty()
    } else {
        belonging(all, rows[i].id)
    }
}

pub open spec fn message_shown<C>(
    rows: Seq<MessageRow>,
    i: int,
    attachments: Seq<(Id, AttachmentOut)>,
    citations: Seq<(Id, C)>,
    o: MessageOut<C>,
) -> bool {
    &&& o.id == rows[i].id
    &&& o.role == rows[i].role
    &&& o.content == rows[i].content
    &&& o.sequence_number == rows[i].sequence_number
    &&& o.created_at@ == shown(rows[i].created_at)
    &&& o.activity == rows[i].activity
    &&& o.groundedness == rows[i].groundedness
    &&& o.streaming == is_streaming(rows[i])
    &&& o.review_decision == rows[i].review_decision
    &&& o.attachments@ == shown_with(rows, i, attachments)
    &&& o.citations@ == shown_with(rows, i, citations)
}

/// What people and the assistant said; what the platform notes for itself is left out.
pub open spec fn spoken(rows: Seq<MessageRow>) -> Seq<MessageRow>
    decreases rows.len(),
{
    if rows.len() == 0 {
        Seq::empty()
    } else {
        let before = spoken(rows.drop_last());
        if rows.last().role@ == "user"@ || rows.last().role@ == "assistant"@ {
            before.push(rows.last())
        } else {
            before
        }
    }
}

/// The messages that are loaded: of what was said the newest, up to the most there may be, the
/// oldest of them first.
pub open spec fn loaded(rows: Seq<MessageRow>) -> Seq<MessageRow> {
    first(highest_first(spoken(rows)), MSG_CAP as nat).reverse()
}

/// The messages of a conversation, for whoever reads it: the newest of them, oldest first, each
/// with the files and the sources that belong to it. `rows` are all messages of the
/// conversation; files and sources come with the message they belong to.
pub fn list_messages<C>(
    ctx: &AuthContext,
    chat: Option<ReadableChat>,
    reads_project: bool,
    shared_with: bool,
    rows: Vec<MessageRow>,
    attachments: Vec<(Id, AttachmentOut)>,
    citations: Vec<(Id, C)>,
) -> (r: Result<Vec<MessageOut<C>>, AppError>)
    ensures
        refusal(r) == chat_read_refusal(*ctx, chat, reads_project, shared_with),
        r matches Ok(v) ==> {
            &&& v@.len() == loaded(rows@).len()
            &&& forall|i: int|
                0 <= i < v@.len() ==> message_shown(
                    loaded(rows@),
                    i,
                    attachments@,
                    citations@,
                    #[trigger] v@[i],
                )
        },
{
    match require_chat_read(ctx, chat, reads_project, shared_with) {
        Ok(_) => {},
        Err(e) => {
            return Err(e);
        },
    }
    let n: usize = rows.len();
    let mut rest = rows;
    let mut said: Vec<MessageRow> = Vec::new();
    let mut i: usize = 0;
    assert(rows@.take(0) == Seq::<MessageRow>::empty());
    while i < n
        invariant
            n == rows@.len(),
            i <= n,
            rest@ == rows@.skip(i as int),
            said@ == spoken(rows@.take(i as int)),
        decreases n - i,
    {
        let row = rest.remove(0);
        assert(row == rows@[i as int]);
        assert(rest@ =~= rows@.skip(i as int + 1));
        assert(rows@.take(i as int + 1).drop_last() == rows@.take(i as int));
        if same(row.role.as_str(), "user") || same(row.role.as_str(), "assistant") {
            said.push(row);
        }
        i = i + 1;
    }
    assert(rows@.take(n as int) == rows@);
    let mut newest = rank_list(said);
    let ghost all = newest@;
    newest.truncate(MSG_CAP);
    assert(newest@ =~= first(all, MSG_CAP as nat));
    Ok(messages_out(newest, attachments, citations))
}

/// Messages turned round, oldest first, each with what belongs to it.
fn messages_out<C>(
    newest: Vec<MessageRow>,
    attachments: Vec<(Id, AttachmentOut)>,
    citations: Vec<(Id, C)>,
) -> (r: Vec<MessageOut<C>>)
    ensures
        r@.len() == newest@.len(),
        forall|i: int|
            0 <= i < r@.len() ==> message_shown(
                newest@.reverse(),
                i,
                attachments@,
                citations@,
                #[trigger] r@[i],
            ),
{
    let ghost rows = newest@.reverse();
    let n: usize = newest.len();
    let mut rest = newest;
    let mut files = attachments;
    let mut sources = citations;
    let mut out: Vec<MessageOut<C>> = Vec::new();
    let mut i: usize = 0;
    assert(rest@ =~= newest@.take(n as int));
    while i < n
        invariant
            n == newest@.len(),
            rows == newest@.reverse(),
            i <= n,
            rest@ == newest@.take(n - i),
            out@.len() == i,
            forall|id: Id|
                #[trigger] belonging(files@, id) == (if exists|k: int|
                    0 <= k < i && (#[trigger] rows[k]).id == id {
                    Seq::empty()
                } else {
                    belonging(attachments@, id)
                }),
            forall|id: Id|
                #[trigger] belonging(sources@, id) == (if exists|k: int|
                    0 <= k < i && (#[trigger] rows[k]).id == id {
                    Seq::empty()
                } else {
                    belonging(citations@, id)
                }),
            forall|k: int|
                0 <= k < i ==> message_shown(
                    rows,
                    k,
                    attachments@,
                    citations@,
                    #[trigger] out@[k],
                ),
        decreases n - i,
    {
        let row = match rest.pop() {
            Some(row) => row,
            None => {
                assert(false);
                return out;
            },
        };
        assert(row == rows[i as int]);
        assert(rest@ =~= newest@.take(n - i - 1));
        let ghost files_before = files@;
        let ghost sources_before = sources@;
        let mine = take_belonging(&mut files, row.id);
        let cited = take_belonging(&mut sources, row.id);
        proof {
            let ahead = i as int + 1;
            assert forall|id: Id| #[trigger] belonging(files@, id) == (if exists|k: int|
                0 <= k < ahead && (#[trigger] rows[k]).id == id {
                Seq::empty()
            } else {
                belonging(attachments@, id)
            }) by {
                seen_so_far(rows, i as int, id);
            }
            assert forall|id: Id| #[trigger] belonging(sources@, id) == (if exists|k: int|
                0 <= k < ahead && (#[trigger] rows[k]).id == id {
                Seq::empty()
            } else {
                belonging(citations@, id)
            }) by {
                seen_so_far(rows, i as int, id);
            }
        }
        let streaming = !row.completed && !row.interrupted && same(row.role.as_str(), "assistant");
        out.push(
            MessageOut {
                id: row.id,
                role: row.role,
                content: row.content,
                sequence_number: row.sequence_number,
                created_at: show(row.created_at),
                activity: row.activity,
                groundedness: row.groundedness,
                streaming,
                review_decision: row.review_decision,
                attachments: mine,
                citations: cited,
            },
        );
        i = i + 1;
    }
    out
}

proof fn seen_so_far(rows: Seq<MessageRow>, i: int, id: Id)
    requires
        0 <= i < rows.len(),
    ensures
        (exists|k: int| 0 <= k < i + 1 && (#[trigger] rows[k]).id == id) <==> (rows[i].id == id || (
        exists|k: int| 0 <= k < i && (#[trigger] rows[k]).id == id)),
{
    if exists|k: int| 0 <= k < i && (#[trigger] rows[k]).id == id {
        let k = choose|k: int| 0 <= k < i && (#[trigger] rows[k]).id == id;
        assert(0 <= k < i + 1 && rows[k].id == id);
    }
}

/// However long a conversation is, no more of it is loaded than the most there may be, and all
/// of it where it is no longer than that.
pub proof fn loading_is_bounded(rows: Seq<MessageRow>)
    ensures
        loaded(rows).len() <= MSG_CAP,
        spoken(rows).len() <= MSG_CAP ==> loaded(rows).len() == spoken(rows).len(),
{
    ordered_lists_are_whole(spoken(rows));
}

/// Why the caller may not change a conversation. `owner` is its owner, where there is such a
/// conversation and it is not archived.
pub open spec fn write_refusal(ctx: AuthContext, owner: Option<Id>) -> Option<Refusal> {
    match owner {
        None => Some(Refusal::Validation("chat not found"@)),
        Some(o) => if ctx.is(o) || ctx.admin {
            None
        } else {
            Some(Refusal::Forbidden("not permitted to modify this chat"@))
        },
    }
}

/// Changing a conversation is for its owner and for administrators.
pub fn require_chat_write(ctx: &AuthContext, owner: Option<Id>) -> (r: Result<(), AppError>)
    ensures
        refusal(r) == write_refusal(*ctx, owner),
{
    match owner {
        None => Err(validation("chat not found")),
        Some(o) => {
            if ctx.is_user(o) || ctx.is_admin() {
                Ok(())
            } else {
                Err(forbidden("not permitted to modify this chat"))
            }
        },
    }
}

pub struct RenameChat {
    pub title: String,
}

/// Gives a conversation another title, which is there once trimmed.
pub fn rename_chat(ctx: &AuthContext, owner: Option<Id>, body: &RenameChat) -> (r: Result<
    String,
    AppError,
>)
    ensures
        refusal(r) == (if write_refusal(*ctx, owner) is Some {
            write_refusal(*ctx, owner)
        } else if trimmed(body.title@).len() == 0 {
            Some(Refusal::Validation("title cannot be empty"@))
        } else {
            None
        }),
        r matches Ok(t) ==> t@ == trimmed(body.title@),
{
    match require_chat_write(ctx, owner) {
        Ok(_) => {},
        Err(e) => {
            return Err(e);
        },
    }
    if blank(body.title.as_str()) {
        return Err(validation("title cannot be empty"));
    }
    Ok(trim(body.title.as_str()))
}

pub struct ShareChat {
    pub group_chat_id: Id,
}

/// A conversation that is shared: who shares it, and what is posted about it.
pub struct SharedChat {
    pub shared_by: Id,
    pub notice: String,
}

pub open spec fn share_refusal(
    ctx: AuthContext,
    read_refusal: Option<Refusal>,
    in_target: bool,
) -> Option<Refusal> {
    if read_refusal is Some {
        read_refusal
    } else if ctx.user_id is None {
        Some(Refusal::Forbidden("a user is required"@))
    } else if !in_target {
        Some(Refusal::Forbidden("not a member of the target chat"@))
    } else {
        None
    }
}

/// Shares a conversation that the caller reads into a chat that the caller is in.
pub fn share_chat(
    ctx: &AuthContext,
    chat: Option<ReadableChat>,
    reads_project: bool,
    shared_with: bool,
    in_target: bool,
) -> (r: Result<SharedChat, AppError>)
    ensures
        refusal(r) == share_refusal(
            *ctx,
            chat_read_refusal(*ctx, chat, reads_project, shared_with),
            in_target,
        ),
        r matches Ok(s) ==> {
            &&& ctx.user_id == Some(s.shared_by)
            &&& chat matches Some(c) && s.notice@ == "Shared a chat: "@ + c.title@
        },
{
    let (_, title) = match require_chat_read(ctx, chat, reads_project, shared_with) {
        Ok(x) => x,
        Err(e) => {
            return Err(e);
        },
    };
    let uid = match ctx.user_id {
        Some(id) => id,
        None => {
            return Err(forbidden("a user is required"));
        },
    };
    if !in_target {
        return Err(forbidden("not a member of the target chat"));
    }
    Ok(SharedChat { shared_by: uid, notice: joined("Shared a chat: ", title.as_str()) })
}

/// A stored share.
pub struct ChatShareRow {
    pub chat_id: Id,
    pub chat_title: String,
    pub group_chat_id: Id,
    pub group_chat_kind: String,
    /// The name of the chat that it was shared into.
    pub group_name: Option<String>,
    /// The other member, where that chat is between two people.
    pub other_member: Option<String>,
    pub shared_at: Instant,
}

impl Ranked for ChatShareRow {
    /// What was shared last comes first.
    open spec fn rank(self) -> (int, int) {
        (self.shared_at as int, 0)
    }

    fn outranks(&self, other: &ChatShareRow) -> (r: bool) {
        self.shared_at > other.shared_at
    }
}

pub struct ChatShareOut {
    pub chat_id: Id,
    pub chat_title: String,
    pub group_chat_id: Id,
    pub group_chat_name: String,
    pub group_chat_kind: String,
    pub shared_at: String,
}

/// What the chat is called that something was shared into: the other member of a chat between
/// two people, and the name of any other.
pub open spec fn place_name(
    kind: Seq<char>,
    name: Option<Seq<char>>,
    other: Option<Seq<char>>,
) -> Seq<char> {
    match if kind == "dm"@ {
        other
    } else {
        name
    } {
        Some(n) => n,
        None => "Chat"@,
    }
}

/// A share as its maker sees it.
pub fn chat_share_out(row: ChatShareRow) -> (r: ChatShareOut)
    ensures
        r.chat_id == row.chat_id,
        r.chat_title == row.chat_title,
        r.group_chat_id == row.group_chat_id,
        r.group_chat_name@ == place_name(
            row.group_chat_kind@,
            opt_text(row.group_name),
            opt_text(row.other_member),
        ),
        r.group_chat_kind == row.group_chat_kind,
        r.shared_at@ == shown(row.shared_at),
{
    let name = if same(row.group_chat_kind.as_str(), "dm") {
        row.other_member
    } else {
        row.group_name
    };
    ChatShareOut {
        chat_id: row.chat_id,
        chat_title: row.chat_title,
        group_chat_id: row.group_chat_id,
        group_chat_name: match name {
            Some(n) => n,
            None => "Chat".to_owned(),
        },
        group_chat_kind: row.group_chat_kind,
        shared_at: show(row.shared_at),
    }
}

/// What is shown of a share.
pub open spec fn share_shown(row: ChatShareRow, o: ChatShareOut) -> bool {
    &&& o.chat_id == row.chat_id
    &&& o.chat_title == row.chat_title
    &&& o.group_chat_id == row.group_chat_id
    &&& o.group_chat_name@ == place_name(
        row.group_chat_kind@,
        opt_text(row.group_name),
        opt_text(row.other_member),
    )
    &&& o.group_chat_kind == row.group_chat_kind
    &&& o.shared_at@ == shown(row.shared_at)
}

/// The shares that somebody made, in their order.
pub open spec fn shares_by(rows: Seq<(Id, ChatShareRow)>, me: Id) -> Seq<ChatShareRow>
    decreases rows.len(),
{
    if rows.len() == 0 {
        Seq::empty()
    } else {
        let before = shares_by(rows.drop_last(), me);
        if rows.last().0 == me {
            before.push(rows.last().1)
        } else {
            before
        }
    }
}

/// What the caller shared, the newest first. Each row comes with who made the share.
pub fn list_chat_shares(ctx: &AuthContext, rows: Vec<(Id, ChatShareRow)>) -> (r: Result<
    Vec<ChatShareOut>,
    AppError,
>)
    ensures
        match r {
            Ok(v) => ctx.user_id matches Some(me) && {
                &&& v@.len() == shares_by(highest_first(rows@), me).len()
                &&& forall|i: int|
                    0 <= i < v@.len() ==> share_shown(shares_by(highest_first(rows@), me)[i], #[trigger] v@[i])
            },
            Err(e) => ctx.user_id is None && e@ == Refusal::Forbidden("a user is required"@),
        },
{
    let me = match ctx.user_id {
        Some(id) => id,
        None => {
            return Err(forbidden("a user is required"));
        },
    };
    let rows = rank_list(rows);
    let n: usize = rows.len();
    let mut rest = rows;
    let mut out: Vec<ChatShareOut> = Vec::new();
    let mut i: usize = 0;
    assert(rows@.take(0) == Seq::<(Id, ChatShareRow)>::empty());
    while i < n
        invariant
            n == rows@.len(),
            i <= n,
            rest@ == rows@.skip(i as int),
            out@.len() == shares_by(rows@.take(i as int), me).len(),
            forall|k: int|
                0 <= k < out@.len() ==> share_shown(
                    shares_by(rows@.take(i as int), me)[k],
                    #[trigger] out@[k],
                ),
        decreases n - i,
    {
        let (by, row) = rest.remove(0);
        assert((by, row) == rows@[i as int]);
        assert(rest@ =~= rows@.skip(i as int + 1));
        assert(rows@.take(i as int + 1).drop_last() == rows@.take(i as int));
        if by == me {
            out.push(chat_share_out(row));
        }
        i = i + 1;
    }
    assert(rows@.take(rows@.len() as int) == rows@);
    Ok(out)
}

/// Withdraws a share. `shared_by` is who made it, where there is such a share; nobody else
/// withdraws it.
pub fn revoke_chat_share(ctx: &AuthContext, shared_by: Option<Id>) -> (r: Result<Id, AppError>)
    ensures
        match r {
            Ok(id) => ctx.user_id == Some(id) && shared_by == Some(id),
            Err(e) => if ctx.user_id is None {
                e@ == Refusal::Forbidden("a user is required"@)
            } else {
                !ctx.owns(shared_by) && e@ == Refusal::Forbidden("no such share to revoke"@)
            },
        },
{
    let uid = match ctx.user_id {
        Some(id) => id,
        None => {
            return Err(forbidden("a user is required"));
        },
    };
    if ctx.is_owner(shared_by) {
        Ok(uid)
    } else {
        Err(forbidden("no such share to revoke"))
    }
}

/// What is written down of a change to a chat.
pub fn audit_chat(ctx: &AuthContext, action: &str, chat_id: Id) -> (e: AuditEvent)
    ensures
        e@ == entry_by(*ctx, action@, "chat"@, chat_id),
{
    record_by(ctx, action, "chat", chat_id)
}

/// The caller is shown every conversation of their own that is not archived, that no other
/// application drives, and that is in the mode that is asked for; without one, all but research.
pub proof fn own_conversations_are_listed(
    ctx: AuthContext,
    mode: Option<Seq<char>>,
    s: Seq<ChatRow>,
)
    ensures
        listed_chats(ctx, s, mode)
            == s.filter(
                |x: ChatRow| ctx.user_id == Some(x.owner_user_id)
                    && !x.archived
                    && x.origin@ != "api"@
                    && (mode is None ==> x.mode@ != "research"@)
                    && (mode is Some ==> x.mode@ == mode->0)
            ),
        forall|x: ChatRow|
            #[trigger] listed_chats(ctx, s, mode).contains(x)
                <==> s.contains(x)
                    && (
                        ctx.user_id == Some(x.owner_user_id)
                            && !x.archived
                            && x.origin@ != "api"@
                            && (mode is None ==> x.mode@ != "research"@)
                            && (mode is Some ==> x.mode@ == mode->0)
                    ),
    decreases s.len(),
{
    let p = |x: ChatRow| ctx.user_id == Some(x.owner_user_id)
            && !x.archived
            && x.origin@ != "api"@
            && (mode is None ==> x.mode@ != "research"@)
            && (mode is Some ==> x.mode@ == mode->0);
    selects_last(s, p);
    selects_just(s, p);
    if s.len() > 0 {
        own_conversations_are_listed(ctx, mode, s.drop_last());
    }
    assert(listed_chats(ctx, s, mode) =~= s.filter(p));
    assert forall|x: ChatRow|
        #[trigger] listed_chats(ctx, s, mode).contains(x)
            <==> s.contains(x)
                && (
                    ctx.user_id == Some(x.owner_user_id)
                        && !x.archived
                        && x.origin@ != "api"@
                        && (mode is None ==> x.mode@ != "research"@)
                        && (mode is Some ==> x.mode@ == mode->0)
                ) by {
        assert(s.filter(p).contains(x) <==> s.contains(x) && p(x));
    }
}

/// What belongs to a message is all that is kept under it, in its order.
pub proof fn belongings_stay_with_their_message<T>(id: Id, s: Seq<(Id, T)>)
    ensures
        belonging(s, id) == s.filter(|x: (Id, T)| x.0 == id).map_values(|x: (Id, T)| x.1),
    decreases s.len(),
{
    let p = |x: (Id, T)| x.0 == id;
    selects_last(s, p);
    if s.len() > 0 {
        belongings_stay_with_their_message(id, s.drop_last());
    }
    assert(belonging(s, id) =~= s.filter(p).map_values(|x: (Id, T)| x.1));
}

/// What people and the assistant said is loaded, all of it and nothing else.
pub proof fn people_and_assistant_are_heard(s: Seq<MessageRow>)
    ensures
        spoken(s) == s.filter(|x: MessageRow| x.role@ == "user"@ || x.role@ == "assistant"@),
        forall|x: MessageRow|
            #[trigger] spoken(s).contains(x)
                <==> s.contains(x) && (x.role@ == "user"@ || x.role@ == "assistant"@),
    decreases s.len(),
{
    let p = |x: MessageRow| x.role@ == "user"@ || x.role@ == "assistant"@;
    selects_last(s, p);
    selects_just(s, p);
    if s.len() > 0 {
        people_and_assistant_are_heard(s.drop_last());
    }
    assert(spoken(s) =~= s.filter(p));
    assert forall|x: MessageRow|
        #[trigger] spoken(s).contains(x)
            <==> s.contains(x) && (x.role@ == "user"@ || x.role@ == "assistant"@) by {
        assert(s.filter(p).contains(x) <==> s.contains(x) && p(x));
    }
}

/// The caller is shown every share that they made, and no other.
pub proof fn shares_are_ones_own(me: Id, s: Seq<(Id, ChatShareRow)>)
    ensures
        shares_by(s, me)
            == s.filter(|x: (Id, ChatShareRow)| x.0 == me).map_values(|x: (Id, ChatShareRow)| x.1),
    decreases s.len(),
{
    let p = |x: (Id, ChatShareRow)| x.0 == me;
    selects_last(s, p);
    if s.len() > 0 {
        shares_are_ones_own(me, s.drop_last());
    }
    assert(shares_by(s, me) =~= s.filter(p).map_values(|x: (Id, ChatShareRow)| x.1));
}

/// The messages of a chat are ranked by their number, the highest first.
pub proof fn newer_messages_come_first(rows: Seq<MessageRow>, i: int, j: int)
    requires
        0 <= i < j < rows.len(),
    ensures
        highest_first(rows)[i].sequence_number >= highest_first(rows)[j].sequence_number,
{
    ordered_lists_descend(rows, i, j);
}

/// Shares are listed by when they were made, the latest first.
pub proof fn newer_shares_come_first(rows: Seq<(Id, ChatShareRow)>, i: int, j: int)
    requires
        0 <= i < j < rows.len(),
    ensures
        highest_first(rows)[i].1.shared_at >= highest_first(rows)[j].1.shared_at,
{
    ordered_lists_descend(rows, i, j);
}

/// Chats are listed by somebody with an account, in a mode that there is or in any. One is changed by
/// its owner and by administrators, and shared by those who read it and are in the chat it goes to.
pub proof fn who_lists_and_writes_chats(
    ctx: AuthContext,
    mode: Option<Seq<char>>,
    owner: Option<Id>,
    read_refusal: Option<Refusal>,
    in_target: bool,
)
    ensures
        listing_refusal(ctx, mode) is None
            <==> ctx.user_id is Some
                && (mode matches Some(m) ==> m == "general"@ || m == "legal"@ || m == "research"@),
        write_refusal(ctx, owner) is None <==> owner is Some && (ctx.user_id == owner || ctx.admin),
        share_refusal(ctx, read_refusal, in_target) is None
            <==> read_refusal is None && ctx.user_id is Some && in_target,
{
}

/// A chat is shown as it is stored.
pub proof fn chats_are_shown_whole(row: ChatRow, s: ChatSummary)
    ensures
        summarises(row, s) ==> {
            &&& s.id == row.id
            &&& s.title == row.title
            &&& s.project_id == row.project_id
            &&& s.agent_id == row.agent_id
            &&& s.created_at@ == shown(row.created_at)
            &&& s.mode == row.mode
            &&& s.research_params == row.research_params
            &&& s.origin == row.origin
        },
{
}

/// A message is shown as it is stored, with what belongs to it.
pub proof fn messages_are_shown_whole<C>(
    rows: Seq<MessageRow>,
    i: int,
    attachments: Seq<(Id, AttachmentOut)>,
    citations: Seq<(Id, C)>,
    o: MessageOut<C>,
)
    ensures
        message_shown(rows, i, attachments, citations, o) ==> {
            &&& o.id == rows[i].id
            &&& o.role == rows[i].role
            &&& o.content == rows[i].content
            &&& o.sequence_number == rows[i].sequence_number
            &&& o.created_at@ == shown(rows[i].created_at)
            &&& o.activity == rows[i].activity
            &&& o.groundedness == rows[i].groundedness
            &&& o.streaming == is_streaming(rows[i])
            &&& o.review_decision == rows[i].review_decision
            &&& o.attachments@ == shown_with(rows, i, attachments)
            &&& o.citations@ == shown_with(rows, i, citations)
        },
{
}

/// A share is shown as it is stored, with the name of the place it went to.
pub proof fn shares_are_shown_whole(row: ChatShareRow, o: ChatShareOut)
    ensures
        share_shown(row, o) ==> {
            &&& o.chat_id == row.chat_id
            &&& o.chat_title == row.chat_title
            &&& o.group_chat_id == row.group_chat_id
            &&& o.group_chat_name@
                    == place_name(
                        row.group_chat_kind@,
                        opt_text(row.group_name),
                        opt_text(row.other_member),
                    )
            &&& o.group_chat_kind == row.group_chat_kind
            &&& o.shared_at@ == shown(row.shared_at)
        },
{
}

/// A chat is shown in its own mode, and without a mode wherever it is no research; one made through
/// the interface for programs is never shown.
pub proof fn which_chats_are_shown(
    chat_mode: Seq<char>,
    origin: Seq<char>,
    mode: Option<Seq<char>>,
    m: MessageRow,
    kind: Seq<char>,
    name: Option<Seq<char>>,
    other: Option<Seq<char>>,
)
    ensures
        is_shown(chat_mode, origin, mode)
            <==> origin != "api"@
                && (mode is None ==> chat_mode != "research"@)
                && (mode matches Some(x) ==> chat_mode == x),
        is_streaming(m) <==> !m.completed && !m.interrupted && m.role@ == "assistant"@,
        kind == "dm"@ && other is Some ==> place_name(kind, name, other) == other->0,
        kind != "dm"@ && name is Some ==> place_name(kind, name, other) == name->0,
        (kind == "dm"@ && other is None) || (kind != "dm"@ && name is None)
            ==> place_name(kind, name, other) == "Chat"@,
        MSG_CAP == 1000,
{
}

/// What belongs to a message is shown with the first message of its name, and with no other.
pub proof fn what_belongs_is_shown_once<T>(rows: Seq<MessageRow>, i: int, all: Seq<(Id, T)>)
    ensures
        (exists|k: int| 0 <= k < i && (#[trigger] rows[k]).id == rows[i].id)
            ==> shown_with(rows, i, all).len() == 0,
        (forall|k: int| 0 <= k < i ==> (#[trigger] rows[k]).id != rows[i].id)
            ==> shown_with(rows, i, all) == belonging(all, rows[i].id),
{
}

/// A chat is loaded with its last thousand messages that were spoken, the oldest of them first.
pub proof fn the_last_messages_are_loaded(rows: Seq<MessageRow>)
    ensures
        loaded(rows).len() == (if spoken(rows).len() < 1000 {
            spoken(rows).len()
        } else {
            1000nat
        }),
        forall|i: int, j: int|
            #![trigger loaded(rows)[i], loaded(rows)[j]]
            0 <= i < j < loaded(rows).len() ==> loaded(rows)[i].sequence_number
                <= loaded(rows)[j].sequence_number,
        forall|i: int|
            0 <= i < loaded(rows).len() ==> spoken(rows).contains(#[trigger] loaded(rows)[i]),
        forall|k: int|
            #![trigger highest_first(spoken(rows))[k]]
            loaded(rows).len() <= k < spoken(rows).len()
                ==> loaded(rows).len() > 0 && highest_first(
                spoken(rows),
            )[k].sequence_number <= loaded(rows)[0].sequence_number,
{
    let all = highest_first(spoken(rows));
    let some = loaded(rows);
    ordered_lists_are_whole(spoken(rows));
    assert forall|i: int, j: int|
        #![trigger some[i], some[j]]
        0 <= i < j < some.len() implies some[i].sequence_number <= some[j].sequence_number by {
        assert(some[i] == all[some.len() - 1 - i]);
        assert(some[j] == all[some.len() - 1 - j]);
        newer_messages_come_first(spoken(rows), some.len() - 1 - j, some.len() - 1 - i);
    }
    assert forall|i: int| 0 <= i < some.len() implies spoken(rows).contains(#[trigger] some[i]) by {
        assert(some[i] == all[some.len() - 1 - i]);
        ordered_lists_hold_the_same(spoken(rows), some[i]);
        assert(all.contains(some[i]));
    }
    assert forall|k: int|
        #![trigger all[k]]
        some.len() <= k < spoken(rows).len() implies some.len() > 0 && all[k].sequence_number
        <= some[0].sequence_number by {
        assert(some[0] == all[some.len() - 1]);
        newer_messages_come_first(spoken(rows), some.len() - 1, k);
    }
}

/// Of several things that are wrong, `listing_refusal` tells the first.
pub proof fn listing_refusal_tells_the_first_thing(ctx: AuthContext, mode: Option<Seq<char>>)
    ensures
        ctx.user_id is None
            ==> listing_refusal(ctx, mode) == Some(Refusal::Forbidden("a user is required"@)),
        !(ctx.user_id is None) && (mode matches Some(m) && !is_chat_mode(m))
            ==> listing_refusal(ctx, mode)
                == Some(Refusal::Validation("unknown chat mode '"@ + mode->0 + "'"@)),
        !(ctx.user_id is None) && !(mode matches Some(m) && !is_chat_mode(m))
            ==> listing_refusal(ctx, mode) is None,
{
}

/// Of several things that are wrong, `share_refusal` tells the first.
pub proof fn share_refusal_tells_the_first_thing(
    ctx: AuthContext,
    read_refusal: Option<Refusal>,
    in_target: bool,
)
    ensures
        read_refusal is Some ==> share_refusal(ctx, read_refusal, in_target) == read_refusal,
        !(read_refusal is Some) && ctx.user_id is None
            ==> share_refusal(ctx, read_refusal, in_target)
                == Some(Refusal::Forbidden("a user is required"@)),
        !(read_refusal is Some) && !(ctx.user_id is None) && !in_target
            ==> share_refusal(ctx, read_refusal, in_target)
                == Some(Refusal::Forbidden("not a member of the target chat"@)),
        !(read_refusal is Some) && !(ctx.user_id is None) && in_target
            ==> share_refusal(ctx, read_refusal, in_target) is None,
{
}

/// A chat that is not there is not found, and that of somebody else is forbidden.
pub proof fn chats_of_others_are_refused(ctx: AuthContext, owner: Option<Id>)
    ensures
        write_refusal(ctx, None) == Some(Refusal::Validation("chat not found"@)),
        owner is Some && ctx.user_id != owner && !ctx.admin
            ==> write_refusal(ctx, owner)
                == Some(Refusal::Forbidden("not permitted to modify this chat"@)),
{
}

} // verus!
