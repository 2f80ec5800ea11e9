//! Team messaging: who is in a chat, what is posted and how it is kept, reactions, and
//! shared notes.

use vstd::prelude::*;
use vstd::string::*;
use vstd::utf8::encode_utf8;

use crate::lists::{selects_just, selects_last};
use crate::clock::{show, shown, Instant};
use crate::error::{conflict, forbidden, refusal, validation, AppError, Refusal};
use crate::http::diary::{clamp, clamped};
use crate::http::first;
use crate::ids::id_text;
use crate::json::{
    copy_opt_value,
    empty_object,
    id_value,
    items_at,
    json_in,
    member_at,
    number_value,
    opt_json,
    put,
    read_items,
    text_value,
    Json,
};
use crate::order::{
    above,
    by_time,
    highest_first,
    newest_first,
    ordered_lists_are_whole,
    ordered_lists_hold_the_same,
    rank_list,
    Dated,
    Ranked,
};
use crate::principal::{same_id, AuthContext, Id};
use crate::text::{blank, byte_len, joined, opt_text, same, trim, trimmed};
use crate::trail::{entry, entry_by, note, record, record_by, ActorRole, AuditEvent};

verus! {

/// Why messaging is closed to everybody.
pub open spec fn messaging_refusal(enabled: bool) -> Option<Refusal> {
    if enabled {
        None
    } else {
        Some(Refusal::Forbidden("messaging is not enabled on this deployment"@))
    }
}

/// Team chats and direct messages can be switched off.
pub fn require_messaging(enabled: bool) -> (r: Result<(), AppError>)
    ensures
        refusal(r) == messaging_refusal(enabled),
{
    if enabled {
        Ok(())
    } else {
        Err(forbidden("messaging is not enabled on this deployment"))
    }
}

/// Why the caller is not treated as an account that uses messaging.
pub open spec fn account_refusal(enabled: bool, ctx: AuthContext) -> Option<Refusal> {
    if !enabled {
        messaging_refusal(enabled)
    } else if ctx.user_id is None {
        Some(Refusal::Forbidden("a user is required"@))
    } else {
        None
    }
}

/// The caller's account, where messaging is on.
pub fn require_account(enabled: bool, ctx: &AuthContext) -> (r: Result<Id, AppError>)
    ensures
        refusal(r) == account_refusal(enabled, *ctx),
        r matches Ok(id) ==> ctx.user_id == Some(id),
{
    match require_messaging(enabled) {
        Ok(_) => {},
        Err(e) => {
            return Err(e);
        },
    }
    match ctx.user_id {
        Some(id) => Ok(id),
        None => Err(forbidden("a user is required")),
    }
}

/// Why the caller is not let into a chat. `role` is what they are in it.
pub open spec fn member_refusal(enabled: bool, ctx: AuthContext, role: Option<Seq<char>>) -> Option<
    Refusal,
> {
    if account_refusal(enabled, ctx) is Some {
        account_refusal(enabled, ctx)
    } else if role is None {
        Some(Refusal::Forbidden("not a member of this chat"@))
    } else {
        None
    }
}

/// The caller's role in a chat that they are a member of.
pub fn require_member(enabled: bool, ctx: &AuthContext, role: Option<String>) -> (r: Result<
    String,
    AppError,
>)
    ensures
        refusal(r) == member_refusal(enabled, *ctx, opt_text(role)),
        r matches Ok(x) ==> opt_text(role) == Some(x@),
{
    match require_account(enabled, ctx) {
        Ok(_) => {},
        Err(e) => {
            return Err(e);
        },
    }
    match role {
        Some(x) => Ok(x),
        None => Err(forbidden("not a member of this chat")),
    }
}

pub open spec fn runs_chat(role: Seq<char>) -> bool {
    role == "owner"@ || role == "admin"@
}

pub open spec fn chat_admin_refusal(
    enabled: bool,
    ctx: AuthContext,
    role: Option<Seq<char>>,
) -> Option<Refusal> {
    if member_refusal(enabled, ctx, role) is Some {
        member_refusal(enabled, ctx, role)
    } else if !runs_chat(role->0) {
        Some(Refusal::Forbidden("requires chat owner/admin"@))
    } else {
        None
    }
}

/// Owners and administrators of a chat.
pub fn require_admin_of(enabled: bool, ctx: &AuthContext, role: Option<String>) -> (r: Result<
    (),
    AppError,
>)
    ensures
        refusal(r) == chat_admin_refusal(enabled, *ctx, opt_text(role)),
{
    match require_member(enabled, ctx, role) {
        Ok(x) => {
            if same(x.as_str(), "owner") || same(x.as_str(), "admin") {
                Ok(())
            } else {
                Err(forbidden("requires chat owner/admin"))
            }
        },
        Err(e) => Err(e),
    }
}

/// Whether a message's body is encrypted where it is stored: direct messages always, where
/// there is a key, and other chats where that is asked for.
pub fn should_encrypt_message(has_key: bool, kind: &str, encrypt_group: bool) -> (r: bool)
    ensures
        r == encrypts(has_key, kind@, encrypt_group),
{
    has_key && (same(kind, "dm") || encrypt_group)
}

pub open spec fn encrypts(has_key: bool, kind: Seq<char>, encrypt_group: bool) -> bool {
    has_key && (kind == "dm"@ || encrypt_group)
}

/// Nothing is encrypted without a key, and with one every direct message is.
pub proof fn encryption_needs_a_key(kind: Seq<char>, encrypt_group: bool)
    ensures
        !encrypts(false, kind, encrypt_group),
        encrypts(true, "dm"@, encrypt_group),
{
}

/// The number of the next message in a chat: one more than the last, from one on.
pub open spec fn next_seq(last: Option<i32>) -> int {
    match last {
        Some(n) => n + 1,
        None => 1,
    }
}

/// The latest message that a member has read, after one more.
pub open spec fn read_up_to(before: int, seq: int) -> int {
    if seq > before {
        seq
    } else {
        before
    }
}

/// A member's read marker moved on to a message; it never moves back.
pub fn advance_read(before: i32, seq: i32) -> (r: i32)
    ensures
        r == read_up_to(before as int, seq as int),
{
    if seq > before {
        seq
    } else {
        before
    }
}

/// A message as it is stored.
pub struct StoredMessage {
    pub id: Id,
    pub seq: i32,
    pub sender: Option<Id>,
    pub message_type: String,
    pub content: String,
    /// Whether the body is the encrypted one.
    pub content_encrypted: bool,
    pub attachments: Option<serde_json::Value>,
    pub shared_resources: Option<serde_json::Value>,
    pub mentions: Option<serde_json::Value>,
}

/// How far a member has read.
#[derive(Clone, Copy, Debug, PartialEq, Eq, Structural)]
pub struct ReadMarker {
    pub user_id: Id,
    pub last_read_seq: i32,
}

/// A chat: what was posted, and how far its members have read.
pub struct ChatLog {
    pub kind: String,
    pub messages: Vec<StoredMessage>,
    pub markers: Vec<ReadMarker>,
}

/// A message to be posted. A system message has no sender.
pub struct NewMessage {
    pub id: Id,
    pub sender: Option<Id>,
    pub message_type: String,
    pub content: String,
    /// What encrypting the body gives. It is read only where the body is to be encrypted.
    pub sealed: String,
    pub attachments: Option<serde_json::Value>,
    pub shared_resources: Option<serde_json::Value>,
    pub mentions: Option<serde_json::Value>,
}

/// The highest number of a message in a chat.
pub open spec fn newest(messages: Seq<StoredMessage>) -> Option<i32>
    decreases messages.len(),
{
    if messages.len() == 0 {
        None
    } else {
        match newest(messages.drop_last()) {
            Some(n) => if messages.last().seq > n {
                Some(messages.last().seq)
            } else {
                Some(n)
            },
            None => Some(messages.last().seq),
        }
    }
}

fn find_newest(messages: &Vec<StoredMessage>) -> (r: Option<i32>)
    ensures
        r == newest(messages@),
{
    let mut best: Option<i32> = None;
    let mut i: usize = 0;
    assert(messages@.take(0) == Seq::<StoredMessage>::empty());
    while i < messages.len()
        invariant
            i <= messages@.len(),
            best == newest(messages@.take(i as int)),
        decreases messages@.len() - i,
    {
        assert(messages@.take(i as int + 1).drop_last() == messages@.take(i as int));
        best = match best {
            Some(n) => if messages[i].seq > n {
                Some(messages[i].seq)
            } else {
                Some(n)
            },
            None => Some(messages[i].seq),
        };
        i = i + 1;
    }
    assert(messages@.take(messages@.len() as int) == messages@);
    best
}

/// A message is stored under its number, and its body as it is or encrypted.
pub open spec fn stores(x: StoredMessage, m: NewMessage, seq: int, encrypted: bool) -> bool {
    &&& x.id == m.id
    &&& x.seq == seq
    &&& x.sender == m.sender
    &&& x.message_type == m.message_type
    &&& x.content == (if encrypted {
        m.sealed
    } else {
        m.content
    })
    &&& x.content_encrypted == encrypted
    &&& x.attachments == m.attachments
    &&& x.shared_resources == m.shared_resources
    &&& x.mentions == m.mentions
}

/// The sender has read their own message; how far the others have read is as it was.
pub open spec fn markers_after(
    before: Seq<ReadMarker>,
    after: Seq<ReadMarker>,
    sender: Option<Id>,
    seq: int,
) -> bool {
    &&& after.len() == before.len()
    &&& forall|i: int|
        0 <= i < after.len() ==> (#[trigger] after[i]).user_id == before[i].user_id
            && after[i].last_read_seq == (if sender == Some(before[i].user_id) {
            read_up_to(before[i].last_read_seq as int, seq)
        } else {
            before[i].last_read_seq as int
        })
}

/// Moves somebody's markers on to a message; everybody else's stay.
fn advance_markers(markers: &mut Vec<ReadMarker>, who: Option<Id>, seq: i32)
    ensures
        markers_after(old(markers)@, final(markers)@, who, seq as int),
{
    let ghost marks = markers@;
    let mut i: usize = 0;
    while i < markers.len()
        invariant
            i <= markers@.len(),
            markers@.len() == marks.len(),
            forall|k: int| i <= k < marks.len() ==> #[trigger] markers@[k] == marks[k],
            forall|k: int|
                0 <= k < i ==> (#[trigger] markers@[k]).user_id == marks[k].user_id
                    && markers@[k].last_read_seq == (if who == Some(marks[k].user_id) {
                    read_up_to(marks[k].last_read_seq as int, seq as int)
                } else {
                    marks[k].last_read_seq as int
                }),
        decreases markers@.len() - i,
    {
        let mark = markers[i];
        if same_id(who, Some(mark.user_id)) {
            let moved = ReadMarker {
                user_id: mark.user_id,
                last_read_seq: advance_read(mark.last_read_seq, seq),
            };
            markers.set(i, moved);
        }
        i = i + 1;
    }
}

/// A message that was posted, as its chat's members are to see it: with the body that was sent.
pub struct LiveMessage {
    pub id: Id,
    pub seq: i32,
    pub sender_user_id: Option<Id>,
    pub message_type: String,
    pub content: String,
    pub attachments: Option<serde_json::Value>,
    pub shared_resources: Option<serde_json::Value>,
}

/// What members are to see of a message is what was sent, whether or not it is stored encrypted.
pub open spec fn carries(l: LiveMessage, m: NewMessage, seq: int) -> bool {
    &&& l.id == m.id
    &&& l.seq == seq
    &&& l.sender_user_id == m.sender
    &&& l.message_type@ == m.message_type@
    &&& l.content@ == m.content@
    &&& opt_json(l.attachments) == opt_json(m.attachments)
    &&& opt_json(l.shared_resources) == opt_json(m.shared_resources)
}

/// Posts a message: it gets the next number of its chat, and is never unread to whoever sent it.
/// The result is what the members of the chat are to see.
pub fn post_message(log: &mut ChatLog, m: NewMessage, has_key: bool, encrypt_group: bool) -> (live:
    LiveMessage)
    requires
        newest(old(log).messages@) matches Some(n) ==> n < i32::MAX,
    ensures
        carries(live, m, next_seq(newest(old(log).messages@))),
        final(log).kind == old(log).kind,
        final(log).messages@.len() == old(log).messages@.len() + 1,
        final(log).messages@.drop_last() == old(log).messages@,
        stores(
            final(log).messages@.last(),
            m,
            live.seq as int,
            encrypts(has_key, old(log).kind@, encrypt_group),
        ),
        markers_after(old(log).markers@, final(log).markers@, m.sender, live.seq as int),
{
    let seq: i32 = match find_newest(&log.messages) {
        Some(n) => n + 1,
        None => 1,
    };
    let encrypted = should_encrypt_message(has_key, log.kind.as_str(), encrypt_group);
    let sender = m.sender;
    let live = LiveMessage {
        id: m.id,
        seq,
        sender_user_id: sender,
        message_type: m.message_type.clone(),
        content: m.content.clone(),
        attachments: copy_opt_value(&m.attachments),
        shared_resources: copy_opt_value(&m.shared_resources),
    };
    let content = if encrypted {
        m.sealed
    } else {
        m.content
    };
    let x = StoredMessage {
        id: m.id,
        seq,
        sender,
        message_type: m.message_type,
        content,
        content_encrypted: encrypted,
        attachments: m.attachments,
        shared_resources: m.shared_resources,
        mentions: m.mentions,
    };
    let ghost before = log.messages@;
    advance_markers(&mut log.markers, sender, seq);
    log.messages.push(x);
    assert(log.messages@.drop_last() =~= before);
    live
}

/// The messages of a chat come in the order of their numbers.
pub open spec fn in_sequence(messages: Seq<StoredMessage>) -> bool {
    forall|i: int, j: int|
        0 <= i < j < messages.len() ==> (#[trigger] messages[i]).seq < (#[trigger] messages[j]).seq
}

proof fn newest_is_highest(messages: Seq<StoredMessage>, i: int)
    requires
        0 <= i < messages.len(),
    ensures
        newest(messages) matches Some(n) && messages[i].seq <= n,
    decreases messages.len(),
{
    if i < messages.len() - 1 {
        newest_is_highest(messages.drop_last(), i);
    }
}

/// A message that was posted comes after all others, and is the newest: chats stay in order.
pub proof fn messages_stay_in_sequence(before: Seq<StoredMessage>, x: StoredMessage)
    requires
        in_sequence(before),
        x.seq == next_seq(newest(before)),
    ensures
        in_sequence(before.push(x)),
        newest(before.push(x)) == Some(x.seq),
{
    let after = before.push(x);
    assert(after.drop_last() =~= before);
    assert forall|i: int, j: int| 0 <= i < j < after.len() implies (#[trigger] after[i]).seq < (
    #[trigger] after[j]).seq by {
        if j == before.len() {
            newest_is_highest(before, i);
        }
    }
}

/// A sender's own message is not unread to them, what they had read stays read, and nobody else's
/// marker moves.
pub proof fn own_message_is_read(
    before: Seq<ReadMarker>,
    after: Seq<ReadMarker>,
    sender: Option<Id>,
    seq: int,
    i: int,
)
    requires
        markers_after(before, after, sender, seq),
        0 <= i < before.len(),
    ensures
        sender == Some(before[i].user_id) ==> seq <= after[i].last_read_seq,
        before[i].last_read_seq <= after[i].last_read_seq,
        sender != Some(before[i].user_id) ==> after[i].last_read_seq == before[i].last_read_seq,
{
    assert(after[i].user_id == before[i].user_id);
}

/// A message on its way to one connected member. The body is the one that was sent, never
/// the encrypted one.
pub struct GroupFrame {
    pub to: Id,
    pub chat_id: Id,
    pub id: Id,
    pub seq: i32,
    pub sender_user_id: Option<Id>,
    pub message_type: String,
    pub content: String,
    pub created_at: String,
    pub attachments: Option<serde_json::Value>,
    pub shared_resources: Option<serde_json::Value>,
}

/// The frame that carries a message of a chat to one of its members. `created_at` is when it
/// was stored.
pub open spec fn frame_for(
    f: GroupFrame,
    to: Id,
    chat_id: Id,
    created_at: Instant,
    m: LiveMessage,
) -> bool {
    &&& f.to == to
    &&& f.chat_id == chat_id
    &&& f.id == m.id
    &&& f.seq == m.seq
    &&& f.sender_user_id == m.sender_user_id
    &&& f.message_type@ == m.message_type@
    &&& f.content@ == m.content@
    &&& f.created_at@ == shown(created_at)
    &&& opt_json(f.attachments) == opt_json(m.attachments)
    &&& opt_json(f.shared_resources) == opt_json(m.shared_resources)
}

/// The frames that carry a message that was posted to the members of its chat, one to each.
pub fn fan_out(members: &Vec<Id>, chat_id: Id, created_at: Instant, m: &LiveMessage) -> (r: Vec<
    GroupFrame,
>)
    ensures
        r@.len() == members@.len(),
        forall|i: int|
            0 <= i < r@.len() ==> frame_for(
                #[trigger] r@[i],
                members@[i],
                chat_id,
                created_at,
                *m,
            ),
{
    let mut out: Vec<GroupFrame> = Vec::new();
    let mut i: usize = 0;
    while i < members.len()
        invariant
            i <= members@.len(),
            out@.len() == i,
            forall|k: int|
                0 <= k < i ==> frame_for(
                    #[trigger] out@[k],
                    members@[k],
                    chat_id,
                    created_at,
                    *m,
                ),
        decreases members@.len() - i,
    {
        out.push(
            GroupFrame {
                to: members[i],
                chat_id,
                id: m.id,
                seq: m.seq,
                sender_user_id: m.sender_user_id,
                message_type: m.message_type.clone(),
                content: m.content.clone(),
                created_at: show(created_at),
                attachments: copy_opt_value(&m.attachments),
                shared_resources: copy_opt_value(&m.shared_resources),
            },
        );
        i = i + 1;
    }
    out
}

/// Members get what was posted: the body as it was sent, never as it is stored where it is
/// encrypted, under the identifier and the number that it is stored under.
pub proof fn members_get_what_was_posted(
    m: NewMessage,
    x: StoredMessage,
    l: LiveMessage,
    f: GroupFrame,
    to: Id,
    chat_id: Id,
    created_at: Instant,
    encrypted: bool,
)
    requires
        stores(x, m, l.seq as int, encrypted),
        carries(l, m, l.seq as int),
        frame_for(f, to, chat_id, created_at, l),
    ensures
        f.content@ == m.content@,
        !encrypted ==> f.content@ == x.content@,
        f.id == x.id,
        f.seq == x.seq,
        f.sender_user_id == x.sender,
        f.message_type@ == x.message_type@,
        opt_json(f.attachments) == opt_json(x.attachments),
        opt_json(f.shared_resources) == opt_json(x.shared_resources),
{
}

/// The type of a message that links to a chat: the platform's own, or a person's.
pub fn chat_link_type(system: bool) -> (r: &'static str)
    ensures
        r@ == (if system {
            "system"@
        } else {
            "user"@
        }),
{
    if system {
        "system"
    } else {
        "user"
    }
}

/// What a project's chat is told of a new memory.
pub fn memory_notice(content: &str) -> (r: String)
    ensures
        r@ == "Memory added: "@ + content@,
{
    joined("Memory added: ", content)
}

/// The name of a project's chat.
pub fn project_chat_name(project: Option<String>) -> (r: String)
    ensures
        r@ == (match project {
            Some(n) => n@,
            None => "Project chat"@,
        }),
{
    match project {
        Some(n) => n,
        None => "Project chat".to_owned(),
    }
}

/// Whether an identifier is among some.
pub(crate) fn among(ids: &Vec<Id>, id: Id) -> (r: bool)
    ensures
        r == ids@.contains(id),
{
    let mut i: usize = 0;
    while i < ids.len()
        invariant
            i <= ids@.len(),
            forall|k: int| 0 <= k < i ==> ids@[k] != id,
        decreases ids@.len() - i,
    {
        if ids[i] == id {
            assert(ids@[i as int] == id);
            return true;
        }
        i = i + 1;
    }
    false
}

/// Who is added to a project's chat, and who leaves it.
pub struct Resync {
    pub add: Vec<Id>,
    pub remove: Vec<Id>,
}

/// Brings a project's chat in line with the project's people: everybody on the project is
/// added, whoever is not leaves, and the owner stays as they are.
pub fn resync_project_chat_members(members: &Vec<Id>, people: &Vec<Id>, owner: Id) -> (r: Resync)
    ensures
        brings_in_line(members@, people@, owner, r.add@, r.remove@),
{
    let mut add: Vec<Id> = Vec::new();
    let mut i: usize = 0;
    while i < people.len()
        invariant
            i <= people@.len(),
            forall|x: Id|
                add@.contains(x) <==> (exists|k: int| 0 <= k < i && people@[k] == x) && x != owner,
        decreases people@.len() - i,
    {
        let uid: Id = people[i];
        let ghost had = add@;
        if uid != owner {
            add.push(uid);
        }
        proof {
            assert forall|x: Id|
                add@.contains(x) <==> (exists|k: int| 0 <= k < i + 1 && people@[k] == x) && x
                    != owner by {
                if add@.contains(x) {
                    let k = choose|k: int| 0 <= k < add@.len() && add@[k] == x;
                    if k < had.len() {
                        assert(had[k] == x);
                        assert(had.contains(x));
                    } else {
                        assert(people@[i as int] == x);
                    }
                }
                if (exists|k: int| 0 <= k < i + 1 && people@[k] == x) && x != owner {
                    let k = choose|k: int| 0 <= k < i + 1 && people@[k] == x;
                    if k < i {
                        assert(had.contains(x));
                        let j = choose|j: int| 0 <= j < had.len() && had[j] == x;
                        assert(add@[j] == x);
                    } else {
                        assert(add@[had.len() as int] == x);
                    }
                }
            }
        }
        i = i + 1;
    }
    let mut remove: Vec<Id> = Vec::new();
    let mut j: usize = 0;
    while j < members.len()
        invariant
            j <= members@.len(),
            forall|x: Id|
                remove@.contains(x) <==> (exists|k: int| 0 <= k < j && members@[k] == x) && x
                    != owner && !people@.contains(x),
        decreases members@.len() - j,
    {
        let uid: Id = members[j];
        let ghost had = remove@;
        let goes = uid != owner && !among(people, uid);
        if goes {
            remove.push(uid);
        }
        proof {
            assert forall|x: Id|
                remove@.contains(x) <==> (exists|k: int| 0 <= k < j + 1 && members@[k] == x) && x
                    != owner && !people@.contains(x) by {
                if remove@.contains(x) {
                    let k = choose|k: int| 0 <= k < remove@.len() && remove@[k] == x;
                    if k < had.len() {
                        assert(had[k] == x);
                        assert(had.contains(x));
                    } else {
                        assert(members@[j as int] == x);
                    }
                }
                if (exists|k: int| 0 <= k < j + 1 && members@[k] == x) && x != owner
                    && !people@.contains(x) {
                    let k = choose|k: int| 0 <= k < j + 1 && members@[k] == x;
                    if k < j {
                        assert(had.contains(x));
                        let m = choose|m: int| 0 <= m < had.len() && had[m] == x;
                        assert(remove@[m] == x);
                    } else {
                        assert(remove@[had.len() as int] == x);
                    }
                }
            }
        }
        j = j + 1;
    }
    Resync { add, remove }
}

/// What is added to a chat and taken out of it: the project's people are added, and whoever is
/// not among them is taken out, but for the owner.
pub open spec fn brings_in_line(
    members: Seq<Id>,
    people: Seq<Id>,
    owner: Id,
    add: Seq<Id>,
    remove: Seq<Id>,
) -> bool {
    &&& forall|x: Id| #[trigger] add.contains(x) <==> people.contains(x) && x != owner
    &&& forall|x: Id| #[trigger]
        remove.contains(x) <==> members.contains(x) && x != owner && !people.contains(x)
}

/// A chat that was brought in line has exactly the project's people and the owner in it, where
/// the owner was in it.
pub proof fn resync_is_exact(
    members: Seq<Id>,
    people: Seq<Id>,
    owner: Id,
    add: Seq<Id>,
    remove: Seq<Id>,
    x: Id,
)
    requires
        members.contains(owner),
        brings_in_line(members, people, owner, add, remove),
    ensures
        (members.contains(x) && !remove.contains(x)) || add.contains(x) <==> people.contains(x) || x
            == owner,
{
    assert(add.contains(x) <==> people.contains(x) && x != owner);
    assert(remove.contains(x) <==> members.contains(x) && x != owner && !people.contains(x));
}

pub struct CreateChat {
    pub kind: String,
    pub name: Option<String>,
    pub project_id: Option<Id>,
    pub member_user_ids: Vec<Id>,
}

/// A chat to be created: its owner, who joins it besides, and whether those have to be of
/// the owner's circle.
pub struct NewChat {
    pub owner: Id,
    pub joining: Vec<Id>,
    pub check_circle: bool,
}

/// The others among some, in their order.
pub open spec fn others(ids: Seq<Id>, owner: Id) -> Seq<Id>
    decreases ids.len(),
{
    if ids.len() == 0 {
        Seq::empty()
    } else {
        let before = others(ids.drop_last(), owner);
        if ids.last() == owner {
            before
        } else {
            before.push(ids.last())
        }
    }
}

pub open spec fn is_chat_kind(kind: Seq<char>) -> bool {
    kind == "dm"@ || kind == "group"@ || kind == "project"@
}

/// Creates a chat of its owner and others. Whoever does not administer the platform adds
/// people of their own circle only.
pub fn create_chat(enabled: bool, ctx: &AuthContext, body: &CreateChat) -> (r: Result<
    NewChat,
    AppError,
>)
    ensures
        refusal(r) == (if account_refusal(enabled, *ctx) is Some {
            account_refusal(enabled, *ctx)
        } else if !is_chat_kind(body.kind@) {
            Some(Refusal::Validation("kind must be dm|group|project"@))
        } else {
            None
        }),
        r matches Ok(c) ==> {
            &&& ctx.user_id == Some(c.owner)
            &&& c.joining@ == others(body.member_user_ids@, c.owner)
            &&& c.check_circle == !ctx.admin
        },
{
    let owner = match require_account(enabled, ctx) {
        Ok(id) => id,
        Err(e) => {
            return Err(e);
        },
    };
    if !same(body.kind.as_str(), "dm") && !same(body.kind.as_str(), "group") && !same(
        body.kind.as_str(),
        "project",
    ) {
        return Err(validation("kind must be dm|group|project"));
    }
    let ids = &body.member_user_ids;
    let mut joining: Vec<Id> = Vec::new();
    let mut i: usize = 0;
    assert(ids@.take(0) == Seq::<Id>::empty());
    while i < ids.len()
        invariant
            i <= ids@.len(),
            joining@ == others(ids@.take(i as int), owner),
        decreases ids@.len() - i,
    {
        assert(ids@.take(i as int + 1).drop_last() == ids@.take(i as int));
        if ids[i] != owner {
            joining.push(ids[i]);
        }
        i = i + 1;
    }
    assert(ids@.take(ids@.len() as int) == ids@);
    Ok(NewChat { owner, joining, check_circle: !ctx.is_admin() })
}

/// A chat with its members.
pub struct ChatMembers {
    pub id: Id,
    pub kind: String,
    pub members: Vec<Id>,
}

/// The chat between two people, and nobody else.
pub open spec fn is_between(c: ChatMembers, me: Id, other: Id) -> bool {
    c.kind@ == "dm"@ && c.members@.len() == 2 && c.members@.contains(me) && c.members@.contains(other)
}

/// A direct message: the chat that there is, or a new one with the caller as its owner.
pub enum Dm {
    Existing(Id),
    Make { id: Id, owner: Id, member: Id },
}

pub open spec fn dm_refusal(
    enabled: bool,
    ctx: AuthContext,
    other: Id,
    circle_refusal: Option<Refusal>,
) -> Option<Refusal> {
    if account_refusal(enabled, ctx) is Some {
        account_refusal(enabled, ctx)
    } else if ctx.is(other) {
        Some(Refusal::Validation("cannot start a DM with yourself"@))
    } else {
        circle_refusal
    }
}

fn has_member(c: &ChatMembers, id: Id) -> (r: bool)
    ensures
        r == c.members@.contains(id),
{
    let mut i: usize = 0;
    while i < c.members.len()
        invariant
            i <= c.members@.len(),
            forall|k: int| 0 <= k < i ==> #[trigger] c.members@[k] != id,
        decreases c.members@.len() - i,
    {
        if c.members[i] == id {
            assert(c.members@[i as int] == id);
            return true;
        }
        i = i + 1;
    }
    false
}

/// Starts a direct message with somebody else: two people have one chat, which is taken up again.
pub fn start_dm(
    enabled: bool,
    ctx: &AuthContext,
    other: Id,
    circle_refusal: Option<AppError>,
    chats: &Vec<ChatMembers>,
    new_id: Id,
) -> (r: Result<Dm, AppError>)
    ensures
        refusal(r) == dm_refusal(
            enabled,
            *ctx,
            other,
            crate::grants::refusal_in(circle_refusal),
        ),
        r matches Ok(d) ==> ctx.user_id matches Some(me) && match d {
            Dm::Existing(id) => exists|k: int|
                0 <= k < chats@.len() && is_between(#[trigger] chats@[k], me, other) && chats@[k].id
                    == id,
            Dm::Make { id, owner, member } => {
                &&& id == new_id && owner == me && member == other
                &&& forall|k: int|
                    0 <= k < chats@.len() ==> !is_between(#[trigger] chats@[k], me, other)
            },
        },
{
    let me = match require_account(enabled, ctx) {
        Ok(me) => me,
        Err(e) => {
            return Err(e);
        },
    };
    if me == other {
        return Err(validation("cannot start a DM with yourself"));
    }
    match circle_refusal {
        Some(e) => {
            return Err(e);
        },
        None => {},
    }
    let mut i: usize = 0;
    while i < chats.len()
        invariant
            i <= chats@.len(),
            ctx.user_id == Some(me),
            dm_refusal(
                enabled,
                *ctx,
                other,
                crate::grants::refusal_in(circle_refusal),
            ) is None,
            forall|k: int| 0 <= k < i ==> !is_between(#[trigger] chats@[k], me, other),
        decreases chats@.len() - i,
    {
        let c = &chats[i];
        if same(c.kind.as_str(), "dm") && c.members.len() == 2 && has_member(c, me) && has_member(
            c,
            other,
        ) {
            assert(is_between(chats@[i as int], me, other));
            return Ok(Dm::Existing(c.id));
        }
        i = i + 1;
    }
    Ok(Dm::Make { id: new_id, owner: me, member: other })
}

pub struct AddMember {
    pub user_id: Id,
    pub role: Option<String>,
}

/// The role that a new member gets: what is asked for where that is one, and otherwise a
/// plain member's.
pub open spec fn granted_role(asked: Option<Seq<char>>) -> Seq<char> {
    if asked == Some("admin"@) {
        "admin"@
    } else if asked == Some("owner"@) {
        "owner"@
    } else {
        "member"@
    }
}

pub fn add_member(
    enabled: bool,
    ctx: &AuthContext,
    caller_role: Option<String>,
    body: &AddMember,
) -> (r: Result<String, AppError>)
    ensures
        refusal(r) == chat_admin_refusal(enabled, *ctx, opt_text(caller_role)),
        r matches Ok(role) ==> role@ == granted_role(opt_text(body.role)),
{
    match require_admin_of(enabled, ctx, caller_role) {
        Ok(_) => {},
        Err(e) => {
            return Err(e);
        },
    }
    match &body.role {
        Some(x) => {
            if same(x.as_str(), "admin") {
                return Ok("admin".to_owned());
            }
            if same(x.as_str(), "owner") {
                return Ok("owner".to_owned());
            }
        },
        None => {},
    }
    Ok("member".to_owned())
}

/// A JSON array with something in it.
pub open spec fn has_items(v: Option<serde_json::Value>) -> bool {
    v matches Some(x) && items_at(json_in(x)) matches Some(l) && l.len() > 0
}

fn any_items(v: &Option<serde_json::Value>) -> (r: bool)
    ensures
        r == has_items(*v),
{
    match v {
        Some(x) => match read_items(x) {
            Some(l) => l.len() > 0,
            None => false,
        },
        None => false,
    }
}

pub struct SendMessage {
    pub content: String,
    pub attachments: Option<serde_json::Value>,
    pub shared_resources: Option<serde_json::Value>,
    pub mentions: Option<serde_json::Value>,
}

/// A message says something, or has something attached.
pub open spec fn message_refusal(content: Seq<char>, attached: bool) -> Option<Refusal> {
    if trimmed(content).len() == 0 && !attached {
        Some(Refusal::Validation("message must have text or an attachment"@))
    } else {
        None
    }
}

pub fn check_message(content: &str, attached: bool) -> (r: Result<(), AppError>)
    ensures
        refusal(r) == message_refusal(content@, attached),
{
    if blank(content) && !attached {
        Err(validation("message must have text or an attachment"))
    } else {
        Ok(())
    }
}

/// Lets a member's message through.
pub fn send_message(
    enabled: bool,
    ctx: &AuthContext,
    role: Option<String>,
    body: &SendMessage,
) -> (r: Result<(), AppError>)
    ensures
        refusal(r) == (if member_refusal(enabled, *ctx, opt_text(role)) is Some {
            member_refusal(enabled, *ctx, opt_text(role))
        } else {
            message_refusal(body.content@, has_items(body.attachments))
        }),
{
    match require_member(enabled, ctx, role) {
        Ok(_) => {},
        Err(e) => {
            return Err(e);
        },
    }
    let attached = any_items(&body.attachments);
    check_message(body.content.as_str(), attached)
}

/// Lets a member's message over the socket through: it has to say something.
pub fn send_via_ws(enabled: bool, ctx: &AuthContext, role: Option<String>, content: &str) -> (r:
    Result<(), AppError>)
    ensures
        refusal(r) == (if member_refusal(enabled, *ctx, opt_text(role)) is Some {
            member_refusal(enabled, *ctx, opt_text(role))
        } else if trimmed(content@).len() == 0 {
            Some(Refusal::Validation("content must not be empty"@))
        } else {
            None
        }),
{
    match require_member(enabled, ctx, role) {
        Ok(_) => {},
        Err(e) => {
            return Err(e);
        },
    }
    if blank(content) {
        Err(validation("content must not be empty"))
    } else {
        Ok(())
    }
}

pub struct ReactBody {
    pub emoji: String,
}

pub struct ReactResult {
    pub added: bool,
}

/// The largest reaction, in bytes.
pub const EMOJI_MAX: usize = 32;

pub open spec fn reaction_refusal(
    enabled: bool,
    ctx: AuthContext,
    role: Option<Seq<char>>,
    emoji: Seq<char>,
    belongs: bool,
) -> Option<Refusal> {
    if member_refusal(enabled, ctx, role) is Some {
        member_refusal(enabled, ctx, role)
    } else if trimmed(emoji).len() == 0 || encode_utf8(trimmed(emoji)).len() > EMOJI_MAX {
        Some(Refusal::Validation("invalid emoji"@))
    } else if !belongs {
        Some(Refusal::Validation("message not in this chat"@))
    } else {
        None
    }
}

/// The reaction that is toggled: the caller's, on a message of the chat.
pub fn check_reaction(
    enabled: bool,
    ctx: &AuthContext,
    role: Option<String>,
    body: &ReactBody,
    belongs: bool,
) -> (r: Result<(Id, String), AppError>)
    ensures
        refusal(r) == reaction_refusal(
            enabled,
            *ctx,
            opt_text(role),
            body.emoji@,
            belongs,
        ),
        r matches Ok(x) ==> ctx.user_id == Some(x.0) && x.1@ == trimmed(body.emoji@),
{
    match require_member(enabled, ctx, role) {
        Ok(_) => {},
        Err(e) => {
            return Err(e);
        },
    }
    let uid = match ctx.user_id {
        Some(id) => id,
        None => {
            return Err(forbidden("a user is required"));
        },
    };
    let emoji = trim(body.emoji.as_str());
    if emoji.as_str().is_empty() || byte_len(emoji.as_str()) > EMOJI_MAX {
        return Err(validation("invalid emoji"));
    }
    if !belongs {
        return Err(validation("message not in this chat"));
    }
    Ok((uid, emoji))
}

/// A stored reaction.
pub struct Reaction {
    pub message_id: Id,
    pub user_id: Id,
    pub emoji: String,
}

/// A reaction, by what makes it one: the message, who reacted, and the sign.
pub open spec fn mark_of(x: Reaction) -> (Id, Id, Seq<char>) {
    (x.message_id, x.user_id, x.emoji@)
}

pub open spec fn marks(s: Seq<Reaction>) -> Seq<(Id, Id, Seq<char>)> {
    s.map_values(|x: Reaction| mark_of(x))
}

/// The others, in their order.
pub open spec fn without(s: Seq<(Id, Id, Seq<char>)>, mark: (Id, Id, Seq<char>)) -> Seq<
    (Id, Id, Seq<char>),
>
    decreases s.len(),
{
    if s.len() == 0 {
        Seq::empty()
    } else {
        let before = without(s.drop_last(), mark);
        if s.last() == mark {
            before
        } else {
            before.push(s.last())
        }
    }
}

/// A reaction that was there is gone, and one that was not is there.
pub open spec fn toggled(s: Seq<(Id, Id, Seq<char>)>, mark: (Id, Id, Seq<char>)) -> Seq<
    (Id, Id, Seq<char>),
> {
    if s.contains(mark) {
        without(s, mark)
    } else {
        s.push(mark)
    }
}

/// Toggles a reaction.
pub fn toggle_reaction(reactions: &mut Vec<Reaction>, message_id: Id, user_id: Id, emoji: &str) -> (r:
    ReactResult)
    ensures
        marks(final(reactions)@) == toggled(marks(old(reactions)@), (message_id, user_id, emoji@)),
        r.added == !marks(old(reactions)@).contains((message_id, user_id, emoji@)),
{
    let ghost mark = (message_id, user_id, emoji@);
    let ghost all = marks(reactions@);
    let n: usize = reactions.len();
    let mut found = false;
    let mut i: usize = 0;
    assert(all.take(0) =~= Seq::empty());
    assert(reactions@.take(0) =~= Seq::empty());
    let mut left: Vec<Reaction> = Vec::new();
    assert(marks(left@) =~= Seq::empty());
    while i < n
        invariant
            n == all.len(),
            i <= n,
            mark == (message_id, user_id, emoji@),
            marks(reactions@) == all.skip(i as int),
            marks(left@) == without(all.take(i as int), mark),
            found == exists|k: int| 0 <= k < i && #[trigger] all[k] == mark,
        decreases n - i,
    {
        let ghost had = reactions@;
        let x = reactions.remove(0);
        proof {
            assert(marks(had).len() == had.len());
            assert(had[0] == x);
            assert(marks(had)[0] == mark_of(x));
            assert(all[i as int] == mark_of(x));
            assert(marks(reactions@) =~= marks(had).skip(1));
            assert(marks(reactions@) =~= all.skip(i as int + 1));
            assert(all.take(i as int + 1).drop_last() =~= all.take(i as int));
        }
        if x.message_id == message_id && x.user_id == user_id && same(x.emoji.as_str(), emoji) {
            found = true;
        } else {
            let ghost kept = left@;
            left.push(x);
            assert(marks(left@) =~= marks(kept).push(mark_of(x)));
        }
        i = i + 1;
    }
    assert(all.take(n as int) =~= all);
    proof {
        if !found {
            assert forall|k: int| 0 <= k < all.len() implies all[k] != mark by {}
            without_nothing(all, mark);
        }
    }
    if !found {
        let ghost kept = left@;
        left.push(Reaction { message_id, user_id, emoji: emoji.to_owned() });
        assert(marks(left@) =~= marks(kept).push(mark));
    }
    *reactions = left;
    ReactResult { added: !found }
}

proof fn without_nothing(s: Seq<(Id, Id, Seq<char>)>, mark: (Id, Id, Seq<char>))
    requires
        !s.contains(mark),
    ensures
        without(s, mark) == s,
    decreases s.len(),
{
    if s.len() > 0 {
        assert(s[s.len() - 1] == s.last());
        assert forall|k: int| 0 <= k < s.drop_last().len() implies s.drop_last()[k] != mark by {
            assert(s[k] == s.drop_last()[k]);
        }
        without_nothing(s.drop_last(), mark);
        assert(s.drop_last().push(s.last()) =~= s);
    }
}

proof fn without_keeps_the_others(
    s: Seq<(Id, Id, Seq<char>)>,
    mark: (Id, Id, Seq<char>),
    x: (Id, Id, Seq<char>),
)
    ensures
        without(s, mark).contains(x) == (s.contains(x) && x != mark),
    decreases s.len(),
{
    if s.len() > 0 {
        let fewer = s.drop_last();
        without_keeps_the_others(fewer, mark, x);
        assert(s =~= fewer.push(s.last()));
        if fewer.contains(x) {
            let k = choose|k: int| 0 <= k < fewer.len() && fewer[k] == x;
            assert(s[k] == x);
        }
        if s.contains(x) && !fewer.contains(x) {
            let k = choose|k: int| 0 <= k < s.len() && s[k] == x;
            if k < fewer.len() {
                assert(fewer[k] == x);
            }
        }
        let before = without(fewer, mark);
        if s.last() != mark {
            assert(without(s, mark) == before.push(s.last()));
            if before.contains(x) {
                let k = choose|k: int| 0 <= k < before.len() && before[k] == x;
                assert(before.push(s.last())[k] == x);
            }
            if s.last() == x {
                assert(before.push(s.last())[before.len() as int] == x);
                assert(s[s.len() - 1] == x);
            }
            if before.push(s.last()).contains(x) && s.last() != x {
                let k = choose|k: int| 0 <= k < before.len() + 1 && before.push(s.last())[k] == x;
                assert(before[k] == x);
            }
        }
    }
}

/// Toggling a reaction changes that reaction and no other, and toggling it twice leaves the
/// reactions that there were.
pub proof fn toggle_twice_is_nothing(
    s: Seq<(Id, Id, Seq<char>)>,
    mark: (Id, Id, Seq<char>),
    x: (Id, Id, Seq<char>),
)
    ensures
        toggled(s, mark).contains(mark) == !s.contains(mark),
        x != mark ==> toggled(s, mark).contains(x) == s.contains(x),
        toggled(toggled(s, mark), mark).contains(x) == s.contains(x),
{
    once_toggled(s, mark, mark);
    once_toggled(s, mark, x);
    once_toggled(toggled(s, mark), mark, mark);
    once_toggled(toggled(s, mark), mark, x);
}

proof fn once_toggled(
    s: Seq<(Id, Id, Seq<char>)>,
    mark: (Id, Id, Seq<char>),
    x: (Id, Id, Seq<char>),
)
    ensures
        toggled(s, mark).contains(x) == (if x == mark {
            !s.contains(mark)
        } else {
            s.contains(x)
        }),
{
    without_keeps_the_others(s, mark, x);
    let more = s.push(mark);
    if s.contains(x) {
        let k = choose|k: int| 0 <= k < s.len() && s[k] == x;
        assert(more[k] == x);
    }
    assert(more[s.len() as int] == mark);
    if more.contains(x) && x != mark {
        let k = choose|k: int| 0 <= k < s.len() + 1 && more[k] == x;
        assert(s[k] == x);
    }
}

pub struct HistoryQuery {
    pub since: i32,
    pub limit: Option<i64>,
}

pub struct ReactionAgg {
    pub emoji: String,
    pub count: i64,
    pub mine: bool,
}

/// How many messages are listed: two hundred, unless another number from one to a thousand
/// is asked for.
pub fn history_limit(q: &HistoryQuery) -> (r: i64)
    ensures
        r == history_size(q.limit),
{
    match q.limit {
        Some(n) => clamp(n, 1, 1000),
        None => 200,
    }
}

/// What decrypting a body came to.
pub enum Opened {
    NoKey,
    Failed,
    Text(String),
}

/// A body as it is shown: one that was stored as it is, or what became of decrypting it.
pub open spec fn body_shown(stored: Seq<char>, encrypted: bool, opened: Opened) -> Seq<char> {
    if encrypted {
        match opened {
            Opened::NoKey => "[encrypted]"@,
            Opened::Failed => "[unable to decrypt]"@,
            Opened::Text(t) => t@,
        }
    } else {
        stored
    }
}

pub fn show_body(stored: String, encrypted: bool, opened: Opened) -> (r: String)
    ensures
        r@ == body_shown(stored@, encrypted, opened),
{
    if encrypted {
        match opened {
            Opened::NoKey => "[encrypted]".to_owned(),
            Opened::Failed => "[unable to decrypt]".to_owned(),
            Opened::Text(t) => t,
        }
    } else {
        stored
    }
}

/// Reactions to one message with one sign, as they are stored.
pub struct ReactionRow {
    pub message_id: Id,
    pub emoji: String,
    pub count: i64,
    pub mine: bool,
}

/// A reaction as contracts see it.
pub open spec fn agg_view(a: ReactionAgg) -> (Seq<char>, i64, bool) {
    (a.emoji@, a.count, a.mine)
}

/// The reactions to one message, in their order.
pub open spec fn reactions_to(rows: Seq<ReactionRow>, id: Id) -> Seq<(Seq<char>, i64, bool)>
    decreases rows.len(),
{
    if rows.len() == 0 {
        Seq::empty()
    } else {
        let before = reactions_to(rows.drop_last(), id);
        if rows.last().message_id == id {
            before.push((rows.last().emoji@, rows.last().count, rows.last().mine))
        } else {
            before
        }
    }
}

fn collect_reactions(rows: &Vec<ReactionRow>, id: Id) -> (r: Vec<ReactionAgg>)
    ensures
        r@.map_values(|a: ReactionAgg| agg_view(a)) == reactions_to(rows@, id),
{
    let mut out: Vec<ReactionAgg> = Vec::new();
    let mut i: usize = 0;
    assert(rows@.take(0) == Seq::<ReactionRow>::empty());
    while i < rows.len()
        invariant
            i <= rows@.len(),
            out@.map_values(|a: ReactionAgg| agg_view(a)) == reactions_to(rows@.take(i as int), id),
        decreases rows@.len() - i,
    {
        assert(rows@.take(i as int + 1).drop_last() == rows@.take(i as int));
        if rows[i].message_id == id {
            let ghost had = out@;
            let a = ReactionAgg {
                emoji: rows[i].emoji.clone(),
                count: rows[i].count,
                mine: rows[i].mine,
            };
            out.push(a);
            assert(out@.map_values(|a: ReactionAgg| agg_view(a)) == had.map_values(
                |a: ReactionAgg| agg_view(a),
            ).push(agg_view(a)));
        }
        i = i + 1;
    }
    assert(rows@.take(rows@.len() as int) == rows@);
    out
}

/// A stored message, with what became of decrypting it.
pub struct MessageRow {
    pub id: Id,
    pub seq: i32,
    pub sender_user_id: Option<Id>,
    pub message_type: String,
    pub content: String,
    pub content_encrypted: bool,
    pub opened: Opened,
    pub created_at: Instant,
    pub mentions: Option<serde_json::Value>,
    pub shared_resources: Option<serde_json::Value>,
}

pub struct MessageOut {
    pub id: Id,
    pub seq: i32,
    pub sender_user_id: Option<Id>,
    pub message_type: String,
    pub content: String,
    pub created_at: String,
    pub mentions: Option<serde_json::Value>,
    pub shared_resources: Option<serde_json::Value>,
    pub reactions: Vec<ReactionAgg>,
}

/// Whether the message at a position was listed before it.
pub open spec fn repeated(rows: Seq<MessageRow>, i: int) -> bool {
    exists|k: int| 0 <= k < i && (#[trigger] rows[k]).id == rows[i].id
}

/// A message is shown with its body, its time, and, the first time, the reactions to it.
pub open spec fn message_shown(
    rows: Seq<MessageRow>,
    i: int,
    o: MessageOut,
    reactions: Seq<ReactionRow>,
) -> bool {
    let row = rows[i];
    &&& o.id == row.id
    &&& o.seq == row.seq
    &&& o.sender_user_id == row.sender_user_id
    &&& o.message_type@ == row.message_type@
    &&& o.content@ == body_shown(row.content@, row.content_encrypted, row.opened)
    &&& o.created_at@ == shown(row.created_at)
    &&& o.mentions == row.mentions
    &&& o.shared_resources == row.shared_resources
    &&& o.reactions@.map_values(|a: ReactionAgg| agg_view(a)) == (if repeated(rows, i) {
        Seq::empty()
    } else {
        reactions_to(reactions, row.id)
    })
}

impl Ranked for MessageRow {
    /// The lower its number, the earlier a message is shown.
    open spec fn rank(self) -> (int, int) {
        (-(self.seq as int), 0)
    }

    fn outranks(&self, other: &MessageRow) -> (r: bool) {
        self.seq < other.seq
    }
}

/// The messages behind a number, in the order in which they are stored.
pub open spec fn later_than(rows: Seq<MessageRow>, since: i32) -> Seq<MessageRow>
    decreases rows.len(),
{
    if rows.len() == 0 {
        Seq::empty()
    } else {
        let before = later_than(rows.drop_last(), since);
        if rows.last().seq > since {
            before.push(rows.last())
        } else {
            before
        }
    }
}

/// How many messages a page of the history has at most.
pub open spec fn history_size(limit: Option<i64>) -> int {
    match limit {
        Some(n) => clamped(n as int, 1, 1000),
        None => 200,
    }
}

/// A page of the history of a chat: of the messages behind the number that is asked for the
/// lowest so many, in the order of their numbers.
pub open spec fn history(rows: Seq<MessageRow>, q: HistoryQuery) -> Seq<MessageRow> {
    first(highest_first(later_than(rows, q.since)), history_size(q.limit) as nat)
}

/// The page of the history that is asked for. `rows` are the messages of the chat.
pub fn replay(rows: Vec<MessageRow>, q: &HistoryQuery) -> (r: Vec<MessageRow>)
    ensures
        r@ == history(rows@, *q),
{
    let limit: i64 = history_limit(q);
    let n: usize = rows.len();
    let mut rest = rows;
    let mut later: Vec<MessageRow> = Vec::new();
    let mut i: usize = 0;
    assert(rows@.take(0) == Seq::<MessageRow>::empty());
    while i < n
        invariant
            n == rows@.len(),
            i <= n,
            rest@ == rows@.skip(i as int),
            later@ == later_than(rows@.take(i as int), q.since),
        decreases n - i,
    {
        let row = rest.remove(0);
        assert(row == rows@[i as int]);
        assert(rest@ =~= rows@.skip(i as int + 1));
        assert(rows@.take(i as int + 1).drop_last() == rows@.take(i as int));
        if row.seq > q.since {
            later.push(row);
        }
        i = i + 1;
    }
    assert(rows@.take(n as int) == rows@);
    let mut page = rank_list(later);
    let ghost all = page@;
    page.truncate(limit as usize);
    assert(page@ =~= first(all, limit as nat));
    page
}

proof fn later_messages_are_stored(rows: Seq<MessageRow>, since: i32, m: MessageRow)
    ensures
        later_than(rows, since).contains(m) <==> rows.contains(m) && m.seq > since,
    decreases rows.len(),
{
    let all = later_than(rows, since);
    if rows.len() > 0 {
        let front = rows.drop_last();
        let before = later_than(front, since);
        later_messages_are_stored(front, since, m);
        if all.contains(m) {
            let i = all.index_of(m);
            if i < before.len() {
                assert(before[i] == m);
                let k = front.index_of(m);
                assert(rows[k] == m);
            } else {
                assert(rows[rows.len() - 1] == m);
            }
        }
        if rows.contains(m) && m.seq > since {
            let k = rows.index_of(m);
            if k < rows.len() - 1 {
                assert(front[k] == m);
                let i = before.index_of(m);
                assert(all[i] == m);
            } else {
                assert(all[all.len() - 1] == m);
            }
        }
    }
}

/// A page of the history holds messages of the chat behind the number that is asked for, in the
/// order of their numbers, and no more than it may have.
pub proof fn histories_are_in_order(rows: Seq<MessageRow>, q: HistoryQuery, i: int, j: int)
    requires
        0 <= i <= j < history(rows, q).len(),
    ensures
        history(rows, q).len() <= history_size(q.limit),
        rows.contains(history(rows, q)[i]),
        history(rows, q)[i].seq > q.since,
        history(rows, q)[i].seq <= history(rows, q)[j].seq,
{
    let later = later_than(rows, q.since);
    let ordered = highest_first(later);
    ordered_lists_are_whole(later);
    ordered_lists_hold_the_same(later, ordered[i]);
    assert(ordered.contains(ordered[i]));
    later_messages_are_stored(rows, q.since, ordered[i]);
    if i < j {
        assert(!above(ordered[j].rank(), ordered[i].rank()));
    }
}

/// Replaying a chat leaves no gap: a message behind the number that is asked for is on the page,
/// or the page is full and the message has a number that is at least as high as every one on it,
/// so that the page behind the last of them goes on with it.
pub proof fn replays_leave_no_gap(rows: Seq<MessageRow>, q: HistoryQuery, m: MessageRow)
    requires
        rows.contains(m),
        m.seq > q.since,
        forall|i: int, j: int|
            0 <= i < j < rows.len() ==> (#[trigger] rows[i]).seq != (#[trigger] rows[j]).seq,
    ensures
        ({
            let page = history(rows, q);
            ||| page.contains(m)
            ||| {
                &&& page.len() == history_size(q.limit)
                &&& page.last().seq < m.seq
                &&& later_than(rows, page.last().seq).contains(m)
            }
        }),
{
    let later = later_than(rows, q.since);
    let ordered = highest_first(later);
    let page = history(rows, q);
    ordered_lists_are_whole(later);
    later_messages_are_stored(rows, q.since, m);
    ordered_lists_hold_the_same(later, m);
    assert(ordered.contains(m));
    let k = ordered.index_of(m);
    if k < page.len() {
        assert(page[k] == m);
    } else {
        let at = page.len() - 1;
        let last = ordered[at];
        assert(!above(m.rank(), last.rank()));
        ordered_lists_hold_the_same(later, last);
        assert(ordered.contains(last));
        later_messages_are_stored(rows, q.since, last);
        if last.seq == m.seq {
            let a = rows.index_of(last);
            let b = rows.index_of(m);
            assert(a == b);
            assert(last == m);
            assert(page[at] == m);
            assert(page.contains(m));
        }
        later_messages_are_stored(rows, last.seq, m);
    }
}

/// A message that was posted is replayed to whoever has seen less than it: from any lower number
/// it is among what comes behind, under the number it was posted with.
pub proof fn posted_messages_are_replayed(
    before: Seq<StoredMessage>,
    x: StoredMessage,
    rows: Seq<MessageRow>,
    m: MessageRow,
    since: i32,
)
    requires
        x.seq == next_seq(newest(before)),
        since < x.seq,
        rows.contains(m),
        m.id == x.id,
        m.seq == x.seq,
    ensures
        later_than(rows, since).contains(m),
        forall|i: int| 0 <= i < before.len() ==> (#[trigger] before[i]).seq < m.seq,
{
    later_messages_are_stored(rows, since, m);
    assert forall|i: int| 0 <= i < before.len() implies (#[trigger] before[i]).seq < m.seq by {
        newest_is_highest(before, i);
    }
}

/// The highest number of the messages of a chat; nought where there are none.
pub open spec fn latest_seq(rows: Seq<MessageRow>) -> int
    decreases rows.len(),
{
    if rows.len() == 0 {
        0
    } else {
        read_up_to(latest_seq(rows.drop_last()), rows.last().seq as int)
    }
}

fn find_latest_seq(rows: &Vec<MessageRow>) -> (r: i32)
    ensures
        r == latest_seq(rows@),
{
    let mut latest: i32 = 0;
    let mut i: usize = 0;
    assert(rows@.take(0) == Seq::<MessageRow>::empty());
    while i < rows.len()
        invariant
            i <= rows@.len(),
            latest == latest_seq(rows@.take(i as int)),
        decreases rows@.len() - i,
    {
        assert(rows@.take(i as int + 1).drop_last() == rows@.take(i as int));
        latest = advance_read(latest, rows[i].seq);
        i = i + 1;
    }
    assert(rows@.take(rows@.len() as int) == rows@);
    latest
}

/// Opening a chat leaves nothing in it unread to whoever opens it, and moves nobody else's
/// marker.
pub proof fn opened_chats_are_read(
    rows: Seq<MessageRow>,
    before: Seq<ReadMarker>,
    after: Seq<ReadMarker>,
    me: Option<Id>,
    i: int,
    k: int,
)
    requires
        markers_after(before, after, me, latest_seq(rows)),
        0 <= i < before.len(),
        0 <= k < rows.len(),
    ensures
        me == Some(before[i].user_id) ==> rows[k].seq <= after[i].last_read_seq,
        me != Some(before[i].user_id) ==> after[i].last_read_seq == before[i].last_read_seq,
{
    latest_is_latest(rows, k);
    own_message_is_read(before, after, me, latest_seq(rows), i);
}

proof fn latest_is_latest(rows: Seq<MessageRow>, k: int)
    requires
        0 <= k < rows.len(),
    ensures
        rows[k].seq <= latest_seq(rows),
    decreases rows.len(),
{
    if k < rows.len() - 1 {
        latest_is_latest(rows.drop_last(), k);
    }
}

/// Opens a chat, for its members: the page of its history that is asked for, and the chat is
/// read up to its latest message. `rows` are the messages of the chat.
pub fn list_messages(
    enabled: bool,
    ctx: &AuthContext,
    role: Option<String>,
    q: &HistoryQuery,
    rows: Vec<MessageRow>,
    reactions: &Vec<ReactionRow>,
    markers: &mut Vec<ReadMarker>,
) -> (r: Result<Vec<MessageOut>, AppError>)
    ensures
        refusal(r) == member_refusal(enabled, *ctx, opt_text(role)),
        r is Err ==> *final(markers) == *old(markers),
        r matches Ok(v) ==> {
            let page = history(rows@, *q);
            &&& v@.len() == page.len()
            &&& forall|i: int|
                0 <= i < v@.len() ==> message_shown(page, i, #[trigger] v@[i], reactions@)
            &&& markers_after(
                old(markers)@,
                final(markers)@,
                ctx.user_id,
                latest_seq(rows@),
            )
        },
{
    match require_member(enabled, ctx, role) {
        Ok(_) => {},
        Err(e) => {
            return Err(e);
        },
    }
    advance_markers(markers, ctx.user_id, find_latest_seq(&rows));
    Ok(messages_out(replay(rows, q), reactions))
}

/// Messages as they are shown.
fn messages_out(rows: Vec<MessageRow>, reactions: &Vec<ReactionRow>) -> (r: Vec<MessageOut>)
    ensures
        r@.len() == rows@.len(),
        forall|i: int|
            0 <= i < r@.len() ==> message_shown(rows@, i, #[trigger] r@[i], reactions@),
{
    let n: usize = rows.len();
    let mut rest = rows;
    let mut seen: Vec<Id> = Vec::new();
    let mut out: Vec<MessageOut> = Vec::new();
    let mut i: usize = 0;
    while i < n
        invariant
            n == rows@.len(),
            i <= n,
            rest@ == rows@.skip(i as int),
            out@.len() == i,
            seen@.len() == i,
            forall|k: int| 0 <= k < i ==> #[trigger] seen@[k] == rows@[k].id,
            forall|k: int|
                0 <= k < i ==> message_shown(rows@, k, #[trigger] out@[k], reactions@),
        decreases n - i,
    {
        let row = rest.remove(0);
        assert(row == rows@[i as int]);
        assert(rest@ =~= rows@.skip(i as int + 1));
        let again = among(&seen, row.id);
        proof {
            if again {
                let k = choose|k: int| 0 <= k < seen@.len() && seen@[k] == row.id;
                assert(rows@[k].id == row.id);
            } else {
                assert forall|k: int| 0 <= k < i implies (#[trigger] rows@[k]).id != row.id by {
                    assert(seen@[k] == rows@[k].id);
                }
            }
        }
        let got = if again {
            Vec::new()
        } else {
            collect_reactions(reactions, row.id)
        };
        seen.push(row.id);
        assert(again ==> got@.map_values(|a: ReactionAgg| agg_view(a)) =~= Seq::empty());
        out.push(
            MessageOut {
                id: row.id,
                seq: row.seq,
                sender_user_id: row.sender_user_id,
                message_type: row.message_type,
                content: show_body(row.content, row.content_encrypted, row.opened),
                created_at: show(row.created_at),
                mentions: row.mentions,
                shared_resources: row.shared_resources,
                reactions: got,
            },
        );
        i = i + 1;
    }
    out
}

pub struct SearchQuery {
    pub q: String,
    pub limit: Option<i64>,
}

/// What is searched for, and how much of it: nothing where there is nothing to search for;
/// fifty hits, unless another number from one to two hundred is asked for.
pub fn search_messages(enabled: bool, ctx: &AuthContext, q: &SearchQuery) -> (r: Result<
    Option<(Id, i64)>,
    AppError,
>)
    ensures
        refusal(r) == account_refusal(enabled, *ctx),
        r matches Ok(x) ==> match x {
            None => trimmed(q.q@).len() == 0,
            Some(p) => trimmed(q.q@).len() > 0 && ctx.user_id == Some(p.0) && p.1 == (
            match q.limit {
                Some(n) => clamped(n as int, 1, 200),
                None => 50,
            }),
        },
{
    let uid = match require_account(enabled, ctx) {
        Ok(id) => id,
        Err(e) => {
            return Err(e);
        },
    };
    if blank(q.q.as_str()) {
        return Ok(None);
    }
    let limit: i64 = match q.limit {
        Some(n) => clamp(n, 1, 200),
        None => 50,
    };
    Ok(Some((uid, limit)))
}

pub struct NoteOut {
    pub id: Id,
    pub content: String,
    pub version: i32,
}

pub struct CreateNote {
    pub content: String,
}

/// A note as it was just written: in its first version.
pub fn create_note(id: Id, body: CreateNote) -> (r: NoteOut)
    ensures
        r.id == id,
        r.content == body.content,
        r.version == 1,
{
    NoteOut { id, content: body.content, version: 1 }
}

pub struct UpdateNote {
    pub content: String,
    /// The version that the change was made to.
    pub version: i32,
}

/// The version that a change leaves a note in; none where the note has moved on from the
/// version that the change was made to.
pub open spec fn version_after(stored: Option<i32>, made_to: i32) -> Option<int> {
    if stored == Some(made_to) {
        Some(made_to + 1)
    } else {
        None
    }
}

/// Changes a note that is still in the version the change was made to. `stored` is the
/// version it is in.
pub fn update_note(id: Id, stored: Option<i32>, body: UpdateNote) -> (r: Result<NoteOut, AppError>)
    requires
        body.version < i32::MAX,
    ensures
        match version_after(stored, body.version) {
            Some(v) => r matches Ok(n) && n.id == id && n.content == body.content && n.version == v,
            None => refusal(r) == Some(
                Refusal::Conflict("note version conflict — reload and retry"@),
            ),
        },
{
    let current = match stored {
        Some(v) => v == body.version,
        None => false,
    };
    if current {
        Ok(NoteOut { id, content: body.content, version: body.version + 1 })
    } else {
        Err(conflict("note version conflict — reload and retry"))
    }
}

/// Of two changes made to the same version of a note, the second is refused once the first
/// went through.
pub proof fn stale_note_changes_are_refused(stored: Option<i32>, made_to: i32)
    requires
        made_to < i32::MAX,
        version_after(stored, made_to) is Some,
    ensures
        version_after(Some(version_after(stored, made_to)->0 as i32), made_to) is None,
{
}

/// What a chat is called: one between two people by the other's name.
pub fn chat_name(kind: &str, name: Option<String>, other_member: Option<String>) -> (r: Option<
    String,
>)
    ensures
        r == (if kind@ == "dm"@ {
            other_member
        } else {
            name
        }),
{
    if same(kind, "dm") {
        other_member
    } else {
        name
    }
}

/// What is written down of a message: which one it was, and never what it says.
pub open spec fn sent_doc(message_id: Id, seq: i32, message_type: Seq<char>) -> Json {
    Json::Object(
        Map::empty().insert("message_id"@, Json::Text(id_text(message_id))).insert(
            "seq"@,
            Json::Number(seq as int),
        ).insert("type"@, Json::Text(message_type)),
    )
}

pub fn sent_event(chat_id: Id, sender: Option<Id>, message_id: Id, seq: i32, message_type: &str) -> (e:
    AuditEvent)
    ensures
        e@ == entry(
            "chat.message.sent"@,
            ActorRole::System,
            sender,
            "group_chat"@,
            Some(chat_id),
        ).noting(sent_doc(message_id, seq, message_type@)),
{
    let mut doc = empty_object();
    put(&mut doc, "message_id", id_value(message_id));
    put(&mut doc, "seq", number_value(seq as i64));
    put(&mut doc, "type", text_value(message_type));
    let e = record("chat.message.sent", ActorRole::System, sender, "group_chat", Some(chat_id));
    note(e, doc)
}

pub fn created_event(ctx: &AuthContext, id: Id, owner: Id) -> (e: AuditEvent)
    ensures
        e@ == entry(
            "chat.created"@,
            ActorRole::Platform(ctx.role),
            Some(owner),
            "group_chat"@,
            Some(id),
        ),
{
    record("chat.created", ActorRole::Platform(ctx.role), Some(owner), "group_chat", Some(id))
}

pub open spec fn joined_doc(user_id: Id, role: Seq<char>) -> Json {
    Json::Object(
        Map::empty().insert("user_id"@, Json::Text(id_text(user_id))).insert("role"@, Json::Text(role)),
    )
}

pub fn member_added_event(ctx: &AuthContext, chat_id: Id, user_id: Id, role: &str) -> (e: AuditEvent)
    ensures
        e@ == entry_by(*ctx, "chat.member.added"@, "group_chat"@, chat_id).noting(
            joined_doc(user_id, role@),
        ),
{
    let mut doc = empty_object();
    put(&mut doc, "user_id", id_value(user_id));
    put(&mut doc, "role", text_value(role));
    note(record_by(ctx, "chat.member.added", "group_chat", chat_id), doc)
}

pub open spec fn left_doc(user_id: Id) -> Json {
    Json::Object(Map::empty().insert("user_id"@, Json::Text(id_text(user_id))))
}

pub fn member_removed_event(ctx: &AuthContext, chat_id: Id, user_id: Id) -> (e: AuditEvent)
    ensures
        e@ == entry_by(*ctx, "chat.member.removed"@, "group_chat"@, chat_id).noting(
            left_doc(user_id),
        ),
{
    let mut doc = empty_object();
    put(&mut doc, "user_id", id_value(user_id));
    note(record_by(ctx, "chat.member.removed", "group_chat", chat_id), doc)
}

/// The link that a shared chat leaves in the chat it was shared with.
pub open spec fn link_doc(chat_id: Id) -> Json {
    Json::Object(Map::empty().insert("chat_id"@, Json::Text(id_text(chat_id))))
}

pub fn post_chat_link(src_chat_id: Id, system: bool) -> (r: (&'static str, serde_json::Value))
    ensures
        r.0@ == (if system {
            "system"@
        } else {
            "user"@
        }),
        json_in(r.1) == link_doc(src_chat_id),
{
    let mut doc = empty_object();
    put(&mut doc, "chat_id", id_value(src_chat_id));
    (chat_link_type(system), doc)
}

/// Of a message the trail notes which one it was, where in its chat it stands and of what type it
/// is: no word of it.
pub proof fn messages_are_not_in_the_trail(
    message_id: Id,
    seq: i32,
    message_type: Seq<char>,
    member: Seq<char>,
)
    requires
        member_at(sent_doc(message_id, seq, message_type), member) is Some,
    ensures
        member == "message_id"@ || member == "seq"@ || member == "type"@,
{
}

/// A message, as far as it counts as read or not.
#[derive(Clone, Copy, Debug, PartialEq, Eq, Structural)]
pub struct Posted {
    pub seq: i32,
    pub sender: Option<Id>,
}

/// A message is unread where it is behind what was read, and another's or nobody's.
pub open spec fn is_unread(m: Posted, last_read: i32, me: Id) -> bool {
    m.seq > last_read && m.sender != Some(me)
}

pub open spec fn unread_among(messages: Seq<Posted>, last_read: i32, me: Id) -> nat
    decreases messages.len(),
{
    if messages.len() == 0 {
        0
    } else {
        unread_among(messages.drop_last(), last_read, me) + if is_unread(
            messages.last(),
            last_read,
            me,
        ) {
            1nat
        } else {
            0nat
        }
    }
}

/// How many messages of a chat somebody has not read.
pub fn unread_count(messages: &Vec<Posted>, last_read: i32, me: Id) -> (r: i64)
    requires
        messages@.len() <= i64::MAX,
    ensures
        r == unread_among(messages@, last_read, me),
{
    let mut n: i64 = 0;
    let mut i: usize = 0;
    assert(messages@.take(0) == Seq::<Posted>::empty());
    while i < messages.len()
        invariant
            i <= messages@.len() <= i64::MAX,
            0 <= n <= i,
            n == unread_among(messages@.take(i as int), last_read, me),
        decreases messages@.len() - i,
    {
        assert(messages@.take(i as int + 1).drop_last() == messages@.take(i as int));
        let m = messages[i];
        let own = match m.sender {
            Some(s) => s == me,
            None => false,
        };
        if m.seq > last_read && !own {
            n = n + 1;
        }
        i = i + 1;
    }
    assert(messages@.take(messages@.len() as int) == messages@);
    n
}

/// Whoever has read up to the end of a chat has nothing unread in it.
pub proof fn nothing_is_unread_at_the_end(messages: Seq<Posted>, last_read: i32, me: Id)
    requires
        forall|i: int| 0 <= i < messages.len() ==> (#[trigger] messages[i]).seq <= last_read,
    ensures
        unread_among(messages, last_read, me) == 0,
    decreases messages.len(),
{
    if messages.len() > 0 {
        assert forall|i: int| 0 <= i < messages.drop_last().len() implies (
        #[trigger] messages.drop_last()[i]).seq <= last_read by {
            assert(messages.drop_last()[i] == messages[i]);
        }
        nothing_is_unread_at_the_end(messages.drop_last(), last_read, me);
    }
}

/// A message adds one to what the others have not read, and nothing to what its sender has not.
pub proof fn a_message_is_news_to_others(messages: Seq<Posted>, m: Posted, last_read: i32, me: Id)
    requires
        m.seq > last_read,
    ensures
        unread_among(messages.push(m), last_read, me) == unread_among(messages, last_read, me) + (
        if m.sender == Some(me) {
            0nat
        } else {
            1nat
        }),
{
    assert(messages.push(m).drop_last() == messages);
}

/// The chat of a project: the one there is, or one that is to be made.
pub enum ProjectChat {
    Existing(Id),
    Make { id: Id, name: String, owner: Id },
}

pub fn ensure_project_chat(existing: Option<Id>, project: Option<String>, owner: Id, new_id: Id) -> (r:
    ProjectChat)
    ensures
        match existing {
            Some(id) => r == ProjectChat::Existing(id),
            None => r matches ProjectChat::Make { id, name, owner: o } && id == new_id && o == owner
                && name@ == (match project {
                Some(n) => n@,
                None => "Project chat"@,
            }),
        },
{
    match existing {
        Some(id) => ProjectChat::Existing(id),
        None => ProjectChat::Make { id: new_id, name: project_chat_name(project), owner },
    }
}

/// What a project's chat is told of something remembered, and on whose account: nothing where
/// nobody remembered it.
pub fn notify_project_memory(actor: Option<Id>, content: &str) -> (r: Option<(Id, String)>)
    ensures
        match actor {
            Some(id) => r matches Some(x) && x.0 == id && x.1@ == "Memory added: "@ + content@,
            None => r is None,
        },
{
    match actor {
        Some(id) => Some((id, memory_notice(content))),
        None => None,
    }
}

pub struct MemberOut {
    pub user_id: Id,
    pub role: String,
}

/// A chat, with who is in it.
pub struct ChatDetail {
    pub id: Id,
    pub kind: String,
    pub name: Option<String>,
    pub project_id: Option<Id>,
    pub members: Vec<MemberOut>,
}

/// A stored chat. `other_member` is the name of the other of two, where it is between two.
pub struct ChatInfo {
    pub id: Id,
    pub kind: String,
    pub name: Option<String>,
    pub other_member: Option<String>,
    pub project_id: Option<Id>,
}

/// A chat, for its members. One between two people goes by the name of the other.
pub fn get_chat(
    enabled: bool,
    ctx: &AuthContext,
    role: Option<String>,
    row: ChatInfo,
    members: Vec<MemberOut>,
) -> (r: Result<ChatDetail, AppError>)
    ensures
        refusal(r) == member_refusal(enabled, *ctx, opt_text(role)),
        r matches Ok(x) ==> {
            &&& x.id == row.id
            &&& x.kind == row.kind
            &&& x.name == (if row.kind@ == "dm"@ {
                row.other_member
            } else {
                row.name
            })
            &&& x.project_id == row.project_id
            &&& x.members == members
        },
{
    match require_member(enabled, ctx, role) {
        Ok(_) => {},
        Err(e) => {
            return Err(e);
        },
    }
    let name = if same(row.kind.as_str(), "dm") {
        row.other_member
    } else {
        row.name
    };
    Ok(ChatDetail { id: row.id, kind: row.kind, name, project_id: row.project_id, members })
}

pub struct SearchHit {
    pub chat_id: Id,
    pub id: Id,
    pub seq: i32,
    pub content: String,
}

/// A message that the words were found in, and the chat it was found in.
pub struct FoundMessage {
    pub chat_kind: String,
    /// Whether the caller is in the chat.
    pub member: bool,
    pub content_encrypted: bool,
    pub hit: SearchHit,
}

/// Whether a message may be found: it is in a chat of the caller's that is not between two
/// people, and it is stored as it was written.
pub open spec fn may_be_found(m: FoundMessage) -> bool {
    m.member && m.chat_kind@ != "dm"@ && !m.content_encrypted
}

/// The messages that may be found, in their order.
pub open spec fn findable(rows: Seq<FoundMessage>) -> Seq<SearchHit>
    decreases rows.len(),
{
    if rows.len() == 0 {
        Seq::empty()
    } else {
        let before = findable(rows.drop_last());
        if may_be_found(rows.last()) {
            before.push(rows.last().hit)
        } else {
            before
        }
    }
}

/// The first of them.
pub open spec fn first_hits(rows: Seq<FoundMessage>, limit: int) -> Seq<SearchHit> {
    if findable(rows).len() <= limit {
        findable(rows)
    } else {
        findable(rows).take(limit)
    }
}

/// What a search gives, of the messages that the words were found in, the best first.
pub fn search_hits(rows: Vec<FoundMessage>, limit: i64) -> (r: Vec<SearchHit>)
    requires
        1 <= limit <= 200,
    ensures
        r@ == first_hits(rows@, limit as int),
{
    let most: usize = limit as usize;
    let n: usize = rows.len();
    let mut rest = rows;
    let mut out: Vec<SearchHit> = Vec::new();
    let mut i: usize = 0;
    assert(rows@.take(0) == Seq::<FoundMessage>::empty());
    while i < n
        invariant
            n == rows@.len(),
            i <= n,
            rest@ == rows@.skip(i as int),
            out@ == first_hits(rows@.take(i as int), most as int),
        decreases n - i,
    {
        let row = rest.remove(0);
        assert(row == rows@[i as int]);
        assert(rest@ =~= rows@.skip(i as int + 1));
        assert(rows@.take(i as int + 1).drop_last() == rows@.take(i as int));
        if row.member && !same(row.chat_kind.as_str(), "dm") && !row.content_encrypted && out.len()
            < most {
            out.push(row.hit);
        }
        i = i + 1;
    }
    assert(rows@.take(rows@.len() as int) == rows@);
    out
}

/// A search finds nothing that was said between two people, nothing that is encrypted, and
/// nothing in a chat that the caller is not in.
pub proof fn private_messages_are_not_found(rows: Seq<FoundMessage>, limit: int)
    requires
        0 <= limit,
    ensures
        first_hits(rows, limit).len() <= limit,
        forall|h: SearchHit| #[trigger]
            first_hits(rows, limit).contains(h) ==> exists|k: int|
                0 <= k < rows.len() && #[trigger] may_be_found(rows[k]) && rows[k].hit == h,
{
    assert forall|h: SearchHit| #[trigger] first_hits(rows, limit).contains(h) implies exists|k: int|
        0 <= k < rows.len() && #[trigger] may_be_found(rows[k]) && rows[k].hit == h by {
        let i = choose|i: int|
            0 <= i < first_hits(rows, limit).len() && first_hits(rows, limit)[i] == h;
        assert(findable(rows)[i] == h);
        findable_came_from(rows, i);
    }
}

/// Each of them is one of the messages given.
proof fn findable_came_from(rows: Seq<FoundMessage>, i: int)
    requires
        0 <= i < findable(rows).len(),
    ensures
        exists|k: int|
            0 <= k < rows.len() && #[trigger] may_be_found(rows[k]) && rows[k].hit == findable(
                rows,
            )[i],
    decreases rows.len(),
{
    if rows.len() > 0 {
        let before = rows.drop_last();
        if i < findable(before).len() {
            findable_came_from(before, i);
            let k = choose|k: int|
                0 <= k < before.len() && #[trigger] may_be_found(before[k]) && before[k].hit
                    == findable(before)[i];
            assert(may_be_found(rows[k]));
        } else {
            assert(may_be_found(rows[rows.len() - 1]));
        }
    }
}

/// A chat, with what the caller is in it. What was posted in it comes with it.
pub struct MemberChat {
    pub id: Id,
    pub kind: String,
    pub name: Option<String>,
    pub project_id: Option<Id>,
    /// The other member, where it is between two people.
    pub other_member: Option<String>,
    /// How far the caller has read; nothing where the caller is no member.
    pub last_read_seq: Option<i32>,
    pub posted: Vec<Posted>,
}

pub struct ChatSummary {
    pub id: Id,
    pub kind: String,
    pub name: Option<String>,
    pub project_id: Option<Id>,
    pub unread_count: i64,
}

/// The chats that the caller is a member of, in the order in which they are given.
pub open spec fn joined_chats(rows: Seq<MemberChat>) -> Seq<MemberChat>
    decreases rows.len(),
{
    if rows.len() == 0 {
        Seq::empty()
    } else {
        let before = joined_chats(rows.drop_last());
        if rows.last().last_read_seq is Some {
            before.push(rows.last())
        } else {
            before
        }
    }
}

/// What is shown of a chat: its name as the member sees it, and how much of it is unread.
pub open spec fn chat_shown(row: MemberChat, me: Id, s: ChatSummary) -> bool {
    &&& s.id == row.id
    &&& s.kind == row.kind
    &&& s.name == (if row.kind@ == "dm"@ {
        row.other_member
    } else {
        row.name
    })
    &&& s.project_id == row.project_id
    &&& row.last_read_seq matches Some(read) && s.unread_count == unread_among(row.posted@, read, me)
}

/// The chats of the caller, the newest first.
pub fn list_chats(enabled: bool, ctx: &AuthContext, rows: Vec<Dated<MemberChat>>) -> (r: Result<
    Vec<ChatSummary>,
    AppError,
>)
    requires
        forall|i: int| 0 <= i < rows@.len() ==> (#[trigger] rows@[i]).item.posted@.len() <= i64::MAX,
    ensures
        refusal(r) == account_refusal(enabled, *ctx),
        r matches Ok(v) ==> ctx.user_id matches Some(me) && {
            let chats = joined_chats(newest_first(rows@));
            &&& v@.len() == chats.len()
            &&& forall|i: int| 0 <= i < v@.len() ==> chat_shown(chats[i], me, #[trigger] v@[i])
        },
{
    let me = match require_account(enabled, ctx) {
        Ok(id) => id,
        Err(e) => {
            return Err(e);
        },
    };
    let chats = by_time(rows);
    proof {
        let ordered = highest_first(rows@);
        assert forall|i: int| 0 <= i < chats@.len() implies (#[trigger] chats@[i]).posted@.len()
            <= i64::MAX by {
            assert(chats@[i] == ordered[i].item);
            assert(ordered.contains(ordered[i]));
            ordered_lists_hold_the_same(rows@, ordered[i]);
            let k = rows@.index_of(ordered[i]);
            assert(rows@[k] == ordered[i]);
        }
    }
    let n: usize = chats.len();
    let mut rest = chats;
    let mut out: Vec<ChatSummary> = Vec::new();
    let mut i: usize = 0;
    assert(chats@.take(0) == Seq::<MemberChat>::empty());
    while i < n
        invariant
            n == chats@.len(),
            i <= n,
            rest@ == chats@.skip(i as int),
            forall|k: int| 0 <= k < n ==> (#[trigger] chats@[k]).posted@.len() <= i64::MAX,
            out@.len() == joined_chats(chats@.take(i as int)).len(),
            forall|k: int|
                0 <= k < out@.len() ==> chat_shown(
                    joined_chats(chats@.take(i as int))[k],
                    me,
                    #[trigger] out@[k],
                ),
        decreases n - i,
    {
        let row = rest.remove(0);
        assert(row == chats@[i as int]);
        assert(rest@ =~= chats@.skip(i as int + 1));
        assert(chats@.take(i as int + 1).drop_last() == chats@.take(i as int));
        match row.last_read_seq {
            Some(read) => {
                let unread_count: i64 = unread_count(&row.posted, read, me);
                let name = chat_name(row.kind.as_str(), row.name, row.other_member);
                out.push(
                    ChatSummary {
                        id: row.id,
                        kind: row.kind,
                        name,
                        project_id: row.project_id,
                        unread_count,
                    },
                );
            },
            None => {},
        }
        i = i + 1;
    }
    assert(chats@.take(n as int) == chats@);
    Ok(out)
}

/// The others are all but the one, in their order.
pub proof fn everybody_else_is_told(owner: Id, s: Seq<Id>)
    ensures
        others(s, owner) == s.filter(|x: Id| x != owner),
        forall|x: Id|
            #[trigger] others(s, owner).contains(x) <==> s.contains(x) && (x != owner),
    decreases s.len(),
{
    let p = |x: Id| x != owner;
    selects_last(s, p);
    selects_just(s, p);
    if s.len() > 0 {
        everybody_else_is_told(owner, s.drop_last());
    }
    assert(others(s, owner) =~= s.filter(p));
    assert forall|x: Id|
        #[trigger] others(s, owner).contains(x) <==> s.contains(x) && (x != owner) by {
        assert(s.filter(p).contains(x) <==> s.contains(x) && p(x));
    }
}

/// The reactions to a message are all that are stored with it, in their order.
pub proof fn reactions_stay_with_their_message(id: Id, s: Seq<ReactionRow>)
    ensures
        reactions_to(s, id)
            == s.filter(|x: ReactionRow| x.message_id == id).map_values(
                |x: ReactionRow| (x.emoji@, x.count, x.mine)
            ),
    decreases s.len(),
{
    let p = |x: ReactionRow| x.message_id == id;
    selects_last(s, p);
    if s.len() > 0 {
        reactions_stay_with_their_message(id, s.drop_last());
    }
    assert(
        reactions_to(s, id) =~= s.filter(p).map_values(|x: ReactionRow| (x.emoji@, x.count, x.mine))
    );
}

/// What comes behind a number is every message with a higher one.
pub proof fn later_messages_are_replayed(since: i32, s: Seq<MessageRow>)
    ensures
        later_than(s, since) == s.filter(|x: MessageRow| x.seq > since),
        forall|x: MessageRow|
            #[trigger] later_than(s, since).contains(x) <==> s.contains(x) && (x.seq > since),
    decreases s.len(),
{
    let p = |x: MessageRow| x.seq > since;
    selects_last(s, p);
    selects_just(s, p);
    if s.len() > 0 {
        later_messages_are_replayed(since, s.drop_last());
    }
    assert(later_than(s, since) =~= s.filter(p));
    assert forall|x: MessageRow|
        #[trigger] later_than(s, since).contains(x) <==> s.contains(x) && (x.seq > since) by {
        assert(s.filter(p).contains(x) <==> s.contains(x) && p(x));
    }
}

/// The messages that are unread are all behind the last that was read that somebody else sent.
pub proof fn unread_messages_are_counted_each(last_read: i32, me: Id, s: Seq<Posted>)
    ensures
        unread_among(s, last_read, me)
            == s.filter(|x: Posted| x.seq > last_read && x.sender != Some(me)).len(),
    decreases s.len(),
{
    let p = |x: Posted| x.seq > last_read && x.sender != Some(me);
    selects_last(s, p);
    if s.len() > 0 {
        unread_messages_are_counted_each(last_read, me, s.drop_last());
    }
}

/// A search may find every message of a chat that the caller is in, but none between two people
/// and none that is encrypted.
pub proof fn findable_messages_are_open(s: Seq<FoundMessage>)
    ensures
        findable(s)
            == s.filter(
                |x: FoundMessage| x.member && x.chat_kind@ != "dm"@ && !x.content_encrypted
            ).map_values(|x: FoundMessage| x.hit),
    decreases s.len(),
{
    let p = |x: FoundMessage| x.member && x.chat_kind@ != "dm"@ && !x.content_encrypted;
    selects_last(s, p);
    if s.len() > 0 {
        findable_messages_are_open(s.drop_last());
    }
    assert(findable(s) =~= s.filter(p).map_values(|x: FoundMessage| x.hit));
}

/// The chats of a member are all that they are in.
pub proof fn members_see_their_chats(s: Seq<MemberChat>)
    ensures
        joined_chats(s) == s.filter(|x: MemberChat| x.last_read_seq is Some),
        forall|x: MemberChat|
            #[trigger] joined_chats(s).contains(x) <==> s.contains(x) && (x.last_read_seq is Some),
    decreases s.len(),
{
    let p = |x: MemberChat| x.last_read_seq is Some;
    selects_last(s, p);
    selects_just(s, p);
    if s.len() > 0 {
        members_see_their_chats(s.drop_last());
    }
    assert(joined_chats(s) =~= s.filter(p));
    assert forall|x: MemberChat|
        #[trigger] joined_chats(s).contains(x) <==> s.contains(x) && (x.last_read_seq is Some) by {
        assert(s.filter(p).contains(x) <==> s.contains(x) && p(x));
    }
}

/// Where messaging is on, somebody with an account takes part in the chats they are a member of, and
/// runs those they own or administer. Nobody writes to themselves. A message has text or an
/// attachment, and a reaction is a mark of at most thirty-two bytes on a message of the chat.
pub proof fn who_takes_part_in_chats(
    enabled: bool,
    ctx: AuthContext,
    role: Option<Seq<char>>,
    other: Id,
    circle_refusal: Option<Refusal>,
    content: Seq<char>,
    attached: bool,
    emoji: Seq<char>,
    belongs: bool,
    m: FoundMessage,
)
    ensures
        messaging_refusal(enabled) is None <==> enabled,
        account_refusal(enabled, ctx) is None <==> enabled && ctx.user_id is Some,
        member_refusal(enabled, ctx, role) is None
            <==> enabled && ctx.user_id is Some && role is Some,
        chat_admin_refusal(enabled, ctx, role) is None
            <==> enabled
                && ctx.user_id is Some
                && (role == Some("owner"@) || role == Some("admin"@)),
        dm_refusal(enabled, ctx, other, circle_refusal) is None
            <==> enabled
                && ctx.user_id is Some
                && ctx.user_id != Some(other)
                && circle_refusal is None,
        message_refusal(content, attached) is None <==> trimmed(content).len() > 0 || attached,
        reaction_refusal(enabled, ctx, role, emoji, belongs) is None
            <==> enabled
                && ctx.user_id is Some
                && role is Some
                && trimmed(emoji).len() > 0
                && encode_utf8(trimmed(emoji)).len() <= 32
                && belongs,
        may_be_found(m) <==> m.member && m.chat_kind@ != "dm"@ && !m.content_encrypted,
{
}

/// The newest message is the one of the highest number.
pub proof fn the_newest_message_is_the_highest(s: Seq<StoredMessage>)
    ensures
        newest(s) is None <==> s.len() == 0,
        newest(s) matches Some(n) ==> {
            &&& exists|k: int| 0 <= k < s.len() && (#[trigger] s[k]).seq == n
            &&& forall|k: int| 0 <= k < s.len() ==> (#[trigger] s[k]).seq <= n
        },
    decreases s.len(),
{
    if s.len() > 0 {
        let front = s.drop_last();
        the_newest_message_is_the_highest(front);
        if let Some(n) = newest(front) {
            let k = choose|k: int| 0 <= k < front.len() && (#[trigger] front[k]).seq == n;
            assert(s[k] == front[k]);
            assert forall|k: int| 0 <= k < front.len() implies (#[trigger] s[k]).seq <= n by {
                assert(s[k] == front[k]);
            }
        }
        assert(s[s.len() - 1] == s.last());
    }
}

/// The last number of a chat's messages is none below which a message stands, and one of theirs
/// unless it is nought.
pub proof fn the_latest_number_is_the_highest(rows: Seq<MessageRow>)
    ensures
        latest_seq(rows) >= 0,
        forall|k: int| 0 <= k < rows.len() ==> (#[trigger] rows[k]).seq <= latest_seq(rows),
        latest_seq(rows) == 0 || exists|k: int|
            0 <= k < rows.len() && (#[trigger] rows[k]).seq == latest_seq(rows),
    decreases rows.len(),
{
    if rows.len() > 0 {
        let front = rows.drop_last();
        the_latest_number_is_the_highest(front);
        assert forall|k: int| 0 <= k < front.len() implies (#[trigger] rows[k]).seq <= latest_seq(
            front,
        ) by {
            assert(rows[k] == front[k]);
        }
        if latest_seq(front) != 0 {
            let k = choose|k: int|
                0 <= k < front.len() && (#[trigger] front[k]).seq == latest_seq(front);
            assert(rows[k] == front[k]);
        }
        assert(rows[rows.len() - 1] == rows.last());
    }
}

/// Taking back a reaction takes every such one and leaves the others as they stood.
pub proof fn a_mark_is_taken_back(mark: (Id, Id, Seq<char>), s: Seq<(Id, Id, Seq<char>)>)
    ensures
        without(s, mark) == s.filter(|x: (Id, Id, Seq<char>)| x != mark),
        forall|x: (Id, Id, Seq<char>)|
            #[trigger] without(s, mark).contains(x) <==> s.contains(x) && (x != mark),
    decreases s.len(),
{
    let p = |x: (Id, Id, Seq<char>)| x != mark;
    selects_last(s, p);
    selects_just(s, p);
    if s.len() > 0 {
        a_mark_is_taken_back(mark, s.drop_last());
    }
    assert(without(s, mark) =~= s.filter(p));
    assert forall|x: (Id, Id, Seq<char>)|
        #[trigger] without(s, mark).contains(x) <==> s.contains(x) && (x != mark) by {
        assert(s.filter(p).contains(x) <==> s.contains(x) && p(x));
    }
}

/// What stands in `joined_doc` under each name; there is no other name in it.
pub proof fn what_joined_doc_holds(user_id: Id, role: Seq<char>)
    ensures
        member_at(joined_doc(user_id, role), "user_id"@) == Some(Json::Text(id_text(user_id))),
        member_at(joined_doc(user_id, role), "role"@) == Some(Json::Text(role)),
        forall|name: Seq<char>|
            #[trigger] member_at(joined_doc(user_id, role), name) is Some
                ==> name == "user_id"@ || name == "role"@,
{
    reveal_strlit("user_id");
    reveal_strlit("role");
    assert("user_id"@.len() != "role"@.len());
}

/// What stands in `left_doc` under each name; there is no other name in it.
pub proof fn what_left_doc_holds(user_id: Id)
    ensures
        member_at(left_doc(user_id), "user_id"@) == Some(Json::Text(id_text(user_id))),
        forall|name: Seq<char>|
            #[trigger] member_at(left_doc(user_id), name) is Some ==> name == "user_id"@,
{
}

/// What stands in `link_doc` under each name; there is no other name in it.
pub proof fn what_link_doc_holds(chat_id: Id)
    ensures
        member_at(link_doc(chat_id), "chat_id"@) == Some(Json::Text(id_text(chat_id))),
        forall|name: Seq<char>|
            #[trigger] member_at(link_doc(chat_id), name) is Some ==> name == "chat_id"@,
{
}

/// A message is shown as it is stored, with the reactions to it.
pub proof fn messages_are_shown_whole(
    rows: Seq<MessageRow>,
    i: int,
    o: MessageOut,
    reactions: Seq<ReactionRow>,
)
    ensures
        message_shown(rows, i, o, reactions) ==> {
            let row = rows[i];
            &&& o.id == row.id
            &&& o.seq == row.seq
            &&& o.sender_user_id == row.sender_user_id
            &&& o.message_type@ == row.message_type@
            &&& o.content@ == body_shown(row.content@, row.content_encrypted, row.opened)
            &&& o.created_at@ == shown(row.created_at)
            &&& o.mentions == row.mentions
            &&& o.shared_resources == row.shared_resources
            &&& o.reactions@.map_values(|a: ReactionAgg| agg_view(a))
                    == (
                        if repeated(rows, i) { Seq::empty() } else {
                            reactions_to(reactions, row.id)
                        }
                    )
        },
{
}

/// A chat is shown as it is stored, a conversation of two under the other's name.
pub proof fn chats_are_shown_whole(row: MemberChat, me: Id, s: ChatSummary)
    ensures
        chat_shown(row, me, s) ==> {
            &&& s.id == row.id
            &&& s.kind == row.kind
            &&& s.name == (if row.kind@ == "dm"@ { row.other_member } else { row.name })
            &&& s.project_id == row.project_id
            &&& row.last_read_seq matches Some(read)
                    && s.unread_count == unread_among(row.posted@, read, me)
        },
{
}

/// A chat is one of three kinds; a conversation of two has the two for its members and nobody else.
/// Who joins is a member unless they are asked in as more.
pub proof fn chats_and_roles(
    kind: Seq<char>,
    c: ChatMembers,
    me: Id,
    other: Id,
    asked: Option<Seq<char>>,
    before: int,
    seq: int,
    m: Posted,
    last_read: i32,
    v: Option<serde_json::Value>,
)
    ensures
        is_chat_kind(kind) <==> kind == "dm"@ || kind == "group"@ || kind == "project"@,
        is_between(c, me, other)
            <==> c.kind@ == "dm"@
                && c.members@.len() == 2
                && c.members@.contains(me)
                && c.members@.contains(other),
        granted_role(asked)
            == (
                if asked == Some("admin"@)
                    || asked == Some("owner"@) { asked->0 } else { "member"@ }
            ),
        read_up_to(before, seq) >= before,
        read_up_to(before, seq) >= seq,
        read_up_to(before, seq) == before || read_up_to(before, seq) == seq,
        is_unread(m, last_read, me) <==> m.seq > last_read && m.sender != Some(me),
        has_items(v) <==> (v matches Some(x) && json_in(x) is List && json_in(x)->List_0.len() > 0),
        history_size(None) == 200,
{
}

/// A message that is not encrypted is shown as it is stored; one that is, as it was opened, or with the
/// reason why it was not.
pub proof fn bodies_are_shown_opened(
    stored: Seq<char>,
    opened: Opened,
    limit: i64,
    s: Seq<Reaction>,
    rows: Seq<MessageRow>,
    i: int,
)
    ensures
        body_shown(stored, false, opened) == stored,
        body_shown(stored, true, Opened::NoKey) == "[encrypted]"@,
        body_shown(stored, true, Opened::Failed) == "[unable to decrypt]"@,
        opened matches Opened::Text(t) ==> body_shown(stored, true, opened) == t@,
        1 <= limit <= 1000 ==> history_size(Some(limit)) == limit,
        limit < 1 ==> history_size(Some(limit)) == 1,
        limit > 1000 ==> history_size(Some(limit)) == 1000,
        marks(s).len() == s.len(),
        forall|k: int|
            0 <= k < s.len()
                ==> #[trigger] marks(s)[k] == (s[k].message_id, s[k].user_id, s[k].emoji@),
        repeated(rows, i) <==> exists|k: int| 0 <= k < i && (#[trigger] rows[k]).id == rows[i].id,
{
}

/// What stands in `sent_doc` under each name; there is no other name in it.
pub proof fn what_sent_doc_holds(message_id: Id, seq: i32, message_type: Seq<char>)
    ensures
        member_at(sent_doc(message_id, seq, message_type), "message_id"@)
            == Some(Json::Text(id_text(message_id))),
        member_at(sent_doc(message_id, seq, message_type), "seq"@) == Some(Json::Number(seq as int)),
        member_at(sent_doc(message_id, seq, message_type), "type"@)
            == Some(Json::Text(message_type)),
        forall|name: Seq<char>|
            #[trigger] member_at(sent_doc(message_id, seq, message_type), name) is Some
                ==> name == "message_id"@ || name == "seq"@ || name == "type"@,
{
    reveal_strlit("message_id");
    reveal_strlit("seq");
    reveal_strlit("type");
    assert("message_id"@.len() != "seq"@.len());
    assert("message_id"@.len() != "type"@.len());
    assert("seq"@.len() != "type"@.len());
}

/// A message is stored as it was posted, sealed where it is encrypted.
pub proof fn messages_are_stored_whole(x: StoredMessage, m: NewMessage, seq: int, encrypted: bool)
    ensures
        stores(x, m, seq, encrypted) ==> {
            &&& x.id == m.id
            &&& x.seq == seq
            &&& x.sender == m.sender
            &&& x.message_type == m.message_type
            &&& x.content == (if encrypted { m.sealed } else { m.content })
            &&& x.content_encrypted == encrypted
            &&& x.attachments == m.attachments
            &&& x.shared_resources == m.shared_resources
            &&& x.mentions == m.mentions
        },
{
}

/// Posting moves the reading mark of whoever posted, and nobody else's.
pub proof fn posting_moves_ones_own_marker(
    before: Seq<ReadMarker>,
    after: Seq<ReadMarker>,
    sender: Option<Id>,
    seq: int,
)
    ensures
        markers_after(before, after, sender, seq) ==> {
            &&& after.len() == before.len()
            &&& forall|i: int|
                    0 <= i < after.len()
                        ==> (#[trigger] after[i]).user_id == before[i].user_id
                            && after[i].last_read_seq
                                == (
                                    if sender
                                        == Some(before[i].user_id) {
                                            read_up_to(before[i].last_read_seq as int, seq)
                                        } else { before[i].last_read_seq as int }
                                )
        },
{
}

/// A live message is what was posted.
pub proof fn live_messages_are_whole(l: LiveMessage, m: NewMessage, seq: int)
    ensures
        carries(l, m, seq) ==> {
            &&& l.id == m.id
            &&& l.seq == seq
            &&& l.sender_user_id == m.sender
            &&& l.message_type@ == m.message_type@
            &&& l.content@ == m.content@
            &&& opt_json(l.attachments) == opt_json(m.attachments)
            &&& opt_json(l.shared_resources) == opt_json(m.shared_resources)
        },
{
}

/// A frame carries the live message to one member of the chat.
pub proof fn frames_are_whole(
    f: GroupFrame,
    to: Id,
    chat_id: Id,
    created_at: Instant,
    m: LiveMessage,
)
    ensures
        frame_for(f, to, chat_id, created_at, m) ==> {
            &&& f.to == to
            &&& f.chat_id == chat_id
            &&& f.id == m.id
            &&& f.seq == m.seq
            &&& f.sender_user_id == m.sender_user_id
            &&& f.message_type@ == m.message_type@
            &&& f.content@ == m.content@
            &&& f.created_at@ == shown(created_at)
            &&& opt_json(f.attachments) == opt_json(m.attachments)
            &&& opt_json(f.shared_resources) == opt_json(m.shared_resources)
        },
{
}

/// Members are added and removed so that they are the people of the project and the owner.
pub proof fn members_are_those_of_the_project(
    members: Seq<Id>,
    people: Seq<Id>,
    owner: Id,
    add: Seq<Id>,
    remove: Seq<Id>,
)
    ensures
        brings_in_line(members, people, owner, add, remove) ==> {
            &&& forall|x: Id| #[trigger] add.contains(x) <==> people.contains(x) && x != owner
            &&& forall|x: Id|
                    #[trigger] remove.contains(x)
                        <==> members.contains(x) && x != owner && !people.contains(x)
        },
{
}

/// Messages are numbered from one. Where there is a key, conversations of two are encrypted, and others
/// where that is switched on. A note is changed from the version it was made to, and no other.
pub proof fn messages_are_numbered_and_sealed(
    n: i32,
    has_key: bool,
    kind: Seq<char>,
    group: bool,
    stored: Option<i32>,
    made_to: i32,
    rows: Seq<FoundMessage>,
    limit: int,
    s: Seq<(Id, Id, Seq<char>)>,
    mark: (Id, Id, Seq<char>),
)
    ensures
        next_seq(None) == 1,
        next_seq(Some(n)) == n + 1,
        encrypts(has_key, kind, group) <==> has_key && (kind == "dm"@ || group),
        version_after(stored, made_to) is Some <==> stored == Some(made_to),
        version_after(stored, made_to) matches Some(v) ==> v == made_to + 1,
        0 <= limit
            ==> first_hits(rows, limit).len()
                == (if findable(rows).len() < limit { findable(rows).len() as int } else { limit }),
        0 <= limit
            ==> forall|i: int|
                0 <= i < first_hits(rows, limit).len()
                    ==> #[trigger] first_hits(rows, limit)[i] == findable(rows)[i],
        s.contains(mark) ==> toggled(s, mark) == s.filter(|x: (Id, Id, Seq<char>)| x != mark),
        !s.contains(mark) ==> toggled(s, mark) == s.push(mark),
{
    a_mark_is_taken_back(mark, s);
}

/// A history is the latest of what came after the message that is named, as many as are asked for.
pub proof fn histories_are_the_latest(rows: Seq<MessageRow>, q: HistoryQuery)
    ensures
        history(rows, q).len() == (if later_than(rows, q.since).len() < history_size(q.limit) {
            later_than(rows, q.since).len() as int
        } else {
            history_size(q.limit)
        }),
        forall|i: int|
            0 <= i < history(rows, q).len() ==> #[trigger] history(rows, q)[i] == highest_first(
                later_than(rows, q.since),
            )[i],
{
    ordered_lists_are_whole(later_than(rows, q.since));
}

/// A reaction is seen with its message, its user and its mark, and a count of them with whether one's
/// own is among them.
pub proof fn reactions_are_seen_whole(x: Reaction, a: ReactionAgg)
    ensures
        mark_of(x) == (x.message_id, x.user_id, x.emoji@),
        agg_view(a) == (a.emoji@, a.count, a.mine),
{
}

/// Of several things that are wrong, `messaging_refusal` tells the first.
pub proof fn messaging_refusal_tells_the_first_thing(enabled: bool)
    ensures
        enabled ==> messaging_refusal(enabled) is None,
        !enabled
            ==> messaging_refusal(enabled)
                == Some(Refusal::Forbidden("messaging is not enabled on this deployment"@)),
{
}

/// Of several things that are wrong, `account_refusal` tells the first.
pub proof fn account_refusal_tells_the_first_thing(enabled: bool, ctx: AuthContext)
    ensures
        !enabled ==> account_refusal(enabled, ctx) == messaging_refusal(enabled),
        enabled && ctx.user_id is None
            ==> account_refusal(enabled, ctx) == Some(Refusal::Forbidden("a user is required"@)),
        enabled && !(ctx.user_id is None) ==> account_refusal(enabled, ctx) is None,
{
}

/// Of several things that are wrong, `member_refusal` tells the first.
pub proof fn member_refusal_tells_the_first_thing(
    enabled: bool,
    ctx: AuthContext,
    role: Option<Seq<char>>,
)
    ensures
        account_refusal(enabled, ctx) is Some
            ==> member_refusal(enabled, ctx, role) == account_refusal(enabled, ctx),
        !(account_refusal(enabled, ctx) is Some) && role is None
            ==> member_refusal(enabled, ctx, role)
                == Some(Refusal::Forbidden("not a member of this chat"@)),
        !(account_refusal(enabled, ctx) is Some) && !(role is None)
            ==> member_refusal(enabled, ctx, role) is None,
{
}

/// Of several things that are wrong, `chat_admin_refusal` tells the first.
pub proof fn chat_admin_refusal_tells_the_first_thing(
    enabled: bool,
    ctx: AuthContext,
    role: Option<Seq<char>>,
)
    ensures
        member_refusal(enabled, ctx, role) is Some
            ==> chat_admin_refusal(enabled, ctx, role) == member_refusal(enabled, ctx, role),
        !(member_refusal(enabled, ctx, role) is Some) && !runs_chat(role->0)
            ==> chat_admin_refusal(enabled, ctx, role)
                == Some(Refusal::Forbidden("requires chat owner/admin"@)),
        !(member_refusal(enabled, ctx, role) is Some) && runs_chat(role->0)
            ==> chat_admin_refusal(enabled, ctx, role) is None,
{
}

/// Of several things that are wrong, `dm_refusal` tells the first.
pub proof fn dm_refusal_tells_the_first_thing(
    enabled: bool,
    ctx: AuthContext,
    other: Id,
    circle_refusal: Option<Refusal>,
)
    ensures
        account_refusal(enabled, ctx) is Some
            ==> dm_refusal(enabled, ctx, other, circle_refusal) == account_refusal(enabled, ctx),
        !(account_refusal(enabled, ctx) is Some) && ctx.is(other)
            ==> dm_refusal(enabled, ctx, other, circle_refusal)
                == Some(Refusal::Validation("cannot start a DM with yourself"@)),
        !(account_refusal(enabled, ctx) is Some) && !ctx.is(other)
            ==> dm_refusal(enabled, ctx, other, circle_refusal) == circle_refusal,
{
}

/// Of several things that are wrong, `reaction_refusal` tells the first.
pub proof fn reaction_refusal_tells_the_first_thing(
    enabled: bool,
    ctx: AuthContext,
    role: Option<Seq<char>>,
    emoji: Seq<char>,
    belongs: bool,
)
    ensures
        member_refusal(enabled, ctx, role) is Some
            ==> reaction_refusal(enabled, ctx, role, emoji, belongs)
                == member_refusal(enabled, ctx, role),
        !(member_refusal(enabled, ctx, role) is Some)
            && (trimmed(emoji).len() == 0 || encode_utf8(trimmed(emoji)).len() > EMOJI_MAX)
            ==> reaction_refusal(enabled, ctx, role, emoji, belongs)
                == Some(Refusal::Validation("invalid emoji"@)),
        !(member_refusal(enabled, ctx, role) is Some)
            && !(trimmed(emoji).len() == 0 || encode_utf8(trimmed(emoji)).len() > EMOJI_MAX)
            && !belongs
            ==> reaction_refusal(enabled, ctx, role, emoji, belongs)
                == Some(Refusal::Validation("message not in this chat"@)),
        !(member_refusal(enabled, ctx, role) is Some)
            && !(trimmed(emoji).len() == 0 || encode_utf8(trimmed(emoji)).len() > EMOJI_MAX)
            && belongs
            ==> reaction_refusal(enabled, ctx, role, emoji, belongs) is None,
{
}

} // verus!
