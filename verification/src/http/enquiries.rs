//! What callers wanted: who sees that there is a message, and who sees what it says.

use vstd::prelude::*;

use crate::lists::{selects_just, selects_last};
use crate::clock::Instant;
use crate::error::{not_found, refusal, AppError, Refusal};
use crate::grants::{refusal_in, Permissions};
use crate::http::diary::{clamp, clamped};
use crate::http::first;
use crate::order::{
    above, highest_first, ordered_lists_are_whole, ordered_lists_hold_the_same, rank_list, Ranked,
};
use crate::principal::{AuthContext, Id};

verus! {

/// The most messages on a page.
pub const MAX_PAGE: i64 = 200;

/// How many messages a page has where nobody says.
pub const DEFAULT_PAGE: i64 = 50;

/// The reader sees what was said: whose line took it, and an administrator of the platform.
pub open spec fn reads_body(ctx: AuthContext, owner: Id) -> bool {
    ctx.admin || ctx.is(owner)
}

/// Whether the reader may see what the caller said. Whoever may wire a line is not among
/// those who may.
pub fn may_read_body(ctx: &AuthContext, owner_user_id: Id) -> (r: bool)
    ensures
        r == reads_body(*ctx, owner_user_id),
{
    ctx.is_admin() || ctx.is_user(owner_user_id)
}

/// Where a page begins: behind a message that was already seen.
#[derive(Clone, Copy, Debug, PartialEq, Eq, Structural)]
pub enum Cursor {
    /// At the newest message.
    Start,
    /// Behind this one.
    Behind { created_at: Instant, id: Id },
    /// Behind one that there is none of.
    Missing,
}

pub struct EnquiryQuery {
    pub open: Option<bool>,
    pub number_id: Option<Id>,
    pub before: Option<Id>,
    pub limit: Option<i64>,
}

/// A stored message.
pub struct EnquiryRow {
    pub id: Id,
    pub kind: String,
    pub urgency: String,
    pub handled: bool,
    pub call_id: Option<Id>,
    pub chat_id: Option<Id>,
    pub number_id: Option<Id>,
    /// The line that the call came in on.
    pub call_number_id: Option<Id>,
    pub to_e164: Option<String>,
    pub owner_user_id: Id,
    pub created_at: Instant,
    pub created_epoch: i64,
    pub handled_epoch: Option<i64>,
    pub subject: Option<String>,
    pub body: Option<String>,
    pub caller_e164: Option<String>,
    pub caller_name: Option<String>,
    pub contact: Option<String>,
    pub for_whom: Option<String>,
    pub details: Option<serde_json::Value>,
}

/// A message as it is listed. What follows `handled_epoch` is there only for those who may
/// see what was said.
pub struct EnquiryOut {
    pub id: Id,
    pub kind: String,
    pub urgency: String,
    pub handled: bool,
    pub call_id: Option<Id>,
    pub chat_id: Option<Id>,
    pub number_id: Option<Id>,
    pub to_e164: String,
    pub owner_user_id: Id,
    pub created_epoch: i64,
    pub handled_epoch: Option<i64>,
    pub subject: Option<String>,
    pub body: Option<String>,
    pub caller_e164: Option<String>,
    pub caller_name: Option<String>,
    pub contact: Option<String>,
    pub for_whom: Option<String>,
    pub details: Option<serde_json::Value>,
}

/// What the reader gets of something that was said.
pub open spec fn disclosed<T>(ctx: AuthContext, owner: Id, said: Option<T>) -> Option<T> {
    if reads_body(ctx, owner) {
        said
    } else {
        None
    }
}

pub open spec fn enquiry_shown(ctx: AuthContext, row: EnquiryRow, o: EnquiryOut) -> bool {
    &&& o.id == row.id
    &&& o.kind == row.kind
    &&& o.urgency == row.urgency
    &&& o.handled == row.handled
    &&& o.call_id == row.call_id
    &&& o.chat_id == row.chat_id
    &&& o.number_id == row.number_id
    &&& o.to_e164@ == (match row.to_e164 {
        Some(n) => n@,
        None => Seq::empty(),
    })
    &&& o.owner_user_id == row.owner_user_id
    &&& o.created_epoch == row.created_epoch
    &&& o.handled_epoch == row.handled_epoch
    &&& o.subject == disclosed(ctx, row.owner_user_id, row.subject)
    &&& o.body == disclosed(ctx, row.owner_user_id, row.body)
    &&& o.caller_e164 == disclosed(ctx, row.owner_user_id, row.caller_e164)
    &&& o.caller_name == disclosed(ctx, row.owner_user_id, row.caller_name)
    &&& o.contact == disclosed(ctx, row.owner_user_id, row.contact)
    &&& o.for_whom == disclosed(ctx, row.owner_user_id, row.for_whom)
    &&& o.details == disclosed(ctx, row.owner_user_id, row.details)
}

fn enquiry_out(ctx: &AuthContext, row: EnquiryRow) -> (r: EnquiryOut)
    ensures
        enquiry_shown(*ctx, row, r),
{
    let to_e164 = match row.to_e164 {
        Some(n) => n,
        None => String::new(),
    };
    if may_read_body(ctx, row.owner_user_id) {
        EnquiryOut {
            id: row.id,
            kind: row.kind,
            urgency: row.urgency,
            handled: row.handled,
            call_id: row.call_id,
            chat_id: row.chat_id,
            number_id: row.number_id,
            to_e164,
            owner_user_id: row.owner_user_id,
            created_epoch: row.created_epoch,
            handled_epoch: row.handled_epoch,
            subject: row.subject,
            body: row.body,
            caller_e164: row.caller_e164,
            caller_name: row.caller_name,
            contact: row.contact,
            for_whom: row.for_whom,
            details: row.details,
        }
    } else {
        EnquiryOut {
            id: row.id,
            kind: row.kind,
            urgency: row.urgency,
            handled: row.handled,
            call_id: row.call_id,
            chat_id: row.chat_id,
            number_id: row.number_id,
            to_e164,
            owner_user_id: row.owner_user_id,
            created_epoch: row.created_epoch,
            handled_epoch: row.handled_epoch,
            subject: None,
            body: None,
            caller_e164: None,
            caller_name: None,
            contact: None,
            for_whom: None,
            details: None,
        }
    }
}

impl Ranked for EnquiryRow {
    /// What came in last comes first.
    open spec fn rank(self) -> (int, int) {
        (self.created_at as int, self.id as int)
    }

    fn outranks(&self, other: &EnquiryRow) -> (r: bool) {
        self.created_at > other.created_at || (self.created_at == other.created_at && self.id
            > other.id)
    }
}

/// Where a page begins: at the newest message, or behind the one that is named, which is looked
/// for among all there are.
pub open spec fn cursor_at(before: Option<Id>, rows: Seq<EnquiryRow>) -> Cursor
    decreases rows.len(),
{
    match before {
        None => Cursor::Start,
        Some(id) => if rows.len() == 0 {
            Cursor::Missing
        } else if cursor_at(before, rows.drop_last()) is Behind {
            cursor_at(before, rows.drop_last())
        } else if rows.last().id == id {
            Cursor::Behind { created_at: rows.last().created_at, id }
        } else {
            Cursor::Missing
        },
    }
}

fn find_cursor(before: Option<Id>, rows: &Vec<EnquiryRow>) -> (r: Cursor)
    ensures
        r == cursor_at(before, rows@),
{
    let id = match before {
        None => {
            return Cursor::Start;
        },
        Some(id) => id,
    };
    let mut found = Cursor::Missing;
    let mut i: usize = 0;
    assert(rows@.take(0) == Seq::<EnquiryRow>::empty());
    while i < rows.len()
        invariant
            i <= rows@.len(),
            before == Some(id),
            found == cursor_at(before, rows@.take(i as int)),
        decreases rows@.len() - i,
    {
        assert(rows@.take(i as int + 1).drop_last() == rows@.take(i as int));
        match found {
            Cursor::Behind { .. } => {},
            _ => {
                if rows[i].id == id {
                    found = Cursor::Behind { created_at: rows[i].created_at, id };
                } else {
                    found = Cursor::Missing;
                }
            },
        }
        i = i + 1;
    }
    assert(rows@.take(rows@.len() as int) == rows@);
    found
}

/// A message stands behind the place where a page begins: it is older, or as old with a lower
/// identifier.
pub open spec fn is_behind(row: EnquiryRow, cursor: Cursor) -> bool {
    match cursor {
        Cursor::Start => true,
        Cursor::Behind { created_at, id } => row.created_at < created_at || (row.created_at
            == created_at && row.id < id),
        Cursor::Missing => false,
    }
}

/// Whether a message is listed.
pub open spec fn is_wanted(
    ctx: AuthContext,
    q: EnquiryQuery,
    cursor: Cursor,
    mine_only: bool,
    row: EnquiryRow,
) -> bool {
    &&& mine_only ==> ctx.is(row.owner_user_id)
    &&& q.open == Some(true) ==> !row.handled
    &&& q.number_id is Some ==> row.call_number_id == q.number_id
    &&& is_behind(row, cursor)
}

/// The messages that are listed, in the order in which they are stored.
pub open spec fn wanted(
    ctx: AuthContext,
    q: EnquiryQuery,
    cursor: Cursor,
    mine_only: bool,
    rows: Seq<EnquiryRow>,
) -> Seq<EnquiryRow>
    decreases rows.len(),
{
    if rows.len() == 0 {
        Seq::empty()
    } else {
        let before = wanted(ctx, q, cursor, mine_only, rows.drop_last());
        if is_wanted(ctx, q, cursor, mine_only, rows.last()) {
            before.push(rows.last())
        } else {
            before
        }
    }
}

pub open spec fn page_size(asked: Option<i64>) -> int {
    clamped(
        match asked {
            Some(n) => n as int,
            None => DEFAULT_PAGE as int,
        },
        1,
        MAX_PAGE as int,
    )
}

/// How many messages a page has at most.
pub fn page_limit(asked: Option<i64>) -> (r: i64)
    ensures
        r == page_size(asked),
{
    let n: i64 = match asked {
        Some(n) => n,
        None => DEFAULT_PAGE,
    };
    clamp(n, 1, MAX_PAGE)
}

fn row_is_wanted(
    ctx: &AuthContext,
    q: &EnquiryQuery,
    cursor: Cursor,
    mine_only: bool,
    row: &EnquiryRow,
) -> (r: bool)
    ensures
        r == is_wanted(*ctx, *q, cursor, mine_only, *row),
{
    if mine_only && !ctx.is_user(row.owner_user_id) {
        return false;
    }
    match q.open {
        Some(open) => {
            if open && row.handled {
                return false;
            }
        },
        None => {},
    }
    if q.number_id.is_some() && !crate::principal::same_id(row.call_number_id, q.number_id) {
        return false;
    }
    match cursor {
        Cursor::Start => true,
        Cursor::Behind { created_at, id } => row.created_at < created_at || (row.created_at
            == created_at && row.id < id),
        Cursor::Missing => false,
    }
}

/// The messages that are listed, the newest first.
pub open spec fn listing(ctx: AuthContext, q: EnquiryQuery, mine_only: bool, rows: Seq<EnquiryRow>) -> Seq<
    EnquiryRow,
> {
    highest_first(wanted(ctx, q, cursor_at(q.before, rows), mine_only, rows))
}

/// A page: as many of what is listed as fit on it, each as the reader gets to see it.
pub open spec fn is_page(
    ctx: AuthContext,
    q: EnquiryQuery,
    mine_only: bool,
    rows: Seq<EnquiryRow>,
    shown: Seq<EnquiryOut>,
) -> bool {
    let all = first(listing(ctx, q, mine_only, rows), page_size(q.limit) as nat);
    &&& shown.len() == all.len()
    &&& forall|i: int| 0 <= i < shown.len() ==> enquiry_shown(ctx, all[i], #[trigger] shown[i])
}

/// One page of messages, the newest first, under one rule, whichever way it was asked for.
/// `rows` are all messages. `mine_only` narrows the page to the reader's own; it does not widen
/// what is shown of any message.
pub fn page(ctx: &AuthContext, q: &EnquiryQuery, mine_only: bool, rows: Vec<EnquiryRow>) -> (r: Vec<
    EnquiryOut,
>)
    ensures
        is_page(*ctx, *q, mine_only, rows@, r@),
{
    let cursor = find_cursor(q.before, &rows);
    let n: usize = rows.len();
    let mut rest = rows;
    let mut found: Vec<EnquiryRow> = Vec::new();
    let mut i: usize = 0;
    assert(rows@.take(0) == Seq::<EnquiryRow>::empty());
    while i < n
        invariant
            n == rows@.len(),
            i <= n,
            rest@ == rows@.skip(i as int),
            found@ == wanted(*ctx, *q, cursor, mine_only, rows@.take(i as int)),
        decreases n - i,
    {
        let row = rest.remove(0);
        assert(row == rows@[i as int]);
        assert(rest@ =~= rows@.skip(i as int + 1));
        assert(rows@.take(i as int + 1).drop_last() == rows@.take(i as int));
        if row_is_wanted(ctx, q, cursor, mine_only, &row) {
            found.push(row);
        }
        i = i + 1;
    }
    assert(rows@.take(n as int) == rows@);
    let limit: i64 = page_limit(q.limit);
    let mut left = rank_list(found);
    let ghost all = left@;
    let mut out: Vec<EnquiryOut> = Vec::new();
    let mut taken: i64 = 0;
    while left.len() > 0 && taken < limit
        invariant
            taken == out@.len(),
            0 <= taken <= limit,
            taken <= all.len(),
            left@ == all.skip(taken as int),
            forall|k: int| 0 <= k < out@.len() ==> enquiry_shown(*ctx, all[k], #[trigger] out@[k]),
        decreases left@.len(),
    {
        let row = left.remove(0);
        assert(row == all[taken as int]);
        assert(left@ =~= all.skip(taken as int + 1));
        out.push(enquiry_out(ctx, row));
        taken = taken + 1;
    }
    out
}

/// The reader's own messages; nobody needs a permission for these.
pub fn list_mine(ctx: &AuthContext, q: &EnquiryQuery, rows: Vec<EnquiryRow>) -> (r: Vec<EnquiryOut>)
    ensures
        is_page(*ctx, *q, true, rows@, r@),
{
    page(ctx, q, true, rows)
}

/// What all lines have taken, for whoever may manage them.
pub fn list_all(
    ctx: &AuthContext,
    q: &EnquiryQuery,
    permissions: Permissions,
    rows: Vec<EnquiryRow>,
) -> (r: Result<Vec<EnquiryOut>, AppError>)
    ensures
        refusal(r) == refusal_in(permissions.telephony_manage),
        r matches Ok(v) ==> is_page(*ctx, *q, false, rows@, v@),
{
    match permissions.telephony_manage {
        Some(e) => Err(e),
        None => Ok(page(ctx, q, false, rows)),
    }
}

proof fn wanted_are_stored(
    ctx: AuthContext,
    q: EnquiryQuery,
    cursor: Cursor,
    mine_only: bool,
    rows: Seq<EnquiryRow>,
    x: EnquiryRow,
)
    ensures
        wanted(ctx, q, cursor, mine_only, rows).contains(x) <==> rows.contains(x) && is_wanted(
            ctx,
            q,
            cursor,
            mine_only,
            x,
        ),
    decreases rows.len(),
{
    let all = wanted(ctx, q, cursor, mine_only, rows);
    if rows.len() > 0 {
        let front = rows.drop_last();
        let before = wanted(ctx, q, cursor, mine_only, front);
        wanted_are_stored(ctx, q, cursor, mine_only, front, x);
        if all.contains(x) {
            let i = all.index_of(x);
            if i < before.len() {
                assert(before[i] == x);
                let k = front.index_of(x);
                assert(rows[k] == x);
            } else {
                assert(rows[rows.len() - 1] == x);
            }
        }
        if rows.contains(x) && is_wanted(ctx, q, cursor, mine_only, x) {
            let k = rows.index_of(x);
            if k < rows.len() - 1 {
                assert(front[k] == x);
                let i = before.index_of(x);
                assert(all[i] == x);
            } else {
                assert(all[all.len() - 1] == x);
            }
        }
    }
}

/// A listing holds the messages that are wanted and no others: each is one of those there are,
/// and behind the place where the page begins.
pub proof fn listings_hold_what_is_wanted(
    ctx: AuthContext,
    q: EnquiryQuery,
    mine_only: bool,
    rows: Seq<EnquiryRow>,
    x: EnquiryRow,
)
    ensures
        listing(ctx, q, mine_only, rows).contains(x) <==> rows.contains(x) && is_wanted(
            ctx,
            q,
            cursor_at(q.before, rows),
            mine_only,
            x,
        ),
{
    let cursor = cursor_at(q.before, rows);
    ordered_lists_hold_the_same(wanted(ctx, q, cursor, mine_only, rows), x);
    wanted_are_stored(ctx, q, cursor, mine_only, rows, x);
}

/// A listing comes with the newest first; of messages as old as each other the one with the
/// higher identifier does.
pub proof fn listings_are_newest_first(
    ctx: AuthContext,
    q: EnquiryQuery,
    mine_only: bool,
    rows: Seq<EnquiryRow>,
    i: int,
    j: int,
)
    requires
        0 <= i < j < listing(ctx, q, mine_only, rows).len(),
    ensures
        ({
            let all = listing(ctx, q, mine_only, rows);
            &&& all[j].created_at <= all[i].created_at
            &&& all[j].created_at == all[i].created_at ==> all[j].id <= all[i].id
        }),
{
    let some = wanted(ctx, q, cursor_at(q.before, rows), mine_only, rows);
    let all = listing(ctx, q, mine_only, rows);
    ordered_lists_are_whole(some);
    assert(!above(all[j].rank(), all[i].rank()));
}

/// Every message has an identifier of its own.
pub open spec fn told_apart(rows: Seq<EnquiryRow>) -> bool {
    forall|i: int, j: int| 0 <= i < j < rows.len() ==> (#[trigger] rows[i]).id != (#[trigger] rows[j]).id
}

proof fn cursors_find_their_message(rows: Seq<EnquiryRow>, k: int)
    requires
        0 <= k < rows.len(),
        told_apart(rows),
    ensures
        cursor_at(Some(rows[k].id), rows) == (Cursor::Behind {
            created_at: rows[k].created_at,
            id: rows[k].id,
        }),
    decreases rows.len(),
{
    let front = rows.drop_last();
    let id = rows[k].id;
    assert forall|i: int, j: int| 0 <= i < j < front.len() implies (#[trigger] front[i]).id != (
    #[trigger] front[j]).id by {
        assert(rows[i] == front[i] && rows[j] == front[j]);
    }
    if k < rows.len() - 1 {
        assert(front[k] == rows[k]);
        cursors_find_their_message(front, k);
    } else {
        assert forall|i: int| 0 <= i < front.len() implies (#[trigger] front[i]).id != id by {
            assert(rows[i] == front[i]);
        }
        cursors_miss(front, id);
    }
}

proof fn cursors_miss(rows: Seq<EnquiryRow>, id: Id)
    requires
        forall|i: int| 0 <= i < rows.len() ==> (#[trigger] rows[i]).id != id,
    ensures
        cursor_at(Some(id), rows) == Cursor::Missing,
    decreases rows.len(),
{
    if rows.len() > 0 {
        let front = rows.drop_last();
        assert forall|i: int| 0 <= i < front.len() implies (#[trigger] front[i]).id != id by {
            assert(rows[i] == front[i]);
        }
        cursors_miss(front, id);
        assert(rows[rows.len() - 1].id != id);
    }
}

/// Pages go on where the last one ended: behind the last message of a page comes every message
/// of the listing that was not on the page, and nothing that was. `n` is how many were on it.
pub proof fn pages_go_on(
    ctx: AuthContext,
    q: EnquiryQuery,
    mine_only: bool,
    rows: Seq<EnquiryRow>,
    n: int,
    x: EnquiryRow,
)
    requires
        told_apart(rows),
        0 < n <= listing(ctx, q, mine_only, rows).len(),
    ensures
        ({
            let all = listing(ctx, q, mine_only, rows);
            let next = EnquiryQuery { before: Some(all[n - 1].id), ..q };
            listing(ctx, next, mine_only, rows).contains(x) <==> all.contains(x) && !all.take(
                n,
            ).contains(x)
        }),
{
    let all = listing(ctx, q, mine_only, rows);
    let last = all[n - 1];
    let next = EnquiryQuery { before: Some(last.id), ..q };
    let some = wanted(ctx, q, cursor_at(q.before, rows), mine_only, rows);
    ordered_lists_are_whole(some);
    assert(all.contains(last));
    listings_hold_what_is_wanted(ctx, q, mine_only, rows, last);
    listings_hold_what_is_wanted(ctx, q, mine_only, rows, x);
    listings_hold_what_is_wanted(ctx, next, mine_only, rows, x);
    let at = rows.index_of(last);
    cursors_find_their_message(rows, at);
    if all.contains(x) && !all.take(n).contains(x) {
        let k = all.index_of(x);
        if k < n {
            assert(all.take(n)[k] == x);
        }
        assert(!above(all[k].rank(), all[n - 1].rank()));
        if x.id == last.id {
            assert(rows.index_of(x) == at);
            assert(all.take(n)[n - 1] == x);
        }
    }
    if listing(ctx, next, mine_only, rows).contains(x) && all.take(n).contains(x) {
        let k = all.take(n).index_of(x);
        assert(all[k] == x);
        if k < n - 1 {
            assert(!above(all[n - 1].rank(), all[k].rank()));
        }
    }
}

/// Whoever neither owns a line nor administers the platform sees that it took a message, and
/// nothing of what the message says.
pub proof fn managers_do_not_read_messages(ctx: AuthContext, row: EnquiryRow, o: EnquiryOut)
    requires
        !ctx.admin,
        !ctx.is(row.owner_user_id),
        enquiry_shown(ctx, row, o),
    ensures
        o.subject is None,
        o.body is None,
        o.caller_e164 is None,
        o.caller_name is None,
        o.contact is None,
        o.for_whom is None,
        o.details is None,
{
}

pub struct Handled {
    pub handled: bool,
}

/// Marks a message as dealt with, or not after all. `owner` is whose message it is, where there
/// is one; somebody else's is answered as one that never was. The result is who dealt with it.
pub fn set_handled(ctx: &AuthContext, owner: Option<Id>, body: &Handled) -> (r: Result<
    Option<Id>,
    AppError,
>)
    ensures
        match r {
            Ok(by) => {
                &&& owner matches Some(o) && reads_body(*ctx, o)
                &&& by == (if body.handled {
                    ctx.user_id
                } else {
                    None
                })
            },
            Err(e) => !(owner matches Some(o) && reads_body(*ctx, o)) && e@ == Refusal::NotFound(
                "no such message"@,
            ),
        },
{
    match owner {
        Some(o) => {
            if may_read_body(ctx, o) {
                return Ok(
                    if body.handled {
                        ctx.user_id
                    } else {
                        None
                    },
                );
            }
        },
        None => {},
    }
    Err(not_found("no such message"))
}

/// A message is listed where it is asked for: the reader's own, where only those are; one that is
/// open, where only those are; of the line that is asked for; and behind the place where the page
/// begins.
pub proof fn wanted_messages_are_listed(
    ctx: AuthContext,
    q: EnquiryQuery,
    cursor: Cursor,
    mine_only: bool,
    s: Seq<EnquiryRow>,
)
    ensures
        wanted(ctx, q, cursor, mine_only, s)
            == s.filter(
                |x: EnquiryRow| (!mine_only || ctx.user_id == Some(x.owner_user_id))
                    && (q.open != Some(true) || !x.handled)
                    && (q.number_id is None || x.call_number_id == q.number_id)
                    && (
                        match cursor {
                            Cursor::Start => true,
                            Cursor::Behind { created_at, id } => x.created_at < created_at
                                || (x.created_at == created_at && x.id < id),
                            Cursor::Missing => false,
                        }
                    )
            ),
        forall|x: EnquiryRow|
            #[trigger] wanted(ctx, q, cursor, mine_only, s).contains(x)
                <==> s.contains(x)
                    && (
                        (!mine_only || ctx.user_id == Some(x.owner_user_id))
                            && (q.open != Some(true) || !x.handled)
                            && (q.number_id is None || x.call_number_id == q.number_id)
                            && (
                                match cursor {
                                    Cursor::Start => true,
                                    Cursor::Behind { created_at, id } => x.created_at < created_at
                                        || (x.created_at == created_at && x.id < id),
                                    Cursor::Missing => false,
                                }
                            )
                    ),
    decreases s.len(),
{
    let p = |x: EnquiryRow| (!mine_only || ctx.user_id == Some(x.owner_user_id))
            && (q.open != Some(true) || !x.handled)
            && (q.number_id is None || x.call_number_id == q.number_id)
            && (
                match cursor {
                    Cursor::Start => true,
                    Cursor::Behind { created_at, id } => x.created_at < created_at
                        || (x.created_at == created_at && x.id < id),
                    Cursor::Missing => false,
                }
            );
    selects_last(s, p);
    selects_just(s, p);
    if s.len() > 0 {
        wanted_messages_are_listed(ctx, q, cursor, mine_only, s.drop_last());
    }
    assert(wanted(ctx, q, cursor, mine_only, s) =~= s.filter(p));
    assert forall|x: EnquiryRow|
        #[trigger] wanted(ctx, q, cursor, mine_only, s).contains(x)
            <==> s.contains(x)
                && (
                    (!mine_only || ctx.user_id == Some(x.owner_user_id))
                        && (q.open != Some(true) || !x.handled)
                        && (q.number_id is None || x.call_number_id == q.number_id)
                        && (
                            match cursor {
                                Cursor::Start => true,
                                Cursor::Behind { created_at, id } => x.created_at < created_at
                                    || (x.created_at == created_at && x.id < id),
                                Cursor::Missing => false,
                            }
                        )
                ) by {
        assert(s.filter(p).contains(x) <==> s.contains(x) && p(x));
    }
}

/// What was said in a call is read by whoever owns it and by administrators.
pub proof fn who_reads_enquiries(ctx: AuthContext, owner: Id)
    ensures
        reads_body(ctx, owner) <==> ctx.admin || ctx.user_id == Some(owner),
{
}

/// A listing begins at the start where nothing is named, behind the first enquiry of the name that
/// is given, and nowhere where there is none.
pub proof fn cursors_point_at_enquiries(before: Option<Id>, rows: Seq<EnquiryRow>) -> (at: int)
    ensures
        before is None <==> cursor_at(before, rows) is Start,
        cursor_at(before, rows) is Missing <==> before is Some && forall|k: int|
            0 <= k < rows.len() ==> Some((#[trigger] rows[k]).id) != before,
        cursor_at(before, rows) matches Cursor::Behind { created_at, id } ==> {
            &&& 0 <= at < rows.len()
            &&& before == Some(id)
            &&& rows[at].id == id
            &&& rows[at].created_at == created_at
            &&& forall|k: int| 0 <= k < at ==> (#[trigger] rows[k]).id != id
        },
    decreases rows.len(),
{
    if rows.len() == 0 {
        0
    } else {
        let front = rows.drop_last();
        let at = cursors_point_at_enquiries(before, front);
        assert forall|k: int| 0 <= k < front.len() implies #[trigger] rows[k] == front[k] by {}
        assert(rows[rows.len() - 1] == rows.last());
        if cursor_at(before, front) is Behind {
            assert(rows[at] == front[at]);
            at
        } else {
            if cursor_at(before, rows) is Missing {
                assert forall|k: int| 0 <= k < rows.len() implies Some((#[trigger] rows[k]).id)
                    != before by {
                    if k < front.len() {
                        assert(front[k].id != before->0);
                    }
                }
            }
            if before is Some {
                assert forall|k: int| 0 <= k < front.len() implies (#[trigger] rows[k]).id
                    != before->0 by {
                    assert(Some(front[k].id) != before);
                }
            }
            rows.len() - 1
        }
    }
}

/// What was said is disclosed to those who may read it, and to nobody else. A page has fifty enquiries
/// unless it is asked for otherwise, one at least and two hundred at most. Behind an enquiry is what
/// is older, and of one time what has the lower name.
pub proof fn pages_of_enquiries(
    ctx: AuthContext,
    owner: Id,
    asked: Option<i64>,
    row: EnquiryRow,
    cursor: Cursor,
)
    ensures
        asked is None ==> page_size(asked) == 50,
        asked matches Some(n) ==> (1 <= n <= 200 ==> page_size(asked) == n),
        asked matches Some(n) ==> (n < 1 ==> page_size(asked) == 1),
        asked matches Some(n) ==> (n > 200 ==> page_size(asked) == 200),
        is_behind(row, cursor)
            <==> match cursor {
                Cursor::Start => true,
                Cursor::Missing => false,
                Cursor::Behind { created_at, id } => row.created_at < created_at
                    || (row.created_at == created_at && row.id < id),
            },
{
}

/// What was said is disclosed to its owner and to administrators, and to nobody else.
pub proof fn what_was_said_is_disclosed<T>(ctx: AuthContext, owner: Id, said: Option<T>)
    ensures
        ctx.admin || ctx.user_id == Some(owner) ==> disclosed(ctx, owner, said) == said,
        !ctx.admin && ctx.user_id != Some(owner) ==> disclosed(ctx, owner, said) is None,
{
}

/// A page shows the beginning of the listing, each enquiry as the reader may see it.
pub proof fn pages_show_the_listing(
    ctx: AuthContext,
    q: EnquiryQuery,
    mine_only: bool,
    rows: Seq<EnquiryRow>,
    shown: Seq<EnquiryOut>,
)
    ensures
        is_page(ctx, q, mine_only, rows, shown)
            ==> shown.len() <= 200
                && shown.len() <= listing(ctx, q, mine_only, rows).len()
                && forall|i: int|
                    0 <= i < shown.len()
                        ==> enquiry_shown(
                            ctx,
                            listing(ctx, q, mine_only, rows)[i],
                            #[trigger] shown[i],
                        ),
        is_page(ctx, q, mine_only, rows, shown)
            && listing(ctx, q, mine_only, rows).len() <= page_size(q.limit)
            ==> shown.len() == listing(ctx, q, mine_only, rows).len(),
        is_page(ctx, q, mine_only, rows, shown)
            && listing(ctx, q, mine_only, rows).len() > page_size(q.limit)
            ==> shown.len() == page_size(q.limit),
{
}

/// An enquiry is shown as it is stored, what was said in it to those who may read it.
pub proof fn enquiries_are_shown_whole(ctx: AuthContext, row: EnquiryRow, o: EnquiryOut)
    ensures
        enquiry_shown(ctx, row, o) ==> {
            &&& o.id == row.id
            &&& o.kind == row.kind
            &&& o.urgency == row.urgency
            &&& o.handled == row.handled
            &&& o.call_id == row.call_id
            &&& o.chat_id == row.chat_id
            &&& o.number_id == row.number_id
            &&& o.to_e164@ == (match row.to_e164 { Some(n) => n@, None => Seq::empty(), })
            &&& o.owner_user_id == row.owner_user_id
            &&& o.created_epoch == row.created_epoch
            &&& o.handled_epoch == row.handled_epoch
            &&& o.subject == disclosed(ctx, row.owner_user_id, row.subject)
            &&& o.body == disclosed(ctx, row.owner_user_id, row.body)
            &&& o.caller_e164 == disclosed(ctx, row.owner_user_id, row.caller_e164)
            &&& o.caller_name == disclosed(ctx, row.owner_user_id, row.caller_name)
            &&& o.contact == disclosed(ctx, row.owner_user_id, row.contact)
            &&& o.for_whom == disclosed(ctx, row.owner_user_id, row.for_whom)
            &&& o.details == disclosed(ctx, row.owner_user_id, row.details)
        },
{
}

} // verus!
