//! Runs of agents that wait for somebody's approval.

use vstd::prelude::*;
use vstd::string::*;

use crate::lists::{selects_just, selects_last};
use crate::error::{conflict, forbidden, refusal, validation, AppError, Refusal};
use crate::http::export::{chat_read_refusal, require_chat_read, ReadableChat};
use crate::http::first;
use crate::ids::{id_text, id_to_text};
use crate::json::{json_in, read_text, text_at};
use crate::order::{by_number, by_time, lowest_first, newest_first, Dated, Numbered};
use crate::principal::{same_id, AuthContext, Id};
use crate::text::{opt_text, same};

verus! {

/// A run that waits for its owner.
pub struct PendingApproval {
    pub run_id: Id,
    pub tool: Option<String>,
    pub summary: String,
    pub context: String,
    pub created_epoch: i64,
}

/// A stored run that waits.
pub struct PendingRow {
    pub id: Id,
    pub pending_tool: Option<String>,
    pub pending_args: Option<serde_json::Value>,
    pub automation_name: Option<String>,
    pub chat_title: Option<String>,
    pub created_epoch: i64,
}

/// What a run waits with: the title among its arguments, where there is one.
pub open spec fn summary_of(args: Option<serde_json::Value>) -> Seq<char> {
    match args {
        Some(a) => match text_at(json_in(a), "title"@) {
            Some(t) => t,
            None => "Pending action"@,
        },
        None => "Pending action"@,
    }
}

/// Where a run comes from: its automation, or its chat.
pub open spec fn context_of(automation: Option<Seq<char>>, chat: Option<Seq<char>>) -> Seq<char> {
    match automation {
        Some(n) => n,
        None => match chat {
            Some(t) => t,
            None => "Chat"@,
        },
    }
}

/// A summary of what waits, of the title that was found.
pub fn summary_or_default(title: Option<String>) -> (r: String)
    ensures
        r@ == (match title {
            Some(t) => t@,
            None => "Pending action"@,
        }),
{
    match title {
        Some(t) => t,
        None => "Pending action".to_owned(),
    }
}

pub open spec fn pending_shown(row: PendingRow, r: PendingApproval) -> bool {
    &&& r.run_id == row.id
    &&& r.tool == row.pending_tool
    &&& r.summary@ == summary_of(row.pending_args)
    &&& r.context@ == context_of(opt_text(row.automation_name), opt_text(row.chat_title))
    &&& r.created_epoch == row.created_epoch
}

/// A waiting run as its owner sees it.
pub fn pending_out(row: PendingRow) -> (r: PendingApproval)
    ensures
        pending_shown(row, r),
{
    let title = match &row.pending_args {
        Some(a) => read_text(a, "title"),
        None => None,
    };
    let context = match row.automation_name {
        Some(n) => n,
        None => match row.chat_title {
            Some(t) => t,
            None => "Chat".to_owned(),
        },
    };
    PendingApproval {
        run_id: row.id,
        tool: row.pending_tool,
        summary: summary_or_default(title),
        context,
        created_epoch: row.created_epoch,
    }
}

pub open spec fn actor_refusal(ctx: AuthContext, owner: Option<Id>) -> Option<Refusal> {
    match owner {
        None => Some(Refusal::Validation("agent run not found"@)),
        Some(o) => if ctx.admin || ctx.is(o) {
            None
        } else {
            Some(Refusal::Forbidden("not your agent run"@))
        },
    }
}

/// Only whoever a run acts for, or an administrator, decides about it and looks into it.
pub fn require_run_actor(ctx: &AuthContext, owner: Option<Id>) -> (r: Result<(), AppError>)
    ensures
        refusal(r) == actor_refusal(*ctx, owner),
{
    match owner {
        None => Err(validation("agent run not found")),
        Some(o) => {
            if ctx.is_admin() || ctx.is_user(o) {
                Ok(())
            } else {
                Err(forbidden("not your agent run"))
            }
        },
    }
}

/// What is done about a run that was decided.
#[derive(Clone, Copy, Debug, PartialEq, Eq, Structural)]
pub enum RunAction {
    Audit,
    /// Takes up the run again later: nobody is waiting for it now.
    EnqueueResume,
    /// Lets whoever waits for it go on.
    ReleaseWaiter,
    /// Ends the run.
    Finish,
    /// Stops the run where it is.
    Kill,
}

pub open spec fn decided_refusal(ctx: AuthContext, owner: Option<Id>, moved: bool) -> Option<
    Refusal,
> {
    if actor_refusal(ctx, owner) is Some {
        actor_refusal(ctx, owner)
    } else if !moved {
        Some(Refusal::Conflict("agent run is no longer awaiting approval"@))
    } else {
        None
    }
}

/// A run is decided once: `moved` is whether this decision was the one that took it out of
/// waiting. An approved run goes on where somebody waits for it, and is queued otherwise.
pub fn approve_run(ctx: &AuthContext, owner: Option<Id>, moved: bool, waiter: bool) -> (r: Result<
    Vec<RunAction>,
    AppError,
>)
    ensures
        refusal(r) == decided_refusal(*ctx, owner, moved),
        r matches Ok(a) ==> a@ == (if waiter {
            seq![RunAction::Audit]
        } else {
            seq![RunAction::Audit, RunAction::EnqueueResume]
        }),
{
    match require_run_actor(ctx, owner) {
        Ok(_) => {},
        Err(e) => {
            return Err(e);
        },
    }
    if !moved {
        return Err(conflict("agent run is no longer awaiting approval"));
    }
    let mut out: Vec<RunAction> = Vec::new();
    out.push(RunAction::Audit);
    if !waiter {
        out.push(RunAction::EnqueueResume);
    }
    Ok(out)
}

/// A rejected run ends.
pub fn reject_run(ctx: &AuthContext, owner: Option<Id>, moved: bool) -> (r: Result<
    Vec<RunAction>,
    AppError,
>)
    ensures
        refusal(r) == decided_refusal(*ctx, owner, moved),
        r matches Ok(a) ==> a@ == seq![
            RunAction::Audit,
            RunAction::ReleaseWaiter,
            RunAction::Finish,
        ],
{
    match require_run_actor(ctx, owner) {
        Ok(_) => {},
        Err(e) => {
            return Err(e);
        },
    }
    if !moved {
        return Err(conflict("agent run is no longer awaiting approval"));
    }
    let mut out: Vec<RunAction> = Vec::new();
    out.push(RunAction::Audit);
    out.push(RunAction::ReleaseWaiter);
    out.push(RunAction::Finish);
    Ok(out)
}

/// Stops a run, whatever it is at: it is stopped first, and whoever waits for it is let go.
pub fn cancel_run(ctx: &AuthContext, owner: Option<Id>) -> (r: Result<Vec<RunAction>, AppError>)
    ensures
        refusal(r) == actor_refusal(*ctx, owner),
        r matches Ok(a) ==> a@ == seq![
            RunAction::Kill,
            RunAction::Audit,
            RunAction::ReleaseWaiter,
        ],
{
    match require_run_actor(ctx, owner) {
        Ok(_) => {},
        Err(e) => {
            return Err(e);
        },
    }
    let mut out: Vec<RunAction> = Vec::new();
    out.push(RunAction::Kill);
    out.push(RunAction::Audit);
    out.push(RunAction::ReleaseWaiter);
    Ok(out)
}

pub struct RunSummary {
    pub id: Id,
    pub status: String,
    pub step_count: i32,
    pub agent_id: Option<Id>,
    pub pending_tool: Option<String>,
    pub created_epoch: i64,
    pub finished_epoch: Option<i64>,
}

/// How many runs of a chat are shown.
pub const MAX_RUNS_SHOWN: usize = 50;

/// The runs of a chat, in their order. With each comes the chat that it is of.
pub open spec fn runs_of(rows: Seq<(Option<Id>, RunSummary)>, chat_id: Id) -> Seq<RunSummary>
    decreases rows.len(),
{
    if rows.len() == 0 {
        Seq::empty()
    } else {
        let before = runs_of(rows.drop_last(), chat_id);
        if rows.last().0 == Some(chat_id) {
            before.push(rows.last().1)
        } else {
            before
        }
    }
}

/// The first runs of a chat.
pub open spec fn first_runs(rows: Seq<(Option<Id>, RunSummary)>, chat_id: Id) -> Seq<RunSummary> {
    let all = runs_of(rows, chat_id);
    if all.len() <= MAX_RUNS_SHOWN {
        all
    } else {
        all.take(MAX_RUNS_SHOWN as int)
    }
}

/// The runs of a chat, for whoever may read it: the newest so many, the newest first.
pub fn list_runs(
    ctx: &AuthContext,
    chat: Option<ReadableChat>,
    reads_project: bool,
    shared_with: bool,
    rows: Vec<Dated<(Option<Id>, RunSummary)>>,
    chat_id: Id,
) -> (r: Result<Vec<RunSummary>, AppError>)
    ensures
        refusal(r) == chat_read_refusal(*ctx, chat, reads_project, shared_with),
        r matches Ok(v) ==> v@ == first_runs(newest_first(rows@), chat_id),
{
    match require_chat_read(ctx, chat, reads_project, shared_with) {
        Ok(_) => {},
        Err(e) => {
            return Err(e);
        },
    }
    let rows = by_time(rows);
    let n: usize = rows.len();
    let mut rest = rows;
    let mut out: Vec<RunSummary> = Vec::new();
    let mut i: usize = 0;
    assert(rows@.take(0) == Seq::<(Option<Id>, RunSummary)>::empty());
    while i < n
        invariant
            n == rows@.len(),
            i <= n,
            rest@ == rows@.skip(i as int),
            out@ == first_runs(rows@.take(i as int), chat_id),
        decreases n - i,
    {
        let row = rest.remove(0);
        assert(row == rows@[i as int]);
        assert(rest@ =~= rows@.skip(i as int + 1));
        assert(rows@.take(i as int + 1).drop_last() == rows@.take(i as int));
        if same_id(row.0, Some(chat_id)) && out.len() < MAX_RUNS_SHOWN {
            out.push(row.1);
        }
        i = i + 1;
    }
    assert(rows@.take(rows@.len() as int) == rows@);
    Ok(out)
}

/// Something that was written down of a run.
pub struct RunEvent {
    pub action: String,
    pub occurred_epoch: Option<i64>,
    pub payload: Option<serde_json::Value>,
}

/// Whether something that was written down is of a run: its note says so.
pub open spec fn is_of_run(e: RunEvent, run_id: Id) -> bool {
    e.payload matches Some(p) && text_at(json_in(p), "run_id"@) == Some(id_text(run_id))
}

/// What was written down of a run, in its order.
pub open spec fn events_of(rows: Seq<RunEvent>, run_id: Id) -> Seq<RunEvent>
    decreases rows.len(),
{
    if rows.len() == 0 {
        Seq::empty()
    } else {
        let before = events_of(rows.drop_last(), run_id);
        if is_of_run(rows.last(), run_id) {
            before.push(rows.last())
        } else {
            before
        }
    }
}

/// A run in full.
pub struct RunOut {
    pub run: RunSummary,
    pub chat_id: Option<Id>,
    pub events: Vec<RunEvent>,
}

/// A run, for whoever it acts for: what it is, and what was written down of it in the order of
/// the trail.
pub fn get_run(
    ctx: &AuthContext,
    owner: Option<Id>,
    run: RunSummary,
    chat_id: Option<Id>,
    trail: Vec<Numbered<RunEvent>>,
) -> (r: Result<RunOut, AppError>)
    ensures
        refusal(r) == actor_refusal(*ctx, owner),
        r matches Ok(x) ==> x.run == run && x.chat_id == chat_id && x.events@ == events_of(
            lowest_first(trail@),
            run.id,
        ),
{
    match require_run_actor(ctx, owner) {
        Ok(_) => {},
        Err(e) => {
            return Err(e);
        },
    }
    let id = run.id;
    let key = id_to_text(id);
    let trail = by_number(trail);
    let n: usize = trail.len();
    let mut rest = trail;
    let mut out: Vec<RunEvent> = Vec::new();
    let mut i: usize = 0;
    assert(trail@.take(0) == Seq::<RunEvent>::empty());
    while i < n
        invariant
            n == trail@.len(),
            i <= n,
            rest@ == trail@.skip(i as int),
            key@ == id_text(id),
            out@ == events_of(trail@.take(i as int), id),
        decreases n - i,
    {
        let row = rest.remove(0);
        assert(row == trail@[i as int]);
        assert(rest@ =~= trail@.skip(i as int + 1));
        assert(trail@.take(i as int + 1).drop_last() == trail@.take(i as int));
        let named = match &row.payload {
            Some(p) => read_text(p, "run_id"),
            None => None,
        };
        let of_run = match named {
            Some(t) => same(t.as_str(), key.as_str()),
            None => false,
        };
        if of_run {
            out.push(row);
        }
        i = i + 1;
    }
    assert(trail@.take(trail@.len() as int) == trail@);
    Ok(RunOut { run, chat_id, events: out })
}

/// A stored run, with whom it acts for and how it stands.
pub struct ActingRun {
    pub acting_user_id: Id,
    pub status: String,
    pub run: PendingRow,
}

/// How many waiting runs are shown.
pub const MAX_PENDING_SHOWN: usize = 50;

/// The runs that wait for somebody, in their order.
pub open spec fn waiting_for(rows: Seq<ActingRun>, me: Id) -> Seq<PendingRow>
    decreases rows.len(),
{
    if rows.len() == 0 {
        Seq::empty()
    } else {
        let before = waiting_for(rows.drop_last(), me);
        if rows.last().acting_user_id == me && rows.last().status@ == "awaiting_approval"@ {
            before.push(rows.last().run)
        } else {
            before
        }
    }
}

/// The runs that wait for the caller: the newest so many, the newest first. An emergency grant
/// has none.
pub fn list_pending(ctx: &AuthContext, rows: Vec<Dated<ActingRun>>) -> (r: Vec<PendingApproval>)
    ensures
        match ctx.user_id {
            Some(me) => {
                let shown = first(waiting_for(newest_first(rows@), me), MAX_PENDING_SHOWN as nat);
                &&& r@.len() == shown.len()
                &&& forall|i: int| 0 <= i < r@.len() ==> pending_shown(shown[i], #[trigger] r@[i])
            },
            None => r@.len() == 0,
        },
{
    let me = match ctx.user_id {
        Some(id) => id,
        None => {
            return Vec::new();
        },
    };
    let rows = by_time(rows);
    let n: usize = rows.len();
    let mut rest = rows;
    let mut out: Vec<PendingApproval> = Vec::new();
    let mut i: usize = 0;
    assert(rows@.take(0) == Seq::<ActingRun>::empty());
    while i < n
        invariant
            n == rows@.len(),
            i <= n,
            rest@ == rows@.skip(i as int),
            out@.len() == first(waiting_for(rows@.take(i as int), me), MAX_PENDING_SHOWN as nat).len(),
            forall|k: int|
                0 <= k < out@.len() ==> pending_shown(
                    first(waiting_for(rows@.take(i as int), me), MAX_PENDING_SHOWN as nat)[k],
                    #[trigger] out@[k],
                ),
        decreases n - i,
    {
        let row = rest.remove(0);
        assert(row == rows@[i as int]);
        assert(rest@ =~= rows@.skip(i as int + 1));
        assert(rows@.take(i as int + 1).drop_last() == rows@.take(i as int));
        if row.acting_user_id == me && same(row.status.as_str(), "awaiting_approval") && out.len() < MAX_PENDING_SHOWN {
            out.push(pending_out(row.run));
        }
        i = i + 1;
    }
    assert(rows@.take(rows@.len() as int) == rows@);
    out
}

/// The runs of a chat are all those that came of it, in their order.
pub proof fn runs_are_listed_with_their_chat(chat_id: Id, s: Seq<(Option<Id>, RunSummary)>)
    ensures
        runs_of(s, chat_id)
            == s.filter(
                |x: (Option<Id>, RunSummary)| x.0 == Some(chat_id)
            ).map_values(|x: (Option<Id>, RunSummary)| x.1),
    decreases s.len(),
{
    let p = |x: (Option<Id>, RunSummary)| x.0 == Some(chat_id);
    selects_last(s, p);
    if s.len() > 0 {
        runs_are_listed_with_their_chat(chat_id, s.drop_last());
    }
    assert(runs_of(s, chat_id) =~= s.filter(p).map_values(|x: (Option<Id>, RunSummary)| x.1));
}

/// What was written down of a run is every entry whose note names it, in the order of the trail.
pub proof fn entries_name_their_run(run_id: Id, s: Seq<RunEvent>)
    ensures
        events_of(s, run_id)
            == s.filter(
                |x: RunEvent| x.payload is Some
                    && text_at(json_in(x.payload->0), "run_id"@) == Some(id_text(run_id))
            ),
        forall|x: RunEvent|
            #[trigger] events_of(s, run_id).contains(x)
                <==> s.contains(x)
                    && (
                        x.payload is Some
                            && text_at(json_in(x.payload->0), "run_id"@) == Some(id_text(run_id))
                    ),
    decreases s.len(),
{
    let p = |x: RunEvent| x.payload is Some
            && text_at(json_in(x.payload->0), "run_id"@) == Some(id_text(run_id));
    selects_last(s, p);
    selects_just(s, p);
    if s.len() > 0 {
        entries_name_their_run(run_id, s.drop_last());
    }
    assert(events_of(s, run_id) =~= s.filter(p));
    assert forall|x: RunEvent|
        #[trigger] events_of(s, run_id).contains(x)
            <==> s.contains(x)
                && (
                    x.payload is Some
                        && text_at(json_in(x.payload->0), "run_id"@) == Some(id_text(run_id))
                ) by {
        assert(s.filter(p).contains(x) <==> s.contains(x) && p(x));
    }
}

/// The runs that wait for somebody are all those that act for them and await approval.
pub proof fn waiting_runs_are_ones_own(me: Id, s: Seq<ActingRun>)
    ensures
        waiting_for(s, me)
            == s.filter(
                |x: ActingRun| x.acting_user_id == me && x.status@ == "awaiting_approval"@
            ).map_values(|x: ActingRun| x.run),
    decreases s.len(),
{
    let p = |x: ActingRun| x.acting_user_id == me && x.status@ == "awaiting_approval"@;
    selects_last(s, p);
    if s.len() > 0 {
        waiting_runs_are_ones_own(me, s.drop_last());
    }
    assert(waiting_for(s, me) =~= s.filter(p).map_values(|x: ActingRun| x.run));
}

/// A run is acted on by an administrator and by whoever owns it, and by nobody else.
pub proof fn who_acts_on_a_run(ctx: AuthContext, owner: Option<Id>, moved: bool)
    ensures
        actor_refusal(ctx, owner) is None <==> owner is Some && (ctx.admin || ctx.user_id == owner),
        decided_refusal(ctx, owner, moved) is None
            <==> owner is Some && (ctx.admin || ctx.user_id == owner) && moved,
{
}

/// What waits for approval is shown with its run, its tool and where it comes from.
pub proof fn approvals_are_shown_whole(row: PendingRow, r: PendingApproval)
    ensures
        pending_shown(row, r) ==> {
            &&& r.run_id == row.id
            &&& r.tool == row.pending_tool
            &&& r.summary@ == summary_of(row.pending_args)
            &&& r.context@ == context_of(opt_text(row.automation_name), opt_text(row.chat_title))
            &&& r.created_epoch == row.created_epoch
        },
{
}

/// An action that waits is told by its title, and where it comes from by the automation's name or
/// else the chat's title. A listing has fifty runs at most.
pub proof fn runs_are_told_apart(
    args: Option<serde_json::Value>,
    automation: Option<Seq<char>>,
    chat: Option<Seq<char>>,
    rows: Seq<(Option<Id>, RunSummary)>,
    chat_id: Id,
    e: RunEvent,
    run_id: Id,
)
    ensures
        (args matches Some(a) && text_at(json_in(a), "title"@) is Some)
            ==> summary_of(args) == text_at(json_in(args->0), "title"@)->0,
        !(args matches Some(a) && text_at(json_in(a), "title"@) is Some)
            ==> summary_of(args) == "Pending action"@,
        automation matches Some(n) ==> context_of(automation, chat) == n,
        automation is None && chat is Some ==> context_of(automation, chat) == chat->0,
        automation is None && chat is None ==> context_of(automation, chat) == "Chat"@,
        first_runs(rows, chat_id).len()
            == (
                if runs_of(rows, chat_id).len() < 50 { runs_of(rows, chat_id).len() } else { 50nat }
            ),
        forall|i: int|
            0 <= i < first_runs(rows, chat_id).len()
                ==> #[trigger] first_runs(rows, chat_id)[i] == runs_of(rows, chat_id)[i],
        is_of_run(e, run_id)
            <==> (
                e.payload matches Some(p) && text_at(json_in(p), "run_id"@) == Some(id_text(run_id))
            ),
{
}

/// Of several things that are wrong, `decided_refusal` tells the first.
pub proof fn decided_refusal_tells_the_first_thing(ctx: AuthContext, owner: Option<Id>, moved: bool)
    ensures
        actor_refusal(ctx, owner) is Some
            ==> decided_refusal(ctx, owner, moved) == actor_refusal(ctx, owner),
        !(actor_refusal(ctx, owner) is Some) && !moved
            ==> decided_refusal(ctx, owner, moved)
                == Some(Refusal::Conflict("agent run is no longer awaiting approval"@)),
        !(actor_refusal(ctx, owner) is Some) && moved ==> decided_refusal(ctx, owner, moved) is None,
{
}

/// A run that is not there is not found, and that of somebody else is forbidden.
pub proof fn runs_of_others_are_refused(ctx: AuthContext, owner: Option<Id>)
    ensures
        actor_refusal(ctx, None) == Some(Refusal::Validation("agent run not found"@)),
        owner is Some && ctx.user_id != owner && !ctx.admin
            ==> actor_refusal(ctx, owner) == Some(Refusal::Forbidden("not your agent run"@)),
{
}

} // verus!
