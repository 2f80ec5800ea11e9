//! Automations: prompts that run on a schedule, and the calendar of their runs.

use vstd::prelude::*;
use vstd::set_lib::{lemma_int_range, lemma_subset_equality, set_int_range};
use vstd::string::*;

use crate::lists::{selects_all_or_none, selects_just, selects_last};
use crate::clock::{
    format_instant, is_near, parse_instant, rfc3339_instant, rfc3339_text, Instant,
};
use crate::error::{forbidden, refusal, validation, AppError, Refusal};
use crate::http::agents::{replace, replaced};
use crate::grants::{refusal_in, KbGrants};
use crate::order::{
    by_time,
    highest_first,
    newest_first,
    ordered_lists_descend,
    rank_list,
    Dated,
    Ranked,
};
use crate::principal::{AuthContext, Id};
use crate::text::{
    blank, comes_before, integer_within, joined3, opt_text, read_integer, same, signed_decimal,
    signed_number, sorts_before, sorts_one_way, sorts_through, trimmed,
};
use crate::trail::{entry_by, record_by, AuditEvent};

verus! {

/// An instant that may be missing, as it is shown.
pub fn rfc3339(t: Option<Instant>) -> (r: Option<String>)
    ensures
        opt_text(r) == (match t {
            Some(at) => rfc3339_text(at),
            None => None,
        }),
{
    match t {
        Some(at) => format_instant(at),
        None => None,
    }
}

pub open spec fn owner_refusal(ctx: AuthContext, owner: Option<Id>) -> Option<Refusal> {
    match owner {
        None => Some(Refusal::Validation("automation not found"@)),
        Some(o) => if ctx.is(o) || ctx.admin {
            None
        } else {
            Some(Refusal::Forbidden("not your automation"@))
        },
    }
}

/// Managing an automation is for its owner and for administrators.
pub fn require_owner(ctx: &AuthContext, owner: Option<Id>) -> (r: Result<Id, AppError>)
    ensures
        refusal(r) == owner_refusal(*ctx, owner),
        r matches Ok(o) ==> owner == Some(o),
{
    match owner {
        None => Err(validation("automation not found")),
        Some(o) => {
            if ctx.is_user(o) || ctx.is_admin() {
                Ok(o)
            } else {
                Err(forbidden("not your automation"))
            }
        },
    }
}

/// How many automations an account may have where nothing is set.
pub const DEFAULT_MAX_PER_USER: i64 = 50;

/// How many seconds lie between two runs, at least, where nothing is set.
pub const DEFAULT_MIN_INTERVAL_SECS: i64 = 300;

/// A setting that is a number, or what holds where it is none.
pub open spec fn number_set(value: Option<Seq<char>>, default: int) -> int {
    match value {
        Some(v) => match integer_within(v, true, i64::MIN as int, i64::MAX as int) {
            Some(n) => n,
            None => default,
        },
        None => default,
    }
}

fn number_or(value: &Option<String>, default: i64) -> (r: i64)
    ensures
        r == number_set(opt_text(*value), default as int),
{
    match value {
        Some(v) => match read_integer(v.as_str(), true, i64::MIN, i64::MAX) {
            Some(n) => n,
            None => default,
        },
        None => default,
    }
}

/// How many automations an account may have, and how many seconds lie between two runs at
/// least, from the settings of these.
pub fn caps(max_per_user: &Option<String>, min_interval_secs: &Option<String>) -> (r: (i64, i64))
    ensures
        r.0 == number_set(opt_text(*max_per_user), DEFAULT_MAX_PER_USER as int),
        r.1 == number_set(opt_text(*min_interval_secs), DEFAULT_MIN_INTERVAL_SECS as int),
{
    (
        number_or(max_per_user, DEFAULT_MAX_PER_USER),
        number_or(min_interval_secs, DEFAULT_MIN_INTERVAL_SECS),
    )
}

/// The next two runs of a schedule.
#[derive(Clone, Copy, Debug, PartialEq, Eq, Structural)]
pub struct Upcoming {
    pub first: Option<Instant>,
    pub second: Option<Instant>,
}

impl Upcoming {
    /// The second run, where there is one, does not come before the first, and there is none
    /// without a first.
    pub open spec fn well_formed(self) -> bool {
        match (self.first, self.second) {
            (Some(a), Some(b)) => is_near(a) && is_near(b) && a <= b,
            (Some(a), None) => is_near(a),
            (None, Some(_)) => false,
            (None, None) => true,
        }
    }
}

/// The whole seconds between two runs are fewer than there have to be.
pub open spec fn too_frequent(u: Upcoming, min_secs: int) -> bool {
    match (u.first, u.second) {
        (Some(a), Some(b)) => (b - a) / 1_000_000_000 < min_secs,
        _ => false,
    }
}

/// Whether a schedule runs too often. One that runs once more, or no more, does not.
pub fn schedule_too_frequent(upcoming: Upcoming, min_secs: i64) -> (r: bool)
    requires
        upcoming.well_formed(),
    ensures
        r == too_frequent(upcoming, min_secs as int),
{
    match (upcoming.first, upcoming.second) {
        (Some(a), Some(b)) => {
            let gap: u128 = (b - a) as u128;
            let secs: u128 = gap / 1_000_000_000;
            (secs as i128) < (min_secs as i128)
        },
        _ => false,
    }
}

pub struct CreateAutomation {
    pub name: String,
    pub schedule: String,
    pub prompt: String,
    pub agent_id: Option<Id>,
    pub project_id: Option<Id>,
    pub kb_ids: Vec<Id>,
    pub deliver_group_chat_id: Option<Id>,
}

/// What is known of the places an automation takes from and gives to.
pub struct Targets {
    /// Whether the owner is in the chat that is told of results; nothing where none is set.
    pub in_delivery_chat: Option<bool>,
    /// What the grants of each knowledge base say about the caller, who has to read them all.
    pub kbs: Vec<KbGrants>,
}

/// What the first knowledge base that may not be read has against it.
pub open spec fn first_unread(kbs: Seq<KbGrants>) -> Option<Refusal>
    decreases kbs.len(),
{
    if kbs.len() == 0 {
        None
    } else if kbs[0].read is Some {
        refusal_in(kbs[0].read)
    } else {
        first_unread(kbs.skip(1))
    }
}

pub open spec fn targets_refusal(t: Targets) -> Option<Refusal> {
    if t.in_delivery_chat == Some(false) {
        Some(Refusal::Validation("you are not a member of the selected delivery chat"@))
    } else {
        first_unread(t.kbs@)
    }
}

/// The owner has to be in the chat that is told of results, and the caller has to be able to
/// read every knowledge base.
pub fn validate_targets(t: Targets) -> (r: Result<(), AppError>)
    ensures
        refusal(r) == targets_refusal(t),
{
    match t.in_delivery_chat {
        Some(member) => {
            if !member {
                return Err(validation("you are not a member of the selected delivery chat"));
            }
        },
        None => {},
    }
    let mut rest = t.kbs;
    while rest.len() > 0
        invariant
            t.in_delivery_chat != Some(false),
            first_unread(rest@) == first_unread(t.kbs@),
        decreases rest@.len(),
    {
        let ghost had = rest@;
        let kb = rest.remove(0);
        assert(rest@ =~= had.skip(1));
        match kb.read {
            Some(e) => {
                return Err(e);
            },
            None => {},
        }
    }
    Ok(())
}

pub struct CreatedId {
    pub id: Id,
}

/// What a schedule comes to: what is wrong with it as it is written, and its next runs or why
/// they cannot be told.
pub struct ScheduleFacts {
    pub refusal: Option<AppError>,
    pub upcoming: Result<Upcoming, AppError>,
}

impl ScheduleFacts {
    pub open spec fn well_formed(self) -> bool {
        self.upcoming matches Ok(u) ==> u.well_formed()
    }
}

pub open spec fn interval_refusal(upcoming: Result<Upcoming, AppError>, min_secs: int) -> Option<
    Refusal,
> {
    match upcoming {
        Err(e) => Some(e@),
        Ok(u) => if too_frequent(u, min_secs) {
            Some(
                Refusal::Validation(
                    "schedule too frequent; minimum interval is "@ + signed_decimal(min_secs)
                        + "s"@,
                ),
            )
        } else {
            None
        },
    }
}

fn check_interval(upcoming: Result<Upcoming, AppError>, min_secs: i64) -> (r: Result<
    Upcoming,
    AppError,
>)
    requires
        upcoming matches Ok(u) ==> u.well_formed(),
    ensures
        refusal(r) == interval_refusal(upcoming, min_secs as int),
        r matches Ok(u) ==> upcoming == Ok::<Upcoming, AppError>(u),
{
    match upcoming {
        Err(e) => Err(e),
        Ok(u) => {
            if schedule_too_frequent(u, min_secs) {
                let n = signed_number(min_secs);
                Err(
                    AppError::Validation(
                        joined3("schedule too frequent; minimum interval is ", n.as_str(), "s"),
                    ),
                )
            } else {
                Ok(u)
            }
        },
    }
}

/// What there is to know before an automation is made.
pub struct CreationFacts {
    pub within_rate: bool,
    pub schedule: ScheduleFacts,
    pub max_per_user: i64,
    pub min_interval_secs: i64,
    pub owned: i64,
    pub targets: Targets,
}

pub open spec fn creation_refusal(
    ctx: AuthContext,
    body: CreateAutomation,
    f: CreationFacts,
) -> Option<Refusal> {
    if ctx.user_id is None {
        Some(Refusal::Forbidden("a user is required"@))
    } else if !f.within_rate {
        Some(Refusal::TooManyRequests("automation rate limit; try again shortly"@))
    } else if f.schedule.refusal is Some {
        refusal_in(f.schedule.refusal)
    } else if trimmed(body.prompt@).len() == 0 {
        Some(Refusal::Validation("prompt must not be empty"@))
    } else if f.owned >= f.max_per_user {
        Some(
            Refusal::Validation(
                "automation limit reached ("@ + signed_decimal(f.max_per_user as int) + ")"@,
            ),
        )
    } else if interval_refusal(f.schedule.upcoming, f.min_interval_secs as int) is Some {
        interval_refusal(f.schedule.upcoming, f.min_interval_secs as int)
    } else {
        targets_refusal(f.targets)
    }
}

/// An automation that may be made: its owner and its first run.
#[derive(Clone, Copy, Debug, PartialEq, Eq, Structural)]
pub struct NewAutomation {
    pub owner: Id,
    pub next_run_at: Option<Instant>,
}

/// Makes an automation.
pub fn create_automation(ctx: &AuthContext, body: &CreateAutomation, f: CreationFacts) -> (r: Result<
    NewAutomation,
    AppError,
>)
    requires
        f.schedule.well_formed(),
    ensures
        refusal(r) == creation_refusal(*ctx, *body, f),
        r matches Ok(n) ==> {
            &&& ctx.user_id == Some(n.owner)
            &&& f.schedule.upcoming matches Ok(u) && n.next_run_at == u.first
        },
{
    let owner = match ctx.user_id {
        Some(id) => id,
        None => {
            return Err(forbidden("a user is required"));
        },
    };
    if !f.within_rate {
        return Err(
            AppError::TooManyRequests("automation rate limit; try again shortly".to_owned()),
        );
    }
    match f.schedule.refusal {
        Some(e) => {
            return Err(e);
        },
        None => {},
    }
    if blank(body.prompt.as_str()) {
        return Err(validation("prompt must not be empty"));
    }
    if f.owned >= f.max_per_user {
        let n = signed_number(f.max_per_user);
        return Err(
            AppError::Validation(joined3("automation limit reached (", n.as_str(), ")")),
        );
    }
    let upcoming = match check_interval(f.schedule.upcoming, f.min_interval_secs) {
        Ok(u) => u,
        Err(e) => {
            return Err(e);
        },
    };
    match validate_targets(f.targets) {
        Ok(_) => Ok(NewAutomation { owner, next_run_at: upcoming.first }),
        Err(e) => Err(e),
    }
}

/// No account gets more automations than it may have.
pub proof fn automations_stay_within_the_cap(
    ctx: AuthContext,
    body: CreateAutomation,
    f: CreationFacts,
)
    requires
        creation_refusal(ctx, body, f) is None,
    ensures
        f.owned + 1 <= f.max_per_user,
{
}

/// No automation runs more often than it may.
pub proof fn automations_keep_their_distance(
    ctx: AuthContext,
    body: CreateAutomation,
    f: CreationFacts,
)
    requires
        creation_refusal(ctx, body, f) is None,
    ensures
        f.schedule.upcoming matches Ok(u) && (u.first matches Some(a) ==> (u.second matches Some(b)
            ==> b - a >= f.min_interval_secs * 1_000_000_000)),
{
    let u = f.schedule.upcoming->Ok_0;
    if u.first is Some && u.second is Some {
        let gap = u.second->0 - u.first->0;
        assert(gap >= (gap / 1_000_000_000) * 1_000_000_000) by (nonlinear_arith);
        assert((gap / 1_000_000_000) * 1_000_000_000 >= f.min_interval_secs * 1_000_000_000)
            by (nonlinear_arith)
            requires
                gap / 1_000_000_000 >= f.min_interval_secs,
        ;
    }
}

/// A stored automation.
pub struct AutomationRow {
    pub id: Id,
    pub name: String,
    pub schedule: String,
    pub prompt: String,
    pub agent_id: Option<Id>,
    pub status: String,
    pub next_run_at: Option<Instant>,
    pub last_run_at: Option<Instant>,
    pub project_id: Option<Id>,
    pub kb_ids: Vec<Id>,
    pub deliver_group_chat_id: Option<Id>,
}

pub struct AutomationOut {
    pub id: Id,
    pub name: String,
    pub schedule: String,
    pub prompt: String,
    pub agent_id: Option<Id>,
    pub status: String,
    pub next_run_at: Option<String>,
    pub last_run_at: Option<String>,
    pub project_id: Option<Id>,
    pub kb_ids: Vec<Id>,
    pub deliver_group_chat_id: Option<Id>,
}

/// An instant that may be missing, as it is shown.
pub open spec fn shown_at(t: Option<Instant>) -> Option<Seq<char>> {
    match t {
        Some(at) => rfc3339_text(at),
        None => None,
    }
}

pub open spec fn automation_shown(row: AutomationRow, r: AutomationOut) -> bool {
    &&& r.id == row.id
    &&& r.name == row.name
    &&& r.schedule == row.schedule
    &&& r.prompt == row.prompt
    &&& r.agent_id == row.agent_id
    &&& r.status == row.status
    &&& opt_text(r.next_run_at) == shown_at(row.next_run_at)
    &&& opt_text(r.last_run_at) == shown_at(row.last_run_at)
    &&& r.project_id == row.project_id
    &&& r.kb_ids == row.kb_ids
    &&& r.deliver_group_chat_id == row.deliver_group_chat_id
}

/// An automation as it is shown.
pub fn automation_out(row: AutomationRow) -> (r: AutomationOut)
    ensures
        automation_shown(row, r),
{
    AutomationOut {
        id: row.id,
        name: row.name,
        schedule: row.schedule,
        prompt: row.prompt,
        agent_id: row.agent_id,
        status: row.status,
        next_run_at: rfc3339(row.next_run_at),
        last_run_at: rfc3339(row.last_run_at),
        project_id: row.project_id,
        kb_ids: row.kb_ids,
        deliver_group_chat_id: row.deliver_group_chat_id,
    }
}

/// A change to an automation. Of the project and the chat, `Some(None)` takes away what is
/// set, and `None` leaves it.
pub struct UpdateAutomation {
    pub name: Option<String>,
    pub schedule: Option<String>,
    pub prompt: Option<String>,
    pub status: Option<String>,
    pub project_id: Option<Option<Id>>,
    pub kb_ids: Option<Vec<Id>>,
    pub deliver_group_chat_id: Option<Option<Id>>,
}

/// What there is to know before an automation is changed. The targets are those that the
/// change sets, and the schedule is the one that it gives.
pub struct UpdateFacts {
    pub targets: Targets,
    pub schedule: ScheduleFacts,
    pub min_interval_secs: i64,
}

pub open spec fn is_status(s: Seq<char>) -> bool {
    s == "active"@ || s == "paused"@
}

/// The change sets a knowledge base or a chat.
pub open spec fn sets_targets(body: UpdateAutomation) -> bool {
    ||| body.kb_ids matches Some(ids) && ids@.len() > 0
    ||| body.deliver_group_chat_id matches Some(Some(_))
}

pub open spec fn update_refusal(
    ctx: AuthContext,
    owner: Option<Id>,
    body: UpdateAutomation,
    f: UpdateFacts,
) -> Option<Refusal> {
    if owner_refusal(ctx, owner) is Some {
        owner_refusal(ctx, owner)
    } else if body.status matches Some(s) && !is_status(s@) {
        Some(Refusal::Validation("status must be active|paused"@))
    } else if sets_targets(body) && targets_refusal(f.targets) is Some {
        targets_refusal(f.targets)
    } else if body.schedule is Some && f.schedule.refusal is Some {
        refusal_in(f.schedule.refusal)
    } else if body.schedule is Some {
        interval_refusal(f.schedule.upcoming, f.min_interval_secs as int)
    } else {
        None
    }
}

/// An automation after a change: what is not given stays, and the next run is found anew where
/// the schedule is given.
pub open spec fn updated(row: AutomationRow, body: UpdateAutomation, f: UpdateFacts) -> AutomationRow {
    AutomationRow {
        id: row.id,
        name: replaced(row.name, body.name),
        schedule: replaced(row.schedule, body.schedule),
        prompt: replaced(row.prompt, body.prompt),
        agent_id: row.agent_id,
        status: replaced(row.status, body.status),
        next_run_at: if body.schedule is Some {
            f.schedule.upcoming->Ok_0.first
        } else {
            row.next_run_at
        },
        last_run_at: row.last_run_at,
        project_id: replaced(row.project_id, body.project_id),
        kb_ids: replaced(row.kb_ids, body.kb_ids),
        deliver_group_chat_id: replaced(row.deliver_group_chat_id, body.deliver_group_chat_id),
    }
}

/// Changes an automation. `owner` is its owner, where there is such an automation, and `row`
/// what is stored of it.
pub fn update_automation(
    ctx: &AuthContext,
    owner: Option<Id>,
    row: AutomationRow,
    body: UpdateAutomation,
    f: UpdateFacts,
) -> (r: Result<AutomationRow, AppError>)
    requires
        f.schedule.well_formed(),
    ensures
        refusal(r) == update_refusal(*ctx, owner, body, f),
        r matches Ok(a) ==> a == updated(row, body, f),
{
    match require_owner(ctx, owner) {
        Ok(_) => {},
        Err(e) => {
            return Err(e);
        },
    }
    match &body.status {
        Some(s) => {
            if !same(s.as_str(), "active") && !same(s.as_str(), "paused") {
                return Err(validation("status must be active|paused"));
            }
        },
        None => {},
    }
    let some_kb = match &body.kb_ids {
        Some(ids) => ids.len() > 0,
        None => false,
    };
    let some_chat = match body.deliver_group_chat_id {
        Some(Some(_)) => true,
        _ => false,
    };
    if some_kb || some_chat {
        match validate_targets(f.targets) {
            Ok(_) => {},
            Err(e) => {
                return Err(e);
            },
        }
    }
    let next_run_at = if body.schedule.is_some() {
        match f.schedule.refusal {
            Some(e) => {
                return Err(e);
            },
            None => {},
        }
        match check_interval(f.schedule.upcoming, f.min_interval_secs) {
            Ok(u) => u.first,
            Err(e) => {
                return Err(e);
            },
        }
    } else {
        row.next_run_at
    };
    Ok(
        AutomationRow {
            id: row.id,
            name: replace(row.name, body.name),
            schedule: replace(row.schedule, body.schedule),
            prompt: replace(row.prompt, body.prompt),
            agent_id: row.agent_id,
            status: replace(row.status, body.status),
            next_run_at,
            last_run_at: row.last_run_at,
            project_id: replace(row.project_id, body.project_id),
            kb_ids: replace(row.kb_ids, body.kb_ids),
            deliver_group_chat_id: replace(row.deliver_group_chat_id, body.deliver_group_chat_id),
        },
    )
}

/// Switching an automation on or off changes nothing else of it.
pub proof fn toggling_keeps_the_rest(row: AutomationRow, body: UpdateAutomation, f: UpdateFacts)
    requires
        body.name is None,
        body.schedule is None,
        body.prompt is None,
        body.project_id is None,
        body.kb_ids is None,
        body.deliver_group_chat_id is None,
    ensures
        updated(row, body, f) == (AutomationRow { status: replaced(row.status, body.status), ..row }),
{
}

/// A stored run of an automation.
pub struct RunRow {
    pub id: Id,
    pub status: String,
    pub output_chat_id: Option<Id>,
    pub error: Option<String>,
    pub started_at: Instant,
    pub completed_at: Option<Instant>,
}

impl Ranked for RunRow {
    /// The newest come first.
    open spec fn rank(self) -> (int, int) {
        (self.started_at as int, 0)
    }

    fn outranks(&self, other: &RunRow) -> (r: bool) {
        self.started_at > other.started_at
    }
}

pub struct RunOut {
    pub id: Id,
    pub status: String,
    pub output_chat_id: Option<Id>,
    pub error: Option<String>,
    pub started_at: Option<String>,
    pub completed_at: Option<String>,
}

pub open spec fn run_shown(row: RunRow, r: RunOut) -> bool {
    &&& r.id == row.id
    &&& r.status == row.status
    &&& r.output_chat_id == row.output_chat_id
    &&& r.error == row.error
    &&& opt_text(r.started_at) == rfc3339_text(row.started_at)
    &&& opt_text(r.completed_at) == shown_at(row.completed_at)
}

/// A run as it is shown.
pub fn run_out(row: RunRow) -> (r: RunOut)
    ensures
        run_shown(row, r),
{
    RunOut {
        id: row.id,
        status: row.status,
        output_chat_id: row.output_chat_id,
        error: row.error,
        started_at: rfc3339(Some(row.started_at)),
        completed_at: rfc3339(row.completed_at),
    }
}

pub struct CalendarQuery {
    pub from: Option<String>,
    pub to: Option<String>,
}

/// The most runs of one automation that a calendar shows.
pub const MAX_OCCURRENCES: usize = 100;

/// A week, in nanoseconds.
pub const WEEK: i128 = 604_800_000_000_000;

/// The instant that is asked for, or the one that holds where none is, or none that can be
/// read.
pub open spec fn instant_or(asked: Option<Seq<char>>, default: int) -> int {
    match asked {
        Some(s) => match rfc3339_instant(s) {
            Some(t) => t as int,
            None => default,
        },
        None => default,
    }
}

fn instant_asked(asked: &Option<String>) -> (r: Option<Instant>)
    ensures
        forall|default: int|
            #[trigger] instant_or(opt_text(*asked), default) == (match r {
                Some(t) => t as int,
                None => default,
            }),
        r matches Some(t) ==> is_near(t),
{
    match asked {
        Some(s) => parse_instant(s.as_str()),
        None => None,
    }
}

/// The part of the calendar that is looked at: from the instant that is given, or now, to the
/// instant that is given, or a week later.
pub fn calendar_window(q: &CalendarQuery, now: Instant) -> (r: (Instant, Instant))
    requires
        is_near(now),
    ensures
        r.0 == instant_or(opt_text(q.from), now as int),
        r.1 == instant_or(opt_text(q.to), r.0 + WEEK),
{
    let from: Instant = match instant_asked(&q.from) {
        Some(t) => t,
        None => now,
    };
    let to: Instant = match instant_asked(&q.to) {
        Some(t) => t,
        None => from + WEEK,
    };
    (from, to)
}

/// The runs of one automation within a window.
pub struct Occurrences {
    pub automation_id: Id,
    pub name: String,
    pub at: Vec<Instant>,
}

pub struct CalendarEntry {
    pub automation_id: Id,
    pub name: String,
    pub at: String,
}

/// A run in the calendar: the automation, its name, and when.
pub type Entry = (Id, Seq<char>, Seq<char>);

impl View for CalendarEntry {
    type V = Entry;

    open spec fn view(&self) -> Entry {
        (self.automation_id, self.name@, self.at@)
    }
}

pub open spec fn entries(v: Seq<CalendarEntry>) -> Seq<Entry> {
    v.map_values(|e: CalendarEntry| e@)
}

/// The runs of one automation that can be shown.
pub open spec fn runs_of(id: Id, name: Seq<char>, at: Seq<Instant>) -> Seq<Entry>
    decreases at.len(),
{
    if at.len() == 0 {
        Seq::empty()
    } else {
        let before = runs_of(id, name, at.drop_last());
        match rfc3339_text(at.last()) {
            Some(s) => before.push((id, name, s)),
            None => before,
        }
    }
}

/// The runs of all automations that can be shown, automation by automation.
pub open spec fn all_runs(found: Seq<Occurrences>) -> Seq<Entry>
    decreases found.len(),
{
    if found.len() == 0 {
        Seq::empty()
    } else {
        let o = found.last();
        all_runs(found.drop_last()) + runs_of(o.automation_id, o.name@, o.at@)
    }
}

/// `order` lists every index of `s` once.
pub open spec fn is_arrangement(order: Seq<int>, n: nat) -> bool {
    &&& order.len() == n
    &&& forall|i: int| 0 <= i < n ==> 0 <= #[trigger] order[i] < n
    &&& forall|i: int, j: int| 0 <= i < j < n ==> #[trigger] order[i] != #[trigger] order[j]
}

/// `r` is `s` in the arrangement `order`: by when the runs are, and those of one instant as
/// they stood in `s`.
pub open spec fn is_timetable(s: Seq<Entry>, r: Seq<Entry>, order: Seq<int>) -> bool {
    &&& r.len() == s.len()
    &&& is_arrangement(order, s.len())
    &&& forall|i: int| 0 <= i < r.len() ==> #[trigger] r[i] == s[order[i]]
    &&& forall|i: int, j: int|
        0 <= i < j < r.len() ==> !sorts_before((#[trigger] r[j]).2, (#[trigger] r[i]).2)
    &&& forall|i: int, j: int|
        0 <= i < j < r.len() && (#[trigger] r[i]).2 == (#[trigger] r[j]).2 ==> order[i] < order[j]
}

/// `r` is `s` in the order of a calendar.
pub open spec fn is_calendar(s: Seq<Entry>, r: Seq<Entry>) -> bool {
    exists|order: Seq<int>| is_timetable(s, r, order)
}

fn collect_runs(found: &Vec<Occurrences>) -> (r: Vec<CalendarEntry>)
    ensures
        entries(r@) == all_runs(found@),
{
    let mut out: Vec<CalendarEntry> = Vec::new();
    let mut i: usize = 0;
    assert(found@.take(0) == Seq::<Occurrences>::empty());
    while i < found.len()
        invariant
            i <= found@.len(),
            entries(out@) == all_runs(found@.take(i as int)),
        decreases found@.len() - i,
    {
        assert(found@.take(i as int + 1).drop_last() == found@.take(i as int));
        let o = &found[i];
        let mut k: usize = 0;
        let ghost had = entries(out@);
        assert(o.at@.take(0) == Seq::<Instant>::empty());
        assert(had + Seq::<Entry>::empty() =~= had);
        while k < o.at.len()
            invariant
                k <= o.at@.len(),
                entries(out@) == had + runs_of(o.automation_id, o.name@, o.at@.take(k as int)),
            decreases o.at@.len() - k,
        {
            assert(o.at@.take(k as int + 1).drop_last() == o.at@.take(k as int));
            match format_instant(o.at[k]) {
                Some(s) => {
                    let ghost before = out@;
                    let e = CalendarEntry {
                        automation_id: o.automation_id,
                        name: o.name.clone(),
                        at: s,
                    };
                    out.push(e);
                    assert(entries(out@) =~= entries(before).push(e@));
                },
                None => {},
            }
            k = k + 1;
        }
        assert(o.at@.take(k as int) == o.at@);
        i = i + 1;
    }
    assert(found@.take(found@.len() as int) == found@);
    out
}

/// Puts an entry in its place among entries that are in order, behind those of its instant.
fn place(out: &mut Vec<CalendarEntry>, e: CalendarEntry) -> (at: usize)
    requires
        old(out)@.len() < usize::MAX,
        forall|i: int, j: int|
            0 <= i < j < old(out)@.len() ==> !sorts_before(
                (#[trigger] old(out)@[j])@.2,
                (#[trigger] old(out)@[i])@.2,
            ),
    ensures
        at <= old(out)@.len(),
        final(out)@ == old(out)@.insert(at as int, e),
        forall|i: int| 0 <= i < at ==> !sorts_before(e@.2, (#[trigger] old(out)@[i])@.2),
        forall|i: int|
            at <= i < old(out)@.len() ==> sorts_before(e@.2, (#[trigger] old(out)@[i])@.2),
{
    let mut at: usize = out.len();
    while 0 < at && comes_before(e.at.as_str(), out[at - 1].at.as_str())
        invariant
            at <= out@.len(),
            out@ == old(out)@,
            forall|i: int|
                at <= i < out@.len() ==> sorts_before(e@.2, (#[trigger] out@[i])@.2),
        decreases at,
    {
        at = at - 1;
    }
    proof {
        assert forall|i: int| 0 <= i < at implies !sorts_before(
            e@.2,
            (#[trigger] old(out)@[i])@.2,
        ) by {
            let last = old(out)@[at - 1]@.2;
            if sorts_before(e@.2, old(out)@[i]@.2) && i < at - 1 {
                sorts_through(e@.2, old(out)@[i]@.2, last);
            }
        }
    }
    out.insert(at, e);
    at
}

proof fn placed_keeps_order(
    s: Seq<Entry>,
    n: int,
    r: Seq<Entry>,
    order: Seq<int>,
    at: int,
)
    requires
        0 <= n < s.len(),
        is_timetable(s.take(n), r, order),
        0 <= at <= r.len(),
        forall|i: int| 0 <= i < at ==> !sorts_before(s[n].2, (#[trigger] r[i]).2),
        forall|i: int| at <= i < r.len() ==> sorts_before(s[n].2, (#[trigger] r[i]).2),
    ensures
        is_timetable(s.take(n + 1), r.insert(at, s[n]), order.insert(at, n)),
{
    let r2 = r.insert(at, s[n]);
    let o2 = order.insert(at, n);
    assert(s.take(n).len() == n);
    assert forall|i: int| 0 <= i < n + 1 implies 0 <= #[trigger] o2[i] < n + 1 by {
        if i < at {
            assert(o2[i] == order[i]);
        } else if i > at {
            assert(o2[i] == order[i - 1]);
        }
    }
    assert forall|i: int, j: int| 0 <= i < j < n + 1 implies #[trigger] o2[i] != #[trigger] o2[j] by {
        let a = if i < at { i } else { i - 1 };
        let b = if j < at { j } else { j - 1 };
        if i != at {
            assert(o2[i] == order[a]);
        }
        if j != at {
            assert(o2[j] == order[b]);
        }
    }
    assert forall|i: int| 0 <= i < r2.len() implies #[trigger] r2[i] == s.take(n + 1)[o2[i]] by {
        if i < at {
            assert(r2[i] == r[i] && o2[i] == order[i]);
        } else if i > at {
            assert(r2[i] == r[i - 1] && o2[i] == order[i - 1]);
        }
    }
    assert forall|i: int, j: int| 0 <= i < j < r2.len() implies !sorts_before(
        (#[trigger] r2[j]).2,
        (#[trigger] r2[i]).2,
    ) by {
        let a = if i < at { i } else { i - 1 };
        let b = if j < at { j } else { j - 1 };
        if i != at {
            assert(r2[i] == r[a]);
        }
        if j != at {
            assert(r2[j] == r[b]);
        }
        if i == at {
            sorts_one_way(s[n].2, r[b].2);
        }
    }
    assert forall|i: int, j: int| 0 <= i < j < r2.len() && (#[trigger] r2[i]).2 == (#[trigger] r2[j]).2
        implies o2[i] < o2[j] by {
        let a = if i < at { i } else { i - 1 };
        let b = if j < at { j } else { j - 1 };
        if i != at {
            assert(r2[i] == r[a] && o2[i] == order[a]);
        }
        if j != at {
            assert(r2[j] == r[b] && o2[j] == order[b]);
        }
        if i == at {
            sorts_one_way(s[n].2, r[b].2);
        }
    }
}

/// The runs of the caller's automations within a window, by when they are.
pub fn calendar(ctx: &AuthContext, found: &Vec<Occurrences>) -> (r: Result<
    Vec<CalendarEntry>,
    AppError,
>)
    ensures
        match r {
            Ok(v) => ctx.user_id is Some && is_calendar(all_runs(found@), entries(v@)),
            Err(e) => ctx.user_id is None && e@ == Refusal::Forbidden("a user is required"@),
        },
{
    if ctx.user_id.is_none() {
        return Err(forbidden("a user is required"));
    }
    let mut rest = collect_runs(found);
    let n: usize = rest.len();
    let ghost all = all_runs(found@);
    let ghost runs = rest@;
    let mut out: Vec<CalendarEntry> = Vec::new();
    let mut i: usize = 0;
    let ghost mut order: Seq<int> = Seq::empty();
    assert(is_timetable(all.take(0), entries(out@), order));
    while i < n
        invariant
            n == runs.len(),
            entries(runs) == all,
            all == all_runs(found@),
            ctx.user_id is Some,
            i <= n,
            rest@ == runs.skip(i as int),
            out@.len() == i,
            is_timetable(all.take(i as int), entries(out@), order),
        decreases n - i,
    {
        let e = rest.remove(0);
        assert(e == runs[i as int]);
        assert(rest@ =~= runs.skip(i as int + 1));
        let ghost before = out@;
        assert forall|a: int, b: int| 0 <= a < b < out@.len() implies !sorts_before(
            (#[trigger] out@[b])@.2,
            (#[trigger] out@[a])@.2,
        ) by {
            assert(entries(out@)[a] == out@[a]@ && entries(out@)[b] == out@[b]@);
        }
        let at: usize = place(&mut out, e);
        proof {
            let r = entries(before);
            assert(all[i as int] == e@);
            assert forall|k: int| 0 <= k < at implies !sorts_before(
                all[i as int].2,
                (#[trigger] r[k]).2,
            ) by {
                assert(r[k] == before[k]@);
            }
            assert forall|k: int| at <= k < r.len() implies sorts_before(
                all[i as int].2,
                (#[trigger] r[k]).2,
            ) by {
                assert(r[k] == before[k]@);
            }
            placed_keeps_order(all, i as int, r, order, at as int);
            order = order.insert(at as int, i as int);
            assert(entries(out@) =~= r.insert(at as int, e@));
        }
        i = i + 1;
    }
    assert(all.take(n as int) =~= all);
    assert(is_timetable(all, entries(out@), order));
    Ok(out)
}

proof fn same_place_at_one(
    s: Seq<Entry>,
    a: Seq<Entry>,
    p: Seq<int>,
    b: Seq<Entry>,
    q: Seq<int>,
    i: int,
)
    requires
        is_timetable(s, a, p),
        is_timetable(s, b, q),
        0 <= i < s.len(),
        forall|k: int| 0 <= k < i ==> #[trigger] p[k] == q[k],
    ensures
        p[i] == q[i],
{
    if p[i] != q[i] {
        placed_later(s.len(), p, q, i);
        placed_later(s.len(), q, p, i);
        let j = choose|j: int| i < j < s.len() && #[trigger] q[j] == p[i];
        let k = choose|k: int| i < k < s.len() && #[trigger] p[k] == q[i];
        assert(a[i] == s[p[i]] && b[j] == s[q[j]]);
        assert(b[i] == s[q[i]] && a[k] == s[p[k]]);
        assert(!sorts_before(a[k].2, a[i].2));
        assert(!sorts_before(b[j].2, b[i].2));
        same_when_neither_sorts(a[i].2, a[k].2);
        assert(p[i] < p[k]);
        assert(q[i] < q[j]);
    }
}

proof fn same_when_neither_sorts(a: Seq<char>, b: Seq<char>)
    requires
        !sorts_before(a, b),
        !sorts_before(b, a),
    ensures
        a == b,
    decreases a.len(),
{
    if a.len() > 0 && b.len() > 0 {
        if a[0] == b[0] {
            same_when_neither_sorts(a.skip(1), b.skip(1));
            assert(a =~= seq![a[0]] + a.skip(1));
            assert(b =~= seq![b[0]] + b.skip(1));
        }
    } else {
        assert(a =~= b);
    }
}

/// An index that one arrangement lists at `i`, another that agrees before `i` and not at `i`
/// lists behind `i`.
proof fn placed_later(n: nat, p: Seq<int>, q: Seq<int>, i: int)
    requires
        is_arrangement(p, n),
        is_arrangement(q, n),
        0 <= i < n,
        forall|k: int| 0 <= k < i ==> #[trigger] p[k] == q[k],
        p[i] != q[i],
    ensures
        exists|j: int| i < j < n && #[trigger] q[j] == p[i],
{
    let image = q.to_set();
    let all = vstd::set_lib::set_int_range(0, n as int);
    vstd::set_lib::lemma_int_range(0, n as int);
    q.unique_seq_to_set();
    assert(image.subset_of(all)) by {
        assert forall|x: int| image.contains(x) implies all.contains(x) by {
            let k = choose|k: int| 0 <= k < q.len() && q[k] == x;
            assert(0 <= q[k] < n);
        }
    }
    vstd::set_lib::lemma_subset_equality(image, all);
    assert(image.contains(p[i]));
    let j = choose|j: int| 0 <= j < q.len() && q[j] == p[i];
    if j < i {
        assert(p[j] == q[j]);
    }
}

/// There is only one calendar of given runs.
pub proof fn calendars_are_unique(s: Seq<Entry>, a: Seq<Entry>, b: Seq<Entry>)
    requires
        is_calendar(s, a),
        is_calendar(s, b),
    ensures
        a == b,
{
    let p = choose|order: Seq<int>| is_timetable(s, a, order);
    let q = choose|order: Seq<int>| is_timetable(s, b, order);
    timetables_agree_up_to(s, a, p, b, q, s.len() as int);
    assert forall|i: int| 0 <= i < a.len() implies a[i] == b[i] by {
        assert(a[i] == s[p[i]] && b[i] == s[q[i]]);
    }
    assert(a =~= b);
}

proof fn timetables_agree_up_to(
    s: Seq<Entry>,
    a: Seq<Entry>,
    p: Seq<int>,
    b: Seq<Entry>,
    q: Seq<int>,
    n: int,
)
    requires
        is_timetable(s, a, p),
        is_timetable(s, b, q),
        0 <= n <= s.len(),
    ensures
        forall|k: int| 0 <= k < n ==> #[trigger] p[k] == q[k],
    decreases n,
{
    if n > 0 {
        timetables_agree_up_to(s, a, p, b, q, n - 1);
        same_place_at_one(s, a, p, b, q, n - 1);
    }
}

/// What is written down of a change to an automation.
pub fn audit_automation(ctx: &AuthContext, action: &str, id: Id) -> (e: AuditEvent)
    ensures
        e@ == entry_by(*ctx, action@, "automation"@, id),
{
    record_by(ctx, action, "automation", id)
}

/// The automations of an account, in their order. With each comes its owner.
pub open spec fn automations_of(rows: Seq<(Id, AutomationRow)>, me: Id) -> Seq<AutomationRow>
    decreases rows.len(),
{
    if rows.len() == 0 {
        Seq::empty()
    } else {
        let before = automations_of(rows.drop_last(), me);
        if rows.last().0 == me {
            before.push(rows.last().1)
        } else {
            before
        }
    }
}

/// The caller's automations, the newest first. With each row comes its owner.
pub fn list_automations(ctx: &AuthContext, rows: Vec<Dated<(Id, AutomationRow)>>) -> (r: Result<
    Vec<AutomationOut>,
    AppError,
>)
    ensures
        match r {
            Ok(v) => ctx.user_id matches Some(me) && {
                &&& v@.len() == automations_of(newest_first(rows@), me).len()
                &&& forall|i: int|
                    0 <= i < v@.len() ==> automation_shown(
                        automations_of(newest_first(rows@), me)[i],
                        #[trigger] v@[i],
                    )
            },
            Err(e) => ctx.user_id is None && e@ == Refusal::Forbidden("a user is required"@),
        },
{
    let me = match ctx.user_id {
        Some(id) => id,
        None => {
            return Err(forbidden("a user is required"));
        },
    };
    let rows = by_time(rows);
    let n: usize = rows.len();
    let mut rest = rows;
    let mut out: Vec<AutomationOut> = Vec::new();
    let mut i: usize = 0;
    assert(rows@.take(0) == Seq::<(Id, AutomationRow)>::empty());
    while i < n
        invariant
            n == rows@.len(),
            i <= n,
            rest@ == rows@.skip(i as int),
            out@.len() == automations_of(rows@.take(i as int), me).len(),
            forall|k: int|
                0 <= k < out@.len() ==> automation_shown(
                    automations_of(rows@.take(i as int), me)[k],
                    #[trigger] out@[k],
                ),
        decreases n - i,
    {
        let row = rest.remove(0);
        assert(row == rows@[i as int]);
        assert(rest@ =~= rows@.skip(i as int + 1));
        assert(rows@.take(i as int + 1).drop_last() == rows@.take(i as int));
        if row.0 == me {
            out.push(automation_out(row.1));
        }
        i = i + 1;
    }
    assert(rows@.take(rows@.len() as int) == rows@);
    Ok(out)
}

/// An automation, for its owner.
pub fn get_automation(ctx: &AuthContext, owner: Option<Id>, row: AutomationRow) -> (r: Result<
    AutomationOut,
    AppError,
>)
    ensures
        refusal(r) == owner_refusal(*ctx, owner),
        r matches Ok(x) ==> automation_shown(row, x),
{
    match require_owner(ctx, owner) {
        Ok(_) => Ok(automation_out(row)),
        Err(e) => Err(e),
    }
}

/// How many runs are shown.
pub const MAX_RUNS_SHOWN: usize = 100;

/// The runs of an automation, for its owner: the newest so many, the newest first.
pub fn list_runs(ctx: &AuthContext, owner: Option<Id>, rows: Vec<RunRow>) -> (r: Result<
    Vec<RunOut>,
    AppError,
>)
    ensures
        refusal(r) == owner_refusal(*ctx, owner),
        r matches Ok(v) ==> v@.len() == (if highest_first(rows@).len() < MAX_RUNS_SHOWN {
            highest_first(rows@).len()
        } else {
            MAX_RUNS_SHOWN as nat
        }) && forall|i: int| 0 <= i < v@.len() ==> run_shown(highest_first(rows@)[i], #[trigger] v@[i]),
{
    match require_owner(ctx, owner) {
        Ok(_) => {},
        Err(e) => {
            return Err(e);
        },
    }
    let rows = rank_list(rows);
    let n: usize = if rows.len() < MAX_RUNS_SHOWN {
        rows.len()
    } else {
        MAX_RUNS_SHOWN
    };
    let mut rest = rows;
    let mut out: Vec<RunOut> = Vec::new();
    let mut i: usize = 0;
    while i < n
        invariant
            n <= rows@.len(),
            i <= n,
            rest@ == rows@.skip(i as int),
            out@.len() == i,
            forall|k: int| 0 <= k < i ==> run_shown(rows@[k], #[trigger] out@[k]),
        decreases n - i,
    {
        let row = rest.remove(0);
        assert(row == rows@[i as int]);
        assert(rest@ =~= rows@.skip(i as int + 1));
        out.push(run_out(row));
        i = i + 1;
    }
    Ok(out)
}

/// The calendar shows every run of an automation that can be written, under the automation and
/// its name, in the order of the runs; and nothing else.
pub proof fn every_run_is_shown(id: Id, name: Seq<char>, at: Seq<Instant>)
    ensures
        runs_of(id, name, at) == at.filter(|t: Instant| rfc3339_text(t) is Some).map_values(
            |t: Instant| (id, name, rfc3339_text(t)->0),
        ),
    decreases at.len(),
{
    let p = |t: Instant| rfc3339_text(t) is Some;
    selects_last(at, p);
    if at.len() > 0 {
        every_run_is_shown(id, name, at.drop_last());
    }
    assert(runs_of(id, name, at) =~= at.filter(p).map_values(
        |t: Instant| (id, name, rfc3339_text(t)->0),
    ));
}

/// What is in the calendar for some automations and for others is there for both together: each
/// automation adds its own runs, whatever the others have.
pub proof fn calendars_add_up(a: Seq<Occurrences>, b: Seq<Occurrences>)
    ensures
        all_runs(a + b) == all_runs(a) + all_runs(b),
    decreases b.len(),
{
    if b.len() == 0 {
        assert(a + b =~= a);
        assert(all_runs(a) + all_runs(b) =~= all_runs(a));
    } else {
        calendars_add_up(a, b.drop_last());
        assert((a + b).drop_last() =~= a + b.drop_last());
        assert((a + b).last() == b.last());
        assert(all_runs(a + b) =~= all_runs(a) + all_runs(b));
    }
}

/// The calendar of one automation has an entry for each of its runs that can be written.
pub proof fn one_automation_has_its_runs(o: Occurrences)
    ensures
        all_runs(seq![o]) == o.at@.filter(|t: Instant| rfc3339_text(t) is Some).map_values(
            |t: Instant| (o.automation_id, o.name@, rfc3339_text(t)->0),
        ),
        (forall|k: int| 0 <= k < o.at@.len() ==> rfc3339_text(#[trigger] o.at@[k]) is Some)
            ==> all_runs(seq![o]).len() == o.at@.len(),
{
    let p = |t: Instant| rfc3339_text(t) is Some;
    every_run_is_shown(o.automation_id, o.name@, o.at@);
    selects_all_or_none(o.at@, p);
    assert(seq![o].drop_last() =~= Seq::<Occurrences>::empty());
    assert(all_runs(seq![o].drop_last()) =~= Seq::<Entry>::empty());
    assert(all_runs(seq![o]) =~= runs_of(o.automation_id, o.name@, o.at@));
}

/// Every run of every automation that can be written is in the calendar, and whatever is in the
/// calendar is such a run.
pub proof fn calendars_hold_every_run(found: Seq<Occurrences>, e: Entry)
    ensures
        all_runs(found).contains(e) <==> exists|i: int, k: int|
            #![trigger found[i].at@[k]]
            0 <= i < found.len() && 0 <= k < found[i].at@.len() && e.0 == found[i].automation_id
                && e.1 == found[i].name@ && rfc3339_text(found[i].at@[k]) == Some(e.2),
    decreases found.len(),
{
    let all = all_runs(found);
    if found.len() > 0 {
        let front = found.drop_last();
        let o = found.last();
        let p = |t: Instant| rfc3339_text(t) is Some;
        let mine = runs_of(o.automation_id, o.name@, o.at@);
        calendars_hold_every_run(front, e);
        every_run_is_shown(o.automation_id, o.name@, o.at@);
        selects_just(o.at@, p);
        if all.contains(e) {
            let n = all.index_of(e);
            if n < all_runs(front).len() {
                assert(all_runs(front)[n] == e);
                assert(all_runs(front).contains(e));
                let (i, k) = choose|i: int, k: int|
                    #![trigger front[i].at@[k]]
                    0 <= i < front.len() && 0 <= k < front[i].at@.len() && e.0
                        == front[i].automation_id && e.1 == front[i].name@ && rfc3339_text(
                        front[i].at@[k],
                    ) == Some(e.2);
                assert(found[i].at@[k] == front[i].at@[k]);
            } else {
                let t = o.at@.filter(p)[n - all_runs(front).len()];
                assert(mine[n - all_runs(front).len()] == e);
                assert(o.at@.filter(p).contains(t));
                let k = o.at@.index_of(t);
                assert(found[found.len() - 1].at@[k] == t);
            }
        }
        if exists|i: int, k: int|
            #![trigger found[i].at@[k]]
            0 <= i < found.len() && 0 <= k < found[i].at@.len() && e.0 == found[i].automation_id
                && e.1 == found[i].name@ && rfc3339_text(found[i].at@[k]) == Some(e.2) {
            let (i, k) = choose|i: int, k: int|
                #![trigger found[i].at@[k]]
                0 <= i < found.len() && 0 <= k < found[i].at@.len() && e.0 == found[i].automation_id
                    && e.1 == found[i].name@ && rfc3339_text(found[i].at@[k]) == Some(e.2);
            if i < front.len() {
                assert(front[i].at@[k] == found[i].at@[k]);
                assert(all_runs(front).contains(e));
                let n = all_runs(front).index_of(e);
                assert(all[n] == e);
            } else {
                let t = o.at@[k];
                assert(o.at@.contains(t));
                assert(o.at@.filter(p).contains(t));
                let n = o.at@.filter(p).index_of(t);
                assert(mine[n] == e);
                assert(all[all_runs(front).len() + n] == e);
            }
        }
    }
}

/// The calendar is as long as there are runs that can be written: as long as that of all but the
/// last automation, and one longer for each such run of the last.
pub proof fn calendars_are_as_long_as_their_runs(found: Seq<Occurrences>, o: Occurrences)
    ensures
        all_runs(Seq::<Occurrences>::empty()).len() == 0,
        all_runs(found.push(o)).len() == all_runs(found).len() + o.at@.filter(
            |t: Instant| rfc3339_text(t) is Some,
        ).len(),
        (forall|k: int| 0 <= k < o.at@.len() ==> rfc3339_text(#[trigger] o.at@[k]) is Some)
            ==> all_runs(found.push(o)).len() == all_runs(found).len() + o.at@.len(),
{
    one_automation_has_its_runs(o);
    calendars_add_up(found, seq![o]);
    assert(found.push(o) =~= found + seq![o]);
}

/// A calendar holds the runs that it is made of, each as often as it is there, and no run in it
/// stands behind one that is later.
pub proof fn calendars_are_in_order(s: Seq<Entry>, r: Seq<Entry>)
    requires
        is_calendar(s, r),
    ensures
        r.len() == s.len(),
        forall|e: Entry| r.contains(e) <==> s.contains(e),
        forall|i: int, j: int|
            0 <= i < j < r.len() ==> !sorts_before((#[trigger] r[j]).2, (#[trigger] r[i]).2),
{
    let order = choose|order: Seq<int>| is_timetable(s, r, order);
    assert forall|e: Entry| r.contains(e) implies s.contains(e) by {
        let i = r.index_of(e);
        assert(s[order[i]] == e);
    }
    assert forall|e: Entry| s.contains(e) implies r.contains(e) by {
        let k = s.index_of(e);
        arrangements_reach_all(order, s.len(), k);
        let i = choose|i: int| 0 <= i < order.len() && #[trigger] order[i] == k;
        assert(r[i] == e);
    }
}

proof fn arrangements_reach_all(order: Seq<int>, n: nat, k: int)
    requires
        is_arrangement(order, n),
        0 <= k < n,
    ensures
        exists|i: int| 0 <= i < order.len() && #[trigger] order[i] == k,
{
    let all = set_int_range(0, n as int);
    order.unique_seq_to_set();
    vstd::seq_lib::seq_to_set_is_finite(order);
    lemma_int_range(0, n as int);
    assert forall|x: int| order.to_set().contains(x) implies all.contains(x) by {
        let i = order.index_of(x);
        assert(order[i] == x);
    }
    lemma_subset_equality(order.to_set(), all);
    assert(all.contains(k));
    assert(order.to_set().contains(k));
    assert(order[order.index_of(k)] == k);
}

/// An account is shown all automations of its own, and no other.
pub proof fn automations_are_ones_own(me: Id, s: Seq<(Id, AutomationRow)>)
    ensures
        automations_of(s, me)
            == s.filter(|x: (Id, AutomationRow)| x.0 == me).map_values(|x: (Id, AutomationRow)| x.1),
    decreases s.len(),
{
    let p = |x: (Id, AutomationRow)| x.0 == me;
    selects_last(s, p);
    if s.len() > 0 {
        automations_are_ones_own(me, s.drop_last());
    }
    assert(automations_of(s, me) =~= s.filter(p).map_values(|x: (Id, AutomationRow)| x.1));
}

/// Runs are listed by when they started, the latest first.
pub proof fn newer_runs_come_first(rows: Seq<RunRow>, i: int, j: int)
    requires
        0 <= i < j < rows.len(),
    ensures
        highest_first(rows)[i].started_at >= highest_first(rows)[j].started_at,
{
    ordered_lists_descend(rows, i, j);
}

/// The libraries of an automation are taken where each may be read; else the first that may not
/// decides.
pub proof fn libraries_are_checked_in_turn(s: Seq<KbGrants>) -> (at: int)
    ensures
        first_unread(s) is None <==> forall|k: int|
            #![trigger s[k]]
            0 <= k < s.len() ==> s[k].read is None,
        first_unread(s) is Some ==> {
            &&& 0 <= at < s.len()
            &&& !(s[at].read is None)
            &&& first_unread(s) == refusal_in(s[at].read)
            &&& forall|k: int| #![trigger s[k]] 0 <= k < at ==> s[k].read is None
        },
    decreases s.len(),
{
    if s.len() == 0 {
        0
    } else {
        let rest = s.skip(1);
        let at = libraries_are_checked_in_turn(rest);
        assert forall|k: int| #![trigger s[k]] 1 <= k < s.len() implies s[k] == rest[k - 1] by {}
        if refusal_in(s[0].read) is Some {
            0
        } else {
            if first_unread(rest) is Some {
                assert(s[at + 1] == rest[at]);
            }
            at + 1
        }
    }
}

/// An automation is made by somebody with an account, within the rate and the number allowed, with a
/// prompt, a schedule that is sound and not too frequent, libraries that may be read, and a chat that
/// one is in.
pub proof fn who_makes_automations(ctx: AuthContext, body: CreateAutomation, f: CreationFacts)
    ensures
        creation_refusal(ctx, body, f) is None
            <==> ctx.user_id is Some
                && f.within_rate
                && f.schedule.refusal is None
                && trimmed(body.prompt@).len() > 0
                && f.owned < f.max_per_user
                && (
                    f.schedule.upcoming matches Ok(u)
                        && !(
                            u.first is Some
                                && u.second is Some
                                && (u.second->0 - u.first->0) / 1_000_000_000 < f.min_interval_secs
                        )
                )
                && f.targets.in_delivery_chat != Some(false)
                && (
                    forall|k: int|
                        #![trigger f.targets.kbs@[k]]
                        0 <= k < f.targets.kbs@.len() ==> f.targets.kbs@[k].read is None
                ),
{
    libraries_are_checked_in_turn(f.targets.kbs@);
}

/// An automation is changed by its owner and by administrators; what is set is held to what a new
/// one is.
pub proof fn who_changes_automations(
    ctx: AuthContext,
    owner: Option<Id>,
    body: UpdateAutomation,
    f: UpdateFacts,
)
    ensures
        owner_refusal(ctx, owner) is None <==> owner is Some && (ctx.user_id == owner || ctx.admin),
        update_refusal(ctx, owner, body, f) is None
            <==> owner is Some
                && (ctx.user_id == owner || ctx.admin)
                && (body.status matches Some(s) ==> s@ == "active"@ || s@ == "paused"@)
                && (
                    (
                        (body.kb_ids matches Some(ids) && ids@.len() > 0)
                            || body.deliver_group_chat_id matches Some(Some(_))
                    )
                        ==> f.targets.in_delivery_chat != Some(false)
                            && (
                                forall|k: int|
                                    #![trigger f.targets.kbs@[k]]
                                    0 <= k < f.targets.kbs@.len() ==> f.targets.kbs@[k].read is None
                            )
                )
                && (
                    body.schedule is Some
                        ==> f.schedule.refusal is None
                            && (
                                f.schedule.upcoming matches Ok(u)
                                    && !(
                                        u.first is Some
                                            && u.second is Some
                                            && (
                                                u.second->0 - u.first->0
                                            ) / 1_000_000_000 < f.min_interval_secs
                                    )
                            )
                ),
{
    libraries_are_checked_in_turn(f.targets.kbs@);
}

/// An automation is shown as it is stored.
pub proof fn automations_are_shown_whole(row: AutomationRow, r: AutomationOut)
    ensures
        automation_shown(row, r) ==> {
            &&& r.id == row.id
            &&& r.name == row.name
            &&& r.schedule == row.schedule
            &&& r.prompt == row.prompt
            &&& r.agent_id == row.agent_id
            &&& r.status == row.status
            &&& opt_text(r.next_run_at) == shown_at(row.next_run_at)
            &&& opt_text(r.last_run_at) == shown_at(row.last_run_at)
            &&& r.project_id == row.project_id
            &&& r.kb_ids == row.kb_ids
            &&& r.deliver_group_chat_id == row.deliver_group_chat_id
        },
{
}

/// A run is shown as it is stored.
pub proof fn runs_are_shown_whole(row: RunRow, r: RunOut)
    ensures
        run_shown(row, r) ==> {
            &&& r.id == row.id
            &&& r.status == row.status
            &&& r.output_chat_id == row.output_chat_id
            &&& r.error == row.error
            &&& opt_text(r.started_at) == rfc3339_text(row.started_at)
            &&& opt_text(r.completed_at) == shown_at(row.completed_at)
        },
{
}

/// A number that is set is the one written there; where none is, or none can be read, there is a
/// default. So it is with times.
pub proof fn numbers_that_are_set_count(
    value: Option<Seq<char>>,
    default: int,
    u: Upcoming,
    min_secs: int,
    t: Option<Instant>,
)
    ensures
        number_set(value, default)
            == (
                if value is Some
                    && integer_within(value->0, true, i64::MIN as int, i64::MAX as int) is Some {
                        integer_within(value->0, true, i64::MIN as int, i64::MAX as int)->0
                    } else { default }
            ),
        instant_or(value, default)
            == (
                if value is Some
                    && rfc3339_instant(value->0) is Some {
                        rfc3339_instant(value->0)->0 as int
                    } else { default }
            ),
        too_frequent(u, min_secs)
            <==> u.first is Some
                && u.second is Some
                && u.second->0 - u.first->0 < min_secs * 1_000_000_000,
        t matches Some(at) ==> shown_at(t) == rfc3339_text(at),
        t is None ==> shown_at(t) is None,
        DEFAULT_MAX_PER_USER == 50,
        DEFAULT_MIN_INTERVAL_SECS == 300,
        MAX_RUNS_SHOWN == 100,
        MAX_OCCURRENCES == 100,
        WEEK == 7 * 24 * 60 * 60 * 1_000_000_000,
{
}

/// A change sets what it names and leaves the rest; with the schedule it sets when the automation runs
/// next.
pub proof fn changes_set_what_they_name(row: AutomationRow, body: UpdateAutomation, f: UpdateFacts)
    ensures
        updated(row, body, f).id == row.id,
        updated(row, body, f).agent_id == row.agent_id,
        updated(row, body, f).last_run_at == row.last_run_at,
        body.name is None ==> updated(row, body, f).name == row.name,
        body.name matches Some(v) ==> updated(row, body, f).name == v,
        body.schedule is None ==> updated(row, body, f).schedule == row.schedule,
        body.schedule matches Some(v) ==> updated(row, body, f).schedule == v,
        body.prompt is None ==> updated(row, body, f).prompt == row.prompt,
        body.prompt matches Some(v) ==> updated(row, body, f).prompt == v,
        body.status is None ==> updated(row, body, f).status == row.status,
        body.status matches Some(v) ==> updated(row, body, f).status == v,
        body.project_id is None ==> updated(row, body, f).project_id == row.project_id,
        body.project_id matches Some(v) ==> updated(row, body, f).project_id == v,
        body.kb_ids is None ==> updated(row, body, f).kb_ids == row.kb_ids,
        body.kb_ids matches Some(v) ==> updated(row, body, f).kb_ids == v,
        body.deliver_group_chat_id is None
            ==> updated(row, body, f).deliver_group_chat_id == row.deliver_group_chat_id,
        body.deliver_group_chat_id matches Some(v)
            ==> updated(row, body, f).deliver_group_chat_id == v,
        body.schedule is None ==> updated(row, body, f).next_run_at == row.next_run_at,
        body.schedule is Some
            ==> updated(row, body, f).next_run_at == f.schedule.upcoming->Ok_0.first,
{
}

/// An entry of the calendar is seen with its automation, its name and its time.
pub proof fn calendar_entries_are_seen_whole(e: CalendarEntry, v: Seq<CalendarEntry>)
    ensures
        e@ == (e.automation_id, e.name@, e.at@),
        entries(v).len() == v.len(),
        forall|i: int|
            0 <= i < v.len()
                ==> #[trigger] entries(v)[i] == (v[i].automation_id, v[i].name@, v[i].at@),
{
}

/// Of several things that are wrong, `targets_refusal` tells the first.
pub proof fn targets_refusal_tells_the_first_thing(t: Targets)
    ensures
        t.in_delivery_chat == Some(false)
            ==> targets_refusal(t)
                == Some(Refusal::Validation("you are not a member of the selected delivery chat"@)),
        !(t.in_delivery_chat == Some(false)) ==> targets_refusal(t) == first_unread(t.kbs@),
{
}

/// Of several things that are wrong, `creation_refusal` tells the first.
pub proof fn creation_refusal_tells_the_first_thing(
    ctx: AuthContext,
    body: CreateAutomation,
    f: CreationFacts,
)
    ensures
        ctx.user_id is None
            ==> creation_refusal(ctx, body, f) == Some(Refusal::Forbidden("a user is required"@)),
        !(ctx.user_id is None) && !f.within_rate
            ==> creation_refusal(ctx, body, f)
                == Some(Refusal::TooManyRequests("automation rate limit; try again shortly"@)),
        !(ctx.user_id is None) && f.within_rate && f.schedule.refusal is Some
            ==> creation_refusal(ctx, body, f) == refusal_in(f.schedule.refusal),
        !(ctx.user_id is None)
            && f.within_rate
            && !(f.schedule.refusal is Some)
            && trimmed(body.prompt@).len() == 0
            ==> creation_refusal(ctx, body, f)
                == Some(Refusal::Validation("prompt must not be empty"@)),
        !(ctx.user_id is None)
            && f.within_rate
            && !(f.schedule.refusal is Some)
            && !(trimmed(body.prompt@).len() == 0)
            && f.owned >= f.max_per_user
            ==> creation_refusal(ctx, body, f)
                == Some(
                    Refusal::Validation(
                        "automation limit reached ("@ + signed_decimal(f.max_per_user as int) + ")"@
                    )
                ),
        !(ctx.user_id is None)
            && f.within_rate
            && !(f.schedule.refusal is Some)
            && !(trimmed(body.prompt@).len() == 0)
            && !(f.owned >= f.max_per_user)
            && interval_refusal(f.schedule.upcoming, f.min_interval_secs as int) is Some
            ==> creation_refusal(ctx, body, f)
                == interval_refusal(f.schedule.upcoming, f.min_interval_secs as int),
        !(ctx.user_id is None)
            && f.within_rate
            && !(f.schedule.refusal is Some)
            && !(trimmed(body.prompt@).len() == 0)
            && !(f.owned >= f.max_per_user)
            && !(interval_refusal(f.schedule.upcoming, f.min_interval_secs as int) is Some)
            ==> creation_refusal(ctx, body, f) == targets_refusal(f.targets),
{
}

/// Of several things that are wrong, `update_refusal` tells the first.
pub proof fn update_refusal_tells_the_first_thing(
    ctx: AuthContext,
    owner: Option<Id>,
    body: UpdateAutomation,
    f: UpdateFacts,
)
    ensures
        owner_refusal(ctx, owner) is Some
            ==> update_refusal(ctx, owner, body, f) == owner_refusal(ctx, owner),
        !(owner_refusal(ctx, owner) is Some) && (body.status matches Some(s) && !is_status(s@))
            ==> update_refusal(ctx, owner, body, f)
                == Some(Refusal::Validation("status must be active|paused"@)),
        !(owner_refusal(ctx, owner) is Some)
            && !(body.status matches Some(s) && !is_status(s@))
            && (sets_targets(body) && targets_refusal(f.targets) is Some)
            ==> update_refusal(ctx, owner, body, f) == targets_refusal(f.targets),
        !(owner_refusal(ctx, owner) is Some)
            && !(body.status matches Some(s) && !is_status(s@))
            && !(sets_targets(body) && targets_refusal(f.targets) is Some)
            && (body.schedule is Some && f.schedule.refusal is Some)
            ==> update_refusal(ctx, owner, body, f) == refusal_in(f.schedule.refusal),
        !(owner_refusal(ctx, owner) is Some)
            && !(body.status matches Some(s) && !is_status(s@))
            && !(sets_targets(body) && targets_refusal(f.targets) is Some)
            && !(body.schedule is Some && f.schedule.refusal is Some)
            && body.schedule is Some
            ==> update_refusal(ctx, owner, body, f)
                == interval_refusal(f.schedule.upcoming, f.min_interval_secs as int),
        !(owner_refusal(ctx, owner) is Some)
            && !(body.status matches Some(s) && !is_status(s@))
            && !(sets_targets(body) && targets_refusal(f.targets) is Some)
            && !(body.schedule is Some && f.schedule.refusal is Some)
            && !(body.schedule is Some)
            ==> update_refusal(ctx, owner, body, f) is None,
{
}

/// An automation that is not there is not found, and that of somebody else is forbidden.
pub proof fn automations_of_others_are_refused(ctx: AuthContext, owner: Option<Id>)
    ensures
        owner_refusal(ctx, None) == Some(Refusal::Validation("automation not found"@)),
        owner is Some && ctx.user_id != owner && !ctx.admin
            ==> owner_refusal(ctx, owner) == Some(Refusal::Forbidden("not your automation"@)),
{
}

} // verus!
