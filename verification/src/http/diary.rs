//! A practice's diary: when it is open, when it is shut, and who is coming in.
//!
//! The account may read and change its own, and so may an administrator of the
//! platform; to anybody else there is no such diary.

use vstd::prelude::*;
use vstd::string::*;

use crate::lists::selects_last;
use crate::clock::{
    calendar_has, date_text, is_date, is_near, padded, padded_reads_back, parse_instant,
    rfc3339_instant, show, shown, CalendarDate, Instant,
};
use crate::error::{conflict, not_found, refusal, validation, AppError, Refusal};
use crate::http::first;
use crate::ids::id_text;
use crate::json::{
    count_value,
    empty_object,
    flag_value,
    id_value,
    member_at,
    number_value,
    put,
    text_value,
    Json,
};
use crate::order::{
    highest_first,
    ordered_lists_descend,
    ordered_lists_hold_the_same,
    rank_list,
    Ranked,
};
use crate::principal::{AuthContext, Id};
use crate::text::{
    already_trimmed,
    cut,
    cut_at,
    cuts_where_marked,
    debug_text,
    filled,
    first_of_at,
    integer_value,
    integer_within,
    is_ascii_digit,
    joined,
    opt_text,
    quoted,
    read_integer,
    same,
    trim,
    trim_filled,
    trimmed,
};
use crate::trail::{entry_by, note, record_by, AuditEvent};

verus! {

/// Whether the caller reads and changes an account's diary.
pub open spec fn keeps(ctx: AuthContext, owner: Id) -> bool {
    ctx.admin || ctx.is(owner)
}

/// The account itself and an administrator of the platform. To others it is absent
/// rather than forbidden: whose account keeps a diary is not their business either.
pub fn require(ctx: &AuthContext, owner: Id) -> (r: Result<(), AppError>)
    ensures
        refusal(r) == (if keeps(*ctx, owner) {
            None
        } else {
            Some(Refusal::NotFound("no such diary"@))
        }),
{
    if ctx.is_admin() || ctx.is_user(owner) {
        Ok(())
    } else {
        Err(not_found("no such diary"))
    }
}

pub struct Whose {
    pub owner_user_id: Option<Id>,
}

/// The account whose diary is meant: the one asked for, or the caller's own.
pub open spec fn meant(ctx: AuthContext, asked: Option<Id>) -> Option<Id> {
    if asked is Some {
        asked
    } else {
        ctx.user_id
    }
}

/// Whether the caller gets to the diary that is meant.
pub open spec fn reaches(ctx: AuthContext, asked: Option<Id>) -> bool {
    meant(ctx, asked) matches Some(owner) && keeps(ctx, owner)
}

pub fn whose(ctx: &AuthContext, asked: Option<Id>) -> (r: Result<Id, AppError>)
    ensures
        match r {
            Ok(owner) => reaches(*ctx, asked) && meant(*ctx, asked) == Some(owner),
            Err(e) => !reaches(*ctx, asked) && e@ == Refusal::NotFound("no such diary"@),
        },
{
    let owner = match asked {
        Some(id) => id,
        None => match ctx.user_id {
            Some(id) => id,
            None => {
                return Err(not_found("no such diary"));
            },
        },
    };
    match require(ctx, owner) {
        Ok(_) => Ok(owner),
        Err(e) => Err(e),
    }
}

/// Without asking for anybody's in particular, a caller with an account gets to
/// their own diary.
pub proof fn own_diary_is_reached(ctx: AuthContext)
    requires
        ctx.user_id is Some,
    ensures
        reaches(ctx, None),
        meant(ctx, None) == ctx.user_id,
{
}

/// A period of opening on one day of the week; 0 is Monday.
#[derive(Clone, Copy, Debug, PartialEq, Eq, Structural)]
pub struct Opening {
    pub weekday: i16,
    pub opens_minute: i32,
    pub closes_minute: i32,
}

impl Ranked for Opening {
    /// The earlier in the week, the earlier a period is shown.
    open spec fn rank(self) -> (int, int) {
        (-(self.weekday as int), -(self.opens_minute as int))
    }

    fn outranks(&self, other: &Opening) -> (r: bool) {
        self.weekday < other.weekday || (self.weekday == other.weekday && self.opens_minute
            < other.opens_minute)
    }
}

pub struct ClosureOut {
    /// A local calendar date, as YYYY-MM-DD.
    pub closed_on: String,
    pub note: Option<String>,
}

pub struct DiaryOut {
    pub owner_user_id: Id,
    pub timezone: String,
    pub slot_minutes: i32,
    pub lead_minutes: i32,
    pub horizon_days: i32,
    pub enabled: bool,
    pub hours: Vec<Opening>,
    pub closures: Vec<ClosureOut>,
}

/// A stored closure.
pub struct ClosureRow {
    pub closed_on: CalendarDate,
    pub note: Option<String>,
}

impl Ranked for ClosureRow {
    /// The earlier its day, the earlier a closure is shown.
    open spec fn rank(self) -> (int, int) {
        (-(self.closed_on.year as int), -(self.closed_on.month * 256 + self.closed_on.day))
    }

    fn outranks(&self, other: &ClosureRow) -> (r: bool) {
        let (a, b) = (self.closed_on, other.closed_on);
        if a.year != b.year {
            a.year < b.year
        } else {
            a.month < b.month || (a.month == b.month && a.day < b.day)
        }
    }
}

/// The closures as they are shown.
pub fn closures_out(rows: Vec<ClosureRow>) -> (r: Vec<ClosureOut>)
    requires
        forall|i: int|
            0 <= i < rows@.len() ==> is_date(
                (#[trigger] rows@[i]).closed_on.year as int,
                rows@[i].closed_on.month as int,
                rows@[i].closed_on.day as int,
            ),
    ensures
        r@.len() == rows@.len(),
        forall|i: int|
            0 <= i < r@.len() ==> (#[trigger] r@[i]).closed_on@ == date_text(
                rows@[i].closed_on.year as int,
                rows@[i].closed_on.month as int,
                rows@[i].closed_on.day as int,
            ) && opt_text(r@[i].note) == opt_text(rows@[i].note),
{
    let mut out: Vec<ClosureOut> = Vec::new();
    let mut i: usize = 0;
    while i < rows.len()
        invariant
            i <= rows@.len(),
            out@.len() == i,
            forall|k: int|
                0 <= k < rows@.len() ==> is_date(
                    (#[trigger] rows@[k]).closed_on.year as int,
                    rows@[k].closed_on.month as int,
                    rows@[k].closed_on.day as int,
                ),
            forall|k: int|
                0 <= k < i ==> (#[trigger] out@[k]).closed_on@ == date_text(
                    rows@[k].closed_on.year as int,
                    rows@[k].closed_on.month as int,
                    rows@[k].closed_on.day as int,
                ) && opt_text(out@[k].note) == opt_text(rows@[k].note),
        decreases rows@.len() - i,
    {
        out.push(
            ClosureOut {
                closed_on: crate::clock::show_date(rows[i].closed_on),
                note: crate::http::clone_text(&rows[i].note),
            },
        );
        i = i + 1;
    }
    out
}

/// What is stored of a diary, besides its hours and closures.
pub struct DiaryRow {
    pub timezone: String,
    pub slot_minutes: i32,
    pub lead_minutes: i32,
    pub horizon_days: i32,
    pub enabled: bool,
}

/// A diary as it is shown: as it is stored, with its closures written as dates.
pub open spec fn diary_shown(
    d: DiaryOut,
    owner: Id,
    row: DiaryRow,
    hours: Seq<Opening>,
    closures: Seq<ClosureRow>,
) -> bool {
    &&& d.owner_user_id == owner
    &&& d.timezone == row.timezone
    &&& d.slot_minutes == row.slot_minutes
    &&& d.lead_minutes == row.lead_minutes
    &&& d.horizon_days == row.horizon_days
    &&& d.enabled == row.enabled
    &&& d.hours@ == hours
    &&& d.closures@.len() == closures.len()
    &&& forall|i: int|
        0 <= i < closures.len() ==> (#[trigger] d.closures@[i]).closed_on@ == date_text(
            closures[i].closed_on.year as int,
            closures[i].closed_on.month as int,
            closures[i].closed_on.day as int,
        ) && opt_text(d.closures@[i].note) == opt_text(closures[i].note)
}

/// Reads a diary, for whoever reaches it: nothing where none was set yet. Its hours come in the
/// order of the week, and its closures in that of the calendar.
pub fn get(
    ctx: &AuthContext,
    q: &Whose,
    row: Option<DiaryRow>,
    hours: Vec<Opening>,
    closures: Vec<ClosureRow>,
) -> (r: Result<Option<DiaryOut>, AppError>)
    requires
        forall|i: int|
            0 <= i < closures@.len() ==> is_date(
                (#[trigger] closures@[i]).closed_on.year as int,
                closures@[i].closed_on.month as int,
                closures@[i].closed_on.day as int,
            ),
    ensures
        match r {
            Ok(d) => reaches(*ctx, q.owner_user_id) && match row {
                None => d is None,
                Some(x) => d matches Some(o) && diary_shown(
                    o,
                    meant(*ctx, q.owner_user_id)->0,
                    x,
                    highest_first(hours@),
                    highest_first(closures@),
                ),
            },
            Err(e) => !reaches(*ctx, q.owner_user_id) && e@ == Refusal::NotFound("no such diary"@),
        },
{
    let owner = match whose(ctx, q.owner_user_id) {
        Ok(id) => id,
        Err(e) => {
            return Err(e);
        },
    };
    let hours = rank_list(hours);
    let days = rank_list(closures);
    proof {
        assert forall|i: int| 0 <= i < days@.len() implies is_date(
            (#[trigger] days@[i]).closed_on.year as int,
            days@[i].closed_on.month as int,
            days@[i].closed_on.day as int,
        ) by {
            assert(days@.contains(days@[i]));
            ordered_lists_hold_the_same(closures@, days@[i]);
            let k = closures@.index_of(days@[i]);
            assert(closures@[k] == days@[i]);
        }
    }
    match row {
        None => Ok(None),
        Some(x) => Ok(
            Some(
                DiaryOut {
                    owner_user_id: owner,
                    timezone: x.timezone,
                    slot_minutes: x.slot_minutes,
                    lead_minutes: x.lead_minutes,
                    horizon_days: x.horizon_days,
                    enabled: x.enabled,
                    hours,
                    closures: closures_out(days),
                },
            ),
        ),
    }
}

pub struct SetDiary {
    pub owner_user_id: Option<Id>,
    pub timezone: String,
    pub slot_minutes: i32,
    pub lead_minutes: i32,
    pub horizon_days: i32,
    pub enabled: bool,
    pub hours: Vec<Opening>,
}

pub open spec fn is_weekday(o: Opening) -> bool {
    0 <= o.weekday <= 6
}

/// A period starts before it ends, within one day.
pub open spec fn is_period(o: Opening) -> bool {
    0 <= o.opens_minute < o.closes_minute <= 1440
}

/// Two periods that have a minute in common.
pub open spec fn overlap(a: Opening, b: Opening) -> bool {
    a.weekday == b.weekday && a.opens_minute < b.closes_minute && b.opens_minute < a.closes_minute
}

/// What is wrong with the first period that is wrong.
pub open spec fn period_refusal(hours: Seq<Opening>) -> Option<Refusal>
    decreases hours.len(),
{
    if hours.len() == 0 {
        None
    } else {
        match period_refusal(hours.drop_last()) {
            Some(e) => Some(e),
            None => if !is_weekday(hours.last()) {
                Some(Refusal::Validation("a weekday runs from 0 (Monday) to 6"@))
            } else if !is_period(hours.last()) {
                Some(
                    Refusal::Validation(
                        "an opening period must start before it ends, within one day"@,
                    ),
                )
            } else {
                None
            },
        }
    }
}

pub open spec fn any_overlap(hours: Seq<Opening>) -> bool {
    exists|i: int, j: int| 0 <= i < j < hours.len() && overlap(#[trigger] hours[i], #[trigger] hours[j])
}

/// Why opening hours are refused.
pub open spec fn hours_refusal(hours: Seq<Opening>) -> Option<Refusal> {
    match period_refusal(hours) {
        Some(e) => Some(e),
        None => if any_overlap(hours) {
            Some(Refusal::Validation("two opening periods on one day overlap"@))
        } else {
            None
        },
    }
}

proof fn period_refusal_prefix(hours: Seq<Opening>, i: int)
    requires
        0 <= i <= hours.len(),
        period_refusal(hours.take(i)) is Some,
    ensures
        period_refusal(hours) == period_refusal(hours.take(i)),
    decreases hours.len() - i,
{
    if i < hours.len() {
        assert(hours.take(i + 1).drop_last() == hours.take(i));
        period_refusal_prefix(hours, i + 1);
    } else {
        assert(hours.take(i) == hours);
    }
}

fn check_periods(hours: &Vec<Opening>) -> (r: Result<(), AppError>)
    ensures
        refusal(r) == period_refusal(hours@),
{
    let mut i: usize = 0;
    assert(hours@.take(0) == Seq::<Opening>::empty());
    while i < hours.len()
        invariant
            i <= hours@.len(),
            period_refusal(hours@.take(i as int)) is None,
        decreases hours@.len() - i,
    {
        let h = hours[i];
        proof {
            assert(hours@.take(i as int + 1).drop_last() == hours@.take(i as int));
            if !is_weekday(h) || !is_period(h) {
                period_refusal_prefix(hours@, i as int + 1);
            }
        }
        if h.weekday < 0 || h.weekday > 6 {
            return Err(validation("a weekday runs from 0 (Monday) to 6"));
        }
        if h.opens_minute < 0 || h.closes_minute > 1440 || h.closes_minute <= h.opens_minute {
            return Err(validation("an opening period must start before it ends, within one day"));
        }
        i = i + 1;
    }
    assert(hours@.take(hours@.len() as int) == hours@);
    Ok(())
}

fn find_overlap(hours: &Vec<Opening>) -> (r: bool)
    ensures
        r == any_overlap(hours@),
{
    let n: usize = hours.len();
    let mut i: usize = 0;
    while i < n
        invariant
            n == hours@.len(),
            i <= n,
            forall|a: int, b: int| 0 <= a < i && a < b < n ==> !overlap(hours@[a], hours@[b]),
        decreases n - i,
    {
        let a = hours[i];
        let mut j: usize = i + 1;
        while j < n
            invariant
                n == hours@.len(),
                i < n,
                a == hours@[i as int],
                i < j <= n,
                forall|b: int| i < b < j ==> !overlap(a, hours@[b]),
            decreases n - j,
        {
            let b = hours[j];
            if a.weekday == b.weekday && a.opens_minute < b.closes_minute && b.opens_minute
                < a.closes_minute {
                assert(overlap(hours@[i as int], hours@[j as int]));
                return true;
            }
            j = j + 1;
        }
        i = i + 1;
    }
    false
}

/// Why a diary is not set.
pub open spec fn set_refusal(ctx: AuthContext, body: SetDiary, zone_known: bool) -> Option<Refusal> {
    if !reaches(ctx, body.owner_user_id) {
        Some(Refusal::NotFound("no such diary"@))
    } else if !zone_known {
        Some(
            Refusal::Validation(
                debug_text(body.timezone@)
                    + " is not a time zone this system knows. Use a name like Europe/London."@,
            ),
        )
    } else {
        hours_refusal(body.hours@)
    }
}

/// A diary as it is stored: nothing of it before it was set.
pub struct StoredDiary {
    pub row: Option<DiaryRow>,
    pub hours: Vec<Opening>,
    pub closures: Vec<ClosureRow>,
}

/// A stored diary is as it was set.
pub open spec fn is_as_set(row: DiaryRow, body: SetDiary) -> bool {
    &&& row.timezone@ == body.timezone@
    &&& row.slot_minutes == body.slot_minutes
    &&& row.lead_minutes == body.lead_minutes
    &&& row.horizon_days == body.horizon_days
    &&& row.enabled == body.enabled
}

/// Sets the whole diary, hours included: they are replaced, not merged, and the closures stay.
/// `zone_known` is whether the zone database has the zone; there is no fallback. A diary that is
/// refused is left as it was.
pub fn set(ctx: &AuthContext, body: &SetDiary, zone_known: bool, stored: &mut StoredDiary) -> (r: Result<
    Id,
    AppError,
>)
    ensures
        refusal(r) == set_refusal(*ctx, *body, zone_known),
        match r {
            Ok(owner) => {
                &&& meant(*ctx, body.owner_user_id) == Some(owner)
                &&& final(stored).row matches Some(row) && is_as_set(row, *body)
                &&& final(stored).hours@ == body.hours@
                &&& final(stored).closures == old(stored).closures
            },
            Err(_) => *final(stored) == *old(stored),
        },
{
    let owner = match whose(ctx, body.owner_user_id) {
        Ok(o) => o,
        Err(e) => {
            return Err(e);
        },
    };
    if !zone_known {
        let q = quoted(body.timezone.as_str());
        return Err(
            AppError::Validation(
                joined(
                    q.as_str(),
                    " is not a time zone this system knows. Use a name like Europe/London.",
                ),
            ),
        );
    }
    match check_periods(&body.hours) {
        Ok(_) => {},
        Err(e) => {
            return Err(e);
        },
    }
    if find_overlap(&body.hours) {
        return Err(validation("two opening periods on one day overlap"));
    }
    let mut hours: Vec<Opening> = Vec::new();
    let mut i: usize = 0;
    while i < body.hours.len()
        invariant
            i <= body.hours@.len(),
            hours@ == body.hours@.take(i as int),
        decreases body.hours@.len() - i,
    {
        assert(body.hours@.take(i as int + 1) =~= body.hours@.take(i as int).push(body.hours@[i as int]));
        hours.push(body.hours[i]);
        i = i + 1;
    }
    assert(body.hours@.take(body.hours@.len() as int) =~= body.hours@);
    stored.row = Some(
        DiaryRow {
            timezone: body.timezone.clone(),
            slot_minutes: body.slot_minutes,
            lead_minutes: body.lead_minutes,
            horizon_days: body.horizon_days,
            enabled: body.enabled,
        },
    );
    stored.hours = hours;
    Ok(owner)
}

/// What was set is what is shown.
pub proof fn what_was_set_is_shown(
    body: SetDiary,
    d: DiaryOut,
    owner: Id,
    row: DiaryRow,
    closures: Seq<ClosureRow>,
)
    requires
        is_as_set(row, body),
        diary_shown(d, owner, row, body.hours@, closures),
    ensures
        d.owner_user_id == owner,
        d.timezone@ == body.timezone@,
        d.slot_minutes == body.slot_minutes,
        d.lead_minutes == body.lead_minutes,
        d.horizon_days == body.horizon_days,
        d.enabled == body.enabled,
        d.hours@ == body.hours@,
        d.closures@.len() == closures.len(),
{
}

/// A practice is open at a minute of a day in this period.
pub open spec fn covers(o: Opening, weekday: int, minute: int) -> bool {
    o.weekday == weekday && o.opens_minute <= minute < o.closes_minute
}

/// Hours that are accepted lie within the days of a week, and no minute is in two of
/// the periods: no time is offered twice.
pub proof fn accepted_hours_do_not_repeat(hours: Seq<Opening>, weekday: int, minute: int, i: int, j: int)
    requires
        hours_refusal(hours) is None,
        0 <= i < hours.len(),
        0 <= j < hours.len(),
        covers(hours[i], weekday, minute),
        covers(hours[j], weekday, minute),
    ensures
        i == j,
        0 <= weekday <= 6,
        0 <= minute < 1440,
{
    accepted_periods(hours, i);
    accepted_periods(hours, j);
    if i < j {
        assert(overlap(hours[i], hours[j]));
    } else if j < i {
        assert(overlap(hours[j], hours[i]));
    }
}

/// Every period of accepted hours is on a weekday and within one day.
pub proof fn accepted_periods(hours: Seq<Opening>, i: int)
    requires
        period_refusal(hours) is None,
        0 <= i < hours.len(),
    ensures
        is_weekday(hours[i]),
        is_period(hours[i]),
    decreases hours.len(),
{
    if i < hours.len() - 1 {
        assert(hours.drop_last()[i] == hours[i]);
        accepted_periods(hours.drop_last(), i);
    }
}

pub struct NewClosure {
    pub owner_user_id: Option<Id>,
    /// A local calendar date, as YYYY-MM-DD.
    pub closed_on: String,
    pub note: Option<String>,
}

/// The date that a text stands for: a year, a month and a day, in numbers with
/// hyphens between them.
pub open spec fn date_in(raw: Seq<char>) -> Option<CalendarDate> {
    match cut_at(trimmed(raw), '-') {
        Some((y, rest)) => match cut_at(rest, '-') {
            Some((m, d)) => match (
                integer_within(y, true, i32::MIN as int, i32::MAX as int),
                integer_within(m, false, 0, 255),
                integer_within(d, false, 0, 255),
            ) {
                (Some(year), Some(month), Some(day)) => if is_date(year, month, day) {
                    Some(CalendarDate { year: year as i32, month: month as u8, day: day as u8 })
                } else {
                    None
                },
                _ => None,
            },
            None => None,
        },
        None => None,
    }
}

/// Reads a calendar date.
pub fn parse_date(raw: &str) -> (r: Result<CalendarDate, AppError>)
    ensures
        match r {
            Ok(d) => date_in(raw@) == Some(d),
            Err(e) => date_in(raw@) is None && e@ == Refusal::Validation(
                "a date is written as YYYY-MM-DD"@,
            ),
        },
{
    match read_date(raw) {
        Some(d) => Ok(d),
        None => Err(validation("a date is written as YYYY-MM-DD")),
    }
}

fn read_date(raw: &str) -> (r: Option<CalendarDate>)
    ensures
        r == date_in(raw@),
{
    let t = trim(raw);
    let (y, rest) = match cut(t.as_str(), '-') {
        Some(p) => p,
        None => {
            return None;
        },
    };
    let (m, d) = match cut(rest.as_str(), '-') {
        Some(p) => p,
        None => {
            return None;
        },
    };
    let year: i64 = match read_integer(y.as_str(), true, i32::MIN as i64, i32::MAX as i64) {
        Some(n) => n,
        None => {
            return None;
        },
    };
    let month: i64 = match read_integer(m.as_str(), false, 0, 255) {
        Some(n) => n,
        None => {
            return None;
        },
    };
    let day: i64 = match read_integer(d.as_str(), false, 0, 255) {
        Some(n) => n,
        None => {
            return None;
        },
    };
    if calendar_has(year as i32, month as u8, day as u8) {
        Some(CalendarDate { year: year as i32, month: month as u8, day: day as u8 })
    } else {
        None
    }
}

/// A date is read back from how it is shown.
pub proof fn shown_dates_read_back(d: CalendarDate)
    requires
        is_date(d.year as int, d.month as int, d.day as int),
        0 <= d.year,
    ensures
        date_in(date_text(d.year as int, d.month as int, d.day as int)) == Some(d),
{
    let y = padded(d.year as nat, 4);
    let m = padded(d.month as nat, 2);
    let day = padded(d.day as nat, 2);
    padded_reads_back(d.year as nat, 4);
    padded_reads_back(d.month as nat, 2);
    padded_reads_back(d.day as nat, 2);
    let s = date_text(d.year as int, d.month as int, d.day as int);
    assert(s == y + seq!['-'] + m + seq!['-'] + day);
    assert(s.len() == 10);
    assert(is_ascii_digit(y[0]));
    assert(s.first() == y[0]);
    assert(is_ascii_digit(day[1]));
    assert(s.last() == day[1]);
    already_trimmed(s);
    assert forall|j: int| 0 <= j < 4 implies s[j] != '-' by {
        assert(is_ascii_digit(y[j]));
        assert(s[j] == y[j]);
    }
    first_of_at(s, '-', 4);
    let rest = s.skip(5);
    assert(s.take(4) =~= y);
    assert(rest =~= m + seq!['-'] + day);
    assert forall|j: int| 0 <= j < 2 implies rest[j] != '-' by {
        assert(is_ascii_digit(m[j]));
        assert(rest[j] == m[j]);
    }
    first_of_at(rest, '-', 2);
    assert(rest.take(2) =~= m);
    assert(rest.skip(3) =~= day);
}

/// A closure to be stored.
pub struct Closure {
    pub owner: Id,
    pub on: CalendarDate,
    pub note: Option<String>,
}

/// A day the practice is shut. A note that is blank is none.
pub fn add_closure(ctx: &AuthContext, body: &NewClosure) -> (r: Result<Closure, AppError>)
    ensures
        refusal(r) == (if !reaches(*ctx, body.owner_user_id) {
            Some(Refusal::NotFound("no such diary"@))
        } else if date_in(body.closed_on@) is None {
            Some(Refusal::Validation("a date is written as YYYY-MM-DD"@))
        } else {
            None
        }),
        r matches Ok(c) ==> {
            &&& meant(*ctx, body.owner_user_id) == Some(c.owner)
            &&& date_in(body.closed_on@) == Some(c.on)
            &&& opt_text(c.note) == filled(opt_text(body.note))
        },
{
    let owner = match whose(ctx, body.owner_user_id) {
        Ok(o) => o,
        Err(e) => {
            return Err(e);
        },
    };
    let on = match parse_date(body.closed_on.as_str()) {
        Ok(d) => d,
        Err(e) => {
            return Err(e);
        },
    };
    Ok(Closure { owner, on, note: trim_filled(crate::text::as_text(&body.note)) })
}

/// The day that is open again after all.
pub fn remove_closure(ctx: &AuthContext, date: &str, asked: Option<Id>) -> (r: Result<
    (Id, CalendarDate),
    AppError,
>)
    ensures
        refusal(r) == (if !reaches(*ctx, asked) {
            Some(Refusal::NotFound("no such diary"@))
        } else if date_in(date@) is None {
            Some(Refusal::Validation("a date is written as YYYY-MM-DD"@))
        } else {
            None
        }),
        r matches Ok(x) ==> meant(*ctx, asked) == Some(x.0) && date_in(date@) == Some(x.1),
{
    let owner = match whose(ctx, asked) {
        Ok(o) => o,
        Err(e) => {
            return Err(e);
        },
    };
    match parse_date(date) {
        Ok(d) => Ok((owner, d)),
        Err(e) => Err(e),
    }
}

pub struct AppointmentQuery {
    pub owner_user_id: Option<Id>,
    pub booked_only: Option<bool>,
    pub limit: Option<i64>,
}

/// A number kept between two bounds.
pub open spec fn clamped(n: int, least: int, most: int) -> int {
    if n < least {
        least
    } else if n > most {
        most
    } else {
        n
    }
}

pub(crate) fn clamp(n: i64, least: i64, most: i64) -> (r: i64)
    requires
        least <= most,
    ensures
        r == clamped(n as int, least as int, most as int),
{
    if n < least {
        least
    } else if n > most {
        most
    } else {
        n
    }
}

/// What a list of appointments is read by.
pub struct AppointmentPage {
    pub owner: Id,
    pub booked_only: bool,
    pub limit: i64,
}

/// What is asked for: what is booked, unless everything is asked for; two hundred, unless
/// another number from one to five hundred is.
pub fn appointment_page(ctx: &AuthContext, q: &AppointmentQuery) -> (r: Result<
    AppointmentPage,
    AppError,
>)
    ensures
        match r {
            Ok(p) => {
                &&& reaches(*ctx, q.owner_user_id)
                &&& meant(*ctx, q.owner_user_id) == Some(p.owner)
                &&& p.booked_only == (match q.booked_only {
                    Some(b) => b,
                    None => true,
                })
                &&& p.limit == (match q.limit {
                    Some(n) => clamped(n as int, 1, 500),
                    None => 200,
                })
            },
            Err(e) => !reaches(*ctx, q.owner_user_id) && e@ == Refusal::NotFound(
                "no such diary"@,
            ),
        },
{
    let owner = match whose(ctx, q.owner_user_id) {
        Ok(o) => o,
        Err(e) => {
            return Err(e);
        },
    };
    let booked_only = match q.booked_only {
        Some(b) => b,
        None => true,
    };
    let limit: i64 = match q.limit {
        Some(n) => clamp(n, 1, 500),
        None => 200,
    };
    Ok(AppointmentPage { owner, booked_only, limit })
}

/// A stored appointment.
pub struct AppointmentRow {
    pub id: Id,
    pub starts_at: Instant,
    pub ends_at: Instant,
    pub status: String,
    pub reference: String,
    pub caller_name: String,
    pub caller_e164: String,
    pub contact: Option<String>,
    pub subject: String,
    pub chat_id: Option<Id>,
    pub timezone: Option<String>,
}

impl Ranked for AppointmentRow {
    /// The earlier it begins, the earlier an appointment is shown.
    open spec fn rank(self) -> (int, int) {
        (-(self.starts_at as int), 0)
    }

    fn outranks(&self, other: &AppointmentRow) -> (r: bool) {
        self.starts_at < other.starts_at
    }
}

pub struct AppointmentOut {
    pub id: Id,
    pub starts_at: String,
    pub ends_at: String,
    pub status: String,
    pub reference: String,
    pub caller_name: String,
    pub caller_e164: String,
    pub contact: Option<String>,
    pub subject: String,
    pub chat_id: Option<Id>,
    pub timezone: Option<String>,
}

pub open spec fn appointment_shown(row: AppointmentRow, r: AppointmentOut) -> bool {
    &&& r.id == row.id
    &&& r.starts_at@ == shown(row.starts_at)
    &&& r.ends_at@ == shown(row.ends_at)
    &&& r.status == row.status
    &&& r.reference == row.reference
    &&& r.caller_name == row.caller_name
    &&& r.caller_e164 == row.caller_e164
    &&& r.contact == row.contact
    &&& r.subject == row.subject
    &&& r.chat_id == row.chat_id
    &&& r.timezone == row.timezone
}

/// An appointment as it is shown.
pub fn appointment_out(row: AppointmentRow) -> (r: AppointmentOut)
    ensures
        appointment_shown(row, r),
{
    AppointmentOut {
        id: row.id,
        starts_at: show(row.starts_at),
        ends_at: show(row.ends_at),
        status: row.status,
        reference: row.reference,
        caller_name: row.caller_name,
        caller_e164: row.caller_e164,
        contact: row.contact,
        subject: row.subject,
        chat_id: row.chat_id,
        timezone: row.timezone,
    }
}

/// The appointments with somebody, in their order; those that are booked alone, or all. With each
/// comes whom it is with.
pub open spec fn appointments_of(rows: Seq<(Id, AppointmentRow)>, owner: Id, booked_only: bool) -> Seq<AppointmentRow>
    decreases rows.len(),
{
    if rows.len() == 0 {
        Seq::empty()
    } else {
        let before = appointments_of(rows.drop_last(), owner, booked_only);
        if rows.last().0 == owner && (booked_only ==> rows.last().1.status@ == "booked"@) {
            before.push(rows.last().1)
        } else {
            before
        }
    }
}

/// Who is coming in: the earliest so many, the earliest first.
pub fn appointments(ctx: &AuthContext, q: &AppointmentQuery, rows: Vec<(Id, AppointmentRow)>) -> (r:
    Result<Vec<AppointmentOut>, AppError>)
    ensures
        match r {
            Ok(v) => meant(*ctx, q.owner_user_id) matches Some(owner) && {
                let booked_only = q.booked_only != Some(false);
                let limit = match q.limit {
                    Some(n) => clamped(n as int, 1, 500),
                    None => 200,
                };
                let shown = first(appointments_of(highest_first(rows@), owner, booked_only), limit as nat);
                &&& reaches(*ctx, q.owner_user_id)
                &&& v@.len() == shown.len()
                &&& forall|i: int| 0 <= i < v@.len() ==> appointment_shown(shown[i], #[trigger] v@[i])
            },
            Err(e) => !reaches(*ctx, q.owner_user_id) && e@ == Refusal::NotFound(
                "no such diary"@,
            ),
        },
{
    let page = match appointment_page(ctx, q) {
        Ok(p) => p,
        Err(e) => {
            return Err(e);
        },
    };
    let owner = page.owner;
    let booked_only = page.booked_only;
    let most: usize = page.limit as usize;
    let rows = rank_list(rows);
    let n: usize = rows.len();
    let mut rest = rows;
    let mut out: Vec<AppointmentOut> = Vec::new();
    let mut i: usize = 0;
    assert(rows@.take(0) == Seq::<(Id, AppointmentRow)>::empty());
    while i < n
        invariant
            n == rows@.len(),
            i <= n,
            rest@ == rows@.skip(i as int),
            out@.len() == first(appointments_of(rows@.take(i as int), owner, booked_only), most as nat).len(),
            forall|k: int|
                0 <= k < out@.len() ==> appointment_shown(
                    first(appointments_of(rows@.take(i as int), owner, booked_only), most as nat)[k],
                    #[trigger] out@[k],
                ),
        decreases n - i,
    {
        let row = rest.remove(0);
        assert(row == rows@[i as int]);
        assert(rest@ =~= rows@.skip(i as int + 1));
        assert(rows@.take(i as int + 1).drop_last() == rows@.take(i as int));
        if row.0 == owner && (!booked_only || same(row.1.status.as_str(), "booked")) && out.len() < most {
            out.push(appointment_out(row.1));
        }
        i = i + 1;
    }
    assert(rows@.take(rows@.len() as int) == rows@);
    Ok(out)
}

pub struct NewAppointment {
    pub owner_user_id: Option<Id>,
    /// An instant, in RFC 3339.
    pub starts_at: String,
    pub caller_name: String,
    pub contact: Option<String>,
    pub subject: String,
}

/// The instant that an appointment is asked for at.
pub fn requested_start(body: &NewAppointment) -> (r: Result<Instant, AppError>)
    ensures
        match r {
            Ok(t) => rfc3339_instant(trimmed(body.starts_at@)) == Some(t) && is_near(t),
            Err(e) => rfc3339_instant(trimmed(body.starts_at@)) is None && e@
                == Refusal::Validation("a time is written in full, as an instant"@),
        },
{
    let t = trim(body.starts_at.as_str());
    match parse_instant(t.as_str()) {
        Some(at) => Ok(at),
        None => Err(validation("a time is written in full, as an instant")),
    }
}

/// An appointment to be stored.
pub struct Booking {
    pub owner: Id,
    pub starts_at: Instant,
    pub ends_at: Instant,
    pub caller_name: String,
    pub contact: Option<String>,
    pub subject: String,
}

/// Why an appointment is not taken: the diary is not the caller's, there is none or
/// it is switched off, the time is not an instant or not one of the diary's own, or
/// the name or the subject is missing; in this order.
pub open spec fn book_refusal(
    ctx: AuthContext,
    asked: Option<Id>,
    slot_minutes: Option<i32>,
    start: Option<Instant>,
    open_slot: bool,
    name: Seq<char>,
    subject: Seq<char>,
) -> Option<Refusal> {
    if !reaches(ctx, asked) {
        Some(Refusal::NotFound("no such diary"@))
    } else if slot_minutes is None {
        Some(Refusal::Validation("this account keeps no diary, or it is switched off"@))
    } else if start is None {
        Some(Refusal::Validation("a time is written in full, as an instant"@))
    } else if !open_slot {
        Some(
            Refusal::Validation(
                "that is not one of this diary's own times: check the opening hours, the length of an appointment, and the days the practice is shut"@,
            ),
        )
    } else if trimmed(name).len() == 0 || trimmed(subject).len() == 0 {
        Some(Refusal::Validation("an appointment needs a name and a subject"@))
    } else {
        None
    }
}

/// Puts somebody in by hand, held to the same opening hours as a caller. The diary is
/// given by the length of its appointments, `open_slot` is whether the time is one of
/// its own.
pub fn book(
    ctx: &AuthContext,
    body: &NewAppointment,
    slot_minutes: Option<i32>,
    open_slot: bool,
) -> (r: Result<Booking, AppError>)
    ensures
        refusal(r) == book_refusal(
            *ctx,
            body.owner_user_id,
            slot_minutes,
            rfc3339_instant(trimmed(body.starts_at@)),
            open_slot,
            body.caller_name@,
            body.subject@,
        ),
        r matches Ok(b) ==> {
            &&& meant(*ctx, body.owner_user_id) == Some(b.owner)
            &&& rfc3339_instant(trimmed(body.starts_at@)) == Some(b.starts_at)
            &&& b.ends_at == b.starts_at + slot_minutes->0 * 60_000_000_000int
            &&& b.caller_name@ == trimmed(body.caller_name@)
            &&& opt_text(b.contact) == filled(opt_text(body.contact))
            &&& b.subject@ == trimmed(body.subject@)
        },
{
    let owner = match whose(ctx, body.owner_user_id) {
        Ok(o) => o,
        Err(e) => {
            return Err(e);
        },
    };
    let slot: i32 = match slot_minutes {
        Some(m) => m,
        None => {
            return Err(validation("this account keeps no diary, or it is switched off"));
        },
    };
    let starts_at: i128 = match requested_start(body) {
        Ok(t) => t,
        Err(e) => {
            return Err(e);
        },
    };
    if !open_slot {
        return Err(
            validation(
                "that is not one of this diary's own times: check the opening hours, the length of an appointment, and the days the practice is shut",
            ),
        );
    }
    let caller_name = trim(body.caller_name.as_str());
    let subject = trim(body.subject.as_str());
    if caller_name.as_str().is_empty() || subject.as_str().is_empty() {
        return Err(validation("an appointment needs a name and a subject"));
    }
    let ends_at: i128 = starts_at + (slot as i128) * 60_000_000_000;
    Ok(
        Booking {
            owner,
            starts_at,
            ends_at,
            caller_name,
            contact: trim_filled(crate::text::as_text(&body.contact)),
            subject,
        },
    )
}

/// A booking that found its time taken is a conflict.
pub fn booked(rows: u64) -> (r: Result<(), AppError>)
    ensures
        refusal(r) == (if rows == 0 {
            Some(Refusal::Conflict("that time is already taken"@))
        } else {
            None
        }),
{
    if rows == 0 {
        Err(conflict("that time is already taken"))
    } else {
        Ok(())
    }
}

/// An appointment may be cancelled by the account it is with, or by an administrator,
/// as long as it is booked; otherwise there is no such appointment.
pub fn cancel(ctx: &AuthContext, owner: Option<Id>, still_booked: bool) -> (r: Result<Id, AppError>)
    ensures
        match r {
            Ok(id) => owner == Some(id) && still_booked && (ctx.admin || ctx.is(id)),
            Err(e) => !(owner matches Some(id) && still_booked && (ctx.admin || ctx.is(id))) && e@
                == Refusal::NotFound("no such appointment"@),
        },
{
    match owner {
        Some(id) => {
            if still_booked && (ctx.is_admin() || ctx.is_user(id)) {
                return Ok(id);
            }
        },
        None => {},
    }
    Err(not_found("no such appointment"))
}

/// What is written down of a diary that was set.
pub open spec fn updated_doc(body: SetDiary) -> Json {
    Json::Object(
        Map::empty().insert("timezone"@, Json::Text(body.timezone@)).insert(
            "slot_minutes"@,
            Json::Number(body.slot_minutes as int),
        ).insert("enabled"@, Json::Flag(body.enabled)).insert(
            "periods"@,
            Json::Number(body.hours@.len() as int),
        ),
    )
}

pub fn updated_event(ctx: &AuthContext, owner: Id, body: &SetDiary) -> (e: AuditEvent)
    ensures
        e@ == entry_by(*ctx, "telephony.diary.updated"@, "diary"@, owner).noting(updated_doc(*body)),
{
    let mut doc = empty_object();
    put(&mut doc, "timezone", text_value(body.timezone.as_str()));
    put(&mut doc, "slot_minutes", number_value(body.slot_minutes as i64));
    put(&mut doc, "enabled", flag_value(body.enabled));
    put(&mut doc, "periods", count_value(body.hours.len()));
    note(record_by(ctx, "telephony.diary.updated", "diary", owner), doc)
}

/// What is written down of an appointment that was cancelled: in whose diary, and that a person
/// did it.
pub open spec fn cancelled_doc(owner: Id) -> Json {
    Json::Object(
        Map::empty().insert("owner_user_id"@, Json::Text(id_text(owner))).insert(
            "by"@,
            Json::Text("interface"@),
        ),
    )
}

pub fn cancelled_event(ctx: &AuthContext, id: Id, owner: Id) -> (e: AuditEvent)
    ensures
        e@ == entry_by(*ctx, "telephony.appointment.cancelled"@, "appointment"@, id).noting(
            cancelled_doc(owner),
        ),
{
    let mut doc = empty_object();
    put(&mut doc, "owner_user_id", id_value(owner));
    put(&mut doc, "by", text_value("interface"));
    note(record_by(ctx, "telephony.appointment.cancelled", "appointment", id), doc)
}

/// The appointments with somebody are all that are booked with them, and the others too where
/// those are asked for.
pub proof fn appointments_are_with_their_owner(
    owner: Id,
    booked_only: bool,
    s: Seq<(Id, AppointmentRow)>,
)
    ensures
        appointments_of(s, owner, booked_only)
            == s.filter(
                |x: (Id, AppointmentRow)| x.0 == owner && (!booked_only || x.1.status@ == "booked"@)
            ).map_values(|x: (Id, AppointmentRow)| x.1),
    decreases s.len(),
{
    let p = |x: (Id, AppointmentRow)| x.0 == owner && (!booked_only || x.1.status@ == "booked"@);
    selects_last(s, p);
    if s.len() > 0 {
        appointments_are_with_their_owner(owner, booked_only, s.drop_last());
    }
    assert(
        appointments_of(s, owner, booked_only) =~= s.filter(p).map_values(
            |x: (Id, AppointmentRow)| x.1
        )
    );
}

/// Opening hours are listed by the day of the week, and in a day by when they begin.
pub proof fn opening_hours_are_in_order(rows: Seq<Opening>, i: int, j: int)
    requires
        0 <= i < j < rows.len(),
    ensures
        highest_first(rows)[i].weekday < highest_first(rows)[j].weekday
            || (
                highest_first(rows)[i].weekday == highest_first(rows)[j].weekday
                    && highest_first(rows)[i].opens_minute <= highest_first(rows)[j].opens_minute
            ),
{
    ordered_lists_descend(rows, i, j);
}

/// Closures are listed by their date, the earliest first.
pub proof fn closures_are_in_order(rows: Seq<ClosureRow>, i: int, j: int)
    requires
        0 <= i < j < rows.len(),
    ensures
        highest_first(rows)[i].closed_on.year < highest_first(rows)[j].closed_on.year
            || (
                highest_first(rows)[i].closed_on.year == highest_first(rows)[j].closed_on.year
                    && (
                        highest_first(rows)[i].closed_on.month < highest_first(
                            rows
                        )[j].closed_on.month
                            || (
                                highest_first(rows)[i].closed_on.month
                                    == highest_first(rows)[j].closed_on.month
                                    && highest_first(rows)[i].closed_on.day
                                        <= highest_first(rows)[j].closed_on.day
                            )
                    )
            ),
{
    ordered_lists_descend(rows, i, j);
}

/// Appointments are listed by when they begin, the earliest first.
pub proof fn earlier_appointments_come_first(rows: Seq<(Id, AppointmentRow)>, i: int, j: int)
    requires
        0 <= i < j < rows.len(),
    ensures
        highest_first(rows)[i].1.starts_at <= highest_first(rows)[j].1.starts_at,
{
    ordered_lists_descend(rows, i, j);
}

/// Opening hours are taken where each lies within one day of the week; else the first that does not
/// decides.
pub proof fn periods_are_checked_in_turn(s: Seq<Opening>) -> (at: int)
    ensures
        period_refusal(s) is None <==> forall|k: int|
            #![trigger s[k]]
            0 <= k < s.len()
                ==> (0 <= s[k].weekday <= 6 && 0 <= s[k].opens_minute < s[k].closes_minute <= 1440),
        period_refusal(s) is Some ==> {
            &&& 0 <= at < s.len()
            &&& !(
                    (
                        0 <= s[at].weekday <= 6
                            && 0 <= s[at].opens_minute < s[at].closes_minute <= 1440
                    )
                )
            &&& period_refusal(s) == period_refusal(seq![s[at]])
            &&& forall|k: int|
                    #![trigger s[k]]
                    0 <= k < at
                        ==> (
                            0 <= s[k].weekday <= 6
                                && 0 <= s[k].opens_minute < s[k].closes_minute <= 1440
                        )
        },
    decreases s.len(),
{
    if s.len() == 0 {
        0
    } else {
        let front = s.drop_last();
        let at = periods_are_checked_in_turn(front);
        assert forall|k: int| #![trigger s[k]] 0 <= k < front.len() implies s[k] == front[k] by {}
        assert(
            seq![s.last()].drop_last() =~= Seq::<Opening>::empty()
        ); assert(period_refusal(Seq::<Opening>::empty()) is None);
        if period_refusal(front) is Some {
            assert(s[at] == front[at]);
            at
        } else {
            assert forall|k: int|
                #![trigger s[k]]
                0 <= k < front.len()
                implies (
                    0 <= s[k].weekday <= 6 && 0 <= s[k].opens_minute < s[k].closes_minute <= 1440
                ) by {
                assert(front[k] == s[k]);
            }
            s.len() - 1
        }
    }
}

/// Opening hours are taken where each lies within one day of the week and no two of a day meet.
pub proof fn which_hours_are_taken(hours: Seq<Opening>)
    ensures
        hours_refusal(hours) is None
            <==> (
                forall|k: int|
                    #![trigger hours[k]]
                    0 <= k < hours.len()
                        ==> 0 <= hours[k].weekday <= 6
                            && 0 <= hours[k].opens_minute < hours[k].closes_minute <= 1440
            )
                && (
                    forall|i: int, j: int|
                        #![trigger hours[i], hours[j]]
                        0 <= i < j < hours.len() && hours[i].weekday == hours[j].weekday
                            ==> hours[i].closes_minute <= hours[j].opens_minute
                                || hours[j].closes_minute <= hours[i].opens_minute
                ),
{
    periods_are_checked_in_turn(hours);
    if !any_overlap(hours) {
        assert forall|i: int, j: int|
            #![trigger hours[i], hours[j]]
            0 <= i < j < hours.len() && hours[i].weekday == hours[j].weekday implies
            hours[i].closes_minute <= hours[j].opens_minute || hours[j].closes_minute
            <= hours[i].opens_minute by {
            assert(!overlap(hours[i], hours[j]));
        }
    }
}

/// A diary is kept by its owner and by administrators; one that is not named is one's own. An
/// appointment takes a diary that is on, one of its own times, a name and a subject.
pub proof fn who_keeps_diaries(
    ctx: AuthContext,
    asked: Option<Id>,
    owner: Id,
    slot_minutes: Option<i32>,
    start: Option<Instant>,
    open_slot: bool,
    name: Seq<char>,
    subject: Seq<char>,
    body: SetDiary,
    zone_known: bool,
)
    ensures
        keeps(ctx, owner) <==> ctx.admin || ctx.user_id == Some(owner),
        reaches(ctx, asked)
            <==> (asked matches Some(o) && (ctx.admin || ctx.user_id == Some(o)))
                || (asked is None && ctx.user_id is Some),
        book_refusal(ctx, asked, slot_minutes, start, open_slot, name, subject) is None
            <==> (
                (asked matches Some(o) && (ctx.admin || ctx.user_id == Some(o)))
                    || (asked is None && ctx.user_id is Some)
            )
                && slot_minutes is Some
                && start is Some
                && open_slot
                && trimmed(name).len() > 0
                && trimmed(subject).len() > 0,
        set_refusal(ctx, body, zone_known) is None
            <==> (
                (body.owner_user_id matches Some(o) && (ctx.admin || ctx.user_id == Some(o)))
                    || (body.owner_user_id is None && ctx.user_id is Some)
            )
                && zone_known
                && (
                    forall|k: int|
                        #![trigger body.hours@[k]]
                        0 <= k < body.hours@.len()
                            ==> 0 <= body.hours@[k].weekday <= 6
                                && 0 <= body.hours@[k].opens_minute < body.hours@[
                                    k
                                ].closes_minute <= 1440
                )
                && (
                    forall|i: int, j: int|
                        #![trigger body.hours@[i], body.hours@[j]]
                        0 <= i < j < body.hours@.len()
                            && body.hours@[i].weekday == body.hours@[j].weekday
                            ==> body.hours@[i].closes_minute <= body.hours@[j].opens_minute
                                || body.hours@[j].closes_minute <= body.hours@[i].opens_minute
                ),
{
    which_hours_are_taken(body.hours@);
}

/// What stands in `updated_doc` under each name; there is no other name in it.
pub proof fn what_updated_doc_holds(body: SetDiary)
    ensures
        member_at(updated_doc(body), "timezone"@) == Some(Json::Text(body.timezone@)),
        member_at(updated_doc(body), "slot_minutes"@)
            == Some(Json::Number(body.slot_minutes as int)),
        member_at(updated_doc(body), "enabled"@) == Some(Json::Flag(body.enabled)),
        member_at(updated_doc(body), "periods"@) == Some(Json::Number(body.hours@.len() as int)),
        forall|name: Seq<char>|
            #[trigger] member_at(updated_doc(body), name) is Some
                ==> name == "timezone"@
                    || name == "slot_minutes"@
                    || name == "enabled"@
                    || name == "periods"@,
{
    reveal_strlit("timezone");
    reveal_strlit("slot_minutes");
    reveal_strlit("enabled");
    reveal_strlit("periods");
    assert("timezone"@.len() != "slot_minutes"@.len());
    assert("timezone"@.len() != "enabled"@.len());
    assert("timezone"@.len() != "periods"@.len());
    assert("slot_minutes"@.len() != "enabled"@.len());
    assert("slot_minutes"@.len() != "periods"@.len());
    assert("enabled"@[0] != "periods"@[0]);
}

/// What stands in `cancelled_doc` under each name; there is no other name in it.
pub proof fn what_cancelled_doc_holds(owner: Id)
    ensures
        member_at(cancelled_doc(owner), "owner_user_id"@) == Some(Json::Text(id_text(owner))),
        member_at(cancelled_doc(owner), "by"@) == Some(Json::Text("interface"@)),
        forall|name: Seq<char>|
            #[trigger] member_at(cancelled_doc(owner), name) is Some
                ==> name == "owner_user_id"@ || name == "by"@,
{
    reveal_strlit("owner_user_id");
    reveal_strlit("by");
    assert("owner_user_id"@.len() != "by"@.len());
}

/// An appointment is shown as it is stored.
pub proof fn appointments_are_shown_whole(row: AppointmentRow, r: AppointmentOut)
    ensures
        appointment_shown(row, r) ==> {
            &&& r.id == row.id
            &&& r.starts_at@ == shown(row.starts_at)
            &&& r.ends_at@ == shown(row.ends_at)
            &&& r.status == row.status
            &&& r.reference == row.reference
            &&& r.caller_name == row.caller_name
            &&& r.caller_e164 == row.caller_e164
            &&& r.contact == row.contact
            &&& r.subject == row.subject
            &&& r.chat_id == row.chat_id
            &&& r.timezone == row.timezone
        },
{
}

/// A number is brought within its bounds, to the nearer of them, and stays where it is within.
pub proof fn numbers_are_clamped(n: int, least: int, most: int)
    ensures
        least <= most ==> least <= clamped(n, least, most) <= most,
        least <= n <= most ==> clamped(n, least, most) == n,
        least <= most && n < least ==> clamped(n, least, most) == least,
        least <= most && n > most ==> clamped(n, least, most) == most,
{
}

/// A diary is shown as it is stored, with its hours and its closures.
pub proof fn diaries_are_shown_whole(
    d: DiaryOut,
    owner: Id,
    row: DiaryRow,
    hours: Seq<Opening>,
    closures: Seq<ClosureRow>,
)
    ensures
        diary_shown(d, owner, row, hours, closures) ==> {
            &&& d.owner_user_id == owner
            &&& d.timezone == row.timezone
            &&& d.slot_minutes == row.slot_minutes
            &&& d.lead_minutes == row.lead_minutes
            &&& d.horizon_days == row.horizon_days
            &&& d.enabled == row.enabled
            &&& d.hours@ == hours
            &&& d.closures@.len() == closures.len()
            &&& forall|i: int|
                    0 <= i < closures.len()
                        ==> (#[trigger] d.closures@[i]).closed_on@
                            == date_text(
                                closures[i].closed_on.year as int,
                                closures[i].closed_on.month as int,
                                closures[i].closed_on.day as int,
                            )
                            && opt_text(d.closures@[i].note) == opt_text(closures[i].note)
        },
{
}

/// A diary is kept as it was set.
pub proof fn diaries_are_kept_as_set(row: DiaryRow, body: SetDiary)
    ensures
        is_as_set(row, body) ==> {
            &&& row.timezone@ == body.timezone@
            &&& row.slot_minutes == body.slot_minutes
            &&& row.lead_minutes == body.lead_minutes
            &&& row.horizon_days == body.horizon_days
            &&& row.enabled == body.enabled
        },
{
}

/// A date is read from year, month and day with hyphens between, without the blanks around it, and
/// only where the calendar has it.
pub proof fn dates_are_read_as_written(y: Seq<char>, m: Seq<char>, d: Seq<char>)
    requires
        !y.contains('-'),
        !m.contains('-'),
        trimmed(y.push('-') + (m.push('-') + d)) == y.push('-') + (m.push('-') + d),
    ensures
        date_in(y.push('-') + (m.push('-') + d)) matches Some(x) ==> {
            &&& integer_value(y, true) == Some(x.year as int)
            &&& integer_value(m, false) == Some(x.month as int)
            &&& integer_value(d, false) == Some(x.day as int)
            &&& is_date(x.year as int, x.month as int, x.day as int)
        },
        (integer_value(y, true) matches Some(a) && integer_value(m, false) matches Some(b)
            && integer_value(d, false) matches Some(c) && is_date(a, b, c)) ==> date_in(
            y.push('-') + (m.push('-') + d),
        ) is Some,
{
    cuts_where_marked(y, m.push('-') + d, '-');
    cuts_where_marked(m, d, '-');
}

/// A diary that is not named is one's own.
pub proof fn diaries_that_are_not_named(ctx: AuthContext, id: Id)
    ensures
        meant(ctx, Some(id)) == Some(id),
        meant(ctx, None) == ctx.user_id,
{
}

/// Of several things that are wrong, `set_refusal` tells the first.
pub proof fn set_refusal_tells_the_first_thing(ctx: AuthContext, body: SetDiary, zone_known: bool)
    ensures
        !reaches(ctx, body.owner_user_id)
            ==> set_refusal(ctx, body, zone_known) == Some(Refusal::NotFound("no such diary"@)),
        !(!reaches(ctx, body.owner_user_id)) && !zone_known
            ==> set_refusal(ctx, body, zone_known)
                == Some(
                    Refusal::Validation(
                        debug_text(body.timezone@)
                            + " is not a time zone this system knows. Use a name like Europe/London."@
                    )
                ),
        !(!reaches(ctx, body.owner_user_id)) && zone_known
            ==> set_refusal(ctx, body, zone_known) == hours_refusal(body.hours@),
{
}

/// Of several things that are wrong, `book_refusal` tells the first.
pub proof fn book_refusal_tells_the_first_thing(
    ctx: AuthContext,
    asked: Option<Id>,
    slot_minutes: Option<i32>,
    start: Option<Instant>,
    open_slot: bool,
    name: Seq<char>,
    subject: Seq<char>,
)
    ensures
        !reaches(ctx, asked)
            ==> book_refusal(ctx, asked, slot_minutes, start, open_slot, name, subject)
                == Some(Refusal::NotFound("no such diary"@)),
        !(!reaches(ctx, asked)) && slot_minutes is None
            ==> book_refusal(ctx, asked, slot_minutes, start, open_slot, name, subject)
                == Some(Refusal::Validation("this account keeps no diary, or it is switched off"@)),
        !(!reaches(ctx, asked)) && !(slot_minutes is None) && start is None
            ==> book_refusal(ctx, asked, slot_minutes, start, open_slot, name, subject)
                == Some(Refusal::Validation("a time is written in full, as an instant"@)),
        !(!reaches(ctx, asked)) && !(slot_minutes is None) && !(start is None) && !open_slot
            ==> book_refusal(ctx, asked, slot_minutes, start, open_slot, name, subject)
                == Some(
                    Refusal::Validation(
                        "that is not one of this diary's own times: check the opening hours, the length of an appointment, and the days the practice is shut"@
                    )
                ),
        !(!reaches(ctx, asked))
            && !(slot_minutes is None)
            && !(start is None)
            && open_slot
            && (trimmed(name).len() == 0 || trimmed(subject).len() == 0)
            ==> book_refusal(ctx, asked, slot_minutes, start, open_slot, name, subject)
                == Some(Refusal::Validation("an appointment needs a name and a subject"@)),
        !(!reaches(ctx, asked))
            && !(slot_minutes is None)
            && !(start is None)
            && open_slot
            && !(trimmed(name).len() == 0 || trimmed(subject).len() == 0)
            ==> book_refusal(ctx, asked, slot_minutes, start, open_slot, name, subject) is None,
{
}

} // verus!
