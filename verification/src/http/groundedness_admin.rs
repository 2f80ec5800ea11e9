//! How grounded answers and drafts have been, for those who oversee it. Scores are carried as
//! they come: which of them an average is of is decided here, and the average is not.

use vstd::prelude::*;

use crate::lists::{selects_just, selects_last};
use crate::clock::{date_text, days_in, is_date, show, show_date, shown, CalendarDate, Instant};
use crate::error::{refusal, AppError};
use crate::grants::{refusal_in, Permissions};
use crate::principal::{same_id, Id};
use crate::text::{clip, clipped, opt_text, same};

verus! {

/// A score, by a number that stands for it: the lower score has the lower number.
pub type Score = u64;

/// How many claims there were of each verdict.
#[derive(Clone, Copy, Debug, PartialEq, Eq, Structural)]
pub struct VerdictMix {
    pub supported: i64,
    pub contradicted: i64,
    pub not_mentioned: i64,
}

/// The runs of one day, with the scores that their average is of.
pub struct GroundednessDay {
    pub day: String,
    pub scores: Vec<Score>,
    pub runs: i64,
}

/// The runs of one agent's answers, with the scores that their average is of.
pub struct AgentGrounding {
    pub agent_id: Option<Id>,
    pub agent_name: Option<String>,
    pub scores: Vec<Score>,
    pub runs: i64,
}

/// An answer that was checked while it was given.
pub struct LiveInteraction {
    pub run_id: Id,
    pub message_id: Id,
    pub chat_id: Id,
    pub snippet: String,
    pub score: Option<Score>,
    pub flagged: i32,
    pub created_at: String,
}

/// A draft or a document that was checked.
pub struct DraftRun {
    pub run_id: Id,
    pub target_type: String,
    pub status: String,
    pub score: Option<Score>,
    pub supported: i32,
    pub contradicted: i32,
    pub not_mentioned: i32,
    pub created_at: String,
}

/// How many runs there are of a status.
pub struct StatusCount {
    pub status: String,
    pub count: i64,
}

pub struct GroundednessAnalytics {
    pub live_runs: i64,
    pub live_scores: Vec<Score>,
    pub live_verdicts: VerdictMix,
    /// Of the live answers, those that name a source, and all; nothing where there are none.
    pub live_cited_fraction: Option<(i64, i64)>,
    pub live_series: Vec<GroundednessDay>,
    pub per_agent: Vec<AgentGrounding>,
    pub lowest_interactions: Vec<LiveInteraction>,
    pub draft_runs: i64,
    pub draft_scores: Vec<Score>,
    pub draft_verdicts: VerdictMix,
    pub draft_by_status: Vec<StatusCount>,
    pub draft_series: Vec<GroundednessDay>,
    pub recent_runs: Vec<DraftRun>,
}

/// The agent that gave an answer.
pub struct AnsweringAgent {
    pub id: Id,
    pub name: String,
}

/// The answer that was checked.
pub struct CheckedMessage {
    pub id: Id,
    pub chat_id: Id,
    pub content: String,
    pub agent: Option<AnsweringAgent>,
}

/// A stored run.
pub struct CheckedRun {
    pub run_id: Id,
    pub mode: String,
    pub target_type: String,
    pub status: String,
    pub score: Option<Score>,
    pub supported: Option<i32>,
    pub contradicted: Option<i32>,
    pub not_mentioned: Option<i32>,
    pub created_at: Instant,
    /// The day that it was made on.
    pub day: CalendarDate,
    /// Whether its target names a source.
    pub cited: bool,
    /// Its target, where that is an answer that still stands.
    pub message: Option<CheckedMessage>,
}

/// A live check of an answer.
pub open spec fn is_live_answer(run: CheckedRun) -> bool {
    run.mode@ == "live"@ && run.target_type@ == "message"@
}

pub open spec fn agent_of(m: CheckedMessage) -> Option<Id> {
    match m.agent {
        Some(a) => Some(a.id),
        None => None,
    }
}

pub open spec fn agent_name_of(m: CheckedMessage) -> Option<Seq<char>> {
    match m.agent {
        Some(a) => Some(a.name@),
        None => None,
    }
}

/// Some of the runs: those of a mode, those of a mode and a day, the live checks of answers,
/// those of them that name a source, or those of one agent's.
pub enum Slice {
    Mode(Seq<char>),
    Day(Seq<char>, CalendarDate),
    Answers,
    Cited,
    Agent(Option<Id>),
}

pub open spec fn is_in(run: CheckedRun, s: Slice) -> bool {
    match s {
        Slice::Mode(mode) => run.mode@ == mode,
        Slice::Day(mode, day) => run.mode@ == mode && run.day == day,
        Slice::Answers => is_live_answer(run),
        Slice::Cited => is_live_answer(run) && run.cited,
        Slice::Agent(agent) => is_live_answer(run) && (run.message matches Some(m) && agent_of(m)
            == agent),
    }
}

/// How many runs there are of a slice.
pub open spec fn runs_in(runs: Seq<CheckedRun>, s: Slice) -> nat
    decreases runs.len(),
{
    if runs.len() == 0 {
        0
    } else {
        runs_in(runs.drop_last(), s) + (if is_in(runs.last(), s) {
            1nat
        } else {
            0nat
        })
    }
}

/// The scores that the average of a slice is of: those of the runs that came to an end.
pub open spec fn scores_in(runs: Seq<CheckedRun>, s: Slice) -> Seq<Score>
    decreases runs.len(),
{
    if runs.len() == 0 {
        Seq::empty()
    } else {
        let before = scores_in(runs.drop_last(), s);
        let last = runs.last();
        if is_in(last, s) && last.status@ == "succeeded"@ && last.score is Some {
            before.push(last.score->0)
        } else {
            before
        }
    }
}

/// A slice, as it is asked for.
#[derive(Clone, Copy)]
enum Part<'a> {
    Mode(&'a str),
    Day(&'a str, CalendarDate),
    Answers,
    Cited,
    Agent(Option<Id>),
}

impl<'a> View for Part<'a> {
    type V = Slice;

    closed spec fn view(&self) -> Slice {
        match *self {
            Part::Mode(mode) => Slice::Mode(mode@),
            Part::Day(mode, day) => Slice::Day(mode@, day),
            Part::Answers => Slice::Answers,
            Part::Cited => Slice::Cited,
            Part::Agent(agent) => Slice::Agent(agent),
        }
    }
}

fn live_answer(run: &CheckedRun) -> (r: bool)
    ensures
        r == is_live_answer(*run),
{
    same(run.mode.as_str(), "live") && same(run.target_type.as_str(), "message")
}

fn agent_id(m: &CheckedMessage) -> (r: Option<Id>)
    ensures
        r == agent_of(*m),
{
    match &m.agent {
        Some(a) => Some(a.id),
        None => None,
    }
}

fn belongs(run: &CheckedRun, part: Part) -> (r: bool)
    ensures
        r == is_in(*run, part@),
{
    match part {
        Part::Mode(mode) => same(run.mode.as_str(), mode),
        Part::Day(mode, day) => same(run.mode.as_str(), mode) && run.day == day,
        Part::Answers => live_answer(run),
        Part::Cited => live_answer(run) && run.cited,
        Part::Agent(agent) => match &run.message {
            Some(m) => live_answer(run) && same_id(agent_id(m), agent),
            None => false,
        },
    }
}

fn count_runs(runs: &Vec<CheckedRun>, part: Part) -> (r: i64)
    requires
        runs@.len() <= 0x8000_0000,
    ensures
        r == runs_in(runs@, part@),
{
    let mut n: i64 = 0;
    let mut i: usize = 0;
    assert(runs@.take(0) == Seq::<CheckedRun>::empty());
    while i < runs.len()
        invariant
            i <= runs@.len(),
            runs@.len() <= 0x8000_0000,
            0 <= n <= i,
            n == runs_in(runs@.take(i as int), part@),
        decreases runs@.len() - i,
    {
        assert(runs@.take(i as int + 1).drop_last() == runs@.take(i as int));
        if belongs(&runs[i], part) {
            n = n + 1;
        }
        i = i + 1;
    }
    assert(runs@.take(runs@.len() as int) == runs@);
    n
}

fn pick_scores(runs: &Vec<CheckedRun>, part: Part) -> (r: Vec<Score>)
    ensures
        r@ == scores_in(runs@, part@),
{
    let mut out: Vec<Score> = Vec::new();
    let mut i: usize = 0;
    assert(runs@.take(0) == Seq::<CheckedRun>::empty());
    while i < runs.len()
        invariant
            i <= runs@.len(),
            out@ == scores_in(runs@.take(i as int), part@),
        decreases runs@.len() - i,
    {
        assert(runs@.take(i as int + 1).drop_last() == runs@.take(i as int));
        match runs[i].score {
            Some(score) => {
                if belongs(&runs[i], part) && same(runs[i].status.as_str(), "succeeded") {
                    out.push(score);
                }
            },
            None => {},
        }
        i = i + 1;
    }
    assert(runs@.take(runs@.len() as int) == runs@);
    out
}

/// A count that may be missing.
pub open spec fn counted(n: Option<i32>) -> int {
    match n {
        Some(k) => k as int,
        None => 0,
    }
}

/// The verdicts of the runs of a mode, added up.
pub open spec fn mix_of(runs: Seq<CheckedRun>, mode: Seq<char>) -> (int, int, int)
    decreases runs.len(),
{
    if runs.len() == 0 {
        (0, 0, 0)
    } else {
        let before = mix_of(runs.drop_last(), mode);
        let last = runs.last();
        if last.mode@ == mode {
            (
                before.0 + counted(last.supported),
                before.1 + counted(last.contradicted),
                before.2 + counted(last.not_mentioned),
            )
        } else {
            before
        }
    }
}

fn count(n: Option<i32>) -> (r: i64)
    ensures
        r == counted(n),
        -0x8000_0000 <= r <= 0x7fff_ffff,
{
    match n {
        Some(k) => k as i64,
        None => 0,
    }
}

/// Adds up the verdicts of the runs of a mode.
pub fn verdict_mix(runs: &Vec<CheckedRun>, mode: &str) -> (r: VerdictMix)
    requires
        runs@.len() <= 0x8000_0000,
    ensures
        r.supported == mix_of(runs@, mode@).0,
        r.contradicted == mix_of(runs@, mode@).1,
        r.not_mentioned == mix_of(runs@, mode@).2,
{
    let mut supported: i64 = 0;
    let mut contradicted: i64 = 0;
    let mut not_mentioned: i64 = 0;
    let mut i: usize = 0;
    assert(runs@.take(0) == Seq::<CheckedRun>::empty());
    while i < runs.len()
        invariant
            i <= runs@.len(),
            runs@.len() <= 0x8000_0000,
            supported == mix_of(runs@.take(i as int), mode@).0,
            contradicted == mix_of(runs@.take(i as int), mode@).1,
            not_mentioned == mix_of(runs@.take(i as int), mode@).2,
            -0x8000_0000 * i <= supported <= 0x7fff_ffff * i,
            -0x8000_0000 * i <= contradicted <= 0x7fff_ffff * i,
            -0x8000_0000 * i <= not_mentioned <= 0x7fff_ffff * i,
        decreases runs@.len() - i,
    {
        assert(runs@.take(i as int + 1).drop_last() == runs@.take(i as int));
        let run = &runs[i];
        if same(run.mode.as_str(), mode) {
            supported = supported + count(run.supported);
            contradicted = contradicted + count(run.contradicted);
            not_mentioned = not_mentioned + count(run.not_mentioned);
        }
        i = i + 1;
    }
    assert(runs@.take(runs@.len() as int) == runs@);
    VerdictMix { supported, contradicted, not_mentioned }
}

/// How many runs of a mode have a status.
pub open spec fn runs_with(runs: Seq<CheckedRun>, mode: Seq<char>, status: Seq<char>) -> nat
    decreases runs.len(),
{
    if runs.len() == 0 {
        0
    } else {
        runs_with(runs.drop_last(), mode, status) + (if runs.last().mode@ == mode
            && runs.last().status@ == status {
            1nat
        } else {
            0nat
        })
    }
}

fn count_status(runs: &Vec<CheckedRun>, mode: &str, status: &str) -> (r: i64)
    requires
        runs@.len() <= 0x8000_0000,
    ensures
        r == runs_with(runs@, mode@, status@),
{
    let mut n: i64 = 0;
    let mut i: usize = 0;
    assert(runs@.take(0) == Seq::<CheckedRun>::empty());
    while i < runs.len()
        invariant
            i <= runs@.len(),
            runs@.len() <= 0x8000_0000,
            0 <= n <= i,
            n == runs_with(runs@.take(i as int), mode@, status@),
        decreases runs@.len() - i,
    {
        assert(runs@.take(i as int + 1).drop_last() == runs@.take(i as int));
        if same(runs[i].mode.as_str(), mode) && same(runs[i].status.as_str(), status) {
            n = n + 1;
        }
        i = i + 1;
    }
    assert(runs@.take(runs@.len() as int) == runs@);
    n
}

/// A status is among those that are counted.
pub open spec fn is_counted(counts: Seq<StatusCount>, status: Seq<char>) -> bool {
    exists|i: int| 0 <= i < counts.len() && (#[trigger] counts[i]).status@ == status
}

/// The counts are those of the runs of a mode: every status that occurs is counted once, and
/// the commonest come first.
pub open spec fn counts_of(runs: Seq<CheckedRun>, mode: Seq<char>, counts: Seq<StatusCount>) -> bool {
    &&& forall|i: int|
        0 <= i < counts.len() ==> (#[trigger] counts[i]).count == runs_with(
            runs,
            mode,
            counts[i].status@,
        ) && counts[i].count > 0
    &&& forall|i: int, j: int|
        0 <= i < j < counts.len() ==> (#[trigger] counts[i]).status@ != (
        #[trigger] counts[j]).status@
    &&& forall|i: int, j: int|
        0 <= i < j < counts.len() ==> (#[trigger] counts[i]).count >= (#[trigger] counts[j]).count
    &&& forall|k: int|
        0 <= k < runs.len() && (#[trigger] runs[k]).mode@ == mode ==> is_counted(
            counts,
            runs[k].status@,
        )
}

proof fn occurring_status_counts(runs: Seq<CheckedRun>, mode: Seq<char>, k: int)
    requires
        0 <= k < runs.len(),
        runs[k].mode@ == mode,
    ensures
        runs_with(runs, mode, runs[k].status@) > 0,
    decreases runs.len(),
{
    if k < runs.len() - 1 {
        occurring_status_counts(runs.drop_last(), mode, k);
    }
}

/// What the counts come to together.
pub open spec fn total_of(counts: Seq<StatusCount>) -> int
    decreases counts.len(),
{
    if counts.len() == 0 {
        0
    } else {
        total_of(counts.drop_last()) + counts.last().count
    }
}

/// How many runs of a mode have one of these statuses.
spec fn tally(runs: Seq<CheckedRun>, mode: Seq<char>, counts: Seq<StatusCount>) -> nat
    decreases counts.len(),
{
    if counts.len() == 0 {
        0
    } else {
        tally(runs, mode, counts.drop_last()) + runs_with(runs, mode, counts.last().status@)
    }
}

spec fn are_apart(counts: Seq<StatusCount>) -> bool {
    forall|i: int, j: int|
        0 <= i < j < counts.len() ==> (#[trigger] counts[i]).status@ != (
        #[trigger] counts[j]).status@
}

proof fn one_more_run(runs: Seq<CheckedRun>, mode: Seq<char>, counts: Seq<StatusCount>)
    requires
        runs.len() > 0,
        are_apart(counts),
    ensures
        tally(runs, mode, counts) == tally(runs.drop_last(), mode, counts) + (if runs.last().mode@
            == mode && is_counted(counts, runs.last().status@) {
            1nat
        } else {
            0nat
        }),
    decreases counts.len(),
{
    let status = runs.last().status@;
    if counts.len() > 0 {
        let front = counts.drop_last();
        assert forall|i: int, j: int| 0 <= i < j < front.len() implies (#[trigger] front[i]).status@ != (
        #[trigger] front[j]).status@ by {
            assert(counts[i] == front[i] && counts[j] == front[j]);
        }
        one_more_run(runs, mode, front);
        if is_counted(front, status) {
            let k = choose|k: int| 0 <= k < front.len() && (#[trigger] front[k]).status@ == status;
            assert(counts[k].status@ == status);
            assert(counts[counts.len() - 1].status@ != status);
        } else if counts.last().status@ == status {
            assert(counts[counts.len() - 1].status@ == status);
        } else if is_counted(counts, status) {
            let k = choose|k: int| 0 <= k < counts.len() && (#[trigger] counts[k]).status@ == status;
            assert(front[k].status@ == status);
        }
    }
}

proof fn no_runs_no_tally(runs: Seq<CheckedRun>, mode: Seq<char>, counts: Seq<StatusCount>)
    requires
        runs.len() == 0,
    ensures
        tally(runs, mode, counts) == 0,
    decreases counts.len(),
{
    if counts.len() > 0 {
        no_runs_no_tally(runs, mode, counts.drop_last());
    }
}

proof fn tally_is_of_all(runs: Seq<CheckedRun>, mode: Seq<char>, counts: Seq<StatusCount>)
    requires
        are_apart(counts),
        forall|k: int|
            0 <= k < runs.len() && (#[trigger] runs[k]).mode@ == mode ==> is_counted(
                counts,
                runs[k].status@,
            ),
    ensures
        tally(runs, mode, counts) == runs_in(runs, Slice::Mode(mode)),
    decreases runs.len(),
{
    if runs.len() > 0 {
        let front = runs.drop_last();
        assert forall|k: int|
            0 <= k < front.len() && (#[trigger] front[k]).mode@ == mode implies is_counted(
            counts,
            front[k].status@,
        ) by {
            assert(runs[k] == front[k]);
        }
        tally_is_of_all(front, mode, counts);
        one_more_run(runs, mode, counts);
        assert(runs[runs.len() - 1] == runs.last());
    } else {
        no_runs_no_tally(runs, mode, counts);
    }
}

proof fn totals_are_tallies(
    runs: Seq<CheckedRun>,
    mode: Seq<char>,
    counts: Seq<StatusCount>,
)
    requires
        forall|i: int|
            0 <= i < counts.len() ==> (#[trigger] counts[i]).count == runs_with(
                runs,
                mode,
                counts[i].status@,
            ),
    ensures
        total_of(counts) == tally(runs, mode, counts),
    decreases counts.len(),
{
    if counts.len() > 0 {
        let front = counts.drop_last();
        assert forall|i: int| 0 <= i < front.len() implies (#[trigger] front[i]).count == runs_with(
            runs,
            mode,
            front[i].status@,
        ) by {
            assert(counts[i] == front[i]);
        }
        totals_are_tallies(runs, mode, front);
        assert(counts[counts.len() - 1] == counts.last());
    }
}

/// The counts by status add up: every run of the mode is counted under one status, and no other
/// is.
pub proof fn statuses_add_up(runs: Seq<CheckedRun>, mode: Seq<char>, counts: Seq<StatusCount>)
    requires
        counts_of(runs, mode, counts),
    ensures
        total_of(counts) == runs_in(runs, Slice::Mode(mode)),
{
    totals_are_tallies(runs, mode, counts);
    tally_is_of_all(runs, mode, counts);
}

fn holds_status(counts: &Vec<StatusCount>, status: &str) -> (r: bool)
    ensures
        r == is_counted(counts@, status@),
{
    let mut i: usize = 0;
    while i < counts.len()
        invariant
            i <= counts@.len(),
            forall|k: int| 0 <= k < i ==> (#[trigger] counts@[k]).status@ != status@,
        decreases counts@.len() - i,
    {
        if same(counts[i].status.as_str(), status) {
            assert(counts@[i as int].status@ == status@);
            return true;
        }
        i = i + 1;
    }
    false
}

/// Counts the runs of a mode by their status, the commonest first.
pub fn count_by_status(runs: &Vec<CheckedRun>, mode: &str) -> (r: Vec<StatusCount>)
    requires
        runs@.len() <= 0x8000_0000,
    ensures
        counts_of(runs@, mode@, r@),
{
    let mut counts: Vec<StatusCount> = Vec::new();
    let mut i: usize = 0;
    while i < runs.len()
        invariant
            i <= runs@.len(),
            runs@.len() <= 0x8000_0000,
            counts@.len() <= i,
            forall|k: int|
                0 <= k < counts@.len() ==> (#[trigger] counts@[k]).count == runs_with(
                    runs@,
                    mode@,
                    counts@[k].status@,
                ) && counts@[k].count > 0,
            forall|a: int, b: int|
                0 <= a < b < counts@.len() ==> (#[trigger] counts@[a]).status@ != (
                #[trigger] counts@[b]).status@,
            forall|a: int, b: int|
                0 <= a < b < counts@.len() ==> (#[trigger] counts@[a]).count >= (
                #[trigger] counts@[b]).count,
            forall|k: int|
                0 <= k < i && (#[trigger] runs@[k]).mode@ == mode@ ==> is_counted(
                    counts@,
                    runs@[k].status@,
                ),
        decreases runs@.len() - i,
    {
        let status = runs[i].status.as_str();
        if same(runs[i].mode.as_str(), mode) && !holds_status(&counts, status) {
            proof {
                occurring_status_counts(runs@, mode@, i as int);
            }
            let count: i64 = count_status(runs, mode, status);
            let c = StatusCount { status: runs[i].status.clone(), count };
            let ghost before = counts@;
            let mut at: usize = counts.len();
            while 0 < at && counts[at - 1].count < count
                invariant
                    at <= counts@.len(),
                    counts@ == before,
                    forall|k: int| at <= k < counts@.len() ==> (#[trigger] counts@[k]).count < count,
                decreases at,
            {
                at = at - 1;
            }
            counts.insert(at, c);
            proof {
                let placed = counts@;
                assert forall|s: Seq<char>| is_counted(before, s) implies #[trigger] is_counted(
                    placed,
                    s,
                ) by {
                    let k = choose|k: int|
                        0 <= k < before.len() && (#[trigger] before[k]).status@ == s;
                    if k < at {
                        assert(placed[k] == before[k]);
                    } else {
                        assert(placed[k + 1] == before[k]);
                    }
                }
                assert(placed[at as int] == c);
                assert(is_counted(placed, runs@[i as int].status@));
                assert forall|a: int, b: int| 0 <= a < b < placed.len() implies (
                #[trigger] placed[a]).status@ != (#[trigger] placed[b]).status@ by {
                    let x = if a < at {
                        a
                    } else {
                        a - 1
                    };
                    let y = if b < at {
                        b
                    } else {
                        b - 1
                    };
                    if a != at {
                        assert(placed[a] == before[x]);
                    }
                    if b != at {
                        assert(placed[b] == before[y]);
                    }
                }
                assert forall|a: int, b: int| 0 <= a < b < placed.len() implies (
                #[trigger] placed[a]).count >= (#[trigger] placed[b]).count by {
                    let x = if a < at {
                        a
                    } else {
                        a - 1
                    };
                    let y = if b < at {
                        b
                    } else {
                        b - 1
                    };
                    if a != at {
                        assert(placed[a] == before[x]);
                    }
                    if b != at {
                        assert(placed[b] == before[y]);
                    }
                }
                assert forall|k: int| 0 <= k < placed.len() implies (#[trigger] placed[k]).count
                    == runs_with(runs@, mode@, placed[k].status@) && placed[k].count > 0 by {
                    if k < at {
                        assert(placed[k] == before[k]);
                    } else if k > at {
                        assert(placed[k] == before[k - 1]);
                    }
                }
            }
        }
        i = i + 1;
    }
    counts
}

/// The day before.
pub open spec fn day_before(d: CalendarDate) -> CalendarDate {
    if d.day > 1 {
        CalendarDate { year: d.year, month: d.month, day: (d.day - 1) as u8 }
    } else if d.month > 1 {
        CalendarDate {
            year: d.year,
            month: (d.month - 1) as u8,
            day: days_in(d.year as int, d.month - 1) as u8,
        }
    } else {
        CalendarDate { year: (d.year - 1) as i32, month: 12, day: 31 }
    }
}

/// The last so many days, up to one.
pub open spec fn days_up_to(d: CalendarDate, n: nat) -> Seq<CalendarDate>
    decreases n,
{
    if n == 0 {
        Seq::empty()
    } else {
        days_up_to(day_before(d), (n - 1) as nat).push(d)
    }
}

fn yesterday(d: CalendarDate) -> (r: CalendarDate)
    requires
        is_date(d.year as int, d.month as int, d.day as int),
        d.year > -9999,
    ensures
        r == day_before(d),
        is_date(r.year as int, r.month as int, r.day as int),
        d.year - 1 <= r.year <= d.year,
{
    if d.day > 1 {
        return CalendarDate { year: d.year, month: d.month, day: d.day - 1 };
    }
    if d.month > 1 {
        let month: u8 = d.month - 1;
        let day: u8 = if month == 2 {
            if d.year % 4 == 0 && (d.year % 100 != 0 || d.year % 400 == 0) {
                29
            } else {
                28
            }
        } else if month == 4 || month == 6 || month == 9 || month == 11 {
            30
        } else {
            31
        };
        return CalendarDate { year: d.year, month, day };
    }
    CalendarDate { year: d.year - 1, month: 12, day: 31 }
}

/// How many days a series goes over.
pub const SERIES_DAYS: usize = 30;

/// A day of a series, as it is shown.
pub open spec fn day_shown(
    runs: Seq<CheckedRun>,
    mode: Seq<char>,
    day: CalendarDate,
    r: GroundednessDay,
) -> bool {
    &&& r.day@ == date_text(day.year as int, day.month as int, day.day as int)
    &&& r.scores@ == scores_in(runs, Slice::Day(mode, day))
    &&& r.runs == runs_in(runs, Slice::Day(mode, day))
}

/// The series of a mode: the last thirty days, one after the other, those without a run too.
pub open spec fn series_of(
    runs: Seq<CheckedRun>,
    mode: Seq<char>,
    today: CalendarDate,
    r: Seq<GroundednessDay>,
) -> bool {
    &&& r.len() == SERIES_DAYS
    &&& forall|i: int|
        0 <= i < r.len() ==> day_shown(
            runs,
            mode,
            days_up_to(today, SERIES_DAYS as nat)[i],
            #[trigger] r[i],
        )
}

/// The runs of a mode, day by day, over the last thirty days.
pub fn series(runs: &Vec<CheckedRun>, mode: &str, today: CalendarDate) -> (r: Vec<GroundednessDay>)
    requires
        runs@.len() <= 0x8000_0000,
        is_date(today.year as int, today.month as int, today.day as int),
        today.year >= 0,
    ensures
        series_of(runs@, mode@, today, r@),
{
    let mut out: Vec<GroundednessDay> = Vec::new();
    let mut day = today;
    let mut left: usize = SERIES_DAYS;
    let ghost all = days_up_to(today, SERIES_DAYS as nat);
    proof {
        assert(days_up_to(day, left as nat).len() == left) by {
            days_are_so_many(day, left as nat);
        }
    }
    while 0 < left
        invariant
            left <= SERIES_DAYS,
            out@.len() == SERIES_DAYS - left,
            runs@.len() <= 0x8000_0000,
            is_date(day.year as int, day.month as int, day.day as int),
            day.year >= left - SERIES_DAYS,
            all.len() == SERIES_DAYS,
            days_up_to(day, left as nat) == all.take(left as int),
            forall|k: int|
                0 <= k < out@.len() ==> day_shown(runs@, mode@, all[left + k], #[trigger] out@[k]),
        decreases left,
    {
        let part = Part::Day(mode, day);
        let d = GroundednessDay {
            day: show_date(day),
            scores: pick_scores(runs, part),
            runs: count_runs(runs, part),
        };
        let ghost before = out@;
        out.insert(0, d);
        proof {
            days_are_so_many(day_before(day), (left - 1) as nat);
            assert(days_up_to(day, left as nat).last() == day);
            assert(all[left - 1] == all.take(left as int).last());
            assert(all.take(left as int).drop_last() =~= all.take(left - 1));
            assert(days_up_to(day, left as nat).drop_last() =~= days_up_to(
                day_before(day),
                (left - 1) as nat,
            ));
            assert forall|k: int| 0 <= k < out@.len() implies day_shown(
                runs@,
                mode@,
                all[left - 1 + k],
                #[trigger] out@[k],
            ) by {
                if k > 0 {
                    assert(out@[k] == before[k - 1]);
                }
            }
        }
        day = yesterday(day);
        left = left - 1;
    }
    out
}

proof fn days_are_so_many(d: CalendarDate, n: nat)
    ensures
        days_up_to(d, n).len() == n,
    decreases n,
{
    if n > 0 {
        days_are_so_many(day_before(d), (n - 1) as nat);
    }
}

/// A series ends today, and each of its days comes after the one before.
pub proof fn series_days_follow_each_other(today: CalendarDate, n: nat, i: int)
    requires
        0 <= i < n,
    ensures
        days_up_to(today, n).len() == n,
        days_up_to(today, n)[n - 1] == today,
        i > 0 ==> days_up_to(today, n)[i - 1] == day_before(days_up_to(today, n)[i]),
    decreases n,
{
    days_are_so_many(today, n);
    days_are_so_many(day_before(today), (n - 1) as nat);
    if n > 1 {
        if i < n - 1 {
            series_days_follow_each_other(day_before(today), (n - 1) as nat, i);
        } else {
            series_days_follow_each_other(day_before(today), (n - 1) as nat, n - 2);
        }
    }
}

/// An agent is among those that are shown.
pub open spec fn is_shown(agents: Seq<AgentGrounding>, agent: Option<Id>) -> bool {
    exists|i: int| 0 <= i < agents.len() && (#[trigger] agents[i]).agent_id == agent
}

/// An agent is called so in one of its runs.
pub open spec fn is_called(runs: Seq<CheckedRun>, agent: Option<Id>, name: Option<Seq<char>>) -> bool {
    exists|k: int|
        0 <= k < runs.len() && is_in(#[trigger] runs[k], Slice::Agent(agent)) && name
            == agent_name_of(runs[k].message->0)
}

pub open spec fn agent_shown(runs: Seq<CheckedRun>, a: AgentGrounding) -> bool {
    &&& a.runs == runs_in(runs, Slice::Agent(a.agent_id))
    &&& a.runs > 0
    &&& a.scores@ == scores_in(runs, Slice::Agent(a.agent_id))
    &&& is_called(runs, a.agent_id, opt_text(a.agent_name))
}

/// The agents are those that gave a checked answer: each is shown once, those with the most
/// answers first. Answers that no agent gave go together.
pub open spec fn agents_of(runs: Seq<CheckedRun>, agents: Seq<AgentGrounding>) -> bool {
    &&& forall|i: int| 0 <= i < agents.len() ==> agent_shown(runs, #[trigger] agents[i])
    &&& forall|i: int, j: int|
        0 <= i < j < agents.len() ==> (#[trigger] agents[i]).agent_id != (
        #[trigger] agents[j]).agent_id
    &&& forall|i: int, j: int|
        0 <= i < j < agents.len() ==> (#[trigger] agents[i]).runs >= (#[trigger] agents[j]).runs
    &&& forall|k: int, agent: Option<Id>|
        0 <= k < runs.len() && #[trigger] is_in(runs[k], Slice::Agent(agent)) ==> is_shown(
            agents,
            agent,
        )
}

proof fn occurring_slice_counts(runs: Seq<CheckedRun>, s: Slice, k: int)
    requires
        0 <= k < runs.len(),
        is_in(runs[k], s),
    ensures
        runs_in(runs, s) > 0,
    decreases runs.len(),
{
    if k < runs.len() - 1 {
        occurring_slice_counts(runs.drop_last(), s, k);
    }
}

fn holds_agent(agents: &Vec<AgentGrounding>, agent: Option<Id>) -> (r: bool)
    ensures
        r == is_shown(agents@, agent),
{
    let mut i: usize = 0;
    while i < agents.len()
        invariant
            i <= agents@.len(),
            forall|k: int| 0 <= k < i ==> (#[trigger] agents@[k]).agent_id != agent,
        decreases agents@.len() - i,
    {
        if same_id(agents[i].agent_id, agent) {
            assert(agents@[i as int].agent_id == agent);
            return true;
        }
        i = i + 1;
    }
    false
}

/// The live checks, agent by agent.
pub fn by_agent(runs: &Vec<CheckedRun>) -> (r: Vec<AgentGrounding>)
    requires
        runs@.len() <= 0x8000_0000,
    ensures
        agents_of(runs@, r@),
{
    let mut agents: Vec<AgentGrounding> = Vec::new();
    let mut i: usize = 0;
    while i < runs.len()
        invariant
            i <= runs@.len(),
            runs@.len() <= 0x8000_0000,
            forall|k: int| 0 <= k < agents@.len() ==> agent_shown(runs@, #[trigger] agents@[k]),
            forall|a: int, b: int|
                0 <= a < b < agents@.len() ==> (#[trigger] agents@[a]).agent_id != (
                #[trigger] agents@[b]).agent_id,
            forall|a: int, b: int|
                0 <= a < b < agents@.len() ==> (#[trigger] agents@[a]).runs >= (
                #[trigger] agents@[b]).runs,
            forall|k: int, agent: Option<Id>|
                0 <= k < i && #[trigger] is_in(runs@[k], Slice::Agent(agent)) ==> is_shown(
                    agents@,
                    agent,
                ),
        decreases runs@.len() - i,
    {
        let ghost before = agents@;
        match &runs[i].message {
            Some(m) => {
                let agent = agent_id(m);
                if live_answer(&runs[i]) && !holds_agent(&agents, agent) {
                    let part = Part::Agent(agent);
                    proof {
                        assert(is_in(runs@[i as int], Slice::Agent(agent)));
                        occurring_slice_counts(runs@, Slice::Agent(agent), i as int);
                    }
                    let agent_name = match &m.agent {
                        Some(a) => Some(a.name.clone()),
                        None => None,
                    };
                    let many: i64 = count_runs(runs, part);
                    let g = AgentGrounding {
                        agent_id: agent,
                        agent_name,
                        scores: pick_scores(runs, part),
                        runs: many,
                    };
                    assert(opt_text(g.agent_name) == agent_name_of(runs@[i as int].message->0));
                    assert(agent_shown(runs@, g));
                    let mut at: usize = agents.len();
                    while 0 < at && agents[at - 1].runs < many
                        invariant
                            at <= agents@.len(),
                            agents@ == before,
                            forall|k: int|
                                at <= k < agents@.len() ==> (#[trigger] agents@[k]).runs < many,
                        decreases at,
                    {
                        at = at - 1;
                    }
                    agents.insert(at, g);
                    proof {
                        let placed = agents@;
                        assert(placed[at as int] == g);
                        assert(is_shown(placed, agent));
                        assert forall|x: Option<Id>| is_shown(before, x) implies #[trigger] is_shown(
                            placed,
                            x,
                        ) by {
                            let k = choose|k: int|
                                0 <= k < before.len() && (#[trigger] before[k]).agent_id == x;
                            if k < at {
                                assert(placed[k] == before[k]);
                            } else {
                                assert(placed[k + 1] == before[k]);
                            }
                        }
                        assert forall|k: int| 0 <= k < placed.len() implies agent_shown(
                            runs@,
                            #[trigger] placed[k],
                        ) by {
                            if k < at {
                                assert(placed[k] == before[k]);
                            } else if k > at {
                                assert(placed[k] == before[k - 1]);
                            }
                        }
                        assert forall|a: int, b: int| 0 <= a < b < placed.len() implies (
                        #[trigger] placed[a]).agent_id != (#[trigger] placed[b]).agent_id
                            && placed[a].runs >= placed[b].runs by {
                            if a < at {
                                assert(placed[a] == before[a]);
                            } else if a > at {
                                assert(placed[a] == before[a - 1]);
                            }
                            if b < at {
                                assert(placed[b] == before[b]);
                            } else if b > at {
                                assert(placed[b] == before[b - 1]);
                            }
                        }
                    }
                }
            },
            None => {},
        }
        assert forall|k: int, agent: Option<Id>|
            0 <= k < i + 1 && #[trigger] is_in(runs@[k], Slice::Agent(agent)) implies is_shown(
            agents@,
            agent,
        ) by {
            if k < i {
                assert(is_shown(before, agent));
            }
        }
        i = i + 1;
    }
    agents
}

/// Whether one run is listed before another: by score, the lower before the higher and then the
/// newer before the older; or the newer before the older alone.
pub open spec fn goes_before(a: CheckedRun, b: CheckedRun, by_score: bool) -> bool {
    if by_score && a.score->0 != b.score->0 {
        a.score->0 < b.score->0
    } else {
        a.created_at > b.created_at
    }
}

/// Where the run is that goes before the others.
pub open spec fn foremost(s: Seq<CheckedRun>, by_score: bool) -> int
    decreases s.len(),
{
    if s.len() <= 1 {
        0
    } else {
        let m = foremost(s.drop_last(), by_score);
        if goes_before(s.last(), s[m], by_score) {
            s.len() - 1
        } else {
            m
        }
    }
}

/// The first so many runs, in their order.
pub open spec fn ranked(s: Seq<CheckedRun>, n: nat, by_score: bool) -> Seq<CheckedRun>
    decreases n,
{
    if n == 0 || s.len() == 0 {
        Seq::empty()
    } else {
        let m = foremost(s, by_score);
        seq![s[m]] + ranked(s.remove(m), (n - 1) as nat, by_score)
    }
}

/// A live check that the drill-down is about: one of an answer that still stands, with a score.
pub open spec fn is_drilled(run: CheckedRun) -> bool {
    is_live_answer(run) && run.message is Some && run.status@ == "succeeded"@ && run.score is Some
}

/// The runs that are ranked: those of the drill-down, or the checks of drafts.
pub open spec fn to_rank(runs: Seq<CheckedRun>, by_score: bool) -> Seq<CheckedRun>
    decreases runs.len(),
{
    if runs.len() == 0 {
        Seq::empty()
    } else {
        let before = to_rank(runs.drop_last(), by_score);
        let last = runs.last();
        if (if by_score {
            is_drilled(last)
        } else {
            last.mode@ == "verify_draft"@
        }) {
            before.push(last)
        } else {
            before
        }
    }
}

/// The runs at some places.
spec fn at_places(runs: Seq<CheckedRun>, places: Seq<usize>) -> Seq<CheckedRun> {
    places.map_values(|i: usize| runs[i as int])
}

spec fn are_places(runs: Seq<CheckedRun>, places: Seq<usize>) -> bool {
    forall|i: int| 0 <= i < places.len() ==> (#[trigger] places[i]) < runs.len()
}

fn pick(runs: &Vec<CheckedRun>, by_score: bool) -> (r: Vec<usize>)
    ensures
        are_places(runs@, r@),
        at_places(runs@, r@) == to_rank(runs@, by_score),
{
    let mut out: Vec<usize> = Vec::new();
    let mut i: usize = 0;
    assert(runs@.take(0) == Seq::<CheckedRun>::empty());
    assert(at_places(runs@, out@) =~= Seq::empty());
    while i < runs.len()
        invariant
            i <= runs@.len(),
            are_places(runs@, out@),
            at_places(runs@, out@) == to_rank(runs@.take(i as int), by_score),
        decreases runs@.len() - i,
    {
        assert(runs@.take(i as int + 1).drop_last() == runs@.take(i as int));
        let run = &runs[i];
        let fits = if by_score {
            live_answer(run) && run.message.is_some() && same(run.status.as_str(), "succeeded")
                && run.score.is_some()
        } else {
            same(run.mode.as_str(), "verify_draft")
        };
        let ghost before = out@;
        if fits {
            out.push(i);
            assert(at_places(runs@, out@) =~= at_places(runs@, before).push(runs@[i as int]));
        }
        i = i + 1;
    }
    assert(runs@.take(runs@.len() as int) == runs@);
    out
}

fn comes_first(a: &CheckedRun, b: &CheckedRun, by_score: bool) -> (r: bool)
    requires
        by_score ==> a.score is Some && b.score is Some,
    ensures
        r == goes_before(*a, *b, by_score),
{
    if by_score {
        match (a.score, b.score) {
            (Some(x), Some(y)) => {
                if x != y {
                    return x < y;
                }
            },
            _ => {},
        }
    }
    a.created_at > b.created_at
}

spec fn have_scores(s: Seq<CheckedRun>) -> bool {
    forall|i: int| 0 <= i < s.len() ==> (#[trigger] s[i]).score is Some
}

proof fn drilled_have_scores(runs: Seq<CheckedRun>)
    ensures
        have_scores(to_rank(runs, true)),
        forall|i: int| 0 <= i < to_rank(runs, true).len() ==> is_drilled(#[trigger] to_rank(runs, true)[i]),
    decreases runs.len(),
{
    if runs.len() > 0 {
        drilled_have_scores(runs.drop_last());
    }
}

proof fn foremost_is_one(s: Seq<CheckedRun>, by_score: bool)
    requires
        s.len() > 0,
    ensures
        0 <= foremost(s, by_score) < s.len(),
    decreases s.len(),
{
    if s.len() > 1 {
        foremost_is_one(s.drop_last(), by_score);
    }
}

fn find_foremost(runs: &Vec<CheckedRun>, places: &Vec<usize>, by_score: bool) -> (r: usize)
    requires
        places@.len() > 0,
        are_places(runs@, places@),
        by_score ==> have_scores(at_places(runs@, places@)),
    ensures
        r == foremost(at_places(runs@, places@), by_score),
        r < places@.len(),
{
    let ghost all = at_places(runs@, places@);
    let mut best: usize = 0;
    let mut i: usize = 1;
    assert(all.take(1).len() == 1);
    while i < places.len()
        invariant
            1 <= i <= places@.len(),
            best < i,
            are_places(runs@, places@),
            all == at_places(runs@, places@),
            by_score ==> have_scores(all),
            best == foremost(all.take(i as int), by_score),
        decreases places@.len() - i,
    {
        assert(all[i as int] == runs@[places@[i as int] as int]);
        assert(all[best as int] == runs@[places@[best as int] as int]);
        assert(all.take(i as int + 1).drop_last() =~= all.take(i as int));
        if comes_first(&runs[places[i]], &runs[places[best]], by_score) {
            best = i;
        }
        i = i + 1;
    }
    assert(all.take(places@.len() as int) =~= all);
    best
}

fn rank(runs: &Vec<CheckedRun>, places: Vec<usize>, n: usize, by_score: bool) -> (r: Vec<usize>)
    requires
        are_places(runs@, places@),
        by_score ==> have_scores(at_places(runs@, places@)),
    ensures
        are_places(runs@, r@),
        at_places(runs@, r@) == ranked(at_places(runs@, places@), n as nat, by_score),
{
    let ghost whole = ranked(at_places(runs@, places@), n as nat, by_score);
    let mut rest = places;
    let mut out: Vec<usize> = Vec::new();
    let mut left: usize = n;
    assert(at_places(runs@, out@) =~= Seq::empty());
    assert(whole =~= at_places(runs@, out@) + ranked(at_places(runs@, rest@), left as nat, by_score));
    while 0 < left && rest.len() > 0
        invariant
            are_places(runs@, rest@),
            are_places(runs@, out@),
            by_score ==> have_scores(at_places(runs@, rest@)),
            whole == at_places(runs@, out@) + ranked(at_places(runs@, rest@), left as nat, by_score),
        decreases left,
    {
        let ghost all = at_places(runs@, rest@);
        let ghost before = out@;
        let ghost pool = rest@;
        let m = find_foremost(runs, &rest, by_score);
        let p = rest.remove(m);
        assert(all[m as int] == runs@[p as int]);
        assert(at_places(runs@, rest@) =~= all.remove(m as int));
        out.push(p);
        proof {
            assert(at_places(runs@, out@) =~= at_places(runs@, before).push(all[m as int]));
            let tail = ranked(all.remove(m as int), (left - 1) as nat, by_score);
            assert(at_places(runs@, before) + (seq![all[m as int]] + tail) =~= at_places(
                runs@,
                out@,
            ) + tail);
            if by_score {
                assert forall|k: int| 0 <= k < all.remove(m as int).len() implies (
                #[trigger] all.remove(m as int)[k]).score is Some by {
                    if k < m {
                        assert(all.remove(m as int)[k] == all[k]);
                    } else {
                        assert(all.remove(m as int)[k] == all[k + 1]);
                    }
                }
            }
            assert forall|k: int| 0 <= k < rest@.len() implies (#[trigger] rest@[k]) < runs@.len() by {
                if k < m {
                    assert(rest@[k] == pool[k]);
                } else {
                    assert(rest@[k] == pool[k + 1]);
                }
            }
        }
        left = left - 1;
    }
    assert(ranked(at_places(runs@, rest@), left as nat, by_score) =~= Seq::empty());
    assert(whole =~= at_places(runs@, out@));
    out
}

proof fn foremost_goes_first(s: Seq<CheckedRun>, by_score: bool, i: int)
    requires
        0 <= i < s.len(),
    ensures
        0 <= foremost(s, by_score) < s.len(),
        !goes_before(s[i], s[foremost(s, by_score)], by_score),
    decreases s.len(),
{
    foremost_is_one(s, by_score);
    if s.len() > 1 {
        foremost_is_one(s.drop_last(), by_score);
        if i < s.len() - 1 {
            foremost_goes_first(s.drop_last(), by_score, i);
            assert(s.drop_last()[i] == s[i]);
        }
    }
}

/// A ranked list holds as many runs as asked for, or all; each is one of those that were ranked;
/// and none of those, left out or not, goes before the first.
pub proof fn ranked_lists_start_with_the_foremost(s: Seq<CheckedRun>, n: nat, by_score: bool)
    ensures
        ranked(s, n, by_score).len() == (if n < s.len() {
            n
        } else {
            s.len()
        }),
        forall|k: int| 0 <= k < ranked(s, n, by_score).len() ==> s.contains(#[trigger] ranked(s, n, by_score)[k]),
        n > 0 ==> forall|i: int|
            0 <= i < s.len() ==> !goes_before(#[trigger] s[i], ranked(s, n, by_score)[0], by_score),
    decreases n,
{
    if n > 0 && s.len() > 0 {
        let m = foremost(s, by_score);
        foremost_is_one(s, by_score);
        let tail = s.remove(m);
        ranked_lists_start_with_the_foremost(tail, (n - 1) as nat, by_score);
        let list = ranked(s, n, by_score);
        assert forall|k: int| 0 <= k < list.len() implies s.contains(#[trigger] list[k]) by {
            if k == 0 {
                assert(list[0] == s[m]);
            } else {
                let later = ranked(tail, (n - 1) as nat, by_score);
                assert(list[k] == later[k - 1]);
                let j = choose|j: int| 0 <= j < tail.len() && tail[j] == later[k - 1];
                if j < m {
                    assert(s[j] == list[k]);
                } else {
                    assert(s[j + 1] == list[k]);
                }
            }
        }
        assert forall|i: int| 0 <= i < s.len() implies !goes_before(
            #[trigger] s[i],
            list[0],
            by_score,
        ) by {
            foremost_goes_first(s, by_score, i);
        }
    }
}

/// In a ranked list no run goes before one that is listed above it.
pub proof fn ranked_lists_are_in_order(s: Seq<CheckedRun>, n: nat, by_score: bool, i: int, j: int)
    requires
        0 <= i < j < ranked(s, n, by_score).len(),
    ensures
        !goes_before(ranked(s, n, by_score)[j], ranked(s, n, by_score)[i], by_score),
    decreases n,
{
    if n > 0 && s.len() > 0 {
        let m = foremost(s, by_score);
        let list = ranked(s, n, by_score);
        let later = ranked(s.remove(m), (n - 1) as nat, by_score);
        if i == 0 {
            ranked_lists_start_with_the_foremost(s, n, by_score);
            assert(s.contains(list[j]));
        } else {
            assert(list[i] == later[i - 1] && list[j] == later[j - 1]);
            ranked_lists_are_in_order(s.remove(m), (n - 1) as nat, by_score, i - 1, j - 1);
        }
    }
}

/// The runs that a ranked list leaves out.
pub open spec fn left_out(s: Seq<CheckedRun>, n: nat, by_score: bool) -> Seq<CheckedRun>
    decreases n,
{
    if n == 0 || s.len() == 0 {
        s
    } else {
        left_out(s.remove(foremost(s, by_score)), (n - 1) as nat, by_score)
    }
}

proof fn left_out_are_among(s: Seq<CheckedRun>, n: nat, by_score: bool, j: int)
    requires
        0 <= j < left_out(s, n, by_score).len(),
    ensures
        s.contains(left_out(s, n, by_score)[j]),
    decreases n,
{
    if n > 0 && s.len() > 0 {
        let m = foremost(s, by_score);
        foremost_is_one(s, by_score);
        let tail = s.remove(m);
        left_out_are_among(tail, (n - 1) as nat, by_score, j);
        let x = left_out(s, n, by_score)[j];
        let k = tail.index_of(x);
        if k < m {
            assert(s[k] == x);
        } else {
            assert(s[k + 1] == x);
        }
    }
}

/// A ranked list is what comes first of what was ranked: each run is listed or left out, and none
/// that is left out goes before any that is listed.
pub proof fn ranked_lists_leave_out_the_rest(s: Seq<CheckedRun>, n: nat, by_score: bool)
    ensures
        ranked(s, n, by_score).to_multiset().add(left_out(s, n, by_score).to_multiset())
            == s.to_multiset(),
        forall|j: int, k: int|
            0 <= j < left_out(s, n, by_score).len() && 0 <= k < ranked(s, n, by_score).len()
                ==> !goes_before(
                #[trigger] left_out(s, n, by_score)[j],
                #[trigger] ranked(s, n, by_score)[k],
                by_score,
            ),
    decreases n,
{
    broadcast use {
        vstd::multiset::group_multiset_axioms,
        vstd::seq_lib::group_to_multiset_ensures,
        vstd::seq_lib::to_multiset_insert,
    };

    let list = ranked(s, n, by_score);
    let rest = left_out(s, n, by_score);
    if n > 0 && s.len() > 0 {
        let m = foremost(s, by_score);
        foremost_is_one(s, by_score);
        let tail = s.remove(m);
        let later = ranked(tail, (n - 1) as nat, by_score);
        ranked_lists_leave_out_the_rest(tail, (n - 1) as nat, by_score);
        assert(list =~= seq![s[m]] + later);
        assert(list =~= later.insert(0, s[m]));
        assert(list.to_multiset() == later.to_multiset().insert(s[m]));
        assert(s =~= tail.insert(m, s[m]));
        assert(s.to_multiset() == tail.to_multiset().insert(s[m]));
        assert(list.to_multiset().add(rest.to_multiset()) =~= s.to_multiset());
        assert forall|j: int, k: int| 0 <= j < rest.len() && 0 <= k < list.len() implies !goes_before(
            #[trigger] rest[j],
            #[trigger] list[k],
            by_score,
        ) by {
            if k == 0 {
                left_out_are_among(s, n, by_score, j);
                foremost_goes_first(s, by_score, s.index_of(rest[j]));
            } else {
                assert(list[k] == later[k - 1]);
            }
        }
    } else {
        assert(list.to_multiset().add(rest.to_multiset()) =~= s.to_multiset());
    }
}

/// How much of an answer the drill-down shows, in characters.
pub const SNIPPET: usize = 160;

/// How many answers the drill-down shows.
pub const LOWEST: usize = 10;

/// How many checks of drafts are listed.
pub const RECENT: usize = 15;

/// That the verdicts of a run that are flagged can be counted.
pub open spec fn flagged_fits(run: CheckedRun) -> bool {
    i32::MIN <= counted(run.contradicted) + counted(run.not_mentioned) <= i32::MAX
}

/// A live check in the drill-down: what is not supported is flagged.
pub open spec fn interaction_shown(run: CheckedRun, r: LiveInteraction) -> bool {
    &&& r.run_id == run.run_id
    &&& run.message matches Some(m) && {
        &&& r.message_id == m.id
        &&& r.chat_id == m.chat_id
        &&& r.snippet@ == clipped(m.content@, SNIPPET as nat)
    }
    &&& r.score == run.score
    &&& r.flagged == counted(run.contradicted) + counted(run.not_mentioned)
    &&& r.created_at@ == shown(run.created_at)
}

/// A check of a draft as it is listed.
pub open spec fn draft_shown(run: CheckedRun, r: DraftRun) -> bool {
    &&& r.run_id == run.run_id
    &&& r.target_type@ == run.target_type@
    &&& r.status@ == run.status@
    &&& r.score == run.score
    &&& r.supported == counted(run.supported)
    &&& r.contradicted == counted(run.contradicted)
    &&& r.not_mentioned == counted(run.not_mentioned)
    &&& r.created_at@ == shown(run.created_at)
}

fn or_zero(n: Option<i32>) -> (r: i32)
    ensures
        r == counted(n),
{
    match n {
        Some(k) => k,
        None => 0,
    }
}

fn live_interaction(run: &CheckedRun, m: &CheckedMessage) -> (r: LiveInteraction)
    requires
        flagged_fits(*run),
        run.message == Some(*m),
    ensures
        interaction_shown(*run, r),
{
    let flagged: i64 = count(run.contradicted) + count(run.not_mentioned);
    LiveInteraction {
        run_id: run.run_id,
        message_id: m.id,
        chat_id: m.chat_id,
        snippet: clip(m.content.as_str(), SNIPPET),
        score: run.score,
        flagged: flagged as i32,
        created_at: show(run.created_at),
    }
}

fn draft_run(run: &CheckedRun) -> (r: DraftRun)
    ensures
        draft_shown(*run, r),
{
    DraftRun {
        run_id: run.run_id,
        target_type: run.target_type.clone(),
        status: run.status.clone(),
        score: run.score,
        supported: or_zero(run.supported),
        contradicted: or_zero(run.contradicted),
        not_mentioned: or_zero(run.not_mentioned),
        created_at: show(run.created_at),
    }
}

/// The answers with the lowest scores, the newer first where they are the same.
pub fn lowest_interactions(runs: &Vec<CheckedRun>) -> (r: Vec<LiveInteraction>)
    requires
        forall|k: int| 0 <= k < runs@.len() ==> flagged_fits(#[trigger] runs@[k]),
    ensures
        r@.len() == ranked(to_rank(runs@, true), LOWEST as nat, true).len(),
        forall|i: int|
            0 <= i < r@.len() ==> interaction_shown(
                ranked(to_rank(runs@, true), LOWEST as nat, true)[i],
                #[trigger] r@[i],
            ),
{
    let ghost list = ranked(to_rank(runs@, true), LOWEST as nat, true);
    proof {
        drilled_have_scores(runs@);
        ranked_lists_start_with_the_foremost(to_rank(runs@, true), LOWEST as nat, true);
    }
    let places = pick(runs, true);
    let top = rank(runs, places, LOWEST, true);
    let mut out: Vec<LiveInteraction> = Vec::new();
    let mut i: usize = 0;
    while i < top.len()
        invariant
            i <= top@.len(),
            out@.len() == i,
            are_places(runs@, top@),
            list == at_places(runs@, top@),
            forall|k: int| 0 <= k < list.len() ==> is_drilled(#[trigger] list[k]),
            forall|k: int| 0 <= k < runs@.len() ==> flagged_fits(#[trigger] runs@[k]),
            forall|k: int| 0 <= k < i ==> interaction_shown(list[k], #[trigger] out@[k]),
        decreases top@.len() - i,
    {
        let run = &runs[top[i]];
        assert(list[i as int] == *run);
        match &run.message {
            Some(m) => {
                out.push(live_interaction(run, m));
            },
            None => {
                assert(false);
            },
        }
        i = i + 1;
    }
    out
}

/// The newest checks of drafts.
pub fn recent_runs(runs: &Vec<CheckedRun>) -> (r: Vec<DraftRun>)
    ensures
        r@.len() == ranked(to_rank(runs@, false), RECENT as nat, false).len(),
        forall|i: int|
            0 <= i < r@.len() ==> draft_shown(
                ranked(to_rank(runs@, false), RECENT as nat, false)[i],
                #[trigger] r@[i],
            ),
{
    let ghost list = ranked(to_rank(runs@, false), RECENT as nat, false);
    let places = pick(runs, false);
    let top = rank(runs, places, RECENT, false);
    let mut out: Vec<DraftRun> = Vec::new();
    let mut i: usize = 0;
    while i < top.len()
        invariant
            i <= top@.len(),
            out@.len() == i,
            are_places(runs@, top@),
            list == at_places(runs@, top@),
            forall|k: int| 0 <= k < i ==> draft_shown(list[k], #[trigger] out@[k]),
        decreases top@.len() - i,
    {
        let run = &runs[top[i]];
        assert(list[i as int] == *run);
        out.push(draft_run(run));
        i = i + 1;
    }
    out
}

/// What is shown of the runs.
pub open spec fn figures(
    runs: Seq<CheckedRun>,
    today: CalendarDate,
    a: GroundednessAnalytics,
) -> bool {
    let lowest = ranked(to_rank(runs, true), LOWEST as nat, true);
    let recent = ranked(to_rank(runs, false), RECENT as nat, false);
    &&& a.live_runs == runs_in(runs, Slice::Mode("live"@))
    &&& a.live_scores@ == scores_in(runs, Slice::Mode("live"@))
    &&& a.live_verdicts.supported == mix_of(runs, "live"@).0
    &&& a.live_verdicts.contradicted == mix_of(runs, "live"@).1
    &&& a.live_verdicts.not_mentioned == mix_of(runs, "live"@).2
    &&& match a.live_cited_fraction {
        Some(f) => f.0 == runs_in(runs, Slice::Cited) && f.1 == runs_in(runs, Slice::Answers) && f.1
            > 0,
        None => runs_in(runs, Slice::Answers) == 0,
    }
    &&& series_of(runs, "live"@, today, a.live_series@)
    &&& agents_of(runs, a.per_agent@)
    &&& a.lowest_interactions@.len() == lowest.len()
    &&& forall|i: int|
        0 <= i < lowest.len() ==> interaction_shown(lowest[i], #[trigger] a.lowest_interactions@[i])
    &&& a.draft_runs == runs_in(runs, Slice::Mode("verify_draft"@))
    &&& a.draft_scores@ == scores_in(runs, Slice::Mode("verify_draft"@))
    &&& a.draft_verdicts.supported == mix_of(runs, "verify_draft"@).0
    &&& a.draft_verdicts.contradicted == mix_of(runs, "verify_draft"@).1
    &&& a.draft_verdicts.not_mentioned == mix_of(runs, "verify_draft"@).2
    &&& counts_of(runs, "verify_draft"@, a.draft_by_status@)
    &&& series_of(runs, "verify_draft"@, today, a.draft_series@)
    &&& a.recent_runs@.len() == recent.len()
    &&& forall|i: int| 0 <= i < recent.len() ==> draft_shown(recent[i], #[trigger] a.recent_runs@[i])
}

/// How grounded answers and drafts have been, shown to whoever may see it. `runs` are all
/// checks there were.
pub fn analytics(
    permissions: Permissions,
    runs: &Vec<CheckedRun>,
    today: CalendarDate,
) -> (r: Result<GroundednessAnalytics, AppError>)
    requires
        runs@.len() <= 0x8000_0000,
        forall|k: int| 0 <= k < runs@.len() ==> flagged_fits(#[trigger] runs@[k]),
        is_date(today.year as int, today.month as int, today.day as int),
        today.year >= 0,
    ensures
        refusal(r) == refusal_in(permissions.groundedness_view),
        r matches Ok(a) ==> figures(runs@, today, a),
{
    match permissions.groundedness_view {
        Some(e) => {
            return Err(e);
        },
        None => {},
    }
    let answers: i64 = count_runs(runs, Part::Answers);
    let live_cited_fraction = if answers > 0 {
        Some((count_runs(runs, Part::Cited), answers))
    } else {
        None
    };
    Ok(
        GroundednessAnalytics {
            live_runs: count_runs(runs, Part::Mode("live")),
            live_scores: pick_scores(runs, Part::Mode("live")),
            live_verdicts: verdict_mix(runs, "live"),
            live_cited_fraction,
            live_series: series(runs, "live", today),
            per_agent: by_agent(runs),
            lowest_interactions: lowest_interactions(runs),
            draft_runs: count_runs(runs, Part::Mode("verify_draft")),
            draft_scores: pick_scores(runs, Part::Mode("verify_draft")),
            draft_verdicts: verdict_mix(runs, "verify_draft"),
            draft_by_status: count_by_status(runs, "verify_draft"),
            draft_series: series(runs, "verify_draft", today),
            recent_runs: recent_runs(runs),
        },
    )
}

/// The runs of a slice are counted one by one.
pub proof fn runs_are_counted_each(slice: Slice, s: Seq<CheckedRun>)
    ensures
        runs_in(s, slice)
            == s.filter(
                |x: CheckedRun| (
                    match slice {
                        Slice::Mode(mode) => x.mode@ == mode,
                        Slice::Day(mode, day) => x.mode@ == mode && x.day == day,
                        Slice::Answers => x.mode@ == "live"@ && x.target_type@ == "message"@,
                        Slice::Cited => x.mode@ == "live"@
                            && x.target_type@ == "message"@
                            && x.cited,
                        Slice::Agent(agent) => x.mode@ == "live"@
                            && x.target_type@ == "message"@
                            && x.message is Some
                            && (match x.message->0.agent { Some(a) => Some(a.id), None => None })
                                == agent,
                    }
                )
            ).len(),
    decreases s.len(),
{
    let p = |x: CheckedRun| (
            match slice {
                Slice::Mode(mode) => x.mode@ == mode,
                Slice::Day(mode, day) => x.mode@ == mode && x.day == day,
                Slice::Answers => x.mode@ == "live"@ && x.target_type@ == "message"@,
                Slice::Cited => x.mode@ == "live"@ && x.target_type@ == "message"@ && x.cited,
                Slice::Agent(agent) => x.mode@ == "live"@
                    && x.target_type@ == "message"@
                    && x.message is Some
                    && (match x.message->0.agent { Some(a) => Some(a.id), None => None }) == agent,
            }
        );
    selects_last(s, p);
    if s.len() > 0 {
        runs_are_counted_each(slice, s.drop_last());
    }
}

/// The scores of a slice are those of its runs that succeeded, each of them.
pub proof fn scores_are_of_runs_that_succeeded(slice: Slice, s: Seq<CheckedRun>)
    ensures
        scores_in(s, slice)
            == s.filter(
                |x: CheckedRun| (
                    match slice {
                        Slice::Mode(mode) => x.mode@ == mode,
                        Slice::Day(mode, day) => x.mode@ == mode && x.day == day,
                        Slice::Answers => x.mode@ == "live"@ && x.target_type@ == "message"@,
                        Slice::Cited => x.mode@ == "live"@
                            && x.target_type@ == "message"@
                            && x.cited,
                        Slice::Agent(agent) => x.mode@ == "live"@
                            && x.target_type@ == "message"@
                            && x.message is Some
                            && (match x.message->0.agent { Some(a) => Some(a.id), None => None })
                                == agent,
                    }
                )
                    && x.status@ == "succeeded"@
                    && x.score is Some
            ).map_values(|x: CheckedRun| x.score->0),
    decreases s.len(),
{
    let p = |x: CheckedRun| (
            match slice {
                Slice::Mode(mode) => x.mode@ == mode,
                Slice::Day(mode, day) => x.mode@ == mode && x.day == day,
                Slice::Answers => x.mode@ == "live"@ && x.target_type@ == "message"@,
                Slice::Cited => x.mode@ == "live"@ && x.target_type@ == "message"@ && x.cited,
                Slice::Agent(agent) => x.mode@ == "live"@
                    && x.target_type@ == "message"@
                    && x.message is Some
                    && (match x.message->0.agent { Some(a) => Some(a.id), None => None }) == agent,
            }
        )
            && x.status@ == "succeeded"@
            && x.score is Some;
    selects_last(s, p);
    if s.len() > 0 {
        scores_are_of_runs_that_succeeded(slice, s.drop_last());
    }
    assert(scores_in(s, slice) =~= s.filter(p).map_values(|x: CheckedRun| x.score->0));
}

/// The runs of a mode with a status are counted one by one.
pub proof fn statuses_are_counted_each(mode: Seq<char>, status: Seq<char>, s: Seq<CheckedRun>)
    ensures
        runs_with(s, mode, status)
            == s.filter(|x: CheckedRun| x.mode@ == mode && x.status@ == status).len(),
    decreases s.len(),
{
    let p = |x: CheckedRun| x.mode@ == mode && x.status@ == status;
    selects_last(s, p);
    if s.len() > 0 {
        statuses_are_counted_each(mode, status, s.drop_last());
    }
}

/// What is ranked is every live check of an answer that still stands, with a score; or every check
/// of a draft.
pub proof fn what_is_ranked_is_all_there_is(by_score: bool, s: Seq<CheckedRun>)
    ensures
        to_rank(s, by_score)
            == s.filter(
                |x: CheckedRun| (
                    by_score
                        && x.mode@ == "live"@
                        && x.target_type@ == "message"@
                        && x.message is Some
                        && x.status@ == "succeeded"@
                        && x.score is Some
                )
                    || (!by_score && x.mode@ == "verify_draft"@)
            ),
        forall|x: CheckedRun|
            #[trigger] to_rank(s, by_score).contains(x)
                <==> s.contains(x)
                    && (
                        (
                            by_score
                                && x.mode@ == "live"@
                                && x.target_type@ == "message"@
                                && x.message is Some
                                && x.status@ == "succeeded"@
                                && x.score is Some
                        )
                            || (!by_score && x.mode@ == "verify_draft"@)
                    ),
    decreases s.len(),
{
    let p = |x: CheckedRun| (
            by_score
                && x.mode@ == "live"@
                && x.target_type@ == "message"@
                && x.message is Some
                && x.status@ == "succeeded"@
                && x.score is Some
        )
            || (!by_score && x.mode@ == "verify_draft"@);
    selects_last(s, p);
    selects_just(s, p);
    if s.len() > 0 {
        what_is_ranked_is_all_there_is(by_score, s.drop_last());
    }
    assert(to_rank(s, by_score) =~= s.filter(p));
    assert forall|x: CheckedRun|
        #[trigger] to_rank(s, by_score).contains(x)
            <==> s.contains(x)
                && (
                    (
                        by_score
                            && x.mode@ == "live"@
                            && x.target_type@ == "message"@
                            && x.message is Some
                            && x.status@ == "succeeded"@
                            && x.score is Some
                    )
                        || (!by_score && x.mode@ == "verify_draft"@)
                ) by {
        assert(s.filter(p).contains(x) <==> s.contains(x) && p(x));
    }
}

/// A day is shown with the runs and the scores of that day.
pub proof fn days_are_shown_whole(
    runs: Seq<CheckedRun>,
    mode: Seq<char>,
    day: CalendarDate,
    r: GroundednessDay,
)
    ensures
        day_shown(runs, mode, day, r) ==> {
            &&& r.day@ == date_text(day.year as int, day.month as int, day.day as int)
            &&& r.scores@ == scores_in(runs, Slice::Day(mode, day))
            &&& r.runs == runs_in(runs, Slice::Day(mode, day))
        },
{
}

/// An answer is shown with its score, its flags and the beginning of its text.
pub proof fn interactions_are_shown_whole(run: CheckedRun, r: LiveInteraction)
    ensures
        interaction_shown(run, r) ==> {
            &&& r.run_id == run.run_id
            &&& run.message matches Some(m)
                    && {
                        &&& r.message_id == m.id
                        &&& r.chat_id == m.chat_id
                        &&& r.snippet@ == clipped(m.content@, SNIPPET as nat)
                    }
            &&& r.score == run.score
            &&& r.flagged == counted(run.contradicted) + counted(run.not_mentioned)
            &&& r.created_at@ == shown(run.created_at)
        },
{
}

/// A draft's run is shown as it is stored, a count that is not there as nought.
pub proof fn draft_runs_are_shown_whole(run: CheckedRun, r: DraftRun)
    ensures
        draft_shown(run, r) ==> {
            &&& r.run_id == run.run_id
            &&& r.target_type@ == run.target_type@
            &&& r.status@ == run.status@
            &&& r.score == run.score
            &&& r.supported == counted(run.supported)
            &&& r.contradicted == counted(run.contradicted)
            &&& r.not_mentioned == counted(run.not_mentioned)
            &&& r.created_at@ == shown(run.created_at)
        },
{
}

/// Verdicts of a mode are added up run by run: each run of the mode adds what it counted, a count
/// that is not there nothing, and a run of another mode adds nothing.
pub proof fn verdicts_add_up(runs: Seq<CheckedRun>, run: CheckedRun, mode: Seq<char>)
    ensures
        mix_of(Seq::<CheckedRun>::empty(), mode) == (0int, 0int, 0int),
        run.mode@ == mode ==> {
            let before = mix_of(runs, mode);
            let after = mix_of(runs.push(run), mode);
            &&& after.0 == before.0 + (match run.supported {
                Some(n) => n as int,
                None => 0,
            })
            &&& after.1 == before.1 + (match run.contradicted {
                Some(n) => n as int,
                None => 0,
            })
            &&& after.2 == before.2 + (match run.not_mentioned {
                Some(n) => n as int,
                None => 0,
            })
        },
        run.mode@ != mode ==> mix_of(runs.push(run), mode) == mix_of(runs, mode),
{
    assert(runs.push(run).drop_last() =~= runs);
}

/// The counts of all statuses together are the sum of each.
pub proof fn counts_add_up(counts: Seq<StatusCount>, c: StatusCount)
    ensures
        total_of(Seq::<StatusCount>::empty()) == 0,
        total_of(counts.push(c)) == total_of(counts) + c.count,
{
    assert(counts.push(c).drop_last() =~= counts);
}

/// The figures of the platform: how many answers and drafts were checked and how they fared, by
/// verdict, by day and by agent, the lowest answers and the latest drafts.
pub proof fn figures_are_of_the_runs(
    runs: Seq<CheckedRun>,
    today: CalendarDate,
    a: GroundednessAnalytics,
)
    ensures
        figures(runs, today, a) ==> {
            &&& a.live_runs == runs.filter(|x: CheckedRun| x.mode@ == "live"@).len()
            &&& a.draft_runs == runs.filter(|x: CheckedRun| x.mode@ == "verify_draft"@).len()
            &&& a.live_verdicts.supported == mix_of(runs, "live"@).0
            &&& a.live_verdicts.contradicted == mix_of(runs, "live"@).1
            &&& a.live_verdicts.not_mentioned == mix_of(runs, "live"@).2
            &&& a.draft_verdicts.supported == mix_of(runs, "verify_draft"@).0
            &&& a.draft_verdicts.contradicted == mix_of(runs, "verify_draft"@).1
            &&& a.draft_verdicts.not_mentioned == mix_of(runs, "verify_draft"@).2
            &&& a.live_scores@ == scores_in(runs, Slice::Mode("live"@))
            &&& a.draft_scores@ == scores_in(runs, Slice::Mode("verify_draft"@))
            &&& a.live_series@.len() == 30
            &&& a.draft_series@.len() == 30
            &&& a.lowest_interactions@.len() == ranked(to_rank(runs, true), 10, true).len()
            &&& a.recent_runs@.len() == ranked(to_rank(runs, false), 15, false).len()
            &&& a.live_cited_fraction is None <==> runs_in(runs, Slice::Answers) == 0
            &&& a.live_cited_fraction matches Some(f) ==> f.0 == runs_in(runs, Slice::Cited) && f.1
                == runs_in(runs, Slice::Answers)
            &&& forall|i: int|
                0 <= i < a.lowest_interactions@.len() ==> interaction_shown(
                    ranked(to_rank(runs, true), 10, true)[i],
                    #[trigger] a.lowest_interactions@[i],
                )
            &&& forall|i: int|
                0 <= i < a.recent_runs@.len() ==> draft_shown(
                    ranked(to_rank(runs, false), 15, false)[i],
                    #[trigger] a.recent_runs@[i],
                )
            &&& forall|i: int|
                0 <= i < 30 ==> day_shown(
                    runs,
                    "live"@,
                    days_up_to(today, 30)[i],
                    #[trigger] a.live_series@[i],
                )
            &&& forall|i: int|
                0 <= i < 30 ==> day_shown(
                    runs,
                    "verify_draft"@,
                    days_up_to(today, 30)[i],
                    #[trigger] a.draft_series@[i],
                )
        },
{
    runs_are_counted_each(Slice::Mode("live"@), runs);
    runs_are_counted_each(Slice::Mode("verify_draft"@), runs);
    let live = |x: CheckedRun| x.mode@ == "live"@;
    let drafts = |x: CheckedRun| x.mode@ == "verify_draft"@;
    selections_agree(runs, Slice::Mode("live"@), live);
    selections_agree(runs, Slice::Mode("verify_draft"@), drafts);
}

proof fn selections_agree(runs: Seq<CheckedRun>, s: Slice, p: spec_fn(CheckedRun) -> bool)
    requires
        forall|x: CheckedRun| #[trigger] is_in(x, s) <==> p(x),
    ensures
        runs_in(runs, s) == runs.filter(p).len(),
    decreases runs.len(),
{
    selects_last(runs, p);
    if runs.len() > 0 {
        selections_agree(runs.drop_last(), s, p);
        assert(is_in(runs.last(), s) <==> p(runs.last()));
    }
}

/// An agent is shown with the answers that it gave and were checked, one at least, and every agent
/// that gave one is shown once, those with more of them first.
pub proof fn agents_are_shown_once(runs: Seq<CheckedRun>, agents: Seq<AgentGrounding>)
    ensures
        agents_of(runs, agents) ==> {
            &&& forall|i: int|
                #![trigger agents[i]]
                0 <= i < agents.len() ==> agents[i].runs == runs_in(
                    runs,
                    Slice::Agent(agents[i].agent_id),
                ) && agents[i].runs > 0 && agents[i].scores@ == scores_in(
                    runs,
                    Slice::Agent(agents[i].agent_id),
                )
            &&& forall|i: int, j: int|
                #![trigger agents[i], agents[j]]
                0 <= i < j < agents.len() ==> agents[i].agent_id != agents[j].agent_id
                    && agents[i].runs >= agents[j].runs
            &&& forall|k: int|
                #![trigger runs[k]]
                0 <= k < runs.len() && runs[k].mode@ == "live"@ && runs[k].target_type@
                    == "message"@ && runs[k].message is Some ==> exists|i: int|
                    0 <= i < agents.len() && (#[trigger] agents[i]).agent_id == (
                    match runs[k].message->0.agent {
                        Some(a) => Some(a.id),
                        None => None,
                    })
        },
{
    if agents_of(runs, agents) {
        assert forall|k: int|
            #![trigger runs[k]]
            0 <= k < runs.len() && runs[k].mode@ == "live"@ && runs[k].target_type@ == "message"@
                && runs[k].message is Some implies exists|i: int|
            0 <= i < agents.len() && (#[trigger] agents[i]).agent_id == (
            match runs[k].message->0.agent {
                Some(a) => Some(a.id),
                None => None,
            }) by {
            assert(is_in(runs[k], Slice::Agent(agent_of(runs[k].message->0))));
            assert(is_shown(agents, agent_of(runs[k].message->0)));
        }
    }
}

/// Which runs make up a slice of all of them.
pub proof fn slices_are_as_named(
    run: CheckedRun,
    mode: Seq<char>,
    day: CalendarDate,
    agent: Option<Id>,
)
    ensures
        is_in(run, Slice::Mode(mode)) <==> run.mode@ == mode,
        is_in(run, Slice::Day(mode, day)) <==> run.mode@ == mode && run.day == day,
        is_in(run, Slice::Answers) <==> run.mode@ == "live"@ && run.target_type@ == "message"@,
        is_in(run, Slice::Cited) <==> run.mode@ == "live"@ && run.target_type@ == "message"@
            && run.cited,
        is_in(run, Slice::Agent(agent)) <==> run.mode@ == "live"@ && run.target_type@ == "message"@
            && (run.message matches Some(m) && agent == (match m.agent {
            Some(a) => Some(a.id),
            None => None,
        })),
{
}

/// Every status that a run of the mode has is counted once, with as many runs as have it, those
/// with more of them first.
pub proof fn statuses_are_listed_once(
    runs: Seq<CheckedRun>,
    mode: Seq<char>,
    counts: Seq<StatusCount>,
)
    ensures
        counts_of(runs, mode, counts) ==> {
            &&& forall|i: int|
                #![trigger counts[i]]
                0 <= i < counts.len() ==> counts[i].count == runs_with(
                    runs,
                    mode,
                    counts[i].status@,
                ) && counts[i].count > 0
            &&& forall|i: int, j: int|
                #![trigger counts[i], counts[j]]
                0 <= i < j < counts.len() ==> counts[i].status@ != counts[j].status@
                    && counts[i].count >= counts[j].count
            &&& forall|k: int|
                #![trigger runs[k]]
                0 <= k < runs.len() && runs[k].mode@ == mode ==> exists|i: int|
                    0 <= i < counts.len() && (#[trigger] counts[i]).status@ == runs[k].status@
        },
{
    if counts_of(runs, mode, counts) {
        assert forall|k: int|
            #![trigger runs[k]]
            0 <= k < runs.len() && runs[k].mode@ == mode implies exists|i: int|
            0 <= i < counts.len() && (#[trigger] counts[i]).status@ == runs[k].status@ by {
            assert(is_counted(counts, runs[k].status@));
        }
    }
}

/// The day before: the day of the same month, the last of the month before, or the last of the
/// year before.
pub proof fn the_day_before(d: CalendarDate)
    requires
        is_date(d.year as int, d.month as int, d.day as int),
    ensures
        d.day > 1 ==> day_before(d) == (CalendarDate {
            year: d.year,
            month: d.month,
            day: (d.day - 1) as u8,
        }),
        d.day == 1 && d.month > 1 ==> day_before(d).year == d.year && day_before(d).month == d.month
            - 1 && day_before(d).day == days_in(d.year as int, d.month - 1),
        d.day == 1 && d.month == 1 ==> day_before(d).year == d.year - 1 && day_before(d).month == 12
            && day_before(d).day == 31,
{
}

/// Which run goes before another: by score the lower one, and else and by time the newer one.
pub proof fn which_run_goes_first(a: CheckedRun, b: CheckedRun)
    ensures
        goes_before(a, b, false) <==> a.created_at > b.created_at,
        a.score is Some && b.score is Some ==> (goes_before(a, b, true) <==> a.score->0 < b.score->0
            || (a.score->0 == b.score->0 && a.created_at > b.created_at)),
{
}

/// An agent is shown under a name that it has in a run of its own.
pub proof fn agents_are_called_as_in_their_runs(runs: Seq<CheckedRun>, a: AgentGrounding)
    ensures
        agent_shown(runs, a) ==> exists|k: int|
            #![trigger runs[k]]
            0 <= k < runs.len()
                && runs[k].mode@ == "live"@
                && runs[k].target_type@ == "message"@
                && (
            runs[k].message matches Some(m) && a.agent_id == (match m.agent {
                Some(x) => Some(x.id),
                None => None,
            }) && opt_text(a.agent_name) == (match m.agent {
                Some(x) => Some(x.name@),
                None => None,
            })),
{
    if agent_shown(runs, a) {
        let k = choose|k: int|
            0 <= k < runs.len() && is_in(#[trigger] runs[k], Slice::Agent(a.agent_id)) && opt_text(
                a.agent_name,
            ) == agent_name_of(runs[k].message->0);
        assert(0 <= k < runs.len());
        assert(runs[k].message is Some);
    }
}

/// The flags of a run fit where the two counts together do, a count that is not there being nought.
pub proof fn flags_that_fit(run: CheckedRun)
    ensures
        flagged_fits(run)
            <==> i32::MIN <= (match run.contradicted { Some(n) => n as int, None => 0 })
                + (match run.not_mentioned { Some(n) => n as int, None => 0 }) <= i32::MAX,
{
}

} // verus!
