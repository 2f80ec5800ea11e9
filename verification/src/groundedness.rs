//! Groundedness verification: whether an answer or a draft is supported by its
//! sources, and the repair of what is not.
//!
//! A live check runs after an answer has streamed and never stands in its way:
//! where the verifier has nothing to say, nothing is recorded. A draft check and
//! a repair run as background jobs and always reach an end.

use vstd::prelude::*;
use vstd::string::*;

use crate::lists::{selects_all_or_none, selects_just, selects_last};
use crate::error::{refusal, validation, AppError, Refusal};
use crate::ids::{id_of, id_text, id_to_text, parse_id};
use crate::json::{
    array_value,
    empty_object,
    id_value,
    json_in,
    jsons,
    keep_strings,
    list_at,
    member_at,
    number_value,
    put,
    read_list,
    read_text,
    strings_among,
    strings_are_kept,
    text_at,
    text_or_null,
    text_or_null_value,
    text_value,
    Json,
};
use crate::principal::{AuthContext, Id};
use crate::text::{
    contains, ends, ends_with, has_text, lowercase, opt_text, same, texts,
};
use crate::trail::{entry, note, record, ActorRole, AuditEvent};

verus! {

/// A stretch of an answer that the sources do not support.
pub struct Span {
    pub start: i64,
    pub end: i64,
    pub text: String,
    pub label: String,
}

/// What the verifier said of a live answer. `scored` is whether it gave a score;
/// without one it is switched off or out of reach.
pub struct LiveReply {
    pub scored: bool,
    pub total: i32,
    pub flagged: i32,
    pub model: String,
    pub spans: Vec<Span>,
}

/// The aggregate of one live check, as it is recorded.
pub struct LiveRun {
    pub total: i32,
    pub flagged: i32,
    pub supported: i32,
    pub contradicted: i32,
    pub not_mentioned: i32,
    pub strictness: String,
    pub model: String,
    pub spans: Vec<Span>,
}

pub open spec fn at_least_zero(n: int) -> int {
    if n < 0 {
        0
    } else {
        n
    }
}

/// How many of the spans are contradicted by the sources.
pub open spec fn contradictions(spans: Seq<Span>) -> nat
    decreases spans.len(),
{
    if spans.len() == 0 {
        0
    } else {
        contradictions(spans.drop_last()) + if spans.last().label@ == "contradicted"@ {
            1nat
        } else {
            0nat
        }
    }
}

/// How strict a check is where nothing is configured.
pub open spec fn strictness_of(configured: Option<Seq<char>>) -> Seq<char> {
    match configured {
        Some(s) => s,
        None => "strict"@,
    }
}

/// The configured strictness, or the strictest.
pub fn strictness_or_default(configured: Option<String>) -> (r: String)
    ensures
        r@ == strictness_of(opt_text(configured)),
{
    match configured {
        Some(s) => s,
        None => "strict".to_owned(),
    }
}

proof fn contradictions_at_most(spans: Seq<Span>)
    ensures
        contradictions(spans) <= spans.len(),
    decreases spans.len(),
{
    if spans.len() > 0 {
        contradictions_at_most(spans.drop_last());
    }
}

fn count_contradicted(spans: &Vec<Span>) -> (r: i32)
    requires
        spans@.len() <= i32::MAX,
    ensures
        r == contradictions(spans@),
{
    let mut n: i32 = 0;
    let mut i: usize = 0;
    assert(spans@.take(0) == Seq::<Span>::empty());
    while i < spans.len()
        invariant
            i <= spans@.len() <= i32::MAX,
            n == contradictions(spans@.take(i as int)),
            n <= i,
        decreases spans@.len() - i,
    {
        assert(spans@.take(i as int + 1).drop_last() == spans@.take(i as int));
        if same(spans[i].label.as_str(), "contradicted") {
            n = n + 1;
        }
        i = i + 1;
    }
    assert(spans@.take(spans@.len() as int) == spans@);
    n
}

fn not_below_zero(n: i32) -> (r: i32)
    ensures
        r == at_least_zero(n as int),
{
    if n < 0 {
        0
    } else {
        n
    }
}

/// What is recorded of a live check: nothing where the verifier failed or gave no
/// score, and otherwise its counts, with the flagged spans parted into those the
/// sources contradict and those they are silent on.
pub fn verify_message(reply: Option<LiveReply>, strictness: Option<String>) -> (r: Option<LiveRun>)
    requires
        reply matches Some(x) ==> x.spans@.len() <= i32::MAX,
    ensures
        match reply {
            Some(x) => if x.scored {
                r matches Some(run) && {
                    &&& run.total == at_least_zero(x.total as int)
                    &&& run.flagged == at_least_zero(x.flagged as int)
                    &&& run.supported == at_least_zero(run.total - run.flagged)
                    &&& run.contradicted == contradictions(x.spans@)
                    &&& run.not_mentioned == at_least_zero(run.flagged - run.contradicted)
                    &&& run.strictness@ == strictness_of(opt_text(strictness))
                    &&& run.model == x.model
                    &&& run.spans == x.spans
                }
            } else {
                r is None
            },
            None => r is None,
        },
{
    let x = match reply {
        Some(x) => x,
        None => {
            return None;
        },
    };
    if !x.scored {
        return None;
    }
    let total: i32 = not_below_zero(x.total);
    let flagged: i32 = not_below_zero(x.flagged);
    let supported: i32 = not_below_zero(total - flagged);
    let contradicted: i32 = count_contradicted(&x.spans);
    let not_mentioned: i32 = not_below_zero(flagged - contradicted);
    Some(
        LiveRun {
            total,
            flagged,
            supported,
            contradicted,
            not_mentioned,
            strictness: strictness_or_default(strictness),
            model: x.model,
            spans: x.spans,
        },
    )
}

/// Where in an answer a span stands.
pub open spec fn place_doc(s: Span) -> Json {
    Json::Object(
        Map::empty().insert("start"@, Json::Number(s.start as int)).insert(
            "end"@,
            Json::Number(s.end as int),
        ),
    )
}

/// The place of a span, as it is stored with its claim.
pub fn span_place(s: &Span) -> (r: serde_json::Value)
    ensures
        json_in(r) == place_doc(*s),
{
    let mut doc = empty_object();
    put(&mut doc, "start", number_value(s.start));
    put(&mut doc, "end", number_value(s.end));
    doc
}

/// A span with its words and what is wrong with it.
pub open spec fn span_doc(s: Span) -> Json {
    Json::Object(
        Map::empty().insert("start"@, Json::Number(s.start as int)).insert(
            "end"@,
            Json::Number(s.end as int),
        ).insert("text"@, Json::Text(s.text@)).insert("label"@, Json::Text(s.label@)),
    )
}

pub open spec fn span_docs(spans: Seq<Span>) -> Json {
    Json::List(spans.map_values(|s: Span| span_doc(s)))
}

fn spans_value(spans: &Vec<Span>) -> (r: serde_json::Value)
    ensures
        json_in(r) == span_docs(spans@),
{
    let mut items: Vec<serde_json::Value> = Vec::new();
    let mut i: usize = 0;
    while i < spans.len()
        invariant
            i <= spans@.len(),
            items@.len() == i,
            forall|k: int| 0 <= k < i ==> json_in(#[trigger] items@[k]) == span_doc(spans@[k]),
        decreases spans@.len() - i,
    {
        let s = &spans[i];
        let mut doc = span_place(s);
        put(&mut doc, "text", text_value(s.text.as_str()));
        put(&mut doc, "label", text_value(s.label.as_str()));
        items.push(doc);
        i = i + 1;
    }
    assert(jsons(items@) =~= spans@.map_values(|s: Span| span_doc(s)));
    array_value(items)
}

/// What a message keeps of its check, for whoever opens the chat again.
pub open spec fn summary_doc(run: LiveRun, score: Json) -> Json {
    Json::Object(
        Map::empty().insert("score"@, score).insert("total"@, Json::Number(run.total as int)).insert(
            "flagged"@,
            Json::Number(run.flagged as int),
        ).insert("contradicted"@, Json::Number(run.contradicted as int)).insert(
            "not_mentioned"@,
            Json::Number(run.not_mentioned as int),
        ).insert("model"@, Json::Text(run.model@)).insert("spans"@, span_docs(run.spans@)),
    )
}

/// The summary of a live check. `score` is the verifier's own number.
pub fn live_summary(run: &LiveRun, score: serde_json::Value) -> (r: serde_json::Value)
    ensures
        json_in(r) == summary_doc(*run, json_in(score)),
{
    let mut doc = empty_object();
    put(&mut doc, "score", score);
    put(&mut doc, "total", number_value(run.total as i64));
    put(&mut doc, "flagged", number_value(run.flagged as i64));
    put(&mut doc, "contradicted", number_value(run.contradicted as i64));
    put(&mut doc, "not_mentioned", number_value(run.not_mentioned as i64));
    put(&mut doc, "model", text_value(run.model.as_str()));
    put(&mut doc, "spans", spans_value(&run.spans));
    doc
}

/// What is audited of a live check: its counts, and no word of the answer.
pub open spec fn live_event_doc(run: LiveRun, chat_id: Id, run_id: Id, score: Json) -> Json {
    Json::Object(
        Map::empty().insert("chat_id"@, Json::Text(id_text(chat_id))).insert(
            "run_id"@,
            Json::Text(id_text(run_id)),
        ).insert("score"@, score).insert("total"@, Json::Number(run.total as int)).insert(
            "supported"@,
            Json::Number(run.supported as int),
        ).insert("contradicted"@, Json::Number(run.contradicted as int)).insert(
            "not_mentioned"@,
            Json::Number(run.not_mentioned as int),
        ).insert("model"@, Json::Text(run.model@)),
    )
}

/// The entry of a live check, for whoever the answer was for.
pub fn live_event(
    run: &LiveRun,
    user_id: Id,
    role: ActorRole,
    chat_id: Id,
    message_id: Id,
    run_id: Id,
    score: serde_json::Value,
) -> (e: AuditEvent)
    ensures
        e@ == entry(
            "groundedness.verified"@,
            role,
            Some(user_id),
            "message"@,
            Some(message_id),
        ).noting(live_event_doc(*run, chat_id, run_id, json_in(score))),
{
    let mut doc = empty_object();
    put(&mut doc, "chat_id", id_value(chat_id));
    put(&mut doc, "run_id", id_value(run_id));
    put(&mut doc, "score", score);
    put(&mut doc, "total", number_value(run.total as i64));
    put(&mut doc, "supported", number_value(run.supported as i64));
    put(&mut doc, "contradicted", number_value(run.contradicted as i64));
    put(&mut doc, "not_mentioned", number_value(run.not_mentioned as i64));
    put(&mut doc, "model", text_value(run.model.as_str()));
    note(record("groundedness.verified", role, Some(user_id), "message", Some(message_id)), doc)
}

/// What is done once the aggregate of a live check is stored, or was not.
#[derive(Clone, Copy, Debug, PartialEq, Eq, Structural)]
pub enum LiveAction {
    StoreVerdicts,
    SummariseOnMessage,
    Audit,
    PushToClient,
}

pub open spec fn live_actions(stored: bool, spans: nat) -> Seq<LiveAction> {
    if !stored {
        Seq::empty()
    } else if spans == 0 {
        seq![LiveAction::SummariseOnMessage, LiveAction::Audit, LiveAction::PushToClient]
    } else {
        seq![
            LiveAction::StoreVerdicts,
            LiveAction::SummariseOnMessage,
            LiveAction::Audit,
            LiveAction::PushToClient,
        ]
    }
}

/// The steps after the aggregate was stored. A run that could not be stored is
/// dropped altogether.
pub fn after_live_run(stored: bool, run: &LiveRun) -> (r: Vec<LiveAction>)
    ensures
        r@ == live_actions(stored, run.spans@.len()),
{
    let mut out: Vec<LiveAction> = Vec::new();
    if !stored {
        return out;
    }
    if run.spans.len() > 0 {
        out.push(LiveAction::StoreVerdicts);
    }
    out.push(LiveAction::SummariseOnMessage);
    out.push(LiveAction::Audit);
    out.push(LiveAction::PushToClient);
    out
}

/// Every live check that is recorded is audited, and nothing else happens of one
/// that is not.
pub proof fn every_live_run_is_audited(stored: bool, spans: nat)
    ensures
        stored ==> live_actions(stored, spans).contains(LiveAction::Audit),
        !stored ==> live_actions(stored, spans).len() == 0,
{
    if stored {
        if spans == 0 {
            assert(live_actions(stored, spans)[1] == LiveAction::Audit);
        } else {
            assert(live_actions(stored, spans)[2] == LiveAction::Audit);
        }
    }
}

/// A draft-check job's arguments.
pub struct DraftTask {
    pub run_id: Id,
    pub path: String,
    pub mime: Option<String>,
    pub kb_ids: Vec<String>,
}

pub open spec fn or_empty(o: Option<Seq<char>>) -> Seq<char> {
    match o {
        Some(s) => s,
        None => Seq::empty(),
    }
}

pub open spec fn run_id_in(payload: serde_json::Value) -> Option<Id> {
    match text_at(json_in(payload), "run_id"@) {
        Some(s) => id_of(s),
        None => None,
    }
}

pub open spec fn kb_ids_in(payload: serde_json::Value) -> Seq<Seq<char>> {
    match list_at(json_in(payload), "kb_ids"@) {
        Some(l) => strings_among(l),
        None => Seq::empty(),
    }
}

/// Reads the run that a job's payload names.
fn read_run_id(payload: &serde_json::Value) -> (r: Option<Id>)
    ensures
        r == run_id_in(*payload),
{
    match read_text(payload, "run_id") {
        Some(s) => parse_id(s.as_str()),
        None => None,
    }
}

/// Reads a draft-check job from its payload. Only the run has to be there.
pub fn read_draft_task(payload: &serde_json::Value) -> (r: Result<DraftTask, AppError>)
    ensures
        match run_id_in(*payload) {
            None => refusal(r) == Some(Refusal::Other("verify_draft: bad run_id"@)),
            Some(id) => r matches Ok(t) && {
                &&& t.run_id == id
                &&& t.path@ == or_empty(text_at(json_in(*payload), "path"@))
                &&& opt_text(t.mime) == text_at(json_in(*payload), "mime"@)
                &&& texts(t.kb_ids@) == kb_ids_in(*payload)
            },
        },
{
    let run_id = match read_run_id(payload) {
        Some(id) => id,
        None => {
            return Err(AppError::Other("verify_draft: bad run_id".to_owned()));
        },
    };
    let path = match read_text(payload, "path") {
        Some(p) => p,
        None => String::new(),
    };
    let mime = read_text(payload, "mime");
    let kb_ids = match read_list(payload, "kb_ids") {
        Some(l) => keep_strings(l),
        None => Vec::new(),
    };
    assert(list_at(json_in(*payload), "kb_ids"@) is Some || texts(kb_ids@) =~= Seq::<
        Seq<char>,
    >::empty());
    Ok(DraftTask { run_id, path, mime, kb_ids })
}

/// What a draft check does next.
#[derive(Clone, Copy, Debug, PartialEq, Eq, Structural)]
pub enum DraftAction {
    MarkRunning,
    NotifyRunning(Id),
    AskVerifier,
    MarkError,
    NotifyError(Id),
    StoreVerdicts,
    MarkSucceeded,
    Audit,
    NotifyComplete(Id),
}

/// What came back of the verifier for a draft.
#[derive(Clone, Copy, Debug, PartialEq, Eq, Structural)]
pub enum DraftReply {
    Failed,
    Verified { any_claims: bool },
}

pub open spec fn draft_opening(created_by: Option<Id>) -> Seq<DraftAction> {
    match created_by {
        Some(uid) => seq![
            DraftAction::MarkRunning,
            DraftAction::NotifyRunning(uid),
            DraftAction::AskVerifier,
        ],
        None => seq![DraftAction::MarkRunning, DraftAction::AskVerifier],
    }
}

pub open spec fn draft_closing(created_by: Option<Id>, reply: DraftReply) -> Seq<DraftAction> {
    match reply {
        DraftReply::Failed => match created_by {
            Some(uid) => seq![DraftAction::MarkError, DraftAction::NotifyError(uid)],
            None => seq![DraftAction::MarkError],
        },
        DraftReply::Verified { any_claims } => {
            let stored = if any_claims {
                seq![DraftAction::StoreVerdicts]
            } else {
                Seq::empty()
            };
            let told = match created_by {
                Some(uid) => seq![DraftAction::NotifyComplete(uid)],
                None => Seq::empty(),
            };
            stored + seq![DraftAction::MarkSucceeded, DraftAction::Audit] + told
        },
    }
}

/// How a draft check begins.
pub fn begin_draft(created_by: Option<Id>) -> (r: Vec<DraftAction>)
    ensures
        r@ == draft_opening(created_by),
{
    let mut out: Vec<DraftAction> = Vec::new();
    out.push(DraftAction::MarkRunning);
    match created_by {
        Some(uid) => {
            out.push(DraftAction::NotifyRunning(uid));
        },
        None => {},
    }
    out.push(DraftAction::AskVerifier);
    out
}

/// How a draft check ends: a verifier that fails ends it too, so that it is not
/// tried again and no verdict is stored twice.
pub fn verify_draft(created_by: Option<Id>, reply: DraftReply) -> (r: Vec<DraftAction>)
    ensures
        r@ == draft_closing(created_by, reply),
{
    let mut out: Vec<DraftAction> = Vec::new();
    match reply {
        DraftReply::Failed => {
            out.push(DraftAction::MarkError);
            match created_by {
                Some(uid) => {
                    out.push(DraftAction::NotifyError(uid));
                },
                None => {},
            }
        },
        DraftReply::Verified { any_claims } => {
            if any_claims {
                out.push(DraftAction::StoreVerdicts);
            }
            out.push(DraftAction::MarkSucceeded);
            out.push(DraftAction::Audit);
            match created_by {
                Some(uid) => {
                    out.push(DraftAction::NotifyComplete(uid));
                },
                None => {},
            }
        },
    }
    out
}

/// A draft check always ends: in an error or in a success, and not in both. It is
/// audited exactly where it succeeded.
pub proof fn draft_ends_once(created_by: Option<Id>, reply: DraftReply)
    ensures
        draft_closing(created_by, reply).contains(DraftAction::MarkError) <==> reply
            == DraftReply::Failed,
        draft_closing(created_by, reply).contains(DraftAction::MarkSucceeded) <==> reply
            != DraftReply::Failed,
        draft_closing(created_by, reply).contains(DraftAction::Audit) <==> reply
            != DraftReply::Failed,
{
    let a = draft_closing(created_by, reply);
    match reply {
        DraftReply::Failed => {
            assert(a[0] == DraftAction::MarkError);
        },
        DraftReply::Verified { any_claims } => {
            let k: int = if any_claims {
                1
            } else {
                0
            };
            assert(a[k] == DraftAction::MarkSucceeded);
            assert(a[k + 1] == DraftAction::Audit);
        },
    }
}

/// Whoever started a draft check is told that it ended, whichever way it did.
pub proof fn creator_hears_the_end(uid: Id, reply: DraftReply)
    ensures
        draft_closing(Some(uid), reply).last() == DraftAction::NotifyError(uid) || draft_closing(
            Some(uid),
            reply,
        ).last() == DraftAction::NotifyComplete(uid),
{
}

/// The counts that the verifier gives for a draft.
#[derive(Clone, Copy, Debug, PartialEq, Eq, Structural)]
pub struct DraftCounts {
    pub total: i32,
    pub supported: i32,
    pub contradicted: i32,
    pub not_mentioned: i32,
}

/// What a claim of a draft was held against.
pub open spec fn bound_doc(evidence: Seq<char>, section: Seq<char>) -> Json {
    Json::Object(
        Map::empty().insert("evidence"@, Json::Text(evidence)).insert(
            "section"@,
            Json::Text(section),
        ),
    )
}

/// The evidence of a claim and where it stands, as they are stored with the claim.
pub fn bound_evidence(evidence: &str, section: &str) -> (r: serde_json::Value)
    ensures
        json_in(r) == bound_doc(evidence@, section@),
{
    let mut doc = empty_object();
    put(&mut doc, "evidence", text_value(evidence));
    put(&mut doc, "section", text_value(section));
    doc
}

/// What is audited of a draft check.
pub open spec fn draft_event_doc(counts: DraftCounts, score: Json) -> Json {
    Json::Object(
        Map::empty().insert("mode"@, Json::Text("verify_draft"@)).insert("score"@, score).insert(
            "total"@,
            Json::Number(counts.total as int),
        ).insert("supported"@, Json::Number(counts.supported as int)).insert(
            "contradicted"@,
            Json::Number(counts.contradicted as int),
        ).insert("not_mentioned"@, Json::Number(counts.not_mentioned as int)),
    )
}

/// The entry of a draft check that succeeded.
pub fn draft_event(
    created_by: Option<Id>,
    run_id: Id,
    counts: DraftCounts,
    score: serde_json::Value,
) -> (e: AuditEvent)
    ensures
        e@ == entry(
            "groundedness.verified"@,
            ActorRole::System,
            created_by,
            "verification_run"@,
            Some(run_id),
        ).noting(draft_event_doc(counts, json_in(score))),
{
    let mut doc = empty_object();
    put(&mut doc, "mode", text_value("verify_draft"));
    put(&mut doc, "score", score);
    put(&mut doc, "total", number_value(counts.total as i64));
    put(&mut doc, "supported", number_value(counts.supported as i64));
    put(&mut doc, "contradicted", number_value(counts.contradicted as i64));
    put(&mut doc, "not_mentioned", number_value(counts.not_mentioned as i64));
    let action = "groundedness.verified";
    note(record(action, ActorRole::System, created_by, "verification_run", Some(run_id)), doc)
}

/// Reads the run that a repair job is for.
pub fn read_repair_task(payload: &serde_json::Value) -> (r: Result<Id, AppError>)
    ensures
        match run_id_in(*payload) {
            None => refusal(r) == Some(Refusal::Other("repair_run: bad run_id"@)),
            Some(id) => r == Ok::<Id, AppError>(id),
        },
{
    match read_run_id(payload) {
        Some(id) => Ok(id),
        None => Err(AppError::Other("repair_run: bad run_id".to_owned())),
    }
}

/// A verification run, as far as a repair reads it.
pub struct RunRow {
    pub target_type: String,
    pub target_id: Id,
    pub status: String,
    pub created_by: Option<Id>,
}

/// Whether a repair goes ahead.
#[derive(Clone, Copy, Debug, PartialEq, Eq, Structural)]
pub enum RepairPlan {
    /// Nobody made the run, so nobody waits for it.
    Skip,
    /// There is nothing to repair, and whoever waits for it is told that it ended.
    End { document_id: Id, creator: Id },
    Proceed { document_id: Id, creator: Id },
}

/// A repair works on a finished run over a document, on behalf of whoever made
/// the run.
pub open spec fn repair_plan(run: RunRow) -> RepairPlan {
    match run.created_by {
        None => RepairPlan::Skip,
        Some(creator) => if run.target_type@ == "document"@ && run.status@ == "succeeded"@ {
            RepairPlan::Proceed { document_id: run.target_id, creator }
        } else {
            RepairPlan::End { document_id: run.target_id, creator }
        },
    }
}

pub fn repair_run(run: Option<RunRow>) -> (r: Result<RepairPlan, AppError>)
    ensures
        match run {
            None => refusal(r) == Some(Refusal::Validation("verification run not found"@)),
            Some(x) => r == Ok::<RepairPlan, AppError>(repair_plan(x)),
        },
{
    let x = match run {
        Some(x) => x,
        None => {
            return Err(validation("verification run not found"));
        },
    };
    let creator = match x.created_by {
        Some(creator) => creator,
        None => {
            return Ok(RepairPlan::Skip);
        },
    };
    if same(x.target_type.as_str(), "document") && same(x.status.as_str(), "succeeded") {
        Ok(RepairPlan::Proceed { document_id: x.target_id, creator })
    } else {
        Ok(RepairPlan::End { document_id: x.target_id, creator })
    }
}

/// Tracked changes are written into a word-processing document, known by its type
/// or by its name.
pub open spec fn is_docx(mime: Option<Seq<char>>, filename: Seq<char>) -> bool {
    ||| mime matches Some(m) && has_text(m, "wordprocessingml"@)
    ||| ends_with(lowercase(filename), ".docx"@)
}

pub fn repairable(mime: Option<&str>, filename: &str) -> (r: bool)
    ensures
        r == is_docx(crate::text::opt_str(mime), filename@),
{
    let by_type = match mime {
        Some(m) => contains(m, "wordprocessingml"),
        None => false,
    };
    if by_type {
        return true;
    }
    let small = filename.to_lowercase();
    ends(small.as_str(), ".docx")
}

/// How many claims a repair rewrote, deleted and left alone.
#[derive(Clone, Copy, Debug, PartialEq, Eq, Structural)]
pub struct RepairCounts {
    pub regenerated: i64,
    pub cut: i64,
    pub kept: i64,
}

/// The frame that ends a repair for whoever watches it.
pub struct RepairDone {
    pub counts: RepairCounts,
    pub error: Option<String>,
}

/// How a repair went.
#[derive(Clone, Copy, Debug, PartialEq, Eq, Structural)]
pub enum RepairOutcome {
    NotRepairable,
    Failed,
    Repaired(RepairCounts),
}

pub open spec fn repair_error(o: RepairOutcome) -> Option<Seq<char>> {
    match o {
        RepairOutcome::NotRepairable => Some(
            "Repair proposes tracked changes, which require a DOCX document — this document can't be repaired."@,
        ),
        RepairOutcome::Failed => Some("Repair failed unexpectedly — see the server logs."@),
        RepairOutcome::Repaired(_) => None,
    }
}

/// The frame that closes a repair, whatever became of it.
pub fn repair_done(o: RepairOutcome) -> (r: RepairDone)
    ensures
        opt_text(r.error) == repair_error(o),
        r.counts == (match o {
            RepairOutcome::Repaired(c) => c,
            _ => (RepairCounts { regenerated: 0, cut: 0, kept: 0 }),
        }),
{
    let nothing = RepairCounts { regenerated: 0, cut: 0, kept: 0 };
    match o {
        RepairOutcome::NotRepairable => RepairDone {
            counts: nothing,
            error: Some(
                "Repair proposes tracked changes, which require a DOCX document — this document can't be repaired.".to_owned(),
            ),
        },
        RepairOutcome::Failed => RepairDone {
            counts: nothing,
            error: Some("Repair failed unexpectedly — see the server logs.".to_owned()),
        },
        RepairOutcome::Repaired(c) => RepairDone { counts: c, error: None },
    }
}

/// The frame that ends a repair, with whom it goes to and what it is about.
pub struct RepairComplete {
    pub to: Id,
    pub run_id: Id,
    pub document_id: Id,
    pub done: RepairDone,
}

/// What became of a repair that was planned in this way, where `outcome` is what became of
/// one that went ahead: one that did not has failed.
pub open spec fn repair_ended(plan: RepairPlan, outcome: RepairOutcome) -> RepairOutcome {
    match plan {
        RepairPlan::Proceed { .. } => outcome,
        _ => RepairOutcome::Failed,
    }
}

/// Who waits for a repair, and for which document.
pub open spec fn repair_watcher(plan: RepairPlan) -> Option<(Id, Id)> {
    match plan {
        RepairPlan::Skip => None,
        RepairPlan::End { document_id, creator } => Some((creator, document_id)),
        RepairPlan::Proceed { document_id, creator } => Some((creator, document_id)),
    }
}

/// The frame that ends a repair: one wherever somebody waits for it. `outcome` is what became
/// of it where it went ahead.
pub fn repair_complete(run_id: Id, plan: RepairPlan, outcome: RepairOutcome) -> (r: Option<
    RepairComplete,
>)
    ensures
        match (r, repair_watcher(plan)) {
            (Some(f), Some(w)) => {
                let o = repair_ended(plan, outcome);
                &&& f.to == w.0
                &&& f.run_id == run_id
                &&& f.document_id == w.1
                &&& opt_text(f.done.error) == repair_error(o)
                &&& f.done.counts == (match o {
                    RepairOutcome::Repaired(c) => c,
                    _ => (RepairCounts { regenerated: 0, cut: 0, kept: 0 }),
                })
            },
            (None, None) => true,
            _ => false,
        },
{
    match plan {
        RepairPlan::Skip => None,
        RepairPlan::End { document_id, creator } => Some(
            RepairComplete {
                to: creator,
                run_id,
                document_id,
                done: repair_done(RepairOutcome::Failed),
            },
        ),
        RepairPlan::Proceed { document_id, creator } => Some(
            RepairComplete { to: creator, run_id, document_id, done: repair_done(outcome) },
        ),
    }
}

/// Whoever made a run is told how its repair ended, whatever the run was and whatever became
/// of the repair; only one that repaired something is told of no error.
pub proof fn every_repair_is_closed(run: RunRow, creator: Id, outcome: RepairOutcome)
    requires
        run.created_by == Some(creator),
    ensures
        repair_watcher(repair_plan(run)) == Some((creator, run.target_id)),
        repair_error(repair_ended(repair_plan(run), outcome)) is None <==> {
            &&& repair_plan(run) is Proceed
            &&& outcome is Repaired
        },
{
}

/// What the repair service answered for one claim.
pub struct RepairResult {
    pub action: String,
    pub source_text: Option<String>,
    pub replacement: Option<String>,
    pub evidence: Option<String>,
    pub citation_ref: Option<String>,
    pub reverify_verdict: Option<String>,
}

/// A claim of a run, as a repair reads it.
pub struct StoredClaim {
    pub id: Id,
    pub claim_text: String,
    pub verdict: String,
    pub source_text: Option<String>,
    pub evidence: Option<String>,
}

/// A claim is repaired where its sources do not support it and it has a place in
/// the document.
pub open spec fn needs_repair(c: StoredClaim) -> bool {
    c.verdict@ != "supported"@ && c.source_text is Some
}

pub open spec fn repairs_among(claims: Seq<StoredClaim>) -> Seq<StoredClaim>
    decreases claims.len(),
{
    if claims.len() == 0 {
        Seq::empty()
    } else {
        let before = repairs_among(claims.drop_last());
        if needs_repair(claims.last()) {
            before.push(claims.last())
        } else {
            before
        }
    }
}

/// The claims that a repair works on, in their order.
pub fn claims_to_repair(claims: Vec<StoredClaim>) -> (r: Vec<StoredClaim>)
    ensures
        r@ == repairs_among(claims@),
{
    let n: usize = claims.len();
    let mut rest = claims;
    let mut out: Vec<StoredClaim> = Vec::new();
    let mut i: usize = 0;
    assert(claims@.take(0) == Seq::<StoredClaim>::empty());
    while i < n
        invariant
            n == claims@.len(),
            i <= n,
            rest@ == claims@.skip(i as int),
            out@ == repairs_among(claims@.take(i as int)),
        decreases n - i,
    {
        let c = rest.remove(0);
        assert(c == claims@[i as int]);
        assert(rest@ =~= claims@.skip(i as int + 1));
        assert(claims@.take(i as int + 1).drop_last() == claims@.take(i as int));
        if !same(c.verdict.as_str(), "supported") && c.source_text.is_some() {
            out.push(c);
        }
        i = i + 1;
    }
    assert(claims@.take(claims@.len() as int) == claims@);
    out
}

/// A claim that its sources support is never touched by a repair.
pub proof fn supported_claims_are_left_alone(claims: Seq<StoredClaim>, c: StoredClaim)
    requires
        repairs_among(claims).contains(c),
    ensures
        c.verdict@ != "supported"@,
        c.source_text is Some,
        claims.contains(c),
    decreases claims.len(),
{
    let before = repairs_among(claims.drop_last());
    let i = repairs_among(claims).index_of(c);
    if i < before.len() {
        assert(before[i] == c);
        supported_claims_are_left_alone(claims.drop_last(), c);
        let k = claims.drop_last().index_of(c);
        assert(claims[k] == c);
    } else {
        assert(claims.contains(claims.last()));
    }
}

/// One replacement in a document: an empty `replace` deletes.
pub struct EditInput {
    pub find: String,
    pub replace: String,
}

/// One tracked change that was written, with the mark it got.
pub struct Change {
    pub w_id: String,
    pub find: String,
    pub replace: String,
}

/// The knowledge bases among those linked that may be read, in their order.
pub open spec fn readable_of(linked: Seq<(Id, bool)>) -> Seq<Seq<char>>
    decreases linked.len(),
{
    if linked.len() == 0 {
        Seq::empty()
    } else {
        let before = readable_of(linked.drop_last());
        if linked.last().1 {
            before.push(id_text(linked.last().0))
        } else {
            before
        }
    }
}

/// The texts of the knowledge bases that may be read: each is linked, and comes
/// with whether the creator reads it.
pub fn readable_kbs(linked: &Vec<(Id, bool)>) -> (r: Vec<String>)
    ensures
        texts(r@) == readable_of(linked@),
{
    let mut out: Vec<String> = Vec::new();
    let mut i: usize = 0;
    assert(linked@.take(0) == Seq::<(Id, bool)>::empty());
    while i < linked.len()
        invariant
            i <= linked@.len(),
            texts(out@) == readable_of(linked@.take(i as int)),
        decreases linked@.len() - i,
    {
        assert(linked@.take(i as int + 1).drop_last() == linked@.take(i as int));
        let (id, readable) = linked[i];
        if readable {
            let ghost had = out@;
            let t = id_to_text(id);
            out.push(t);
            assert(texts(out@) == texts(had).push(t@));
        }
        i = i + 1;
    }
    assert(linked@.take(linked@.len() as int) == linked@);
    out
}

/// A replacement as contracts see it: what is looked for, and what is put there.
pub open spec fn edit_view(e: EditInput) -> (Seq<char>, Seq<char>) {
    (e.find@, e.replace@)
}

/// The replacements that a repair proposes: one for each claim that was not kept
/// and has a place in the document; a claim without a replacement is deleted.
pub open spec fn edits_of(results: Seq<RepairResult>) -> Seq<(Seq<char>, Seq<char>)>
    decreases results.len(),
{
    if results.len() == 0 {
        Seq::empty()
    } else {
        let before = edits_of(results.drop_last());
        let last = results.last();
        if last.action@ == "kept"@ {
            before
        } else {
            match last.source_text {
                Some(find) => before.push((find@, or_empty(opt_text(last.replacement)))),
                None => before,
            }
        }
    }
}

pub fn repair_edits(results: &Vec<RepairResult>) -> (r: Vec<EditInput>)
    ensures
        r@.map_values(|e: EditInput| edit_view(e)) == edits_of(results@),
{
    let mut out: Vec<EditInput> = Vec::new();
    let mut i: usize = 0;
    assert(results@.take(0) == Seq::<RepairResult>::empty());
    while i < results.len()
        invariant
            i <= results@.len(),
            out@.map_values(|e: EditInput| edit_view(e)) == edits_of(results@.take(i as int)),
        decreases results@.len() - i,
    {
        assert(results@.take(i as int + 1).drop_last() == results@.take(i as int));
        let res = &results[i];
        if !same(res.action.as_str(), "kept") {
            match &res.source_text {
                Some(find) => {
                    let replace = match &res.replacement {
                        Some(x) => x.clone(),
                        None => String::new(),
                    };
                    let ghost had = out@;
                    let e = EditInput { find: find.clone(), replace };
                    out.push(e);
                    assert(out@.map_values(|e: EditInput| edit_view(e)) == had.map_values(
                        |e: EditInput| edit_view(e),
                    ).push(edit_view(e)));
                },
                None => {},
            }
        }
        i = i + 1;
    }
    assert(results@.take(results@.len() as int) == results@);
    out
}

/// The mark of the first change that was made at `find`.
pub open spec fn mark_of(changes: Seq<Change>, find: Seq<char>) -> Option<Seq<char>>
    decreases changes.len(),
{
    if changes.len() == 0 {
        None
    } else {
        match mark_of(changes.drop_last(), find) {
            Some(w) => Some(w),
            None => if changes.last().find@ == find {
                Some(changes.last().w_id@)
            } else {
                None
            },
        }
    }
}

proof fn mark_of_prefix(changes: Seq<Change>, find: Seq<char>, i: int)
    requires
        0 <= i <= changes.len(),
        mark_of(changes.take(i), find) is Some,
    ensures
        mark_of(changes, find) == mark_of(changes.take(i), find),
    decreases changes.len() - i,
{
    if i < changes.len() {
        assert(changes.take(i + 1).drop_last() == changes.take(i));
        mark_of_prefix(changes, find, i + 1);
    } else {
        assert(changes.take(i) == changes);
    }
}

fn find_mark(changes: &Vec<Change>, find: &str) -> (r: Option<String>)
    ensures
        opt_text(r) == mark_of(changes@, find@),
{
    let mut i: usize = 0;
    assert(changes@.take(0) == Seq::<Change>::empty());
    while i < changes.len()
        invariant
            i <= changes@.len(),
            mark_of(changes@.take(i as int), find@) is None,
        decreases changes@.len() - i,
    {
        assert(changes@.take(i as int + 1).drop_last() == changes@.take(i as int));
        if same(changes[i].find.as_str(), find) {
            proof {
                mark_of_prefix(changes@, find@, i as int + 1);
            }
            return Some(changes[i].w_id.clone());
        }
        i = i + 1;
    }
    assert(changes@.take(changes@.len() as int) == changes@);
    None
}

/// What is recorded of one claim: the row it is stored in, what was done about
/// it, the mark of its tracked change, and the note that joins its evidence.
pub struct ClaimOutcome {
    pub claim_id: Id,
    pub action: String,
    pub w_id: Option<String>,
    pub note: serde_json::Value,
}

/// The note on a repaired claim: how it reads now, on what grounds, and which
/// tracked change says so.
pub open spec fn note_doc(res: RepairResult, w_id: Option<Seq<char>>) -> Json {
    Json::Object(
        Map::empty().insert("repair_text"@, text_or_null(opt_text(res.replacement))).insert(
            "repair_evidence"@,
            text_or_null(opt_text(res.evidence)),
        ).insert("w_id"@, text_or_null(w_id)).insert(
            "citation_ref"@,
            text_or_null(opt_text(res.citation_ref)),
        ).insert("reverify_verdict"@, text_or_null(opt_text(res.reverify_verdict))),
    )
}

fn repair_note(res: &RepairResult, w_id: &Option<String>) -> (r: serde_json::Value)
    ensures
        json_in(r) == note_doc(*res, opt_text(*w_id)),
{
    let mut doc = empty_object();
    put(&mut doc, "repair_text", text_or_null_value(&res.replacement));
    put(&mut doc, "repair_evidence", text_or_null_value(&res.evidence));
    put(&mut doc, "w_id", text_or_null_value(w_id));
    put(&mut doc, "citation_ref", text_or_null_value(&res.citation_ref));
    put(&mut doc, "reverify_verdict", text_or_null_value(&res.reverify_verdict));
    doc
}

/// What is audited of a repair.
pub open spec fn repair_event_doc(document_id: Id, counts: RepairCounts) -> Json {
    Json::Object(
        Map::empty().insert("document_id"@, Json::Text(id_text(document_id))).insert(
            "regenerated"@,
            Json::Number(counts.regenerated as int),
        ).insert("cut"@, Json::Number(counts.cut as int)).insert(
            "kept"@,
            Json::Number(counts.kept as int),
        ),
    )
}

/// The entry of a repair, for whoever made the run.
pub fn repair_event(
    ctx: &AuthContext,
    created_by: Id,
    run_id: Id,
    document_id: Id,
    counts: RepairCounts,
) -> (e: AuditEvent)
    ensures
        e@ == entry(
            "groundedness.repaired"@,
            ActorRole::Platform(ctx.role),
            Some(created_by),
            "verification_run"@,
            Some(run_id),
        ).noting(repair_event_doc(document_id, counts)),
{
    let mut doc = empty_object();
    put(&mut doc, "document_id", id_value(document_id));
    put(&mut doc, "regenerated", number_value(counts.regenerated));
    put(&mut doc, "cut", number_value(counts.cut));
    put(&mut doc, "kept", number_value(counts.kept));
    let role = ActorRole::Platform(ctx.role);
    note(record("groundedness.repaired", role, Some(created_by), "verification_run", Some(run_id)), doc)
}

/// What became of a whole repair.
pub struct RepairReport {
    pub outcomes: Vec<ClaimOutcome>,
    pub counts: RepairCounts,
    pub audited: bool,
}

/// How many of the first `n` results have this action.
pub open spec fn count_action(results: Seq<RepairResult>, action: Seq<char>) -> nat
    decreases results.len(),
{
    if results.len() == 0 {
        0
    } else {
        count_action(results.drop_last(), action) + if results.last().action@ == action {
            1nat
        } else {
            0nat
        }
    }
}

/// The claims and the answers go together one by one, as far as both reach.
pub open spec fn paired(claims: nat, results: nat) -> nat {
    if claims < results {
        claims
    } else {
        results
    }
}

pub open spec fn mark_for(changes: Seq<Change>, result: RepairResult) -> Option<Seq<char>> {
    match result.source_text {
        Some(find) => mark_of(changes, find@),
        None => None,
    }
}

proof fn count_action_at_most(results: Seq<RepairResult>, action: Seq<char>)
    ensures
        count_action(results, action) <= results.len(),
    decreases results.len(),
{
    if results.len() > 0 {
        count_action_at_most(results.drop_last(), action);
    }
}

/// Records what became of each claim, and counts. `changes` are the tracked
/// changes that were written, in their order; the first at a place gives the mark.
/// A repair that found no claim to work on is not audited.
pub fn repair_core(claims: &Vec<Id>, results: &Vec<RepairResult>, changes: &Vec<Change>) -> (r:
    RepairReport)
    requires
        claims@.len() <= i64::MAX,
    ensures
        r.outcomes@.len() == paired(claims@.len(), results@.len()),
        forall|i: int|
            0 <= i < r.outcomes@.len() ==> {
                &&& (#[trigger] r.outcomes@[i]).claim_id == claims@[i]
                &&& r.outcomes@[i].action@ == results@[i].action@
                &&& opt_text(r.outcomes@[i].w_id) == mark_for(changes@, results@[i])
                &&& json_in(r.outcomes@[i].note) == note_doc(
                    results@[i],
                    mark_for(changes@, results@[i]),
                )
            },
        r.counts.regenerated == count_action(
            results@.take(r.outcomes@.len() as int),
            "regenerated"@,
        ),
        r.counts.cut == count_action(results@.take(r.outcomes@.len() as int), "cut"@),
        r.counts.regenerated + r.counts.cut + r.counts.kept == r.outcomes@.len(),
        r.audited == (claims@.len() > 0),
{
    let mut outcomes: Vec<ClaimOutcome> = Vec::new();
    let mut regenerated: i64 = 0;
    let mut cut: i64 = 0;
    let mut kept: i64 = 0;
    let mut i: usize = 0;
    assert(results@.take(0) == Seq::<RepairResult>::empty());
    proof {
        reveal_strlit("regenerated");
        reveal_strlit("cut");
        assert("regenerated"@.len() != "cut"@.len());
    }
    while i < claims.len() && i < results.len()
        invariant
            i <= claims@.len() <= i64::MAX,
            i <= results@.len(),
            outcomes@.len() == i,
            "regenerated"@ != "cut"@,
            forall|k: int|
                0 <= k < i ==> {
                    &&& (#[trigger] outcomes@[k]).claim_id == claims@[k]
                    &&& outcomes@[k].action@ == results@[k].action@
                    &&& opt_text(outcomes@[k].w_id) == mark_for(changes@, results@[k])
                    &&& json_in(outcomes@[k].note) == note_doc(
                        results@[k],
                        mark_for(changes@, results@[k]),
                    )
                },
            0 <= regenerated,
            0 <= cut,
            0 <= kept,
            regenerated == count_action(results@.take(i as int), "regenerated"@),
            cut == count_action(results@.take(i as int), "cut"@),
            regenerated + cut + kept == i,
        decreases claims@.len() - i,
    {
        assert(results@.take(i as int + 1).drop_last() == results@.take(i as int));
        let res = &results[i];
        if same(res.action.as_str(), "regenerated") {
            regenerated = regenerated + 1;
        } else if same(res.action.as_str(), "cut") {
            cut = cut + 1;
        } else {
            kept = kept + 1;
        }
        let w_id = match &res.source_text {
            Some(find) => find_mark(changes, find.as_str()),
            None => None,
        };
        let note = repair_note(res, &w_id);
        outcomes.push(ClaimOutcome { claim_id: claims[i], action: res.action.clone(), w_id, note });
        i = i + 1;
    }
    RepairReport {
        outcomes,
        counts: RepairCounts { regenerated, cut, kept },
        audited: claims.len() > 0,
    }
}

/// A repair proposes no more replacements than there are answers that are not
/// "kept": whatever was kept stays as it is.
pub proof fn kept_claims_are_not_edited(results: Seq<RepairResult>)
    ensures
        edits_of(results).len() + count_action(results, "kept"@) <= results.len(),
    decreases results.len(),
{
    if results.len() > 0 {
        kept_claims_are_not_edited(results.drop_last());
    }
}

/// Every replacement that a repair proposes comes from an answer that is not
/// "kept", at the place that answer names.
pub proof fn edits_come_from_results(results: Seq<RepairResult>, k: int) -> (i: int)
    requires
        0 <= k < edits_of(results).len(),
    ensures
        0 <= i < results.len(),
        results[i].action@ != "kept"@,
        opt_text(results[i].source_text) == Some(edits_of(results)[k].0),
        edits_of(results)[k].1 == or_empty(opt_text(results[i].replacement)),
    decreases results.len(),
{
    let before = edits_of(results.drop_last());
    if k < before.len() {
        let i = edits_come_from_results(results.drop_last(), k);
        assert(results.drop_last()[i] == results[i]);
        i
    } else {
        results.len() - 1
    }
}

/// A repair works on every claim that the sources do not support and that has a place in the
/// document, whatever else is stored with it, and on no other; in the order of the claims, and on
/// each as often as it is there.
pub proof fn every_flagged_claim_is_repaired(s: Seq<StoredClaim>)
    ensures
        repairs_among(s)
            == s.filter(|x: StoredClaim| x.verdict@ != "supported"@ && x.source_text is Some),
        forall|x: StoredClaim|
            #[trigger] repairs_among(s).contains(x)
                <==> s.contains(x) && (x.verdict@ != "supported"@ && x.source_text is Some),
    decreases s.len(),
{
    let p = |x: StoredClaim| x.verdict@ != "supported"@ && x.source_text is Some;
    selects_last(s, p);
    selects_just(s, p);
    if s.len() > 0 {
        every_flagged_claim_is_repaired(s.drop_last());
    }
    assert(repairs_among(s) =~= s.filter(p));
    assert forall|x: StoredClaim|
        #[trigger] repairs_among(s).contains(x)
            <==> s.contains(x) && (x.verdict@ != "supported"@ && x.source_text is Some) by {
        assert(s.filter(p).contains(x) <==> s.contains(x) && p(x));
    }
}

/// The contradictions that are recorded are the spans with that label, each of them counted.
pub proof fn contradictions_are_counted_each(s: Seq<Span>)
    ensures
        contradictions(s) == s.filter(|x: Span| x.label@ == "contradicted"@).len(),
    decreases s.len(),
{
    let p = |x: Span| x.label@ == "contradicted"@;
    selects_last(s, p);
    if s.len() > 0 {
        contradictions_are_counted_each(s.drop_last());
    }
}

/// One more span that the sources contradict is one more contradiction, however many there were,
/// and one of another label is none. Spans that are all contradicted count as many as they are.
pub proof fn one_more_contradiction(spans: Seq<Span>, s: Span)
    ensures
        s.label@ == "contradicted"@ ==> contradictions(spans.push(s)) == contradictions(spans) + 1,
        s.label@ != "contradicted"@ ==> contradictions(spans.push(s)) == contradictions(spans),
        (forall|i: int| 0 <= i < spans.len() ==> (#[trigger] spans[i]).label@ == "contradicted"@)
            ==> contradictions(spans) == spans.len(),
        (forall|i: int| 0 <= i < spans.len() ==> (#[trigger] spans[i]).label@ != "contradicted"@)
            ==> contradictions(spans) == 0,
{
    let p = |x: Span| x.label@ == "contradicted"@;
    contradictions_are_counted_each(spans);
    contradictions_are_counted_each(spans.push(s));
    selects_last(spans.push(s), p);
    selects_all_or_none(spans, p);
    assert(spans.push(s).drop_last() =~= spans);
}

/// The libraries that evidence is looked for in are those that can be read, in their order.
pub proof fn readable_libraries_are_evidence(s: Seq<(Id, bool)>)
    ensures
        readable_of(s) == s.filter(|x: (Id, bool)| x.1).map_values(|x: (Id, bool)| id_text(x.0)),
    decreases s.len(),
{
    let p = |x: (Id, bool)| x.1;
    selects_last(s, p);
    if s.len() > 0 {
        readable_libraries_are_evidence(s.drop_last());
    }
    assert(readable_of(s) =~= s.filter(p).map_values(|x: (Id, bool)| id_text(x.0)));
}

/// A repair proposes one edit for each claim that was not kept and has a place in the document: its
/// words are replaced, or deleted where there is nothing to put in their place.
pub proof fn edits_are_of_what_was_not_kept(s: Seq<RepairResult>)
    ensures
        edits_of(s)
            == s.filter(|x: RepairResult| x.action@ != "kept"@ && x.source_text is Some).map_values(
                |x: RepairResult| (
                    x.source_text->0@,
                    (match x.replacement { Some(r) => r@, None => Seq::empty() }),
                )
            ),
    decreases s.len(),
{
    let p = |x: RepairResult| x.action@ != "kept"@ && x.source_text is Some;
    selects_last(s, p);
    if s.len() > 0 {
        edits_are_of_what_was_not_kept(s.drop_last());
    }
    assert(
        edits_of(s) =~= s.filter(p).map_values(
            |x: RepairResult| (
                x.source_text->0@,
                (match x.replacement { Some(r) => r@, None => Seq::empty() }),
            )
        )
    );
}

/// What became of the claims is counted claim by claim.
pub proof fn actions_are_counted_each(action: Seq<char>, s: Seq<RepairResult>)
    ensures
        count_action(s, action) == s.filter(|x: RepairResult| x.action@ == action).len(),
    decreases s.len(),
{
    let p = |x: RepairResult| x.action@ == action;
    selects_last(s, p);
    if s.len() > 0 {
        actions_are_counted_each(action, s.drop_last());
    }
}

/// A claim is marked with the first change that replaced its words.
pub proof fn marks_are_of_the_first_change(find: Seq<char>, s: Seq<Change>) -> (at: int)
    ensures
        match mark_of(s, find) {
            Some(v) => 0 <= at < s.len()
                && (s[at].find@ == find)
                && v == s[at].w_id@
                && forall|k: int|
                #![trigger s[k]]
                0 <= k < at ==> !(s[k].find@ == find),
            None => forall|k: int| #![trigger s[k]] 0 <= k < s.len() ==> !(s[k].find@ == find),
        },
    decreases s.len(),
{
    if s.len() == 0 {
        0
    } else {
        let front = s.drop_last();
        let at = marks_are_of_the_first_change(find, front);
        assert forall|k: int| #![trigger s[k]] 0 <= k < front.len() implies s[k] == front[k] by {}
        if mark_of(front, find) is Some {
            assert(s[at] == front[at]);
            at
        } else {
            s.len() - 1
        }
    }
}

/// What stands in `place_doc` under each name; there is no other name in it.
pub proof fn what_place_doc_holds(s: Span)
    ensures
        member_at(place_doc(s), "start"@) == Some(Json::Number(s.start as int)),
        member_at(place_doc(s), "end"@) == Some(Json::Number(s.end as int)),
        forall|name: Seq<char>|
            #[trigger] member_at(place_doc(s), name) is Some ==> name == "start"@ || name == "end"@,
{
    reveal_strlit("start");
    reveal_strlit("end");
    assert("start"@.len() != "end"@.len());
}

/// What stands in `span_doc` under each name; there is no other name in it.
pub proof fn what_span_doc_holds(s: Span)
    ensures
        member_at(span_doc(s), "start"@) == Some(Json::Number(s.start as int)),
        member_at(span_doc(s), "end"@) == Some(Json::Number(s.end as int)),
        member_at(span_doc(s), "text"@) == Some(Json::Text(s.text@)),
        member_at(span_doc(s), "label"@) == Some(Json::Text(s.label@)),
        forall|name: Seq<char>|
            #[trigger] member_at(span_doc(s), name) is Some
                ==> name == "start"@ || name == "end"@ || name == "text"@ || name == "label"@,
{
    reveal_strlit("start");
    reveal_strlit("end");
    reveal_strlit("text");
    reveal_strlit("label");
    assert("start"@.len() != "end"@.len());
    assert("start"@.len() != "text"@.len());
    assert("start"@[0] != "label"@[0]);
    assert("end"@.len() != "text"@.len());
    assert("end"@.len() != "label"@.len());
    assert("text"@.len() != "label"@.len());
}

/// What stands in `summary_doc` under each name; there is no other name in it.
pub proof fn what_summary_doc_holds(run: LiveRun, score: Json)
    ensures
        member_at(summary_doc(run, score), "score"@) == Some(score),
        member_at(summary_doc(run, score), "total"@) == Some(Json::Number(run.total as int)),
        member_at(summary_doc(run, score), "flagged"@) == Some(Json::Number(run.flagged as int)),
        member_at(summary_doc(run, score), "contradicted"@)
            == Some(Json::Number(run.contradicted as int)),
        member_at(summary_doc(run, score), "not_mentioned"@)
            == Some(Json::Number(run.not_mentioned as int)),
        member_at(summary_doc(run, score), "model"@) == Some(Json::Text(run.model@)),
        member_at(summary_doc(run, score), "spans"@) == Some(span_docs(run.spans@)),
        forall|name: Seq<char>|
            #[trigger] member_at(summary_doc(run, score), name) is Some
                ==> name == "score"@
                    || name == "total"@
                    || name == "flagged"@
                    || name == "contradicted"@
                    || name == "not_mentioned"@
                    || name == "model"@
                    || name == "spans"@,
{
    reveal_strlit("score");
    reveal_strlit("total");
    reveal_strlit("flagged");
    reveal_strlit("contradicted");
    reveal_strlit("not_mentioned");
    reveal_strlit("model");
    reveal_strlit("spans");
    assert("score"@[0] != "total"@[0]);
    assert("score"@.len() != "flagged"@.len());
    assert("score"@.len() != "contradicted"@.len());
    assert("score"@.len() != "not_mentioned"@.len());
    assert("score"@[0] != "model"@[0]);
    assert("score"@[1] != "spans"@[1]);
    assert("total"@.len() != "flagged"@.len());
    assert("total"@.len() != "contradicted"@.len());
    assert("total"@.len() != "not_mentioned"@.len());
    assert("total"@[0] != "model"@[0]);
    assert("total"@[0] != "spans"@[0]);
    assert("flagged"@.len() != "contradicted"@.len());
    assert("flagged"@.len() != "not_mentioned"@.len());
    assert("flagged"@.len() != "model"@.len());
    assert("flagged"@.len() != "spans"@.len());
    assert("contradicted"@.len() != "not_mentioned"@.len());
    assert("contradicted"@.len() != "model"@.len());
    assert("contradicted"@.len() != "spans"@.len());
    assert("not_mentioned"@.len() != "model"@.len());
    assert("not_mentioned"@.len() != "spans"@.len());
    assert("model"@[0] != "spans"@[0]);
}

/// What stands in `live_event_doc` under each name; there is no other name in it.
pub proof fn what_live_event_doc_holds(run: LiveRun, chat_id: Id, run_id: Id, score: Json)
    ensures
        member_at(live_event_doc(run, chat_id, run_id, score), "chat_id"@)
            == Some(Json::Text(id_text(chat_id))),
        member_at(live_event_doc(run, chat_id, run_id, score), "run_id"@)
            == Some(Json::Text(id_text(run_id))),
        member_at(live_event_doc(run, chat_id, run_id, score), "score"@) == Some(score),
        member_at(live_event_doc(run, chat_id, run_id, score), "total"@)
            == Some(Json::Number(run.total as int)),
        member_at(live_event_doc(run, chat_id, run_id, score), "supported"@)
            == Some(Json::Number(run.supported as int)),
        member_at(live_event_doc(run, chat_id, run_id, score), "contradicted"@)
            == Some(Json::Number(run.contradicted as int)),
        member_at(live_event_doc(run, chat_id, run_id, score), "not_mentioned"@)
            == Some(Json::Number(run.not_mentioned as int)),
        member_at(live_event_doc(run, chat_id, run_id, score), "model"@)
            == Some(Json::Text(run.model@)),
        forall|name: Seq<char>|
            #[trigger] member_at(live_event_doc(run, chat_id, run_id, score), name) is Some
                ==> name == "chat_id"@
                    || name == "run_id"@
                    || name == "score"@
                    || name == "total"@
                    || name == "supported"@
                    || name == "contradicted"@
                    || name == "not_mentioned"@
                    || name == "model"@,
{
    reveal_strlit("chat_id");
    reveal_strlit("run_id");
    reveal_strlit("score");
    reveal_strlit("total");
    reveal_strlit("supported");
    reveal_strlit("contradicted");
    reveal_strlit("not_mentioned");
    reveal_strlit("model");
    assert("chat_id"@.len() != "run_id"@.len());
    assert("chat_id"@.len() != "score"@.len());
    assert("chat_id"@.len() != "total"@.len());
    assert("chat_id"@.len() != "supported"@.len());
    assert("chat_id"@.len() != "contradicted"@.len());
    assert("chat_id"@.len() != "not_mentioned"@.len());
    assert("chat_id"@.len() != "model"@.len());
    assert("run_id"@.len() != "score"@.len());
    assert("run_id"@.len() != "total"@.len());
    assert("run_id"@.len() != "supported"@.len());
    assert("run_id"@.len() != "contradicted"@.len());
    assert("run_id"@.len() != "not_mentioned"@.len());
    assert("run_id"@.len() != "model"@.len());
    assert("score"@[0] != "total"@[0]);
    assert("score"@.len() != "supported"@.len());
    assert("score"@.len() != "contradicted"@.len());
    assert("score"@.len() != "not_mentioned"@.len());
    assert("score"@[0] != "model"@[0]);
    assert("total"@.len() != "supported"@.len());
    assert("total"@.len() != "contradicted"@.len());
    assert("total"@.len() != "not_mentioned"@.len());
    assert("total"@[0] != "model"@[0]);
    assert("supported"@.len() != "contradicted"@.len());
    assert("supported"@.len() != "not_mentioned"@.len());
    assert("supported"@.len() != "model"@.len());
    assert("contradicted"@.len() != "not_mentioned"@.len());
    assert("contradicted"@.len() != "model"@.len());
    assert("not_mentioned"@.len() != "model"@.len());
}

/// What stands in `bound_doc` under each name; there is no other name in it.
pub proof fn what_bound_doc_holds(evidence: Seq<char>, section: Seq<char>)
    ensures
        member_at(bound_doc(evidence, section), "evidence"@) == Some(Json::Text(evidence)),
        member_at(bound_doc(evidence, section), "section"@) == Some(Json::Text(section)),
        forall|name: Seq<char>|
            #[trigger] member_at(bound_doc(evidence, section), name) is Some
                ==> name == "evidence"@ || name == "section"@,
{
    reveal_strlit("evidence");
    reveal_strlit("section");
    assert("evidence"@.len() != "section"@.len());
}

/// What stands in `draft_event_doc` under each name; there is no other name in it.
pub proof fn what_draft_event_doc_holds(counts: DraftCounts, score: Json)
    ensures
        member_at(draft_event_doc(counts, score), "mode"@) == Some(Json::Text("verify_draft"@)),
        member_at(draft_event_doc(counts, score), "score"@) == Some(score),
        member_at(draft_event_doc(counts, score), "total"@)
            == Some(Json::Number(counts.total as int)),
        member_at(draft_event_doc(counts, score), "supported"@)
            == Some(Json::Number(counts.supported as int)),
        member_at(draft_event_doc(counts, score), "contradicted"@)
            == Some(Json::Number(counts.contradicted as int)),
        member_at(draft_event_doc(counts, score), "not_mentioned"@)
            == Some(Json::Number(counts.not_mentioned as int)),
        forall|name: Seq<char>|
            #[trigger] member_at(draft_event_doc(counts, score), name) is Some
                ==> name == "mode"@
                    || name == "score"@
                    || name == "total"@
                    || name == "supported"@
                    || name == "contradicted"@
                    || name == "not_mentioned"@,
{
    reveal_strlit("mode");
    reveal_strlit("score");
    reveal_strlit("total");
    reveal_strlit("supported");
    reveal_strlit("contradicted");
    reveal_strlit("not_mentioned");
    assert("mode"@.len() != "score"@.len());
    assert("mode"@.len() != "total"@.len());
    assert("mode"@.len() != "supported"@.len());
    assert("mode"@.len() != "contradicted"@.len());
    assert("mode"@.len() != "not_mentioned"@.len());
    assert("score"@[0] != "total"@[0]);
    assert("score"@.len() != "supported"@.len());
    assert("score"@.len() != "contradicted"@.len());
    assert("score"@.len() != "not_mentioned"@.len());
    assert("total"@.len() != "supported"@.len());
    assert("total"@.len() != "contradicted"@.len());
    assert("total"@.len() != "not_mentioned"@.len());
    assert("supported"@.len() != "contradicted"@.len());
    assert("supported"@.len() != "not_mentioned"@.len());
    assert("contradicted"@.len() != "not_mentioned"@.len());
}

/// What stands in `note_doc` under each name; there is no other name in it.
pub proof fn what_note_doc_holds(res: RepairResult, w_id: Option<Seq<char>>)
    ensures
        member_at(note_doc(res, w_id), "repair_text"@)
            == Some(text_or_null(opt_text(res.replacement))),
        member_at(note_doc(res, w_id), "repair_evidence"@)
            == Some(text_or_null(opt_text(res.evidence))),
        member_at(note_doc(res, w_id), "w_id"@) == Some(text_or_null(w_id)),
        member_at(note_doc(res, w_id), "citation_ref"@)
            == Some(text_or_null(opt_text(res.citation_ref))),
        member_at(note_doc(res, w_id), "reverify_verdict"@)
            == Some(text_or_null(opt_text(res.reverify_verdict))),
        forall|name: Seq<char>|
            #[trigger] member_at(note_doc(res, w_id), name) is Some
                ==> name == "repair_text"@
                    || name == "repair_evidence"@
                    || name == "w_id"@
                    || name == "citation_ref"@
                    || name == "reverify_verdict"@,
{
    reveal_strlit("repair_text");
    reveal_strlit("repair_evidence");
    reveal_strlit("w_id");
    reveal_strlit("citation_ref");
    reveal_strlit("reverify_verdict");
    assert("repair_text"@.len() != "repair_evidence"@.len());
    assert("repair_text"@.len() != "w_id"@.len());
    assert("repair_text"@.len() != "citation_ref"@.len());
    assert("repair_text"@.len() != "reverify_verdict"@.len());
    assert("repair_evidence"@.len() != "w_id"@.len());
    assert("repair_evidence"@.len() != "citation_ref"@.len());
    assert("repair_evidence"@.len() != "reverify_verdict"@.len());
    assert("w_id"@.len() != "citation_ref"@.len());
    assert("w_id"@.len() != "reverify_verdict"@.len());
    assert("citation_ref"@.len() != "reverify_verdict"@.len());
}

/// What stands in `repair_event_doc` under each name; there is no other name in it.
pub proof fn what_repair_event_doc_holds(document_id: Id, counts: RepairCounts)
    ensures
        member_at(repair_event_doc(document_id, counts), "document_id"@)
            == Some(Json::Text(id_text(document_id))),
        member_at(repair_event_doc(document_id, counts), "regenerated"@)
            == Some(Json::Number(counts.regenerated as int)),
        member_at(repair_event_doc(document_id, counts), "cut"@)
            == Some(Json::Number(counts.cut as int)),
        member_at(repair_event_doc(document_id, counts), "kept"@)
            == Some(Json::Number(counts.kept as int)),
        forall|name: Seq<char>|
            #[trigger] member_at(repair_event_doc(document_id, counts), name) is Some
                ==> name == "document_id"@
                    || name == "regenerated"@
                    || name == "cut"@
                    || name == "kept"@,
{
    reveal_strlit("document_id");
    reveal_strlit("regenerated");
    reveal_strlit("cut");
    reveal_strlit("kept");
    assert("document_id"@[0] != "regenerated"@[0]);
    assert("document_id"@.len() != "cut"@.len());
    assert("document_id"@.len() != "kept"@.len());
    assert("regenerated"@.len() != "cut"@.len());
    assert("regenerated"@.len() != "kept"@.len());
    assert("cut"@.len() != "kept"@.len());
}

/// A count below nought is none. A check is strict unless it is set otherwise.
pub proof fn counts_and_defaults(n: int, configured: Option<Seq<char>>, claims: nat, results: nat)
    ensures
        at_least_zero(n) >= 0,
        n >= 0 ==> at_least_zero(n) == n,
        n < 0 ==> at_least_zero(n) == 0,
        configured matches Some(s) ==> strictness_of(configured) == s,
        configured is None ==> strictness_of(configured) == "strict"@,
        paired(claims, results) <= claims,
        paired(claims, results) <= results,
        paired(claims, results) == claims || paired(claims, results) == results,
{
}

/// The spans of an answer are written each as it is, in their order.
pub proof fn spans_are_written_in_order(spans: Seq<Span>)
    ensures
        span_docs(spans) matches Json::List(l)
            && l.len() == spans.len()
            && forall|i: int| 0 <= i < spans.len() ==> #[trigger] l[i] == span_doc(spans[i]),
{
}

/// A job names its run and its libraries, or none where they are not written as they should be.
pub proof fn jobs_name_their_run(payload: serde_json::Value)
    ensures
        run_id_in(payload) matches Some(id)
            ==> (text_at(json_in(payload), "run_id"@) matches Some(s) && id_of(s) == Some(id)),
        run_id_in(payload) is None
            <==> (text_at(json_in(payload), "run_id"@) matches Some(s) ==> id_of(s) is None),
        list_at(json_in(payload), "kb_ids"@) matches Some(l)
            ==> kb_ids_in(payload)
                == l.filter(
                    |x: Option<Seq<char>>| x is Some
                ).map_values(|x: Option<Seq<char>>| x->0),
        list_at(json_in(payload), "kb_ids"@) is None ==> kb_ids_in(payload).len() == 0,
{
    if let Some(l) = list_at(json_in(payload), "kb_ids"@) {
        strings_are_kept(l);
    }
}

/// The check of a draft marks the run as running first and asks the verifier last; whoever asked for
/// it is told in between, and nobody else.
pub proof fn drafts_are_opened_in_order(created_by: Option<Id>)
    ensures
        draft_opening(created_by).first() == DraftAction::MarkRunning,
        draft_opening(created_by).last() == DraftAction::AskVerifier,
        draft_opening(created_by).len() == (if created_by is Some { 3nat } else { 2nat }),
        created_by matches Some(uid)
            ==> draft_opening(created_by)[1] == DraftAction::NotifyRunning(uid),
{
}

/// A document can be repaired where its type or its name says that it takes tracked changes.
pub proof fn which_documents_are_repaired(mime: Option<Seq<char>>, filename: Seq<char>)
    ensures
        is_docx(mime, filename)
            <==> (mime matches Some(m) && has_text(m, "wordprocessingml"@))
                || ends_with(lowercase(filename), ".docx"@),
{
}

/// A repair is marked by the change made to its source text, and has no mark where it has none.
pub proof fn results_are_marked_by_their_text(changes: Seq<Change>, result: RepairResult)
    ensures
        result.source_text matches Some(t) ==> mark_for(changes, result) == mark_of(changes, t@),
        result.source_text is None ==> mark_for(changes, result) is None,
{
}

/// A live run that was stored has its verdicts stored where there are any, is summarised, audited and
/// told of, in this order; one that was not stored has nothing done.
pub proof fn live_runs_are_closed_in_order(stored: bool, spans: nat, o: Option<Seq<char>>)
    ensures
        !stored ==> live_actions(stored, spans).len() == 0,
        stored && spans == 0
            ==> live_actions(stored, spans)
                == seq![LiveAction::SummariseOnMessage, LiveAction::Audit, LiveAction::PushToClient],
        stored && spans > 0
            ==> live_actions(stored, spans)
                == seq![
                    LiveAction::StoreVerdicts,
                    LiveAction::SummariseOnMessage,
                    LiveAction::Audit,
                    LiveAction::PushToClient,
                ],
        o matches Some(s) ==> or_empty(o) == s,
        o is None ==> or_empty(o).len() == 0,
{
}

/// A check that failed is marked so and its creator told; one that was answered has its verdicts stored
/// where there are claims, is marked as done and audited, and its creator told.
pub proof fn drafts_are_closed_in_order(uid: Id)
    ensures
        draft_closing(None, DraftReply::Failed) == seq![DraftAction::MarkError],
        draft_closing(Some(uid), DraftReply::Failed)
            == seq![DraftAction::MarkError, DraftAction::NotifyError(uid)],
        draft_closing(None, DraftReply::Verified { any_claims: false })
            == seq![DraftAction::MarkSucceeded, DraftAction::Audit],
        draft_closing(Some(uid), DraftReply::Verified { any_claims: false })
            == seq![
                DraftAction::MarkSucceeded,
                DraftAction::Audit,
                DraftAction::NotifyComplete(uid),
            ],
        draft_closing(None, DraftReply::Verified { any_claims: true })
            == seq![DraftAction::StoreVerdicts, DraftAction::MarkSucceeded, DraftAction::Audit],
        draft_closing(Some(uid), DraftReply::Verified { any_claims: true })
            == seq![
                DraftAction::StoreVerdicts,
                DraftAction::MarkSucceeded,
                DraftAction::Audit,
                DraftAction::NotifyComplete(uid),
            ],
{
}

/// A repair goes ahead for a run of a document that is done and has a creator; without a creator it is
/// skipped, and else ended as failed. Its creator hears of it either way.
pub proof fn repairs_are_planned(run: RunRow, plan: RepairPlan, outcome: RepairOutcome)
    ensures
        run.created_by is None <==> repair_plan(run) is Skip,
        repair_plan(run) is Proceed
            <==> run.created_by is Some
                && run.target_type@ == "document"@
                && run.status@ == "succeeded"@,
        repair_plan(run) matches RepairPlan::Proceed { document_id, creator }
            ==> document_id == run.target_id && Some(creator) == run.created_by,
        repair_plan(run) matches RepairPlan::End { document_id, creator }
            ==> document_id == run.target_id && Some(creator) == run.created_by,
        plan is Proceed ==> repair_ended(plan, outcome) == outcome,
        !(plan is Proceed) ==> repair_ended(plan, outcome) == RepairOutcome::Failed,
        repair_watcher(plan) is None <==> plan is Skip,
        plan matches RepairPlan::Proceed { document_id, creator }
            ==> repair_watcher(plan) == Some((creator, document_id)),
        plan matches RepairPlan::End { document_id, creator }
            ==> repair_watcher(plan) == Some((creator, document_id)),
        repair_error(outcome) is None <==> outcome is Repaired,
{
}

/// An edit is seen with what it finds and what it puts there.
pub proof fn edits_are_seen_whole(e: EditInput)
    ensures
        edit_view(e) == (e.find@, e.replace@),
{
}

} // verus!
