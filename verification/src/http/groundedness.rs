//! Checks of drafts and documents against their sources: who starts them, who reads what they
//! found, and the report.

use vstd::prelude::*;
use vstd::string::*;

use crate::lists::selects_last;
use crate::clock::{show, shown, Instant};
use crate::error::{forbidden, refusal, validation, AppError, Refusal};
use crate::groundedness::{
    bound_doc, is_docx, kb_ids_in, or_empty, place_doc, repairable, run_id_in, Span,
};
use crate::http::agents::{id_texts, write_ids};
use crate::grants::refusal_in;
use crate::http::automations::{rfc3339, shown_at};
use crate::ids::{id_text, id_text_reads_back, id_to_text};
use crate::json::{
    empty_object,
    id_value,
    json_in,
    list_at,
    member_at,
    put,
    read_text,
    strings_among,
    strings_value,
    text_at,
    text_list,
    text_or_null,
    text_or_null_value,
    text_value,
    Json,
};
use crate::principal::{AuthContext, Id};
use crate::text::{
    as_text, has_text, has_text_between, joined, joined3, opt_text, same, signed_decimal, signed_number,
    swap, swapped,
};
use crate::trail::{entry_by, note, record_by, AuditEvent};

verus! {

/// The model that checks claims.
pub const FACTCG: &'static str = "FactCG-DeBERTa-v3-Large";

pub struct StartBody {
    pub target_type: String,
    pub target_id: Id,
}

/// A draft that is to be checked.
pub struct DraftTarget {
    pub disk_path: String,
    pub mime: String,
    /// What is against the caller reading the chat that it was made in.
    pub read_refusal: Option<AppError>,
}

/// A document that is to be checked.
pub struct DocumentTarget {
    pub path: String,
    pub mime: Option<String>,
    /// What the grants of its project have against the caller.
    pub read_refusal: Option<AppError>,
}

/// What there is to know of a target.
pub enum TargetFacts {
    Draft(Option<DraftTarget>),
    Document(Result<DocumentTarget, AppError>),
    Neither,
}

impl TargetFacts {
    /// The facts are those of the type of target that is named.
    pub open spec fn about(self, target_type: Seq<char>) -> bool {
        if target_type == "draft"@ {
            self is Draft
        } else if target_type == "document"@ {
            self is Document
        } else {
            self is Neither
        }
    }
}

pub open spec fn target_refusal(f: TargetFacts) -> Option<Refusal> {
    match f {
        TargetFacts::Draft(None) => Some(Refusal::Validation("artefact not found"@)),
        TargetFacts::Draft(Some(d)) => refusal_in(d.read_refusal),
        TargetFacts::Document(Err(e)) => Some(e@),
        TargetFacts::Document(Ok(d)) => refusal_in(d.read_refusal),
        TargetFacts::Neither => Some(
            Refusal::Validation("target_type must be 'draft' or 'document'"@),
        ),
    }
}

/// Where a target lies, and what it is.
pub struct Target {
    pub path: String,
    pub mime: Option<String>,
}

/// Gets to a target that the caller reads.
pub fn resolve_target(f: TargetFacts) -> (r: Result<Target, AppError>)
    ensures
        refusal(r) == target_refusal(f),
        r matches Ok(t) ==> match f {
            TargetFacts::Draft(Some(d)) => t.path == d.disk_path && t.mime == Some(d.mime),
            TargetFacts::Document(Ok(d)) => t.path == d.path && t.mime == d.mime,
            _ => false,
        },
{
    match f {
        TargetFacts::Draft(None) => Err(validation("artefact not found")),
        TargetFacts::Draft(Some(d)) => match d.read_refusal {
            Some(e) => Err(e),
            None => Ok(Target { path: d.disk_path, mime: Some(d.mime) }),
        },
        TargetFacts::Document(Err(e)) => Err(e),
        TargetFacts::Document(Ok(d)) => match d.read_refusal {
            Some(e) => Err(e),
            None => Ok(Target { path: d.path, mime: d.mime }),
        },
        TargetFacts::Neither => Err(validation("target_type must be 'draft' or 'document'")),
    }
}

/// A knowledge base that is linked to a project.
#[derive(Clone, Copy, Debug, PartialEq, Eq, Structural)]
pub struct LinkedKb {
    pub id: Id,
    pub owner_id: Option<Id>,
    /// Whether it is granted to the caller or to a group that the caller is in.
    pub granted: bool,
    pub archived: bool,
}

/// A document is checked against what its project is linked to and the caller reads.
pub open spec fn is_evidence(ctx: AuthContext, kb: LinkedKb) -> bool {
    !kb.archived && (ctx.admin || ctx.owns(kb.owner_id) || kb.granted)
}

pub open spec fn evidence_of(ctx: AuthContext, linked: Seq<LinkedKb>) -> Seq<Id>
    decreases linked.len(),
{
    if linked.len() == 0 {
        Seq::empty()
    } else {
        let before = evidence_of(ctx, linked.drop_last());
        if is_evidence(ctx, linked.last()) {
            before.push(linked.last().id)
        } else {
            before
        }
    }
}

/// The knowledge bases that a document is checked against.
pub fn document_evidence(ctx: &AuthContext, linked: &Vec<LinkedKb>) -> (r: Vec<Id>)
    ensures
        r@ == evidence_of(*ctx, linked@),
{
    let mut out: Vec<Id> = Vec::new();
    let mut i: usize = 0;
    assert(linked@.take(0) == Seq::<LinkedKb>::empty());
    while i < linked.len()
        invariant
            i <= linked@.len(),
            out@ == evidence_of(*ctx, linked@.take(i as int)),
        decreases linked@.len() - i,
    {
        assert(linked@.take(i as int + 1).drop_last() == linked@.take(i as int));
        let kb = linked[i];
        if !kb.archived && (ctx.is_admin() || ctx.is_owner(kb.owner_id) || kb.granted) {
            out.push(kb.id);
        }
        i = i + 1;
    }
    assert(linked@.take(linked@.len() as int) == linked@);
    out
}

/// A check reads nothing that whoever asked for it could not read.
pub proof fn evidence_is_readable(ctx: AuthContext, linked: Seq<LinkedKb>, id: Id)
    requires
        evidence_of(ctx, linked).contains(id),
    ensures
        exists|kb: LinkedKb| #[trigger] linked.contains(kb) && kb.id == id && is_evidence(ctx, kb),
    decreases linked.len(),
{
    let before = evidence_of(ctx, linked.drop_last());
    let i = evidence_of(ctx, linked).index_of(id);
    if i < before.len() {
        assert(before[i] == id);
        evidence_is_readable(ctx, linked.drop_last(), id);
        let kb = choose|kb: LinkedKb| #[trigger]
            linked.drop_last().contains(kb) && kb.id == id && is_evidence(ctx, kb);
        let k = linked.drop_last().index_of(kb);
        assert(linked[k] == kb);
        assert(linked.contains(kb));
    } else {
        assert(linked.contains(linked.last()));
    }
}

pub open spec fn start_refusal(enabled: bool, f: TargetFacts) -> Option<Refusal> {
    if !enabled {
        Some(Refusal::Forbidden("groundedness verification is disabled"@))
    } else {
        target_refusal(f)
    }
}

/// The job that checks a target.
pub open spec fn job_json(run_id: Id, path: Seq<char>, mime: Option<Seq<char>>, kb_ids: Seq<Id>) -> Json {
    Json::Object(
        Map::empty().insert("run_id"@, Json::Text(id_text(run_id))).insert(
            "path"@,
            Json::Text(path),
        ).insert(
            "mime"@,
            text_or_null(mime),
        ).insert("kb_ids"@, text_list(id_texts(kb_ids))),
    )
}

/// Starts the check of a target: the job that does it. `kb_ids` are what it is checked
/// against.
pub fn start(enabled: bool, f: TargetFacts, run_id: Id, kb_ids: &Vec<Id>) -> (r: Result<
    serde_json::Value,
    AppError,
>)
    ensures
        refusal(r) == start_refusal(enabled, f),
        r matches Ok(job) ==> match f {
            TargetFacts::Draft(Some(d)) => json_in(job) == job_json(
                run_id,
                d.disk_path@,
                Some(d.mime@),
                kb_ids@,
            ),
            TargetFacts::Document(Ok(d)) => json_in(job) == job_json(
                run_id,
                d.path@,
                opt_text(d.mime),
                kb_ids@,
            ),
            _ => false,
        },
{
    if !enabled {
        return Err(forbidden("groundedness verification is disabled"));
    }
    let t = match resolve_target(f) {
        Ok(t) => t,
        Err(e) => {
            return Err(e);
        },
    };
    let ids = write_ids(kb_ids);
    let mut job = empty_object();
    put(&mut job, "run_id", id_value(run_id));
    put(&mut job, "path", text_value(t.path.as_str()));
    put(&mut job, "mime", text_or_null_value(&t.mime));
    put(&mut job, "kb_ids", strings_value(&ids));
    Ok(job)
}

proof fn all_strings_are_kept(s: Seq<Seq<char>>)
    ensures
        strings_among(s.map_values(|t: Seq<char>| Some(t))) == s,
    decreases s.len(),
{
    let items = s.map_values(|t: Seq<char>| Some(t));
    if s.len() > 0 {
        all_strings_are_kept(s.drop_last());
        assert(items.drop_last() =~= s.drop_last().map_values(|t: Seq<char>| Some(t)));
        assert(s.drop_last().push(s.last()) =~= s);
    } else {
        assert(strings_among(items) =~= s);
    }
}

/// The job of a check says which run it is, what is checked, and against what: all of it is
/// read back from the job as it went in.
pub proof fn jobs_read_back(
    job: serde_json::Value,
    run_id: Id,
    path: Seq<char>,
    mime: Option<Seq<char>>,
    kb_ids: Seq<Id>,
)
    requires
        json_in(job) == job_json(run_id, path, mime, kb_ids),
    ensures
        run_id_in(job) == Some(run_id),
        text_at(json_in(job), "path"@) == Some(path),
        text_at(json_in(job), "mime"@) == mime,
        kb_ids_in(job) == id_texts(kb_ids),
{
    reveal_strlit("run_id");
    reveal_strlit("path");
    reveal_strlit("mime");
    reveal_strlit("kb_ids");
    assert("path"@[0] != "mime"@[0]);
    assert("run_id"@[0] != "kb_ids"@[0]);
    id_text_reads_back(run_id);
    let ids = id_texts(kb_ids);
    let items = list_at(json_in(job), "kb_ids"@)->0;
    assert(items =~= ids.map_values(|t: Seq<char>| Some(t)));
    all_strings_are_kept(ids);
}

/// A stored verdict about a claim.
pub struct ClaimRow<S> {
    pub claim_text: String,
    pub verdict: String,
    pub score: Option<S>,
    pub bound_evidence_ref: Option<serde_json::Value>,
    pub had_citation: bool,
    pub source_span: Option<serde_json::Value>,
    pub repair_action: Option<String>,
}

pub struct ClaimOut<S> {
    pub claim_text: String,
    pub verdict: String,
    pub score: Option<S>,
    pub evidence: String,
    pub section: String,
    pub had_citation: bool,
    pub source_text: Option<String>,
    pub repair_action: Option<String>,
}

/// A text among what is stored with a claim.
pub open spec fn stored_text(v: Option<serde_json::Value>, name: Seq<char>) -> Option<Seq<char>> {
    match v {
        Some(x) => text_at(json_in(x), name),
        None => None,
    }
}

fn find_text(v: &Option<serde_json::Value>, name: &str) -> (r: Option<String>)
    ensures
        opt_text(r) == stored_text(*v, name@),
{
    match v {
        Some(x) => read_text(x, name),
        None => None,
    }
}

/// A claim as it is shown, with the evidence it was held against.
pub fn claim_out<S>(c: ClaimRow<S>) -> (r: ClaimOut<S>)
    ensures
        r.claim_text == c.claim_text,
        r.verdict == c.verdict,
        r.score == c.score,
        r.evidence@ == or_empty(stored_text(c.bound_evidence_ref, "evidence"@)),
        r.section@ == or_empty(stored_text(c.bound_evidence_ref, "section"@)),
        r.had_citation == c.had_citation,
        opt_text(r.source_text) == stored_text(c.source_span, "text"@),
        r.repair_action == c.repair_action,
{
    let evidence = match find_text(&c.bound_evidence_ref, "evidence") {
        Some(s) => s,
        None => String::new(),
    };
    let section = match find_text(&c.bound_evidence_ref, "section") {
        Some(s) => s,
        None => String::new(),
    };
    let source_text = find_text(&c.source_span, "text");
    ClaimOut {
        claim_text: c.claim_text,
        verdict: c.verdict,
        score: c.score,
        evidence,
        section,
        had_citation: c.had_citation,
        source_text,
        repair_action: c.repair_action,
    }
}

/// Whatever evidence a draft check stores with a claim is what the claim is shown with.
pub proof fn stored_evidence_is_shown(
    bound: serde_json::Value,
    evidence: Seq<char>,
    section: Seq<char>,
)
    requires
        json_in(bound) == bound_doc(evidence, section),
    ensures
        stored_text(Some(bound), "evidence"@) == Some(evidence),
        stored_text(Some(bound), "section"@) == Some(section),
{
    reveal_strlit("evidence");
    reveal_strlit("section");
    assert("evidence"@.len() != "section"@.len());
}

/// A claim of a live answer has a place in the answer and no words of a document, so nothing
/// of it is shown as found in one.
pub proof fn live_claims_name_no_document(place: serde_json::Value, s: Span)
    requires
        json_in(place) == place_doc(s),
    ensures
        stored_text(Some(place), "text"@) is None,
{
    reveal_strlit("start");
    reveal_strlit("end");
    reveal_strlit("text");
    assert("text"@.len() != "start"@.len() && "text"@.len() != "end"@.len());
}

/// A stored run.
pub struct RunRow<S> {
    pub target_type: String,
    pub target_id: Id,
    pub mode: String,
    pub status: String,
    pub verifier_model: String,
    pub strictness: String,
    pub faithfulness_score: Option<S>,
    pub total_claims: i32,
    pub supported: i32,
    pub contradicted: i32,
    pub not_mentioned: i32,
    pub created_by: Option<Id>,
    pub created_at: Instant,
    pub finished_at: Option<Instant>,
}

pub struct RunDetail<S> {
    pub id: Id,
    pub target_type: String,
    pub target_id: Id,
    pub mode: String,
    pub status: String,
    pub verifier_model: String,
    pub strictness: String,
    pub faithfulness_score: Option<S>,
    pub total_claims: i32,
    pub supported: i32,
    pub contradicted: i32,
    pub not_mentioned: i32,
    pub created_at: String,
    pub finished_at: Option<String>,
    pub claims: Vec<ClaimOut<S>>,
}

/// Whether what is against the caller reading the target decides: it does not for whoever
/// started the run and for administrators.
pub open spec fn target_decides(ctx: AuthContext, created_by: Option<Id>) -> bool {
    !ctx.owns(created_by) && !ctx.admin
}

pub fn asks_target(ctx: &AuthContext, created_by: Option<Id>) -> (r: bool)
    ensures
        r == target_decides(*ctx, created_by),
{
    !ctx.is_owner(created_by) && !ctx.is_admin()
}

pub open spec fn run_refusal<S>(ctx: AuthContext, run: Option<RunRow<S>>, f: TargetFacts) -> Option<
    Refusal,
> {
    match run {
        None => Some(Refusal::Validation("verification run not found"@)),
        Some(run) => if target_decides(ctx, run.created_by) {
            target_refusal(f)
        } else {
            None
        },
    }
}

/// A run with its verdicts, for whoever started it, administrators, and those who read its
/// target.
pub fn run_detail<S>(
    ctx: &AuthContext,
    run_id: Id,
    run: Option<RunRow<S>>,
    f: TargetFacts,
    claims: Vec<ClaimOut<S>>,
) -> (r: Result<RunDetail<S>, AppError>)
    ensures
        refusal(r) == run_refusal(*ctx, run, f),
        r matches Ok(d) ==> run matches Some(run) && {
            &&& d.id == run_id
            &&& d.target_type == run.target_type
            &&& d.target_id == run.target_id
            &&& d.mode == run.mode
            &&& d.status == run.status
            &&& d.verifier_model == run.verifier_model
            &&& d.strictness == run.strictness
            &&& d.faithfulness_score == run.faithfulness_score
            &&& d.total_claims == run.total_claims
            &&& d.supported == run.supported
            &&& d.contradicted == run.contradicted
            &&& d.not_mentioned == run.not_mentioned
            &&& d.created_at@ == shown(run.created_at)
            &&& opt_text(d.finished_at) == shown_at(run.finished_at)
            &&& d.claims == claims
        },
{
    let run = match run {
        Some(run) => run,
        None => {
            return Err(validation("verification run not found"));
        },
    };
    if asks_target(ctx, run.created_by) {
        match resolve_target(f) {
            Ok(_) => {},
            Err(e) => {
                return Err(e);
            },
        }
    }
    Ok(
        RunDetail {
            id: run_id,
            target_type: run.target_type,
            target_id: run.target_id,
            mode: run.mode,
            status: run.status,
            verifier_model: run.verifier_model,
            strictness: run.strictness,
            faithfulness_score: run.faithfulness_score,
            total_claims: run.total_claims,
            supported: run.supported,
            contradicted: run.contradicted,
            not_mentioned: run.not_mentioned,
            created_at: show(run.created_at),
            finished_at: rfc3339(run.finished_at),
            claims,
        },
    )
}

pub struct LatestQuery {
    pub target_type: String,
    pub target_id: Id,
}

/// A run, as far as it is looked for by what it checked.
pub struct RunEntry {
    pub id: Id,
    pub target_type: String,
    pub target_id: Id,
    pub created_at: Instant,
}

pub open spec fn checks(e: RunEntry, q: LatestQuery) -> bool {
    e.target_type@ == q.target_type@ && e.target_id == q.target_id
}

/// A run of that target with none of the target after it.
pub open spec fn is_latest(entries: Seq<RunEntry>, q: LatestQuery, i: int) -> bool {
    &&& 0 <= i < entries.len()
    &&& checks(entries[i], q)
    &&& forall|k: int|
        0 <= k < entries.len() && checks(#[trigger] entries[k], q) ==> entries[k].created_at
            <= entries[i].created_at
}

/// The run that a target was last checked in, where it was checked at all.
pub fn latest_for_target(entries: &Vec<RunEntry>, q: &LatestQuery) -> (r: Option<Id>)
    ensures
        match r {
            Some(id) => exists|i: int| #[trigger] is_latest(entries@, *q, i) && entries@[i].id == id,
            None => forall|k: int| 0 <= k < entries@.len() ==> !checks(#[trigger] entries@[k], *q),
        },
{
    let mut best: Option<usize> = None;
    let mut i: usize = 0;
    while i < entries.len()
        invariant
            i <= entries@.len(),
            match best {
                Some(b) => b < i && checks(entries@[b as int], *q) && forall|k: int|
                    0 <= k < i && checks(#[trigger] entries@[k], *q) ==> entries@[k].created_at
                        <= entries@[b as int].created_at,
                None => forall|k: int| 0 <= k < i ==> !checks(#[trigger] entries@[k], *q),
            },
        decreases entries@.len() - i,
    {
        let e = &entries[i];
        if same(e.target_type.as_str(), q.target_type.as_str()) && e.target_id == q.target_id {
            let newer = match best {
                Some(b) => entries[b].created_at < e.created_at,
                None => true,
            };
            if newer {
                best = Some(i);
            }
        }
        i = i + 1;
    }
    match best {
        Some(b) => {
            assert(is_latest(entries@, *q, b as int));
            Some(entries[b].id)
        },
        None => None,
    }
}

pub open spec fn repair_refusal<S>(
    enabled: bool,
    repair_enabled: bool,
    run: Result<RunDetail<S>, AppError>,
    mime: Option<Seq<char>>,
    filename: Seq<char>,
) -> Option<Refusal> {
    if !enabled {
        Some(Refusal::Forbidden("groundedness verification is disabled"@))
    } else if !repair_enabled {
        Some(Refusal::Forbidden("ground-or-cut repair is disabled"@))
    } else {
        match run {
            Err(e) => Some(e@),
            Ok(d) => if d.target_type@ != "document"@ {
                Some(Refusal::Validation("repair applies to workspace documents only"@))
            } else if d.status@ != "succeeded"@ {
                Some(Refusal::Validation("run is not finished"@))
            } else if !is_docx(mime, filename) {
                Some(
                    Refusal::Validation(
                        "Repair proposes tracked changes, which require a DOCX document — this document can't be repaired."@,
                    ),
                )
            } else {
                None
            },
        }
    }
}

/// Starts the repair of a document whose check is done: the job that does it. `mime` and
/// `filename` are those of the document.
pub fn repair<S>(
    enabled: bool,
    repair_enabled: bool,
    run_id: Id,
    run: Result<RunDetail<S>, AppError>,
    mime: &Option<String>,
    filename: &str,
) -> (r: Result<serde_json::Value, AppError>)
    ensures
        refusal(r) == repair_refusal(enabled, repair_enabled, run, opt_text(*mime), filename@),
        r matches Ok(job) ==> json_in(job) == Json::Object(
            Map::empty().insert("run_id"@, Json::Text(id_text(run_id))),
        ),
{
    if !enabled {
        return Err(forbidden("groundedness verification is disabled"));
    }
    if !repair_enabled {
        return Err(forbidden("ground-or-cut repair is disabled"));
    }
    let d = match run {
        Ok(d) => d,
        Err(e) => {
            return Err(e);
        },
    };
    if !same(d.target_type.as_str(), "document") {
        return Err(validation("repair applies to workspace documents only"));
    }
    if !same(d.status.as_str(), "succeeded") {
        return Err(validation("run is not finished"));
    }
    if !repairable(as_text(mime), filename) {
        return Err(
            validation(
                "Repair proposes tracked changes, which require a DOCX document — this document can't be repaired.",
            ),
        );
    }
    let mut job = empty_object();
    put(&mut job, "run_id", id_value(run_id));
    Ok(job)
}

/// The job of a repair says which run it is of.
pub proof fn repair_jobs_read_back(job: serde_json::Value, run_id: Id)
    requires
        json_in(job) == Json::Object(
            Map::empty().insert("run_id"@, Json::Text(id_text(run_id))),
        ),
    ensures
        run_id_in(job) == Some(run_id),
{
    id_text_reads_back(run_id);
}

/// The heading of a report: the share of what is grounded, or that nothing was scored, exactly
/// where there is no score. `percent` is the score as a number of percent.
pub open spec fn report_heading<S>(score: Option<S>, percent: Seq<char>) -> Seq<char> {
    match score {
        Some(_) => percent + "% grounded"@,
        None => "not scored"@,
    }
}

/// The beginning of a report: which run, how it went, and how many claims there are of each
/// verdict.
pub open spec fn report_head<S>(r: RunDetail<S>, percent: Seq<char>) -> Seq<char> {
    "# Groundedness verification report\n\n- **Run**: `"@ + id_text(r.id) + "`\n- **Target**: "@
        + r.target_type@ + " `"@ + id_text(r.target_id) + "`\n- **Mode**: "@ + r.mode@
        + "\n- **Verifier**: "@ + r.verifier_model@ + "\n- **Strictness**: "@ + r.strictness@
        + "\n- **Created**: "@ + r.created_at@ + "\n\n## "@ + report_heading(
        r.faithfulness_score,
        percent,
    ) + "\n\n"@ + signed_decimal(r.supported as int) + " supported · "@ + signed_decimal(r.contradicted as int) + " contradicted · "@
        + signed_decimal(r.not_mentioned as int) + " not mentioned (of "@ + signed_decimal(
        r.total_claims as int,
    ) + " claims)\n\n"@
}

pub open spec fn is_flagged<S>(c: ClaimOut<S>) -> bool {
    c.verdict@ != "supported"@
}

pub open spec fn any_flagged<S>(claims: Seq<ClaimOut<S>>) -> bool {
    exists|i: int| 0 <= i < claims.len() && is_flagged(#[trigger] claims[i])
}

/// Where a claim stands, as a report says it.
pub open spec fn section_line(section: Seq<char>) -> Seq<char> {
    if section.len() > 0 {
        "*"@ + section + "*\n\n"@
    } else {
        Seq::empty()
    }
}

/// What a claim was held against, as a report says it.
pub open spec fn evidence_line(evidence: Seq<char>) -> Seq<char> {
    if evidence.len() > 0 {
        "> "@ + swapped(evidence, '\n', ' ') + "\n\n"@
    } else {
        Seq::empty()
    }
}

/// What a report says of a claim that is not supported.
pub open spec fn claim_section<S>(c: ClaimOut<S>) -> Seq<char> {
    "### ["@ + swapped(c.verdict@, '_', ' ') + "] "@ + c.claim_text@ + "\n\n"@ + section_line(
        c.section@,
    ) + evidence_line(c.evidence@)
}

pub open spec fn flagged_sections<S>(claims: Seq<ClaimOut<S>>) -> Seq<char>
    decreases claims.len(),
{
    if claims.len() == 0 {
        Seq::empty()
    } else if is_flagged(claims.last()) {
        flagged_sections(claims.drop_last()) + claim_section(claims.last())
    } else {
        flagged_sections(claims.drop_last())
    }
}

/// What a report says of the claims.
pub open spec fn report_claims<S>(claims: Seq<ClaimOut<S>>) -> Seq<char> {
    if any_flagged(claims) {
        "## Flagged claims\n\n"@ + flagged_sections(claims)
    } else {
        "Every claim is supported by the provided sources.\n"@
    }
}

/// How every report ends.
pub const REPORT_END: &'static str = "\n---\n*Groundedness, not truth — every claim checked against the provided sources; a qualified human stays in the loop. Keep this report with the matter file.*\n";

/// The report of a run, as Markdown. `percent` is its score as a number of percent.
pub open spec fn report_of<S>(r: RunDetail<S>, percent: Seq<char>) -> Seq<char> {
    report_head(r, percent) + report_claims(r.claims@) + REPORT_END@
}

fn write_head<S>(r: &RunDetail<S>, percent: &str) -> (md: String)
    ensures
        md@ == report_head(*r, percent@),
{
    let heading = match &r.faithfulness_score {
        Some(_) => joined(percent, "% grounded"),
        None => "not scored".to_owned(),
    };
    let run = id_to_text(r.id);
    let target = id_to_text(r.target_id);
    let supported = signed_number(r.supported as i64);
    let contradicted = signed_number(r.contradicted as i64);
    let not_mentioned = signed_number(r.not_mentioned as i64);
    let total = signed_number(r.total_claims as i64);
    let mut md = joined3(
        "# Groundedness verification report\n\n- **Run**: `",
        run.as_str(),
        "`\n- **Target**: ",
    );
    md.append(r.target_type.as_str());
    md.append(" `");
    md.append(target.as_str());
    md.append("`\n- **Mode**: ");
    md.append(r.mode.as_str());
    md.append("\n- **Verifier**: ");
    md.append(r.verifier_model.as_str());
    md.append("\n- **Strictness**: ");
    md.append(r.strictness.as_str());
    md.append("\n- **Created**: ");
    md.append(r.created_at.as_str());
    md.append("\n\n## ");
    md.append(heading.as_str());
    md.append("\n\n");
    md.append(supported.as_str());
    md.append(" supported · ");
    md.append(contradicted.as_str());
    md.append(" contradicted · ");
    md.append(not_mentioned.as_str());
    md.append(" not mentioned (of ");
    md.append(total.as_str());
    md.append(" claims)\n\n");
    md
}

fn write_claim<S>(c: &ClaimOut<S>) -> (md: String)
    ensures
        md@ == claim_section(*c),
{
    let verdict = swap(c.verdict.as_str(), '_', ' ');
    let mut md = joined3("### [", verdict.as_str(), "] ");
    md.append(c.claim_text.as_str());
    md.append("\n\n");
    let ghost so_far = md@;
    if !c.section.as_str().is_empty() {
        let line = joined3("*", c.section.as_str(), "*\n\n");
        md.append(line.as_str());
    } else {
        assert(so_far + Seq::<char>::empty() =~= so_far);
    }
    let ghost with_section = md@;
    if !c.evidence.as_str().is_empty() {
        let flat = swap(c.evidence.as_str(), '\n', ' ');
        let line = joined3("> ", flat.as_str(), "\n\n");
        md.append(line.as_str());
    } else {
        assert(with_section + Seq::<char>::empty() =~= with_section);
    }
    md
}

/// Writes the report of a run. `percent` is its score as a number of percent, and read only
/// where there is a score.
pub fn render_report_md<S>(r: &RunDetail<S>, percent: &str) -> (md: String)
    ensures
        md@ == report_of(*r, percent@),
{
    let mut sections = String::new();
    let mut flagged = false;
    let mut i: usize = 0;
    assert(r.claims@.take(0) == Seq::<ClaimOut<S>>::empty());
    while i < r.claims.len()
        invariant
            i <= r.claims@.len(),
            sections@ == flagged_sections(r.claims@.take(i as int)),
            flagged == any_flagged(r.claims@.take(i as int)),
        decreases r.claims@.len() - i,
    {
        let ghost part = r.claims@.take(i as int);
        let ghost more = r.claims@.take(i as int + 1);
        assert(more.drop_last() == part);
        assert(more.last() == r.claims@[i as int]);
        let c = &r.claims[i];
        if !same(c.verdict.as_str(), "supported") {
            let text = write_claim(c);
            sections.append(text.as_str());
            flagged = true;
            assert(is_flagged(more[i as int]));
        } else {
            proof {
                if any_flagged(more) {
                    let k = choose|k: int| 0 <= k < more.len() && is_flagged(#[trigger] more[k]);
                    assert(part[k] == more[k]);
                }
                if any_flagged(part) {
                    let k = choose|k: int| 0 <= k < part.len() && is_flagged(#[trigger] part[k]);
                    assert(more[k] == part[k]);
                }
            }
        }
        i = i + 1;
    }
    assert(r.claims@.take(i as int) == r.claims@);
    let mut md = write_head(r, percent);
    if flagged {
        let text = joined("## Flagged claims\n\n", sections.as_str());
        md.append(text.as_str());
    } else {
        md.append("Every claim is supported by the provided sources.\n");
    }
    md.append(REPORT_END);
    md
}

/// A report is headed "not scored" where its run has no score, and nowhere else.
pub proof fn reports_say_whether_they_are_scored<S>(score: Option<S>, percent: Seq<char>)
    ensures
        report_heading(score, percent) == "not scored"@ <==> score is None,
{
    reveal_strlit("% grounded");
    reveal_strlit("not scored");
    let scored = percent + "% grounded"@;
    assert(scored.len() >= 10);
    assert(scored[percent.len() as int] == '%');
    assert(forall|i: int| 0 <= i < 10 ==> #[trigger] "not scored"@[i] != '%');
}

/// A report names every claim that is not supported.
pub proof fn reports_name_every_flagged_claim<S>(r: RunDetail<S>, percent: Seq<char>, i: int)
    requires
        0 <= i < r.claims@.len(),
        is_flagged(r.claims@[i]),
    ensures
        has_text(report_of(r, percent), r.claims@[i].claim_text@),
{
    let parts = flagged_sections_name(r.claims@, i);
    let claim = r.claims@[i].claim_text@;
    let before = report_head(r, percent) + ("## Flagged claims\n\n"@ + parts.0);
    let after = parts.1 + REPORT_END@;
    assert(report_of(r, percent) =~= before + claim + after);
    has_text_between(before, claim, after);
}

proof fn flagged_sections_name<S>(claims: Seq<ClaimOut<S>>, i: int) -> (parts: (
    Seq<char>,
    Seq<char>,
))
    requires
        0 <= i < claims.len(),
        is_flagged(claims[i]),
    ensures
        flagged_sections(claims) == parts.0 + claims[i].claim_text@ + parts.1,
    decreases claims.len(),
{
    let last = claims.last();
    if i == claims.len() - 1 {
        let before = flagged_sections(claims.drop_last()) + ("### ["@ + swapped(
            last.verdict@,
            '_',
            ' ',
        ) + "] "@);
        let after = "\n\n"@ + section_line(last.section@) + evidence_line(last.evidence@);
        assert(flagged_sections(claims) =~= before + last.claim_text@ + after);
        (before, after)
    } else {
        let p = flagged_sections_name(claims.drop_last(), i);
        if is_flagged(last) {
            let after = p.1 + claim_section(last);
            assert(flagged_sections(claims) =~= p.0 + claims[i].claim_text@ + after);
            (p.0, after)
        } else {
            p
        }
    }
}

pub struct ReportQuery {
    pub format: String,
}

/// The format of a report where none is asked for.
pub fn default_format() -> (r: String)
    ensures
        r@ == "md"@,
{
    "md".to_owned()
}

/// How a report is made in a format.
#[derive(Clone, Copy, Debug, PartialEq, Eq, Structural)]
pub enum ReportFormat {
    Markdown,
    /// By the maker of documents.
    Rendered,
}

pub open spec fn report_refusal(format: Seq<char>) -> Option<Refusal> {
    if format == "md"@ || format == "pdf"@ || format == "docx"@ {
        None
    } else {
        Some(Refusal::Validation("format must be md, pdf or docx"@))
    }
}

/// The disposition header of a downloaded report: its name holds the beginning of the run's
/// identifier.
pub open spec fn report_disposition(run_id: Id, format: Seq<char>) -> Seq<char> {
    "attachment; filename=\"groundedness-"@ + id_text(run_id).take(8) + "."@ + format + "\""@
}

/// Downloads a report: how it is made, and its disposition header.
pub fn export_report(run_id: Id, format: &str) -> (r: Result<(ReportFormat, String), AppError>)
    ensures
        refusal(r) == report_refusal(format@),
        r matches Ok(x) ==> {
            &&& x.0 == (if format@ == "md"@ {
                ReportFormat::Markdown
            } else {
                ReportFormat::Rendered
            })
            &&& x.1@ == report_disposition(run_id, format@)
        },
{
    let how = if same(format, "md") {
        ReportFormat::Markdown
    } else if same(format, "pdf") || same(format, "docx") {
        ReportFormat::Rendered
    } else {
        return Err(validation("format must be md, pdf or docx"));
    };
    let id = id_to_text(run_id);
    let stem = crate::text::clip(id.as_str(), 8);
    proof {
        id_text_reads_back(run_id);
    }
    let mut out = joined3("attachment; filename=\"groundedness-", stem.as_str(), ".");
    out.append(format);
    out.append("\"");
    Ok((how, out))
}

pub open spec fn exported_doc(format: Seq<char>) -> Json {
    Json::Object(Map::empty().insert("format"@, Json::Text(format)))
}

/// The entry of a report that was exported.
pub fn exported_event(ctx: &AuthContext, run_id: Id, format: &str) -> (e: AuditEvent)
    ensures
        e@ == entry_by(*ctx, "groundedness.report.exported"@, "verification_run"@, run_id).noting(
            exported_doc(format@),
        ),
{
    let mut doc = empty_object();
    put(&mut doc, "format", text_value(format));
    note(record_by(ctx, "groundedness.report.exported", "verification_run", run_id), doc)
}

/// A document is checked against every library of its project that is in use and that the caller
/// owns or was granted; for an administrator, against all in use.
pub proof fn libraries_that_are_read_are_evidence(ctx: AuthContext, s: Seq<LinkedKb>)
    ensures
        evidence_of(ctx, s)
            == s.filter(
                |x: LinkedKb| !x.archived
                    && (ctx.admin || x.granted || (x.owner_id is Some && ctx.user_id == x.owner_id))
            ).map_values(|x: LinkedKb| x.id),
    decreases s.len(),
{
    let p = |x: LinkedKb| !x.archived
            && (ctx.admin || x.granted || (x.owner_id is Some && ctx.user_id == x.owner_id));
    selects_last(s, p);
    if s.len() > 0 {
        libraries_that_are_read_are_evidence(ctx, s.drop_last());
    }
    assert(evidence_of(ctx, s) =~= s.filter(p).map_values(|x: LinkedKb| x.id));
}

/// A check is started where checks are on and its target may be read; a run is read by whoever made
/// it, by administrators and by those who read its target. A library is evidence where it is in use
/// and may be read.
pub proof fn who_checks_groundedness(
    enabled: bool,
    f: TargetFacts,
    ctx: AuthContext,
    kb: LinkedKb,
    created_by: Option<Id>,
    format: Seq<char>,
)
    ensures
        target_refusal(f) is None
            <==> match f {
                TargetFacts::Draft(d) => d matches Some(d) && d.read_refusal is None,
                TargetFacts::Document(d) => d matches Ok(d) && d.read_refusal is None,
                TargetFacts::Neither => false,
            },
        start_refusal(enabled, f) is None
            <==> enabled
                && match f {
                    TargetFacts::Draft(d) => d matches Some(d) && d.read_refusal is None,
                    TargetFacts::Document(d) => d matches Ok(d) && d.read_refusal is None,
                    TargetFacts::Neither => false,
                },
        is_evidence(ctx, kb)
            <==> !kb.archived
                && (ctx.admin || (kb.owner_id is Some && ctx.user_id == kb.owner_id) || kb.granted),
        target_decides(ctx, created_by)
            <==> !ctx.admin && !(created_by is Some && ctx.user_id == created_by),
        report_refusal(format) is None <==> format == "md"@ || format == "pdf"@ || format == "docx"@,
{
}

/// A run is read where it is there by whoever made it, by administrators and by those who read its
/// target.
pub proof fn who_reads_runs<S>(ctx: AuthContext, run: Option<RunRow<S>>, f: TargetFacts)
    ensures
        run_refusal(ctx, run, f) is None
            <==> (
                run matches Some(r)
                    && (
                        ctx.admin
                            || (r.created_by is Some && ctx.user_id == r.created_by)
                            || match f {
                                TargetFacts::Draft(d) => d matches Some(d) && d.read_refusal is None,
                                TargetFacts::Document(d) => d matches Ok(d)
                                    && d.read_refusal is None,
                                TargetFacts::Neither => false,
                            }
                    )
            ),
{
}

/// A run is repaired where checks and repairs are on, it is done, and its target is a document that
/// takes tracked changes.
pub proof fn which_runs_are_repaired<S>(
    enabled: bool,
    repair_enabled: bool,
    run: Result<RunDetail<S>, AppError>,
    mime: Option<Seq<char>>,
    filename: Seq<char>,
)
    ensures
        repair_refusal(enabled, repair_enabled, run, mime, filename) is None
            <==> enabled
                && repair_enabled
                && (run matches Ok(d) && d.target_type@ == "document"@ && d.status@ == "succeeded"@)
                && is_docx(mime, filename),
{
}

/// What stands in `exported_doc` under each name; there is no other name in it.
pub proof fn what_exported_doc_holds(format: Seq<char>)
    ensures
        member_at(exported_doc(format), "format"@) == Some(Json::Text(format)),
        forall|name: Seq<char>|
            #[trigger] member_at(exported_doc(format), name) is Some ==> name == "format"@,
{
}

/// The latest run of a target is one of that target, and none of that target is newer.
pub proof fn the_latest_run_is_the_newest(
    f: TargetFacts,
    kind: Seq<char>,
    e: RunEntry,
    q: LatestQuery,
    entries: Seq<RunEntry>,
    i: int,
)
    ensures
        checks(e, q) <==> e.target_type@ == q.target_type@ && e.target_id == q.target_id,
        is_latest(entries, q, i)
            ==> 0 <= i < entries.len()
                && entries[i].target_type@ == q.target_type@
                && entries[i].target_id == q.target_id
                && forall|k: int|
                    0 <= k < entries.len()
                        && (#[trigger] entries[k]).target_type@ == q.target_type@
                        && entries[k].target_id == q.target_id
                        ==> entries[k].created_at <= entries[i].created_at,
        f.about("draft"@) <==> f is Draft,
        f.about("document"@) <==> f is Document,
        kind != "draft"@ && kind != "document"@ ==> (f.about(kind) <==> f is Neither),
{
    reveal_strlit("draft");
    reveal_strlit("document");
    assert("draft"@.len() != "document"@.len());
}

/// A report says of each flagged claim what it is, where it stands and what speaks against it, in
/// their order, and of no other; where none is flagged, it says so.
pub proof fn reports_grow_by_each_flagged_claim<S>(claims: Seq<ClaimOut<S>>, c: ClaimOut<S>)
    ensures
        flagged_sections(Seq::<ClaimOut<S>>::empty()).len() == 0,
        c.verdict@ != "supported"@ ==> flagged_sections(claims.push(c)) == flagged_sections(claims)
            + ("### ["@ + swapped(c.verdict@, '_', ' ') + "] "@ + c.claim_text@ + "\n\n"@ + (
        if c.section@.len() > 0 {
            "*"@ + c.section@ + "*\n\n"@
        } else {
            Seq::empty()
        }) + (if c.evidence@.len() > 0 {
            "> "@ + swapped(c.evidence@, '\n', ' ') + "\n\n"@
        } else {
            Seq::empty()
        })),
        c.verdict@ == "supported"@ ==> flagged_sections(claims.push(c)) == flagged_sections(claims),
        report_claims(claims) == (if exists|i: int|
            0 <= i < claims.len() && (#[trigger] claims[i]).verdict@ != "supported"@ {
            "## Flagged claims\n\n"@ + flagged_sections(claims)
        } else {
            "Every claim is supported by the provided sources.\n"@
        }),
{
    assert(claims.push(c).drop_last() =~= claims);
    if any_flagged(claims) {
        let i = choose|i: int| 0 <= i < claims.len() && is_flagged(#[trigger] claims[i]);
        assert(claims[i].verdict@ != "supported"@);
    }
    if exists|i: int| 0 <= i < claims.len() && (#[trigger] claims[i]).verdict@ != "supported"@ {
        let i = choose|i: int|
            0 <= i < claims.len() && (#[trigger] claims[i]).verdict@ != "supported"@;
        assert(is_flagged(claims[i]));
    }
}

/// What stands in `job_json` under each name; there is no other name in it.
pub proof fn what_job_json_holds(
    run_id: Id,
    path: Seq<char>,
    mime: Option<Seq<char>>,
    kb_ids: Seq<Id>,
)
    ensures
        member_at(job_json(run_id, path, mime, kb_ids), "run_id"@)
            == Some(Json::Text(id_text(run_id))),
        member_at(job_json(run_id, path, mime, kb_ids), "path"@) == Some(Json::Text(path)),
        member_at(job_json(run_id, path, mime, kb_ids), "mime"@) == Some(text_or_null(mime)),
        member_at(job_json(run_id, path, mime, kb_ids), "kb_ids"@)
            == Some(text_list(id_texts(kb_ids))),
        forall|name: Seq<char>|
            #[trigger] member_at(job_json(run_id, path, mime, kb_ids), name) is Some
                ==> name == "run_id"@ || name == "path"@ || name == "mime"@ || name == "kb_ids"@,
{
    reveal_strlit("run_id");
    reveal_strlit("path");
    reveal_strlit("mime");
    reveal_strlit("kb_ids");
    assert("run_id"@.len() != "path"@.len());
    assert("run_id"@.len() != "mime"@.len());
    assert("run_id"@[0] != "kb_ids"@[0]);
    assert("path"@[0] != "mime"@[0]);
    assert("path"@.len() != "kb_ids"@.len());
    assert("mime"@.len() != "kb_ids"@.len());
}

/// A report begins with what was checked, with what and how strictly, then says how it came out,
/// then names the flagged claims, and ends with what such a report is not.
pub proof fn reports_are_laid_out<S>(
    r: RunDetail<S>,
    percent: Seq<char>,
    run_id: Id,
    format: Seq<char>,
)
    ensures
        report_of(r, percent) == report_head(r, percent) + report_claims(r.claims@) + REPORT_END@,
        report_head(r, percent) == "# Groundedness verification report\n\n- **Run**: `"@ + id_text(
            r.id,
        ) + "`\n- **Target**: "@ + r.target_type@ + " `"@ + id_text(r.target_id)
            + "`\n- **Mode**: "@ + r.mode@ + "\n- **Verifier**: "@ + r.verifier_model@
            + "\n- **Strictness**: "@ + r.strictness@ + "\n- **Created**: "@ + r.created_at@
            + "\n\n## "@ + (if r.faithfulness_score is Some {
            percent + "% grounded"@
        } else {
            "not scored"@
        }) + "\n\n"@ + signed_decimal(r.supported as int) + " supported · "@ + signed_decimal(
            r.contradicted as int,
        ) + " contradicted · "@ + signed_decimal(r.not_mentioned as int)
            + " not mentioned (of "@ + signed_decimal(r.total_claims as int) + " claims)\n\n"@,
        report_disposition(run_id, format) == "attachment; filename=\"groundedness-"@ + id_text(
            run_id,
        ).take(8) + "."@ + format + "\""@,
{
}

/// What is stored of a claim is read as text under its name, where there is anything stored.
pub proof fn stored_texts_are_read(v: serde_json::Value, name: Seq<char>)
    ensures
        stored_text(None, name) is None,
        stored_text(Some(v), name) == text_at(json_in(v), name),
{
}

/// Of several things that are wrong, `start_refusal` tells the first.
pub proof fn start_refusal_tells_the_first_thing(enabled: bool, f: TargetFacts)
    ensures
        !enabled
            ==> start_refusal(enabled, f)
                == Some(Refusal::Forbidden("groundedness verification is disabled"@)),
        enabled ==> start_refusal(enabled, f) == target_refusal(f),
{
}

/// Of several things that are wrong, `report_refusal` tells the first.
pub proof fn report_refusal_tells_the_first_thing(format: Seq<char>)
    ensures
        (format == "md"@ || format == "pdf"@ || format == "docx"@)
            ==> report_refusal(format) is None,
        !(format == "md"@ || format == "pdf"@ || format == "docx"@)
            ==> report_refusal(format)
                == Some(Refusal::Validation("format must be md, pdf or docx"@)),
{
}

} // verus!
