//! Memory facts: written only when somebody asks for it, about a person or for a project,
//! and recalled with the pinned ones first.

use vstd::prelude::*;
use vstd::string::*;

use crate::lists::{selects_just, selects_last};
use crate::clock::Instant;
use crate::error::{forbidden, refusal, validation, AppError, Refusal};
use crate::grants::{refusal_in, ProjectGrants};
use crate::http::first;
use crate::http::messaging::among;
use crate::ids::{id_text, id_to_text, ids_among, read_ids};
use crate::order::{
    above,
    highest_first,
    ordered_lists_are_whole,
    ordered_lists_hold_the_same,
    rank_list,
    Ranked,
};
use crate::principal::{same_id, AuthContext, Id};
use crate::text::{
    blank,
    is_blank,
    joined,
    opt_text,
    same,
    texts,
    trim,
    trimmed,
    trimmed_empty_iff_blank,
};
use crate::trail::{entry_by, record_by, AuditEvent};

verus! {

/// How many facts that are not pinned are recalled without ranking them.
pub const SMALL: usize = 20;

/// How many facts are recalled at most.
pub const CAP: usize = 30;

/// Whose a fact is: a person's or a project's, exactly one.
#[derive(Clone, Copy, Debug, PartialEq, Eq, Structural)]
pub enum Owner {
    User(Id),
    Project(Id),
}

/// Why a fact is not written. `project_refusal` is what the project's grants have against
/// writing it, where it is a project's.
pub open spec fn insert_refusal(
    ctx: AuthContext,
    scope: Seq<char>,
    project_id: Option<Id>,
    project_refusal: Option<Refusal>,
) -> Option<Refusal> {
    if scope == "user"@ {
        if ctx.user_id is Some {
            None
        } else {
            Some(Refusal::Forbidden("a user-scoped fact needs a user"@))
        }
    } else if scope == "project"@ {
        if project_id is Some {
            project_refusal
        } else {
            Some(Refusal::Validation("a project-scoped fact needs a project chat"@))
        }
    } else {
        Some(Refusal::Validation("unknown memory scope: "@ + scope))
    }
}

/// Decides whose a new fact is.
pub fn insert_fact(
    ctx: &AuthContext,
    scope: &str,
    project_id: Option<Id>,
    grants: ProjectGrants,
) -> (r: Result<Owner, AppError>)
    ensures
        refusal(r) == insert_refusal(
            *ctx,
            scope@,
            project_id,
            refusal_in(grants.write),
        ),
        r matches Ok(o) ==> o == (if scope@ == "user"@ {
            Owner::User(ctx.user_id->0)
        } else {
            Owner::Project(project_id->0)
        }),
{
    if same(scope, "user") {
        match ctx.user_id {
            Some(uid) => Ok(Owner::User(uid)),
            None => Err(forbidden("a user-scoped fact needs a user")),
        }
    } else if same(scope, "project") {
        match project_id {
            Some(pid) => match grants.write {
                Some(e) => Err(e),
                None => Ok(Owner::Project(pid)),
            },
            None => Err(validation("a project-scoped fact needs a project chat")),
        }
    } else {
        Err(AppError::Validation(joined("unknown memory scope: ", scope)))
    }
}

/// The collection that a fact is indexed in.
pub open spec fn index_key(
    scope: Seq<char>,
    owner_user_id: Option<Id>,
    owner_project_id: Option<Id>,
) -> Option<Seq<char>> {
    if scope == "user"@ {
        match owner_user_id {
            Some(u) => Some("user_"@ + id_text(u)),
            None => None,
        }
    } else if scope == "project"@ {
        match owner_project_id {
            Some(p) => Some("proj_"@ + id_text(p)),
            None => None,
        }
    } else {
        None
    }
}

pub fn scope_key(scope: &str, owner_user_id: Option<Id>, owner_project_id: Option<Id>) -> (r: Option<
    String,
>)
    ensures
        opt_text(r) == index_key(scope@, owner_user_id, owner_project_id),
{
    if same(scope, "user") {
        match owner_user_id {
            Some(u) => {
                let t = id_to_text(u);
                Some(joined("user_", t.as_str()))
            },
            None => None,
        }
    } else if same(scope, "project") {
        match owner_project_id {
            Some(p) => {
                let t = id_to_text(p);
                Some(joined("proj_", t.as_str()))
            },
            None => None,
        }
    } else {
        None
    }
}

/// How the facts that are not pinned are found.
pub enum RecallPlan {
    /// The most recent ones.
    Recent,
    /// The ones that match best, found in these collections.
    Search(Vec<String>),
}

/// Ranking is for large memories, and for something to rank by.
pub open spec fn ranks(count: nat, query: Seq<char>) -> bool {
    count > SMALL && trimmed(query).len() > 0
}

/// The collections that are searched: the caller's and the project's.
pub open spec fn searched(user: Option<Id>, project: Option<Id>) -> Seq<Seq<char>> {
    let own = match user {
        Some(u) => seq!["user_"@ + id_text(u)],
        None => Seq::empty(),
    };
    match project {
        Some(p) => own.push("proj_"@ + id_text(p)),
        None => own,
    }
}

/// A fact is in scope: it is the caller's own, or that of the project.
pub open spec fn in_scope(ctx: AuthContext, project: Option<Id>, f: StoredFact) -> bool {
    ||| f.scope@ == "user"@ && ctx.owns(f.owner_user_id)
    ||| f.scope@ == "project"@ && project is Some && f.owner_project_id == project
}

fn scoped(ctx: &AuthContext, project: Option<Id>, f: &StoredFact) -> (r: bool)
    ensures
        r == in_scope(*ctx, project, *f),
{
    let own = same(f.scope.as_str(), "user") && ctx.is_owner(f.owner_user_id);
    let shared = same(f.scope.as_str(), "project") && project.is_some() && same_id(
        f.owner_project_id,
        project,
    );
    own || shared
}

/// How many facts in scope are not pinned.
pub open spec fn others_in_scope(ctx: AuthContext, project: Option<Id>, rows: Seq<StoredFact>) -> nat
    decreases rows.len(),
{
    if rows.len() == 0 {
        0
    } else {
        others_in_scope(ctx, project, rows.drop_last()) + (if in_scope(ctx, project, rows.last())
            && !rows.last().pinned {
            1nat
        } else {
            0nat
        })
    }
}

fn count_others(ctx: &AuthContext, project: Option<Id>, rows: &Vec<StoredFact>) -> (r: usize)
    ensures
        r == others_in_scope(*ctx, project, rows@),
{
    let mut count: usize = 0;
    let mut i: usize = 0;
    assert(rows@.take(0) == Seq::<StoredFact>::empty());
    while i < rows.len()
        invariant
            i <= rows@.len(),
            count <= i,
            count == others_in_scope(*ctx, project, rows@.take(i as int)),
        decreases rows@.len() - i,
    {
        assert(rows@.take(i as int + 1).drop_last() == rows@.take(i as int));
        if scoped(ctx, project, &rows[i]) && !rows[i].pinned {
            count = count + 1;
        }
        i = i + 1;
    }
    assert(rows@.take(rows@.len() as int) == rows@);
    count
}

/// Decides how facts are recalled. `rows` are the facts there are.
pub fn plan_recall(
    ctx: &AuthContext,
    project_id: Option<Id>,
    query: &str,
    rows: &Vec<StoredFact>,
) -> (r: RecallPlan)
    ensures
        match r {
            RecallPlan::Recent => !ranks(others_in_scope(*ctx, project_id, rows@), query@),
            RecallPlan::Search(keys) => ranks(
                others_in_scope(*ctx, project_id, rows@),
                query@,
            ) && texts(keys@) == searched(ctx.user_id, project_id),
        },
{
    if count_others(ctx, project_id, rows) <= SMALL || blank(query) {
        return RecallPlan::Recent;
    }
    let mut keys: Vec<String> = Vec::new();
    match ctx.user_id {
        Some(u) => {
            let t = id_to_text(u);
            keys.push(joined("user_", t.as_str()));
        },
        None => {},
    }
    match project_id {
        Some(p) => {
            let t = id_to_text(p);
            keys.push(joined("proj_", t.as_str()));
        },
        None => {},
    }
    assert(texts(keys@) =~= searched(ctx.user_id, project_id));
    RecallPlan::Search(keys)
}

/// Reads the identifiers that a search found, in its order; what is none is passed over.
pub fn found_ids(found: &Vec<String>) -> (r: Vec<Id>)
    ensures
        r@ == ids_among(texts(found@)),
{
    read_ids(found)
}

/// A search that found nothing falls back to the most recent facts, so that a memory is
/// never silently empty.
pub fn falls_back(ids: &Vec<Id>) -> (r: bool)
    ensures
        r == (ids@.len() == 0),
{
    ids.len() == 0
}

/// Which facts that are not pinned are recalled: those that were found, where they are ranked
/// and anything was, and all of them otherwise.
pub open spec fn ranked_by(count: nat, query: Seq<char>, found: Seq<Id>) -> Option<Seq<Id>> {
    if ranks(count, query) && found.len() > 0 {
        Some(found)
    } else {
        None
    }
}

/// A fact is recalled: it is in scope, and pinned or among those that are.
pub open spec fn is_recalled(
    ctx: AuthContext,
    project: Option<Id>,
    ids: Option<Seq<Id>>,
    f: StoredFact,
) -> bool {
    in_scope(ctx, project, f) && (f.pinned || (ids matches Some(found) ==> found.contains(f.id)))
}

/// The facts that are recalled, in the order in which they are stored.
pub open spec fn recalled_among(
    ctx: AuthContext,
    project: Option<Id>,
    ids: Option<Seq<Id>>,
    rows: Seq<StoredFact>,
) -> Seq<StoredFact>
    decreases rows.len(),
{
    if rows.len() == 0 {
        Seq::empty()
    } else {
        let before = recalled_among(ctx, project, ids, rows.drop_last());
        if is_recalled(ctx, project, ids, rows.last()) {
            before.push(rows.last())
        } else {
            before
        }
    }
}

/// What is recalled: the pinned facts and then the others, of each what changed last first, as
/// far as there is room.
pub open spec fn memory_of(
    ctx: AuthContext,
    project: Option<Id>,
    ids: Option<Seq<Id>>,
    rows: Seq<StoredFact>,
) -> Seq<StoredFact> {
    first(highest_first(recalled_among(ctx, project, ids, rows)), CAP as nat)
}

/// Recalls the caller's own facts and those of the project. `rows` are the facts there are, and
/// `found` what a search for the query found, where there was one.
pub fn recall(
    ctx: &AuthContext,
    project: Option<Id>,
    query: &str,
    rows: Vec<StoredFact>,
    found: &Vec<Id>,
) -> (r: Vec<String>)
    ensures
        ({
            let ids = ranked_by(others_in_scope(*ctx, project, rows@), query@, found@);
            let shown = memory_of(*ctx, project, ids, rows@);
            &&& r@.len() == shown.len()
            &&& forall|i: int| 0 <= i < r@.len() ==> #[trigger] r@[i] == shown[i].content
        }),
{
    let count: usize = count_others(ctx, project, &rows);
    let by_rank = count > SMALL && !blank(query) && found.len() > 0;
    let ghost ids = ranked_by(others_in_scope(*ctx, project, rows@), query@, found@);
    let n: usize = rows.len();
    let mut rest = rows;
    let mut kept: Vec<StoredFact> = Vec::new();
    let mut i: usize = 0;
    assert(rows@.take(0) == Seq::<StoredFact>::empty());
    while i < n
        invariant
            n == rows@.len(),
            i <= n,
            by_rank == (ids is Some),
            by_rank ==> ids == Some(found@),
            rest@ == rows@.skip(i as int),
            kept@ == recalled_among(*ctx, project, ids, rows@.take(i as int)),
        decreases n - i,
    {
        let row = rest.remove(0);
        assert(row == rows@[i as int]);
        assert(rest@ =~= rows@.skip(i as int + 1));
        assert(rows@.take(i as int + 1).drop_last() == rows@.take(i as int));
        if scoped(ctx, project, &row) && (row.pinned || !by_rank || among(found, row.id)) {
            kept.push(row);
        }
        i = i + 1;
    }
    assert(rows@.take(n as int) == rows@);
    let mut left = rank_list(kept);
    let ghost all = left@;
    let mut out: Vec<String> = Vec::new();
    while left.len() > 0 && out.len() < CAP
        invariant
            out@.len() <= CAP,
            out@.len() <= all.len(),
            left@ == all.skip(out@.len() as int),
            forall|k: int| 0 <= k < out@.len() ==> #[trigger] out@[k] == all[k].content,
        decreases left@.len(),
    {
        let f = left.remove(0);
        assert(f == all[out@.len() as int]);
        out.push(f.content);
        assert(left@ =~= all.skip(out@.len() as int));
    }
    out
}

proof fn recalled_facts_are_stored(
    ctx: AuthContext,
    project: Option<Id>,
    ids: Option<Seq<Id>>,
    rows: Seq<StoredFact>,
    f: StoredFact,
)
    ensures
        recalled_among(ctx, project, ids, rows).contains(f) <==> rows.contains(f) && is_recalled(
            ctx,
            project,
            ids,
            f,
        ),
    decreases rows.len(),
{
    let all = recalled_among(ctx, project, ids, rows);
    if rows.len() > 0 {
        let front = rows.drop_last();
        let before = recalled_among(ctx, project, ids, front);
        recalled_facts_are_stored(ctx, project, ids, front, f);
        if all.contains(f) {
            let i = all.index_of(f);
            if i < before.len() {
                assert(before[i] == f);
                let k = front.index_of(f);
                assert(rows[k] == f);
            } else {
                assert(rows[rows.len() - 1] == f);
            }
        }
        if rows.contains(f) && is_recalled(ctx, project, ids, f) {
            let k = rows.index_of(f);
            if k < rows.len() - 1 {
                assert(front[k] == f);
                let i = before.index_of(f);
                assert(all[i] == f);
            } else {
                assert(all[all.len() - 1] == f);
            }
        }
    }
}

/// What is recalled is the caller's own or the project's, and nothing else. The pinned facts
/// come before the others, and of each kind what changed last comes first; and no more is
/// recalled than there is room for.
pub proof fn memories_are_ones_own(
    ctx: AuthContext,
    project: Option<Id>,
    ids: Option<Seq<Id>>,
    rows: Seq<StoredFact>,
    i: int,
    j: int,
)
    requires
        0 <= i <= j < memory_of(ctx, project, ids, rows).len(),
    ensures
        ({
            let shown = memory_of(ctx, project, ids, rows);
            &&& shown.len() <= CAP
            &&& rows.contains(shown[i])
            &&& in_scope(ctx, project, shown[i])
            &&& shown[j].pinned ==> shown[i].pinned
            &&& shown[i].pinned == shown[j].pinned ==> shown[j].updated_at <= shown[i].updated_at
        }),
{
    let all = recalled_among(ctx, project, ids, rows);
    let ordered = highest_first(all);
    ordered_lists_are_whole(all);
    ordered_lists_hold_the_same(all, ordered[i]);
    assert(ordered.contains(ordered[i]));
    recalled_facts_are_stored(ctx, project, ids, rows, ordered[i]);
    if i < j {
        assert(!above(ordered[j].rank(), ordered[i].rank()));
    }
}

/// A memory is never silently empty: with a fact in scope, a pinned one or one that nothing was
/// found in place of, something is recalled; and a fact is left out only where the memory is
/// full.
pub proof fn facts_in_scope_are_recalled(
    ctx: AuthContext,
    project: Option<Id>,
    ids: Option<Seq<Id>>,
    rows: Seq<StoredFact>,
    f: StoredFact,
)
    requires
        rows.contains(f),
        in_scope(ctx, project, f),
        f.pinned || ids is None,
    ensures
        memory_of(ctx, project, ids, rows).len() > 0,
        memory_of(ctx, project, ids, rows).contains(f) || memory_of(ctx, project, ids, rows).len()
            == CAP,
{
    let all = recalled_among(ctx, project, ids, rows);
    let ordered = highest_first(all);
    ordered_lists_are_whole(all);
    recalled_facts_are_stored(ctx, project, ids, rows, f);
    ordered_lists_hold_the_same(all, f);
    assert(ordered.contains(f));
    let k = ordered.index_of(f);
    if ordered.len() <= CAP {
        assert(memory_of(ctx, project, ids, rows) == ordered);
    }
}

/// A pinned fact is recalled whatever else there is: it is left out only where the memory is full
/// of pinned facts.
pub proof fn pinned_facts_come_first(
    ctx: AuthContext,
    project: Option<Id>,
    ids: Option<Seq<Id>>,
    rows: Seq<StoredFact>,
    f: StoredFact,
)
    requires
        rows.contains(f),
        in_scope(ctx, project, f),
        f.pinned,
    ensures
        ({
            let shown = memory_of(ctx, project, ids, rows);
            shown.contains(f) || (shown.len() == CAP && forall|i: int|
                0 <= i < shown.len() ==> (#[trigger] shown[i]).pinned)
        }),
{
    let all = recalled_among(ctx, project, ids, rows);
    let ordered = highest_first(all);
    let shown = memory_of(ctx, project, ids, rows);
    ordered_lists_are_whole(all);
    recalled_facts_are_stored(ctx, project, ids, rows, f);
    ordered_lists_hold_the_same(all, f);
    assert(ordered.contains(f));
    let k = ordered.index_of(f);
    if k < shown.len() {
        assert(shown[k] == f);
    } else {
        assert forall|i: int| 0 <= i < shown.len() implies (#[trigger] shown[i]).pinned by {
            assert(shown[i] == ordered[i]);
            assert(!above(ordered[k].rank(), ordered[i].rank()));
        }
    }
}

pub struct CreateFact {
    pub content: String,
    pub scope: String,
    pub project_id: Option<Id>,
}

/// The scope of a fact where none is named.
pub fn default_scope() -> (r: String)
    ensures
        r@ == "user"@,
{
    "user".to_owned()
}

/// The content of a new fact: trimmed, and not empty.
pub fn create_fact(body: &CreateFact) -> (r: Result<String, AppError>)
    ensures
        match r {
            Ok(c) => trimmed(body.content@).len() > 0 && c@ == trimmed(body.content@),
            Err(e) => trimmed(body.content@).len() == 0 && e@ == Refusal::Validation(
                "content must not be empty"@,
            ),
        },
{
    let content = trim(body.content.as_str());
    if content.as_str().is_empty() {
        Err(validation("content must not be empty"))
    } else {
        Ok(content)
    }
}

pub struct UpdateFact {
    pub content: Option<String>,
    pub pinned: Option<bool>,
}

/// A fact, as far as it is edited.
pub struct Fact {
    pub content: String,
    pub pinned: bool,
    pub user_edited: bool,
}

/// Edits a fact: what is not given stays, and a new content marks the fact as edited by
/// hand.
pub fn update_fact(fact: Fact, body: UpdateFact) -> (r: Fact)
    ensures
        r.content@ == (match body.content {
            Some(c) => c@,
            None => fact.content@,
        }),
        r.pinned == (match body.pinned {
            Some(p) => p,
            None => fact.pinned,
        }),
        r.user_edited == (fact.user_edited || body.content is Some),
{
    let edited = fact.user_edited || body.content.is_some();
    Fact {
        content: match body.content {
            Some(c) => c,
            None => fact.content,
        },
        pinned: match body.pinned {
            Some(p) => p,
            None => fact.pinned,
        },
        user_edited: edited,
    }
}

/// Whose a stored fact is.
pub struct FactRow {
    pub scope: String,
    pub owner_user_id: Option<Id>,
    pub owner_project_id: Option<Id>,
}

/// Why the caller may not change a fact: a person's is theirs and an administrator's, a
/// project's is for whoever writes to the project.
pub open spec fn moderation_refusal(
    ctx: AuthContext,
    row: Option<FactRow>,
    project_refusal: Option<Refusal>,
) -> Option<Refusal> {
    match row {
        None => Some(Refusal::Validation("memory fact not found"@)),
        Some(f) => if f.scope@ == "user"@ {
            if f.owner_user_id == ctx.user_id || ctx.admin {
                None
            } else {
                Some(Refusal::Forbidden("not permitted to moderate this fact"@))
            }
        } else if f.owner_project_id is None {
            Some(Refusal::Validation("project fact missing project"@))
        } else {
            project_refusal
        },
    }
}

pub fn fetch_owned(
    ctx: &AuthContext,
    row: &Option<FactRow>,
    grants: ProjectGrants,
) -> (r: Result<(), AppError>)
    ensures
        refusal(r) == moderation_refusal(
            *ctx,
            *row,
            refusal_in(grants.write),
        ),
{
    let f = match row {
        Some(f) => f,
        None => {
            return Err(validation("memory fact not found"));
        },
    };
    if same(f.scope.as_str(), "user") {
        if same_id(f.owner_user_id, ctx.user_id) || ctx.is_admin() {
            return Ok(());
        }
        return Err(forbidden("not permitted to moderate this fact"));
    }
    if f.owner_project_id.is_none() {
        return Err(validation("project fact missing project"));
    }
    match grants.write {
        Some(e) => Err(e),
        None => Ok(()),
    }
}

/// A stored fact, as far as listing it goes.
pub struct StoredFact {
    pub id: Id,
    pub scope: String,
    pub owner_user_id: Option<Id>,
    pub owner_project_id: Option<Id>,
    pub content: String,
    pub pinned: bool,
    pub user_edited: bool,
    pub updated_at: Instant,
}

impl Ranked for StoredFact {
    /// Pinned facts come before the others, and what changed last comes before what changed
    /// earlier.
    open spec fn rank(self) -> (int, int) {
        (if self.pinned { 1 } else { 0 }, self.updated_at as int)
    }

    fn outranks(&self, other: &StoredFact) -> (r: bool) {
        if self.pinned == other.pinned {
            self.updated_at > other.updated_at
        } else {
            self.pinned
        }
    }
}

/// A fact is listed: it is that of the project that is asked for, or, where none is, the
/// caller's own.
pub open spec fn is_listed(ctx: AuthContext, project: Option<Id>, f: StoredFact) -> bool {
    match project {
        Some(p) => f.scope@ == "project"@ && f.owner_project_id == Some(p),
        None => f.scope@ == "user"@ && ctx.owns(f.owner_user_id),
    }
}

/// The facts that are listed, in the order in which they are stored.
pub open spec fn listed_facts(ctx: AuthContext, project: Option<Id>, rows: Seq<StoredFact>) -> Seq<
    StoredFact,
>
    decreases rows.len(),
{
    if rows.len() == 0 {
        Seq::empty()
    } else {
        let before = listed_facts(ctx, project, rows.drop_last());
        if is_listed(ctx, project, rows.last()) {
            before.push(rows.last())
        } else {
            before
        }
    }
}

/// The facts of the project that is asked for, where the caller reads it, or the caller's own
/// where none is: pinned ones first, and of those and of the others what changed last.
pub fn list_facts(
    ctx: &AuthContext,
    project: Option<Id>,
    grants: ProjectGrants,
    rows: Vec<StoredFact>,
) -> (r: Result<Vec<StoredFact>, AppError>)
    ensures
        refusal(r) == (if project is Some {
            refusal_in(grants.read)
        } else {
            None
        }),
        r matches Ok(v) ==> v@ == highest_first(listed_facts(*ctx, project, rows@)),
{
    if project.is_some() {
        match grants.read {
            Some(e) => {
                return Err(e);
            },
            None => {},
        }
    }
    let n: usize = rows.len();
    let mut rest = rows;
    let mut out: Vec<StoredFact> = Vec::new();
    let mut i: usize = 0;
    assert(rows@.take(0) == Seq::<StoredFact>::empty());
    while i < n
        invariant
            n == rows@.len(),
            i <= n,
            rest@ == rows@.skip(i as int),
            out@ == listed_facts(*ctx, project, rows@.take(i as int)),
        decreases n - i,
    {
        let row = rest.remove(0);
        assert(row == rows@[i as int]);
        assert(rest@ =~= rows@.skip(i as int + 1));
        assert(rows@.take(i as int + 1).drop_last() == rows@.take(i as int));
        let shown = match project {
            Some(p) => same(row.scope.as_str(), "project") && same_id(row.owner_project_id, Some(p)),
            None => same(row.scope.as_str(), "user") && ctx.is_owner(row.owner_user_id),
        };
        if shown {
            out.push(row);
        }
        i = i + 1;
    }
    assert(rows@.take(n as int) == rows@);
    Ok(rank_list(out))
}

proof fn listed_facts_are_stored(
    ctx: AuthContext,
    project: Option<Id>,
    rows: Seq<StoredFact>,
    f: StoredFact,
)
    ensures
        listed_facts(ctx, project, rows).contains(f) <==> rows.contains(f) && is_listed(
            ctx,
            project,
            f,
        ),
    decreases rows.len(),
{
    let all = listed_facts(ctx, project, rows);
    if rows.len() > 0 {
        let front = rows.drop_last();
        let before = listed_facts(ctx, project, front);
        listed_facts_are_stored(ctx, project, front, f);
        if all.contains(f) {
            let i = all.index_of(f);
            if i < before.len() {
                assert(before[i] == f);
                let k = front.index_of(f);
                assert(rows[k] == f);
            } else {
                assert(rows[rows.len() - 1] == f);
            }
        }
        if rows.contains(f) && is_listed(ctx, project, f) {
            let k = rows.index_of(f);
            if k < rows.len() - 1 {
                assert(front[k] == f);
                let i = before.index_of(f);
                assert(all[i] == f);
            } else {
                assert(all[all.len() - 1] == f);
            }
        }
    }
}

/// A listing of facts holds what is to be listed and nothing else: with a project nothing but
/// that project's facts, and without one nothing but the caller's own. No fact in it that is
/// not pinned stands before one that is.
pub proof fn listings_of_facts_are_kept_apart(
    ctx: AuthContext,
    project: Option<Id>,
    rows: Seq<StoredFact>,
    f: StoredFact,
)
    ensures
        ({
            let shown = highest_first(listed_facts(ctx, project, rows));
            &&& shown.contains(f) <==> rows.contains(f) && is_listed(ctx, project, f)
            &&& shown.contains(f) && project is Some ==> f.owner_project_id == project
            &&& shown.contains(f) && project is None ==> ctx.owns(f.owner_user_id)
            &&& forall|i: int, j: int|
                0 <= i < j < shown.len() && (#[trigger] shown[j]).pinned ==> (
                #[trigger] shown[i]).pinned
        }),
{
    broadcast use vstd::seq_lib::group_to_multiset_ensures;

    let all = listed_facts(ctx, project, rows);
    let shown = highest_first(all);
    ordered_lists_are_whole(all);
    listed_facts_are_stored(ctx, project, rows, f);
    assert(shown.contains(f) <==> shown.to_multiset().count(f) > 0);
    assert(all.contains(f) <==> all.to_multiset().count(f) > 0);
    assert forall|i: int, j: int| 0 <= i < j < shown.len() && (#[trigger] shown[j]).pinned implies (
    #[trigger] shown[i]).pinned by {
        assert(!above(shown[j].rank(), shown[i].rank()));
    }
}

/// What is written down of a change to a fact: that it changed, and never what it says.
pub fn audit_memory(ctx: &AuthContext, action: &str, fact_id: Id) -> (e: AuditEvent)
    ensures
        e@ == entry_by(*ctx, action@, "memory_fact"@, fact_id),
{
    record_by(ctx, action, "memory_fact", fact_id)
}

/// Deletes a fact, for whoever may change it: the index that it leaves, where it is in one.
pub fn delete_fact(ctx: &AuthContext, row: &Option<FactRow>, grants: ProjectGrants) -> (r:
    Result<Option<String>, AppError>)
    ensures
        refusal(r) == moderation_refusal(
            *ctx,
            *row,
            refusal_in(grants.write),
        ),
        r matches Ok(key) ==> *row matches Some(f) && opt_text(key) == index_key(
            f.scope@,
            f.owner_user_id,
            f.owner_project_id,
        ),
{
    match fetch_owned(ctx, row, grants) {
        Ok(_) => {},
        Err(e) => {
            return Err(e);
        },
    }
    match row {
        Some(f) => Ok(scope_key(f.scope.as_str(), f.owner_user_id, f.owner_project_id)),
        None => Ok(None),
    }
}

/// Recalls facts for the caller. Those of a project are for whoever reads it.
pub fn recall_facts(project_id: Option<Id>, grants: ProjectGrants) -> (r: Result<
    (),
    AppError,
>)
    ensures
        refusal(r) == (if project_id is Some {
            refusal_in(grants.read)
        } else {
            None
        }),
{
    if project_id.is_some() {
        match grants.read {
            Some(e) => Err(e),
            None => Ok(()),
        }
    } else {
        Ok(())
    }
}

/// The facts that are not pinned are counted where they are the caller's own or the project's.
pub proof fn facts_in_scope_are_counted(ctx: AuthContext, project: Option<Id>, s: Seq<StoredFact>)
    ensures
        others_in_scope(ctx, project, s)
            == s.filter(
                |x: StoredFact| (
                    (
                        x.scope@ == "user"@
                            && x.owner_user_id is Some
                            && ctx.user_id == x.owner_user_id
                    )
                        || (
                            x.scope@ == "project"@
                                && project is Some
                                && x.owner_project_id == project
                        )
                )
                    && !x.pinned
            ).len(),
    decreases s.len(),
{
    let p = |x: StoredFact| (
            (x.scope@ == "user"@ && x.owner_user_id is Some && ctx.user_id == x.owner_user_id)
                || (x.scope@ == "project"@ && project is Some && x.owner_project_id == project)
        )
            && !x.pinned;
    selects_last(s, p);
    if s.len() > 0 {
        facts_in_scope_are_counted(ctx, project, s.drop_last());
    }
}

/// What is recalled is every fact that is the caller's own or the project's and that is pinned or
/// among those that were found, where any were.
pub proof fn memories_are_in_scope(
    ctx: AuthContext,
    project: Option<Id>,
    ids: Option<Seq<Id>>,
    s: Seq<StoredFact>,
)
    ensures
        recalled_among(ctx, project, ids, s)
            == s.filter(
                |x: StoredFact| (
                    (
                        x.scope@ == "user"@
                            && x.owner_user_id is Some
                            && ctx.user_id == x.owner_user_id
                    )
                        || (
                            x.scope@ == "project"@
                                && project is Some
                                && x.owner_project_id == project
                        )
                )
                    && (x.pinned || ids is None || ids->0.contains(x.id))
            ),
        forall|x: StoredFact|
            #[trigger] recalled_among(ctx, project, ids, s).contains(x)
                <==> s.contains(x)
                    && (
                        (
                            (
                                x.scope@ == "user"@
                                    && x.owner_user_id is Some
                                    && ctx.user_id == x.owner_user_id
                            )
                                || (
                                    x.scope@ == "project"@
                                        && project is Some
                                        && x.owner_project_id == project
                                )
                        )
                            && (x.pinned || ids is None || ids->0.contains(x.id))
                    ),
    decreases s.len(),
{
    let p = |x: StoredFact| (
            (x.scope@ == "user"@ && x.owner_user_id is Some && ctx.user_id == x.owner_user_id)
                || (x.scope@ == "project"@ && project is Some && x.owner_project_id == project)
        )
            && (x.pinned || ids is None || ids->0.contains(x.id));
    selects_last(s, p);
    selects_just(s, p);
    if s.len() > 0 {
        memories_are_in_scope(ctx, project, ids, s.drop_last());
    }
    assert(recalled_among(ctx, project, ids, s) =~= s.filter(p));
    assert forall|x: StoredFact|
        #[trigger] recalled_among(ctx, project, ids, s).contains(x)
            <==> s.contains(x)
                && (
                    (
                        (
                            x.scope@ == "user"@
                                && x.owner_user_id is Some
                                && ctx.user_id == x.owner_user_id
                        )
                            || (
                                x.scope@ == "project"@
                                    && project is Some
                                    && x.owner_project_id == project
                            )
                    )
                        && (x.pinned || ids is None || ids->0.contains(x.id))
                ) by {
        assert(s.filter(p).contains(x) <==> s.contains(x) && p(x));
    }
}

/// With a project every fact of it is listed, and without one every fact of the caller's own.
pub proof fn listed_facts_are_of_one_scope(
    ctx: AuthContext,
    project: Option<Id>,
    s: Seq<StoredFact>,
)
    ensures
        listed_facts(ctx, project, s)
            == s.filter(
                |x: StoredFact| (
                    project is Some && x.scope@ == "project"@ && x.owner_project_id == project
                )
                    || (
                        project is None
                            && x.scope@ == "user"@
                            && x.owner_user_id is Some
                            && ctx.user_id == x.owner_user_id
                    )
            ),
        forall|x: StoredFact|
            #[trigger] listed_facts(ctx, project, s).contains(x)
                <==> s.contains(x)
                    && (
                        (project is Some && x.scope@ == "project"@ && x.owner_project_id == project)
                            || (
                                project is None
                                    && x.scope@ == "user"@
                                    && x.owner_user_id is Some
                                    && ctx.user_id == x.owner_user_id
                            )
                    ),
    decreases s.len(),
{
    let p = |x: StoredFact| (project is Some && x.scope@ == "project"@ && x.owner_project_id == project)
            || (
                project is None
                    && x.scope@ == "user"@
                    && x.owner_user_id is Some
                    && ctx.user_id == x.owner_user_id
            );
    selects_last(s, p);
    selects_just(s, p);
    if s.len() > 0 {
        listed_facts_are_of_one_scope(ctx, project, s.drop_last());
    }
    assert(listed_facts(ctx, project, s) =~= s.filter(p));
    assert forall|x: StoredFact|
        #[trigger] listed_facts(ctx, project, s).contains(x)
            <==> s.contains(x)
                && (
                    (project is Some && x.scope@ == "project"@ && x.owner_project_id == project)
                        || (
                            project is None
                                && x.scope@ == "user"@
                                && x.owner_user_id is Some
                                && ctx.user_id == x.owner_user_id
                        )
                ) by {
        assert(s.filter(p).contains(x) <==> s.contains(x) && p(x));
    }
}

/// A fact about a user is kept for somebody with an account, one about a project by those the project
/// admits. It is moderated by its user and by administrators, or by those the project admits.
pub proof fn who_keeps_facts(
    ctx: AuthContext,
    scope: Seq<char>,
    project_id: Option<Id>,
    project_refusal: Option<Refusal>,
    row: Option<FactRow>,
)
    ensures
        insert_refusal(ctx, scope, project_id, project_refusal) is None
            <==> (scope == "user"@ && ctx.user_id is Some)
                || (scope == "project"@ && project_id is Some && project_refusal is None),
        moderation_refusal(ctx, row, project_refusal) is None
            <==> (
                row matches Some(f)
                    && (
                        if f.scope@
                            == "user"@ { f.owner_user_id == ctx.user_id || ctx.admin } else {
                                f.owner_project_id is Some && project_refusal is None
                            }
                    )
            ),
{
    reveal_strlit("user");
    reveal_strlit("project");
    assert("user"@.len() != "project"@.len());
}

/// A fact is indexed under its user or its project. Many facts are ranked by what was asked, few are
/// not.
pub proof fn facts_are_indexed_by_their_owner(
    u: Id,
    p: Id,
    scope: Seq<char>,
    user: Option<Id>,
    project: Option<Id>,
    count: nat,
    query: Seq<char>,
    found: Seq<Id>,
)
    ensures
        index_key("user"@, user, project)
            == (match user { Some(u) => Some("user_"@ + id_text(u)), None => None }),
        index_key("project"@, user, project)
            == (match project { Some(p) => Some("proj_"@ + id_text(p)), None => None }),
        scope != "user"@ && scope != "project"@ ==> index_key(scope, user, project) is None,
        ranks(count, query) <==> count > 20 && !is_blank(query),
        searched(Some(u), Some(p)) == seq!["user_"@ + id_text(u), "proj_"@ + id_text(p)],
        searched(Some(u), None) == seq!["user_"@ + id_text(u)],
        searched(None, Some(p)) == seq!["proj_"@ + id_text(p)],
        searched(None, None).len() == 0,
        ranked_by(count, query, found) is Some
            <==> count > 20 && !is_blank(query) && found.len() > 0,
        ranked_by(count, query, found) matches Some(x) ==> x == found,
{
    reveal_strlit("user");
    reveal_strlit("project");
    assert("user"@.len() != "project"@.len());
    trimmed_empty_iff_blank(query);
}

/// A fact is in scope for the user it is about and in the project it is about; it is recalled where it
/// is pinned, found, or nothing was looked for.
pub proof fn which_facts_are_recalled(
    ctx: AuthContext,
    project: Option<Id>,
    ids: Option<Seq<Id>>,
    f: StoredFact,
    rows: Seq<StoredFact>,
)
    ensures
        in_scope(ctx, project, f)
            <==> (f.scope@ == "user"@ && f.owner_user_id is Some && ctx.user_id == f.owner_user_id)
                || (f.scope@ == "project"@ && project is Some && f.owner_project_id == project),
        is_recalled(ctx, project, ids, f)
            <==> in_scope(ctx, project, f)
                && (f.pinned || (ids matches Some(found) ==> found.contains(f.id))),
        memory_of(ctx, project, ids, rows).len()
            == (
                if recalled_among(ctx, project, ids, rows).len() < 30 {
                    recalled_among(ctx, project, ids, rows).len()
                } else { 30nat }
            ),
        forall|i: int|
            0 <= i < memory_of(ctx, project, ids, rows).len()
                ==> #[trigger] memory_of(ctx, project, ids, rows)[i]
                    == highest_first(recalled_among(ctx, project, ids, rows))[i],
{
    ordered_lists_are_whole(recalled_among(ctx, project, ids, rows));
}

/// A fact about nobody, or about no project, or in no scope is refused as such; of a stored one, its
/// project decides, or else its user.
pub proof fn why_facts_are_refused(
    ctx: AuthContext,
    scope: Seq<char>,
    p: Option<Refusal>,
    f: FactRow,
    project: Id,
)
    ensures
        ctx.user_id is None
            ==> insert_refusal(ctx, "user"@, None, p)
                == Some(Refusal::Forbidden("a user-scoped fact needs a user"@)),
        insert_refusal(ctx, "project"@, None, p)
            == Some(Refusal::Validation("a project-scoped fact needs a project chat"@)),
        insert_refusal(ctx, "project"@, Some(project), p) == p,
        scope != "user"@ && scope != "project"@
            ==> insert_refusal(ctx, scope, None, p)
                == Some(Refusal::Validation("unknown memory scope: "@ + scope)),
        moderation_refusal(ctx, None, p) == Some(Refusal::Validation("memory fact not found"@)),
        f.scope@ == "user"@ && f.owner_user_id != ctx.user_id && !ctx.admin
            ==> moderation_refusal(ctx, Some(f), p)
                == Some(Refusal::Forbidden("not permitted to moderate this fact"@)),
        f.scope@ != "user"@ && f.owner_project_id is Some
            ==> moderation_refusal(ctx, Some(f), p) == p,
        f.scope@ != "user"@ && f.owner_project_id is None
            ==> moderation_refusal(ctx, Some(f), p)
                == Some(Refusal::Validation("project fact missing project"@)),
{
    reveal_strlit("user");
    reveal_strlit("project");
    assert("user"@.len() != "project"@.len());
}

} // verus!
