//! Thumbs up and down on answers.

use vstd::prelude::*;
use vstd::string::*;

use crate::lists::{selects_just, selects_last};
use crate::clock::{show, shown, Instant};
use crate::error::{forbidden, refusal, validation, AppError, Refusal};
use crate::grants::{refusal_in, Permissions};
use crate::http::first;
use crate::json::{empty_object, id_or_null, id_or_null_value, member_at, put, text_value, Json};
use crate::order::{
    by_time,
    highest_first,
    newest_first,
    ordered_lists_descend,
    rank_list,
    Dated,
    Ranked,
};
use crate::principal::{is_lead, same_id, AuthContext, Id};
use crate::text::{opt_str, opt_text, same};
use crate::trail::{entry, note, record, ActorRole, AuditEvent};

verus! {

/// A message that is to be rated, and the chat that it is in.
pub struct RatedMessage {
    pub role: String,
    pub owner_user_id: Id,
    pub agent_id: Option<Id>,
    pub project_id: Option<Id>,
}

/// The caller rates the answers in a chat: its owner, an administrator, or a reader of its
/// project.
pub open spec fn may_rate(ctx: AuthContext, m: RatedMessage, reads_project: bool) -> bool {
    ctx.is(m.owner_user_id) || ctx.admin || (m.project_id is Some && reads_project)
}

pub open spec fn message_refusal(
    ctx: AuthContext,
    m: Option<RatedMessage>,
    reads_project: bool,
) -> Option<Refusal> {
    match m {
        None => Some(Refusal::Validation("message not found"@)),
        Some(m) => if m.role@ != "assistant"@ {
            Some(Refusal::Validation("feedback is only for assistant messages"@))
        } else if !may_rate(ctx, m, reads_project) {
            Some(Refusal::Forbidden("not permitted to rate this message"@))
        } else {
            None
        },
    }
}

/// The agent whose answer is rated, where the caller may rate it.
pub fn require_message_access(ctx: &AuthContext, m: Option<RatedMessage>, reads_project: bool) -> (r:
    Result<Option<Id>, AppError>)
    ensures
        refusal(r) == message_refusal(*ctx, m, reads_project),
        r matches Ok(agent) ==> m matches Some(m) && agent == m.agent_id,
{
    let m = match m {
        Some(m) => m,
        None => {
            return Err(validation("message not found"));
        },
    };
    if !same(m.role.as_str(), "assistant") {
        return Err(validation("feedback is only for assistant messages"));
    }
    if ctx.is_user(m.owner_user_id) || ctx.is_admin() || (m.project_id.is_some() && reads_project) {
        Ok(m.agent_id)
    } else {
        Err(forbidden("not permitted to rate this message"))
    }
}

pub struct SubmitFeedback {
    pub rating: String,
    pub comment: Option<String>,
}

pub struct FeedbackOut {
    pub id: Id,
    pub rating: String,
    pub comment: Option<String>,
}

/// A rating that is stored: one for each message and account.
pub struct StoredFeedback {
    pub id: Id,
    pub rating: String,
    pub comment: Option<String>,
    pub agent_id: Option<Id>,
    pub model: Option<String>,
}

pub open spec fn is_rating(r: Seq<char>) -> bool {
    r == "up"@ || r == "down"@
}

pub open spec fn submit_refusal(
    ctx: AuthContext,
    rating: Seq<char>,
    m: Option<RatedMessage>,
    reads_project: bool,
) -> Option<Refusal> {
    if !is_rating(rating) {
        Some(Refusal::Validation("rating must be up|down"@))
    } else if message_refusal(ctx, m, reads_project) is Some {
        message_refusal(ctx, m, reads_project)
    } else if ctx.user_id is None {
        Some(Refusal::Forbidden("a user is required"@))
    } else {
        None
    }
}

/// A rating that was given: whose it is, what is stored, and what is answered.
pub struct Submitted {
    pub user_id: Id,
    pub stored: StoredFeedback,
    pub answer: FeedbackOut,
}

/// Rates an answer. Rating it again changes the rating; a comment that is not given again
/// stays, and what is answered is the comment that was given. `new_id` is what a first rating
/// is stored under.
pub fn submit_feedback(
    ctx: &AuthContext,
    body: SubmitFeedback,
    m: Option<RatedMessage>,
    reads_project: bool,
    model: Option<String>,
    stored: Option<StoredFeedback>,
    new_id: Id,
) -> (r: Result<Submitted, AppError>)
    ensures
        refusal(r) == submit_refusal(*ctx, body.rating@, m, reads_project),
        r matches Ok(x) ==> {
            &&& ctx.user_id == Some(x.user_id)
            &&& x.stored.id == (match stored {
                Some(s) => s.id,
                None => new_id,
            })
            &&& x.stored.rating@ == body.rating@
            &&& opt_text(x.stored.comment) == (match (body.comment, stored) {
                (Some(c), _) => Some(c@),
                (None, Some(s)) => opt_text(s.comment),
                (None, None) => None,
            })
            &&& m matches Some(m) && x.stored.agent_id == m.agent_id
            &&& x.stored.model == model
            &&& x.answer.id == x.stored.id
            &&& x.answer.rating == body.rating
            &&& x.answer.comment == body.comment
        },
{
    if !same(body.rating.as_str(), "up") && !same(body.rating.as_str(), "down") {
        return Err(validation("rating must be up|down"));
    }
    let agent_id = match require_message_access(ctx, m, reads_project) {
        Ok(a) => a,
        Err(e) => {
            return Err(e);
        },
    };
    let uid = match ctx.user_id {
        Some(id) => id,
        None => {
            return Err(forbidden("a user is required"));
        },
    };
    let (id, before) = match stored {
        Some(s) => (s.id, s.comment),
        None => (new_id, None),
    };
    let comment = match &body.comment {
        Some(c) => Some(c.clone()),
        None => before,
    };
    let rating = body.rating.clone();
    Ok(
        Submitted {
            user_id: uid,
            stored: StoredFeedback { id, rating, comment, agent_id, model },
            answer: FeedbackOut { id, rating: body.rating, comment: body.comment },
        },
    )
}

pub struct MessageFeedback {
    pub mine: Option<FeedbackOut>,
    pub up: i64,
    pub down: i64,
}

/// A rating of a message, and whose it is.
pub struct RatingRow {
    pub id: Id,
    pub user_id: Id,
    pub rating: String,
    pub comment: Option<String>,
}

/// How many ratings say so.
pub open spec fn count_of(rows: Seq<RatingRow>, rating: Seq<char>) -> nat
    decreases rows.len(),
{
    if rows.len() == 0 {
        0
    } else {
        count_of(rows.drop_last(), rating) + (if rows.last().rating@ == rating {
            1nat
        } else {
            0nat
        })
    }
}

/// The rating of one account: there is one at most.
pub open spec fn rating_of(rows: Seq<RatingRow>, user: Id) -> Option<RatingRow>
    decreases rows.len(),
{
    if rows.len() == 0 {
        None
    } else if rows.last().user_id == user {
        Some(rows.last())
    } else {
        rating_of(rows.drop_last(), user)
    }
}

/// The ratings of a message: the caller's own, and how many there are of each.
pub fn get_feedback(
    ctx: &AuthContext,
    m: Option<RatedMessage>,
    reads_project: bool,
    rows: &Vec<RatingRow>,
) -> (r: Result<MessageFeedback, AppError>)
    requires
        rows@.len() <= i64::MAX,
    ensures
        refusal(r) == (if message_refusal(*ctx, m, reads_project) is Some {
            message_refusal(*ctx, m, reads_project)
        } else if ctx.user_id is None {
            Some(Refusal::Forbidden("a user is required"@))
        } else {
            None
        }),
        r matches Ok(f) ==> {
            &&& f.up == count_of(rows@, "up"@)
            &&& f.down == count_of(rows@, "down"@)
            &&& match (f.mine, rating_of(rows@, ctx.user_id->0)) {
                (Some(o), Some(row)) => o.id == row.id && o.rating@ == row.rating@ && opt_text(
                    o.comment,
                ) == opt_text(row.comment),
                (None, None) => true,
                _ => false,
            }
        },
{
    match require_message_access(ctx, m, reads_project) {
        Ok(_) => {},
        Err(e) => {
            return Err(e);
        },
    }
    let uid = match ctx.user_id {
        Some(id) => id,
        None => {
            return Err(forbidden("a user is required"));
        },
    };
    let mut up: i64 = 0;
    let mut down: i64 = 0;
    let mut mine: Option<FeedbackOut> = None;
    let mut i: usize = 0;
    assert(rows@.take(0) == Seq::<RatingRow>::empty());
    while i < rows.len()
        invariant
            i <= rows@.len(),
            rows@.len() <= i64::MAX,
            0 <= up <= i,
            0 <= down <= i,
            up == count_of(rows@.take(i as int), "up"@),
            down == count_of(rows@.take(i as int), "down"@),
            match (mine, rating_of(rows@.take(i as int), uid)) {
                (Some(o), Some(row)) => o.id == row.id && o.rating@ == row.rating@ && opt_text(
                    o.comment,
                ) == opt_text(row.comment),
                (None, None) => true,
                _ => false,
            },
        decreases rows@.len() - i,
    {
        let row = &rows[i];
        assert(rows@.take(i as int + 1).drop_last() == rows@.take(i as int));
        if same(row.rating.as_str(), "up") {
            up = up + 1;
        }
        if same(row.rating.as_str(), "down") {
            down = down + 1;
        }
        if row.user_id == uid {
            mine = Some(
                FeedbackOut {
                    id: row.id,
                    rating: row.rating.clone(),
                    comment: match &row.comment {
                        Some(c) => Some(c.clone()),
                        None => None,
                    },
                },
            );
        }
        i = i + 1;
    }
    assert(rows@.take(rows@.len() as int) == rows@);
    Ok(MessageFeedback { mine, up, down })
}

/// Withdraws a rating: the caller's own, whether or not there is one. What was there is
/// recorded.
pub fn delete_feedback(ctx: &AuthContext) -> (r: Result<Id, AppError>)
    ensures
        match r {
            Ok(id) => ctx.user_id == Some(id),
            Err(e) => ctx.user_id is None && e@ == Refusal::Forbidden("a user is required"@),
        },
{
    match ctx.user_id {
        Some(id) => Ok(id),
        None => Err(forbidden("a user is required")),
    }
}

pub struct NegativeOut {
    pub message_id: Id,
    pub comment: Option<String>,
}

pub struct AgentSummary {
    pub up: i64,
    pub down: i64,
    pub total: i64,
    pub recent_negative: Vec<NegativeOut>,
}

/// The most ratings against an agent that are shown.
pub const RECENT_NEGATIVE: usize = 20;

/// A stored rating, as far as the agent goes that it is about.
pub struct AgentRating {
    pub agent_id: Option<Id>,
    pub rating: String,
    pub message_id: Id,
    pub comment: Option<String>,
}

/// How many ratings of an agent there are; those of one kind, where one is named.
pub open spec fn ratings_of(rows: Seq<AgentRating>, agent_id: Id, rating: Option<Seq<char>>) -> nat
    decreases rows.len(),
{
    if rows.len() == 0 {
        0
    } else {
        ratings_of(rows.drop_last(), agent_id, rating) + (if rows.last().agent_id == Some(agent_id) && (
        rating matches Some(x) ==> rows.last().rating@ == x) {
            1nat
        } else {
            0nat
        })
    }
}

/// The ratings against an agent, in their order.
pub open spec fn against(rows: Seq<AgentRating>, agent_id: Id) -> Seq<AgentRating>
    decreases rows.len(),
{
    if rows.len() == 0 {
        Seq::empty()
    } else {
        let before = against(rows.drop_last(), agent_id);
        if rows.last().agent_id == Some(agent_id) && rows.last().rating@ == "down"@ {
            before.push(rows.last())
        } else {
            before
        }
    }
}

pub open spec fn negative_shown(row: AgentRating, r: NegativeOut) -> bool {
    r.message_id == row.message_id && r.comment == row.comment
}

/// How an agent is rated, for leads and above: the ratings against it come with what changed
/// last first. `rows` are the ratings there are, each with when it changed.
pub fn agent_summary(ctx: &AuthContext, agent_id: Id, rows: Vec<Dated<AgentRating>>) -> (r: Result<
    AgentSummary,
    AppError,
>)
    requires
        rows@.len() <= i64::MAX,
    ensures
        match r {
            Ok(s) => {
                let shown = first(against(newest_first(rows@), agent_id), RECENT_NEGATIVE as nat);
                &&& ctx.role.leads()
                &&& s.up == ratings_of(newest_first(rows@), agent_id, Some("up"@))
                &&& s.down == ratings_of(newest_first(rows@), agent_id, Some("down"@))
                &&& s.total == ratings_of(newest_first(rows@), agent_id, None)
                &&& s.recent_negative@.len() == shown.len()
                &&& forall|i: int|
                    0 <= i < shown.len() ==> negative_shown(shown[i], #[trigger] s.recent_negative@[i])
            },
            Err(e) => !ctx.role.leads() && e@ == Refusal::Forbidden(
                "feedback analytics are power-user/admin only"@,
            ),
        },
{
    if !is_lead(ctx.role) {
        return Err(forbidden("feedback analytics are power-user/admin only"));
    }
    let mut up: i64 = 0;
    let mut down: i64 = 0;
    let mut total: i64 = 0;
    let rows = by_time(rows);
    let n: usize = rows.len();
    let mut rest = rows;
    let mut out: Vec<NegativeOut> = Vec::new();
    let mut i: usize = 0;
    assert(rows@.take(0) == Seq::<AgentRating>::empty());
    while i < n
        invariant
            n == rows@.len(),
            i <= n,
            rest@ == rows@.skip(i as int),
            n <= i64::MAX,
            0 <= up <= i,
            0 <= down <= i,
            0 <= total <= i,
            up == ratings_of(rows@.take(i as int), agent_id, Some("up"@)),
            down == ratings_of(rows@.take(i as int), agent_id, Some("down"@)),
            total == ratings_of(rows@.take(i as int), agent_id, None),
            out@.len() == first(against(rows@.take(i as int), agent_id), RECENT_NEGATIVE as nat).len(),
            forall|k: int|
                0 <= k < out@.len() ==> negative_shown(
                    first(against(rows@.take(i as int), agent_id), RECENT_NEGATIVE as nat)[k],
                    #[trigger] out@[k],
                ),
        decreases n - i,
    {
        let row = rest.remove(0);
        assert(row == rows@[i as int]);
        assert(rest@ =~= rows@.skip(i as int + 1));
        assert(rows@.take(i as int + 1).drop_last() == rows@.take(i as int));
        let about_it = same_id(row.agent_id, Some(agent_id));
        let against_it = about_it && same(row.rating.as_str(), "down");
        if about_it {
            total = total + 1;
        }
        if about_it && same(row.rating.as_str(), "up") {
            up = up + 1;
        }
        if against_it {
            down = down + 1;
        }
        if against_it && out.len() < RECENT_NEGATIVE {
            out.push(NegativeOut { message_id: row.message_id, comment: row.comment });
        }
        i = i + 1;
    }
    assert(rows@.take(rows@.len() as int) == rows@);
    Ok(AgentSummary { up, down, total, recent_negative: out })
}

pub struct FeedbackListQuery {
    pub rating: Option<String>,
}

/// The rating that is asked for; any, where what is asked for is none.
pub open spec fn rating_filter(asked: Option<Seq<char>>) -> Option<Seq<char>> {
    match asked {
        Some(r) => if is_rating(r) {
            Some(r)
        } else {
            None
        },
        None => None,
    }
}

/// A stored rating with what it is about.
pub struct FeedbackRow {
    pub id: Id,
    pub rating: String,
    pub comment: Option<String>,
    pub user_email: Option<String>,
    pub agent_name: Option<String>,
    pub model: Option<String>,
    pub excerpt: Option<String>,
    pub created_at: Instant,
}

impl Ranked for FeedbackRow {
    /// The newest come first.
    open spec fn rank(self) -> (int, int) {
        (self.created_at as int, 0)
    }

    fn outranks(&self, other: &FeedbackRow) -> (r: bool) {
        self.created_at > other.created_at
    }
}

pub struct AdminFeedbackItem {
    pub id: Id,
    pub rating: String,
    pub comment: Option<String>,
    pub user_email: Option<String>,
    pub agent_name: Option<String>,
    pub model: Option<String>,
    pub message_excerpt: String,
    pub created_at: String,
}

pub open spec fn item_shown(row: FeedbackRow, r: AdminFeedbackItem) -> bool {
    &&& r.id == row.id
    &&& r.rating == row.rating
    &&& r.comment == row.comment
    &&& r.user_email == row.user_email
    &&& r.agent_name == row.agent_name
    &&& r.model == row.model
    &&& r.message_excerpt@ == (match row.excerpt {
        Some(x) => x@,
        None => Seq::empty(),
    })
    &&& r.created_at@ == shown(row.created_at)
}

/// A rating as it is listed.
pub fn feedback_item(row: FeedbackRow) -> (r: AdminFeedbackItem)
    ensures
        item_shown(row, r),
{
    AdminFeedbackItem {
        id: row.id,
        rating: row.rating,
        comment: row.comment,
        user_email: row.user_email,
        agent_name: row.agent_name,
        model: row.model,
        message_excerpt: match row.excerpt {
            Some(x) => x,
            None => String::new(),
        },
        created_at: show(row.created_at),
    }
}

/// How many ratings are listed.
pub const MAX_LISTED: usize = 200;

/// The ratings that are asked for, in their order.
pub open spec fn asked_for(rows: Seq<FeedbackRow>, rating: Option<Seq<char>>) -> Seq<FeedbackRow>
    decreases rows.len(),
{
    if rows.len() == 0 {
        Seq::empty()
    } else {
        let before = asked_for(rows.drop_last(), rating);
        if rating matches Some(x) ==> rows.last().rating@ == x {
            before.push(rows.last())
        } else {
            before
        }
    }
}

/// The ratings, for whoever may see them: of the kind that is asked for, the newest so many, the
/// newest first.
pub fn list_feedback(
    q: &FeedbackListQuery,
    permissions: Permissions,
    rows: Vec<FeedbackRow>,
) -> (r: Result<Vec<AdminFeedbackItem>, AppError>)
    ensures
        refusal(r) == refusal_in(permissions.feedback_view),
        r matches Ok(v) ==> {
            let shown = first(asked_for(highest_first(rows@), rating_filter(opt_text(q.rating))), MAX_LISTED as nat);
            &&& v@.len() == shown.len()
            &&& forall|i: int| 0 <= i < v@.len() ==> item_shown(shown[i], #[trigger] v@[i])
        },
{
    match permissions.feedback_view {
        Some(e) => {
            return Err(e);
        },
        None => {},
    }
    let ghost wanted = rating_filter(opt_text(q.rating));
    let asked: Option<&str> = match &q.rating {
        Some(x) => {
            if same(x.as_str(), "up") || same(x.as_str(), "down") {
                Some(x.as_str())
            } else {
                None
            }
        },
        None => None,
    };
    let rows = rank_list(rows);
    let n: usize = rows.len();
    let mut rest = rows;
    let mut out: Vec<AdminFeedbackItem> = Vec::new();
    let mut i: usize = 0;
    assert(rows@.take(0) == Seq::<FeedbackRow>::empty());
    while i < n
        invariant
            n == rows@.len(),
            i <= n,
            rest@ == rows@.skip(i as int),
            opt_str(asked) == wanted,
            out@.len() == first(asked_for(rows@.take(i as int), wanted), MAX_LISTED as nat).len(),
            forall|k: int|
                0 <= k < out@.len() ==> item_shown(
                    first(asked_for(rows@.take(i as int), wanted), MAX_LISTED as nat)[k],
                    #[trigger] out@[k],
                ),
        decreases n - i,
    {
        let row = rest.remove(0);
        assert(row == rows@[i as int]);
        assert(rest@ =~= rows@.skip(i as int + 1));
        assert(rows@.take(i as int + 1).drop_last() == rows@.take(i as int));
        let fits = match asked {
            Some(x) => same(row.rating.as_str(), x),
            None => true,
        };
        if fits && out.len() < MAX_LISTED {
            out.push(feedback_item(row));
        }
        i = i + 1;
    }
    assert(rows@.take(rows@.len() as int) == rows@);
    Ok(out)
}

/// What is written down of a rating: which way it went and which agent it went to. The comment is
/// no part of it.
pub open spec fn rating_doc(rating: Seq<char>, agent_id: Option<Id>) -> Json {
    Json::Object(
        Map::empty().insert("rating"@, Json::Text(rating)).insert("agent_id"@, id_or_null(agent_id)),
    )
}

/// The entry of a rating; `action` is `"feedback.submitted"` or `"feedback.deleted"`.
pub fn rating_event(
    ctx: &AuthContext,
    action: &str,
    user_id: Id,
    message_id: Id,
    rating: &str,
    agent_id: Option<Id>,
) -> (e: AuditEvent)
    ensures
        e@ == entry(
            action@,
            ActorRole::Platform(ctx.role),
            Some(user_id),
            "message"@,
            Some(message_id),
        ).noting(rating_doc(rating@, agent_id)),
{
    let mut doc = empty_object();
    put(&mut doc, "rating", text_value(rating));
    put(&mut doc, "agent_id", id_or_null_value(agent_id));
    let role = ActorRole::Platform(ctx.role);
    note(record(action, role, Some(user_id), "message", Some(message_id)), doc)
}

/// Ratings of a message are counted one by one.
pub proof fn ratings_are_counted_each(rating: Seq<char>, s: Seq<RatingRow>)
    ensures
        count_of(s, rating) == s.filter(|x: RatingRow| x.rating@ == rating).len(),
    decreases s.len(),
{
    let p = |x: RatingRow| x.rating@ == rating;
    selects_last(s, p);
    if s.len() > 0 {
        ratings_are_counted_each(rating, s.drop_last());
    }
}

/// The ratings of an agent are counted one by one: those of one kind, or all.
pub proof fn ratings_of_an_agent_are_counted(
    agent_id: Id,
    rating: Option<Seq<char>>,
    s: Seq<AgentRating>,
)
    ensures
        ratings_of(s, agent_id, rating)
            == s.filter(
                |x: AgentRating| x.agent_id == Some(agent_id)
                    && (rating is None || x.rating@ == rating->0)
            ).len(),
    decreases s.len(),
{
    let p = |x: AgentRating| x.agent_id == Some(agent_id) && (rating is None || x.rating@ == rating->0);
    selects_last(s, p);
    if s.len() > 0 {
        ratings_of_an_agent_are_counted(agent_id, rating, s.drop_last());
    }
}

/// Every rating against an agent counts among those against it, and no other.
pub proof fn every_rating_against_is_shown(agent_id: Id, s: Seq<AgentRating>)
    ensures
        against(s, agent_id)
            == s.filter(|x: AgentRating| x.agent_id == Some(agent_id) && x.rating@ == "down"@),
        forall|x: AgentRating|
            #[trigger] against(s, agent_id).contains(x)
                <==> s.contains(x) && (x.agent_id == Some(agent_id) && x.rating@ == "down"@),
    decreases s.len(),
{
    let p = |x: AgentRating| x.agent_id == Some(agent_id) && x.rating@ == "down"@;
    selects_last(s, p);
    selects_just(s, p);
    if s.len() > 0 {
        every_rating_against_is_shown(agent_id, s.drop_last());
    }
    assert(against(s, agent_id) =~= s.filter(p));
    assert forall|x: AgentRating|
        #[trigger] against(s, agent_id).contains(x)
            <==> s.contains(x) && (x.agent_id == Some(agent_id) && x.rating@ == "down"@) by {
        assert(s.filter(p).contains(x) <==> s.contains(x) && p(x));
    }
}

/// Every rating of the kind that is asked for is shown, and all where none is.
pub proof fn ratings_asked_for_are_shown(rating: Option<Seq<char>>, s: Seq<FeedbackRow>)
    ensures
        asked_for(s, rating) == s.filter(|x: FeedbackRow| rating is None || x.rating@ == rating->0),
        forall|x: FeedbackRow|
            #[trigger] asked_for(s, rating).contains(x)
                <==> s.contains(x) && (rating is None || x.rating@ == rating->0),
    decreases s.len(),
{
    let p = |x: FeedbackRow| rating is None || x.rating@ == rating->0;
    selects_last(s, p);
    selects_just(s, p);
    if s.len() > 0 {
        ratings_asked_for_are_shown(rating, s.drop_last());
    }
    assert(asked_for(s, rating) =~= s.filter(p));
    assert forall|x: FeedbackRow|
        #[trigger] asked_for(s, rating).contains(x)
            <==> s.contains(x) && (rating is None || x.rating@ == rating->0) by {
        assert(s.filter(p).contains(x) <==> s.contains(x) && p(x));
    }
}

/// Feedback is listed by when it was given, the latest first.
pub proof fn newer_feedback_comes_first(rows: Seq<FeedbackRow>, i: int, j: int)
    requires
        0 <= i < j < rows.len(),
    ensures
        highest_first(rows)[i].created_at >= highest_first(rows)[j].created_at,
{
    ordered_lists_descend(rows, i, j);
}

/// An answer of the assistant is rated, up or down, by somebody with an account who owns the chat,
/// administers the platform or reads the chat's project.
pub proof fn who_rates_answers(
    ctx: AuthContext,
    rating: Seq<char>,
    m: Option<RatedMessage>,
    reads_project: bool,
)
    ensures
        message_refusal(ctx, m, reads_project) is None
            <==> (
                m matches Some(m)
                    && m.role@ == "assistant"@
                    && (
                        ctx.user_id == Some(m.owner_user_id)
                            || ctx.admin
                            || (m.project_id is Some && reads_project)
                    )
            ),
        submit_refusal(ctx, rating, m, reads_project) is None
            <==> (rating == "up"@ || rating == "down"@)
                && (
                    m matches Some(m)
                        && m.role@ == "assistant"@
                        && (
                            ctx.user_id == Some(m.owner_user_id)
                                || ctx.admin
                                || (m.project_id is Some && reads_project)
                        )
                )
                && ctx.user_id is Some,
{
}

/// Somebody's rating is the last that they gave.
pub proof fn the_last_rating_counts(rows: Seq<RatingRow>, user: Id) -> (at: int)
    ensures
        rating_of(rows, user) is None <==> forall|k: int|
            0 <= k < rows.len() ==> (#[trigger] rows[k]).user_id != user,
        rating_of(rows, user) matches Some(r) ==> {
            &&& 0 <= at < rows.len()
            &&& rows[at] == r
            &&& r.user_id == user
            &&& forall|k: int| at < k < rows.len() ==> (#[trigger] rows[k]).user_id != user
        },
    decreases rows.len(),
{
    if rows.len() == 0 {
        0
    } else if rows.last().user_id == user {
        rows.len() - 1
    } else {
        let front = rows.drop_last();
        let at = the_last_rating_counts(front, user);
        assert forall|k: int| 0 <= k < front.len() implies #[trigger] rows[k] == front[k] by {}
        assert(rows[rows.len() - 1] == rows.last());
        if rating_of(front, user) is Some {
            assert(rows[at] == front[at]);
        } else {
            assert forall|k: int| 0 <= k < rows.len() implies (#[trigger] rows[k]).user_id
                != user by {
                if k < front.len() {
                    assert(front[k].user_id != user);
                }
            }
        }
        at
    }
}

/// What stands in `rating_doc` under each name; there is no other name in it.
pub proof fn what_rating_doc_holds(rating: Seq<char>, agent_id: Option<Id>)
    ensures
        member_at(rating_doc(rating, agent_id), "rating"@) == Some(Json::Text(rating)),
        member_at(rating_doc(rating, agent_id), "agent_id"@) == Some(id_or_null(agent_id)),
        forall|name: Seq<char>|
            #[trigger] member_at(rating_doc(rating, agent_id), name) is Some
                ==> name == "rating"@ || name == "agent_id"@,
{
    reveal_strlit("rating");
    reveal_strlit("agent_id");
    assert("rating"@.len() != "agent_id"@.len());
}

/// A complaint is shown as it is stored.
pub proof fn complaints_are_shown_whole(row: AgentRating, r: NegativeOut)
    ensures
        negative_shown(row, r) ==> {
            &&& r.message_id == row.message_id && r.comment == row.comment
        },
{
}

/// Feedback is shown as it is stored.
pub proof fn feedback_is_shown_whole(row: FeedbackRow, r: AdminFeedbackItem)
    ensures
        item_shown(row, r) ==> {
            &&& r.id == row.id
            &&& r.rating == row.rating
            &&& r.comment == row.comment
            &&& r.user_email == row.user_email
            &&& r.agent_name == row.agent_name
            &&& r.model == row.model
            &&& r.message_excerpt@ == (match row.excerpt { Some(x) => x@, None => Seq::empty(), })
            &&& r.created_at@ == shown(row.created_at)
        },
{
}

/// Feedback is filtered by up or by down, and by nothing else.
pub proof fn ratings_are_filtered_by_what_there_is(asked: Option<Seq<char>>)
    ensures
        asked == Some("up"@) || asked == Some("down"@) ==> rating_filter(asked) == asked,
        asked != Some("up"@) && asked != Some("down"@) ==> rating_filter(asked) is None,
        MAX_LISTED == 200,
        RECENT_NEGATIVE == 20,
{
}

/// Of several things that are wrong, `submit_refusal` tells the first.
pub proof fn submit_refusal_tells_the_first_thing(
    ctx: AuthContext,
    rating: Seq<char>,
    m: Option<RatedMessage>,
    reads_project: bool,
)
    ensures
        !is_rating(rating)
            ==> submit_refusal(ctx, rating, m, reads_project)
                == Some(Refusal::Validation("rating must be up|down"@)),
        is_rating(rating) && message_refusal(ctx, m, reads_project) is Some
            ==> submit_refusal(ctx, rating, m, reads_project)
                == message_refusal(ctx, m, reads_project),
        is_rating(rating)
            && !(message_refusal(ctx, m, reads_project) is Some)
            && ctx.user_id is None
            ==> submit_refusal(ctx, rating, m, reads_project)
                == Some(Refusal::Forbidden("a user is required"@)),
        is_rating(rating)
            && !(message_refusal(ctx, m, reads_project) is Some)
            && !(ctx.user_id is None)
            ==> submit_refusal(ctx, rating, m, reads_project) is None,
{
}

/// A message that is not there is not found, one that is no answer cannot be rated, and one of somebody
/// else is forbidden.
pub proof fn why_ratings_are_refused(ctx: AuthContext, m: RatedMessage, reads_project: bool)
    ensures
        message_refusal(ctx, None, reads_project) == Some(Refusal::Validation("message not found"@)),
        m.role@ != "assistant"@
            ==> message_refusal(ctx, Some(m), reads_project)
                == Some(Refusal::Validation("feedback is only for assistant messages"@)),
        m.role@ == "assistant"@
            && !ctx.admin
            && ctx.user_id != Some(m.owner_user_id)
            && !(m.project_id is Some && reads_project)
            ==> message_refusal(ctx, Some(m), reads_project)
                == Some(Refusal::Forbidden("not permitted to rate this message"@)),
{
}

} // verus!
