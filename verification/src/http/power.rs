//! The team lead's console: everything here is for power users and administrators, and even
//! an administrator sees only the teams that they lead.

use vstd::prelude::*;
use vstd::string::*;

use crate::lists::selects_last;
use crate::error::{forbidden, refusal, AppError, Refusal};
use crate::principal::{is_lead, same_id, AuthContext, Id};
use crate::text::{listed, opt_text, same, texts};

verus! {

/// Leads and above.
pub fn require_lead(ctx: &AuthContext) -> (r: Result<(), AppError>)
    ensures
        refusal(r) == (if ctx.role.leads() {
            None
        } else {
            Some(Refusal::Forbidden("requires power user or admin"@))
        }),
{
    if is_lead(ctx.role) {
        Ok(())
    } else {
        Err(forbidden("requires power user or admin"))
    }
}

/// One person's use.
pub struct UserRollup {
    pub user_id: Option<Id>,
    pub email: Option<String>,
    pub prompt_tokens: i64,
    pub completion_tokens: i64,
    pub count: i64,
}

/// One agent's use.
pub struct AgentRollup {
    pub agent_id: Option<String>,
    pub agent_name: Option<String>,
    pub prompt_tokens: i64,
    pub completion_tokens: i64,
    pub count: i64,
}

pub struct PowerAnalytics {
    /// The people whom the lead oversees, without the lead.
    pub team_size: i64,
    pub per_user: Vec<UserRollup>,
    pub per_agent: Vec<AgentRollup>,
    pub total_prompt_tokens: i64,
    pub total_completion_tokens: i64,
    pub total_answers: i64,
}

/// How many of the members are not the lead.
pub open spec fn team_of(members: Seq<Id>, me: Id) -> nat
    decreases members.len(),
{
    if members.len() == 0 {
        0
    } else {
        team_of(members.drop_last(), me) + if members.last() != me {
            1nat
        } else {
            0nat
        }
    }
}

/// An answer that was metered: who asked, which agent gave it, and what it took.
pub struct MeteredAnswer {
    pub action: String,
    pub actor_user_id: Option<Id>,
    pub email: Option<String>,
    pub agent_id: Option<String>,
    pub agent_name: Option<String>,
    pub prompt_tokens: Option<i64>,
    pub completion_tokens: Option<i64>,
}

/// Some of the answers that a team was given: all, those of one person, or those of one agent.
pub enum Share {
    All,
    Person(Option<Id>),
    Agent(Option<Seq<char>>),
}

/// Tokens of the prompts, tokens of the answers, and answers.
pub struct Usage {
    pub prompt: int,
    pub completion: int,
    pub answers: int,
}

pub open spec fn tokens(n: Option<i64>) -> int {
    match n {
        Some(k) => k as int,
        None => 0,
    }
}

/// An answer counts where it is of a kind that is metered and a member of the team asked.
pub open spec fn is_metered(u: MeteredAnswer, metered: Seq<Seq<char>>, members: Seq<Id>) -> bool {
    metered.contains(u.action@) && (u.actor_user_id matches Some(id) && members.contains(id))
}

pub open spec fn is_in(u: MeteredAnswer, s: Share) -> bool {
    match s {
        Share::All => true,
        Share::Person(id) => u.actor_user_id == id,
        Share::Agent(id) => opt_text(u.agent_id) == id,
    }
}

/// What a share of a team's answers comes to.
pub open spec fn used(
    rows: Seq<MeteredAnswer>,
    metered: Seq<Seq<char>>,
    members: Seq<Id>,
    s: Share,
) -> Usage
    decreases rows.len(),
{
    if rows.len() == 0 {
        Usage { prompt: 0, completion: 0, answers: 0 }
    } else {
        let before = used(rows.drop_last(), metered, members, s);
        let u = rows.last();
        if is_metered(u, metered, members) && is_in(u, s) {
            Usage {
                prompt: before.prompt + tokens(u.prompt_tokens),
                completion: before.completion + tokens(u.completion_tokens),
                answers: before.answers + 1,
            }
        } else {
            before
        }
    }
}

pub open spec fn size_of(n: int) -> int {
    if n < 0 {
        -n
    } else {
        n
    }
}

/// All tokens together, without their signs, and the answers.
pub open spec fn bulk(rows: Seq<MeteredAnswer>) -> int
    decreases rows.len(),
{
    if rows.len() == 0 {
        0
    } else {
        bulk(rows.drop_last()) + size_of(tokens(rows.last().prompt_tokens)) + size_of(
            tokens(rows.last().completion_tokens),
        ) + 1
    }
}

proof fn bulk_grows(rows: Seq<MeteredAnswer>, i: int)
    requires
        0 <= i <= rows.len(),
    ensures
        0 <= bulk(rows.take(i)) <= bulk(rows),
    decreases rows.len(),
{
    if i == rows.len() {
        assert(rows.take(i) =~= rows);
        if rows.len() > 0 {
            bulk_grows(rows.drop_last(), rows.len() - 1);
            assert(rows.drop_last().take(rows.len() - 1) =~= rows.drop_last());
        }
    } else {
        bulk_grows(rows.drop_last(), i);
        assert(rows.drop_last().take(i) =~= rows.take(i));
    }
}

/// A share, as it is asked for.
enum Part<'a> {
    All,
    Person(Option<Id>),
    Agent(&'a Option<String>),
}

impl<'a> View for Part<'a> {
    type V = Share;

    closed spec fn view(&self) -> Share {
        match *self {
            Part::All => Share::All,
            Part::Person(id) => Share::Person(id),
            Part::Agent(id) => Share::Agent(opt_text(*id)),
        }
    }
}

fn same_opt(a: &Option<String>, b: &Option<String>) -> (r: bool)
    ensures
        r == (opt_text(*a) == opt_text(*b)),
{
    match (a, b) {
        (Some(x), Some(y)) => same(x.as_str(), y.as_str()),
        (None, None) => true,
        _ => false,
    }
}

fn copy_of(o: &Option<String>) -> (r: Option<String>)
    ensures
        opt_text(r) == opt_text(*o),
{
    match o {
        Some(s) => Some(s.clone()),
        None => None,
    }
}

fn within(u: &MeteredAnswer, part: &Part) -> (r: bool)
    ensures
        r == is_in(*u, part@),
{
    match part {
        Part::All => true,
        Part::Person(id) => same_id(u.actor_user_id, *id),
        Part::Agent(id) => same_opt(&u.agent_id, *id),
    }
}

fn counts(u: &MeteredAnswer, metered: &Vec<String>, members: &Vec<Id>) -> (r: bool)
    ensures
        r == is_metered(*u, texts(metered@), members@),
{
    let who = match u.actor_user_id {
        Some(id) => id,
        None => {
            return false;
        },
    };
    if !listed(metered, u.action.as_str()) {
        return false;
    }
    let mut j: usize = 0;
    while j < members.len()
        invariant
            j <= members@.len(),
            texts(metered@).contains(u.action@),
            u.actor_user_id == Some(who),
            forall|k: int| 0 <= k < j ==> #[trigger] members@[k] != who,
        decreases members@.len() - j,
    {
        if members[j] == who {
            assert(members@[j as int] == who);
            return true;
        }
        j = j + 1;
    }
    false
}

fn or_none(n: Option<i64>) -> (r: i64)
    ensures
        r == tokens(n),
{
    match n {
        Some(k) => k,
        None => 0,
    }
}

fn add_up(rows: &Vec<MeteredAnswer>, metered: &Vec<String>, members: &Vec<Id>, part: Part) -> (r: (
    i64,
    i64,
    i64,
))
    requires
        bulk(rows@) <= i64::MAX,
    ensures
        r.0 == used(rows@, texts(metered@), members@, part@).prompt,
        r.1 == used(rows@, texts(metered@), members@, part@).completion,
        r.2 == used(rows@, texts(metered@), members@, part@).answers,
        r.2 >= 0,
{
    let mut prompt: i64 = 0;
    let mut completion: i64 = 0;
    let mut answers: i64 = 0;
    let mut i: usize = 0;
    assert(rows@.take(0) == Seq::<MeteredAnswer>::empty());
    while i < rows.len()
        invariant
            i <= rows@.len(),
            bulk(rows@) <= i64::MAX,
            prompt == used(rows@.take(i as int), texts(metered@), members@, part@).prompt,
            completion == used(rows@.take(i as int), texts(metered@), members@, part@).completion,
            answers == used(rows@.take(i as int), texts(metered@), members@, part@).answers,
            size_of(prompt as int) + size_of(completion as int) + answers <= bulk(
                rows@.take(i as int),
            ),
            0 <= answers,
        decreases rows@.len() - i,
    {
        proof {
            bulk_grows(rows@, i as int + 1);
            assert(rows@.take(i as int + 1).drop_last() == rows@.take(i as int));
        }
        if counts(&rows[i], metered, members) && within(&rows[i], &part) {
            prompt = prompt + or_none(rows[i].prompt_tokens);
            completion = completion + or_none(rows[i].completion_tokens);
            answers = answers + 1;
        }
        i = i + 1;
    }
    assert(rows@.take(rows@.len() as int) == rows@);
    (prompt, completion, answers)
}

proof fn occurring_share_counts(
    rows: Seq<MeteredAnswer>,
    metered: Seq<Seq<char>>,
    members: Seq<Id>,
    s: Share,
    k: int,
)
    requires
        0 <= k < rows.len(),
        is_metered(rows[k], metered, members),
        is_in(rows[k], s),
    ensures
        used(rows, metered, members, s).answers > 0,
    decreases rows.len(),
{
    answers_are_counted(rows.drop_last(), metered, members, s);
    if k < rows.len() - 1 {
        occurring_share_counts(rows.drop_last(), metered, members, s, k);
    }
}

proof fn answers_are_counted(
    rows: Seq<MeteredAnswer>,
    metered: Seq<Seq<char>>,
    members: Seq<Id>,
    s: Share,
)
    ensures
        used(rows, metered, members, s).answers >= 0,
    decreases rows.len(),
{
    if rows.len() > 0 {
        answers_are_counted(rows.drop_last(), metered, members, s);
    }
}

/// A person is among those that are shown.
pub open spec fn person_is_shown(list: Seq<UserRollup>, key: Option<Id>) -> bool {
    exists|i: int| 0 <= i < list.len() && (#[trigger] list[i]).user_id == key
}

/// What is shown of one, with a name that one of the answers gives.
pub open spec fn person_shown(
    rows: Seq<MeteredAnswer>,
    metered: Seq<Seq<char>>,
    members: Seq<Id>,
    x: UserRollup,
) -> bool {
    let all = used(rows, metered, members, Share::Person(x.user_id));
    &&& x.prompt_tokens == all.prompt
    &&& x.completion_tokens == all.completion
    &&& x.count == all.answers
    &&& x.count > 0
    &&& exists|k: int|
        0 <= k < rows.len() && is_metered(#[trigger] rows[k], metered, members)
            && rows[k].actor_user_id == x.user_id && opt_text(rows[k].email) == opt_text(
            x.email,
        )
}

/// A person with an answer that counts is shown once, and those with the most answers come
/// first.
pub open spec fn persons_of(
    rows: Seq<MeteredAnswer>,
    metered: Seq<Seq<char>>,
    members: Seq<Id>,
    list: Seq<UserRollup>,
) -> bool {
    &&& forall|i: int| 0 <= i < list.len() ==> person_shown(rows, metered, members, #[trigger] list[i])
    &&& forall|i: int, j: int|
        0 <= i < j < list.len() ==> (#[trigger] list[i]).user_id != (#[trigger] list[j]).user_id
    &&& forall|i: int, j: int|
        0 <= i < j < list.len() ==> (#[trigger] list[i]).count >= (#[trigger] list[j]).count
    &&& forall|k: int|
        0 <= k < rows.len() && is_metered(#[trigger] rows[k], metered, members) ==> person_is_shown(
            list,
            rows[k].actor_user_id,
        )
}

fn holds_person(list: &Vec<UserRollup>, u: &MeteredAnswer) -> (r: bool)
    ensures
        r == person_is_shown(list@, u.actor_user_id),
{
    let mut i: usize = 0;
    while i < list.len()
        invariant
            i <= list@.len(),
            forall|k: int| 0 <= k < i ==> (#[trigger] list@[k]).user_id != u.actor_user_id,
        decreases list@.len() - i,
    {
        if same_id(list[i].user_id, u.actor_user_id) {
            assert(list@[i as int].user_id == u.actor_user_id);
            return true;
        }
        i = i + 1;
    }
    false
}

/// A team's use, person by person.
pub fn by_person(rows: &Vec<MeteredAnswer>, metered: &Vec<String>, members: &Vec<Id>) -> (r: Vec<UserRollup>)
    requires
        bulk(rows@) <= i64::MAX,
    ensures
        persons_of(rows@, texts(metered@), members@, r@),
{
    let ghost acts = texts(metered@);
    let mut list: Vec<UserRollup> = Vec::new();
    let mut i: usize = 0;
    while i < rows.len()
        invariant
            i <= rows@.len(),
            bulk(rows@) <= i64::MAX,
            acts == texts(metered@),
            forall|k: int|
                0 <= k < list@.len() ==> person_shown(rows@, acts, members@, #[trigger] list@[k]),
            forall|a: int, b: int|
                0 <= a < b < list@.len() ==> (#[trigger] list@[a]).user_id != (#[trigger] list@[b]).user_id,
            forall|a: int, b: int|
                0 <= a < b < list@.len() ==> (#[trigger] list@[a]).count >= (
                #[trigger] list@[b]).count,
            forall|k: int|
                0 <= k < i && is_metered(#[trigger] rows@[k], acts, members@) ==> person_is_shown(
                    list@,
                    rows@[k].actor_user_id,
                ),
        decreases rows@.len() - i,
    {
        let ghost before = list@;
        let u = &rows[i];
        if counts(u, metered, members) && !holds_person(&list, u) {
            proof {
                occurring_share_counts(rows@, acts, members@, Share::Person(u.actor_user_id), i as int);
            }
            let (prompt_tokens, completion_tokens, count) = add_up(
                rows,
                metered,
                members,
                Part::Person(u.actor_user_id),
            );
            let x = UserRollup {
                user_id: u.actor_user_id,
                email: copy_of(&u.email),
                prompt_tokens,
                completion_tokens,
                count,
            };
            assert(person_shown(rows@, acts, members@, x)) by {
                assert(is_metered(rows@[i as int], acts, members@));
            }
            let mut at: usize = list.len();
            while 0 < at && list[at - 1].count < count
                invariant
                    at <= list@.len(),
                    list@ == before,
                    forall|k: int| at <= k < list@.len() ==> (#[trigger] list@[k]).count < count,
                decreases at,
            {
                at = at - 1;
            }
            list.insert(at, x);
            proof {
                let placed = list@;
                assert(placed[at as int] == x);
                assert(person_is_shown(placed, u.actor_user_id));
                assert forall|key: Option<Id>| person_is_shown(
                    before,
                    key,
                ) implies #[trigger] person_is_shown(placed, key) by {
                    let k = choose|k: int|
                        0 <= k < before.len() && (#[trigger] before[k]).user_id == key;
                    if k < at {
                        assert(placed[k] == before[k]);
                    } else {
                        assert(placed[k + 1] == before[k]);
                    }
                }
                assert forall|k: int| 0 <= k < placed.len() implies person_shown(
                    rows@,
                    acts,
                    members@,
                    #[trigger] placed[k],
                ) by {
                    if k < at {
                        assert(placed[k] == before[k]);
                    } else if k > at {
                        assert(placed[k] == before[k - 1]);
                    }
                }
                assert forall|a: int, b: int| 0 <= a < b < placed.len() implies (#[trigger] placed[a]).user_id
                    != (#[trigger] placed[b]).user_id && placed[a].count >= placed[b].count by {
                    if a < at {
                        assert(placed[a] == before[a]);
                    } else if a > at {
                        assert(placed[a] == before[a - 1]);
                    }
                    if b < at {
                        assert(placed[b] == before[b]);
                    } else if b > at {
                        assert(placed[b] == before[b - 1]);
                    }
                }
            }
        }
        assert forall|k: int|
            0 <= k < i + 1 && is_metered(#[trigger] rows@[k], acts, members@) implies person_is_shown(
            list@,
            rows@[k].actor_user_id,
        ) by {
            if k < i {
                assert(person_is_shown(before, rows@[k].actor_user_id));
            }
        }
        i = i + 1;
    }
    list
}

/// An agent is among those that are shown.
pub open spec fn agent_is_shown(list: Seq<AgentRollup>, key: Option<Seq<char>>) -> bool {
    exists|i: int| 0 <= i < list.len() && opt_text((#[trigger] list[i]).agent_id) == key
}

/// What is shown of one, with a name that one of the answers gives.
pub open spec fn agent_shown(
    rows: Seq<MeteredAnswer>,
    metered: Seq<Seq<char>>,
    members: Seq<Id>,
    x: AgentRollup,
) -> bool {
    let all = used(rows, metered, members, Share::Agent(opt_text(x.agent_id)));
    &&& x.prompt_tokens == all.prompt
    &&& x.completion_tokens == all.completion
    &&& x.count == all.answers
    &&& x.count > 0
    &&& exists|k: int|
        0 <= k < rows.len() && is_metered(#[trigger] rows[k], metered, members)
            && opt_text(rows[k].agent_id) == opt_text(x.agent_id) && opt_text(rows[k].agent_name) == opt_text(
            x.agent_name,
        )
}

/// An agent with an answer that counts is shown once, and those with the most answers come
/// first.
pub open spec fn agents_of(
    rows: Seq<MeteredAnswer>,
    metered: Seq<Seq<char>>,
    members: Seq<Id>,
    list: Seq<AgentRollup>,
) -> bool {
    &&& forall|i: int| 0 <= i < list.len() ==> agent_shown(rows, metered, members, #[trigger] list[i])
    &&& forall|i: int, j: int|
        0 <= i < j < list.len() ==> opt_text((#[trigger] list[i]).agent_id) != opt_text((#[trigger] list[j]).agent_id)
    &&& forall|i: int, j: int|
        0 <= i < j < list.len() ==> (#[trigger] list[i]).count >= (#[trigger] list[j]).count
    &&& forall|k: int|
        0 <= k < rows.len() && is_metered(#[trigger] rows[k], metered, members) ==> agent_is_shown(
            list,
            opt_text(rows[k].agent_id),
        )
}

fn holds_agent(list: &Vec<AgentRollup>, u: &MeteredAnswer) -> (r: bool)
    ensures
        r == agent_is_shown(list@, opt_text(u.agent_id)),
{
    let mut i: usize = 0;
    while i < list.len()
        invariant
            i <= list@.len(),
            forall|k: int| 0 <= k < i ==> opt_text((#[trigger] list@[k]).agent_id) != opt_text(u.agent_id),
        decreases list@.len() - i,
    {
        if same_opt(&list[i].agent_id, &u.agent_id) {
            assert(opt_text(list@[i as int].agent_id) == opt_text(u.agent_id));
            return true;
        }
        i = i + 1;
    }
    false
}

/// A team's use, agent by agent.
pub fn by_agent(rows: &Vec<MeteredAnswer>, metered: &Vec<String>, members: &Vec<Id>) -> (r: Vec<AgentRollup>)
    requires
        bulk(rows@) <= i64::MAX,
    ensures
        agents_of(rows@, texts(metered@), members@, r@),
{
    let ghost acts = texts(metered@);
    let mut list: Vec<AgentRollup> = Vec::new();
    let mut i: usize = 0;
    while i < rows.len()
        invariant
            i <= rows@.len(),
            bulk(rows@) <= i64::MAX,
            acts == texts(metered@),
            forall|k: int|
                0 <= k < list@.len() ==> agent_shown(rows@, acts, members@, #[trigger] list@[k]),
            forall|a: int, b: int|
                0 <= a < b < list@.len() ==> opt_text((#[trigger] list@[a]).agent_id) != opt_text(
                    (#[trigger] list@[b]).agent_id,
                ),
            forall|a: int, b: int|
                0 <= a < b < list@.len() ==> (#[trigger] list@[a]).count >= (
                #[trigger] list@[b]).count,
            forall|k: int|
                0 <= k < i && is_metered(#[trigger] rows@[k], acts, members@) ==> agent_is_shown(
                    list@,
                    opt_text(rows@[k].agent_id),
                ),
        decreases rows@.len() - i,
    {
        let ghost before = list@;
        let u = &rows[i];
        if counts(u, metered, members) && !holds_agent(&list, u) {
            proof {
                occurring_share_counts(rows@, acts, members@, Share::Agent(opt_text(u.agent_id)), i as int);
            }
            let (prompt_tokens, completion_tokens, count) = add_up(
                rows,
                metered,
                members,
                Part::Agent(&u.agent_id),
            );
            let x = AgentRollup {
                agent_id: copy_of(&u.agent_id),
                agent_name: copy_of(&u.agent_name),
                prompt_tokens,
                completion_tokens,
                count,
            };
            assert(agent_shown(rows@, acts, members@, x)) by {
                assert(is_metered(rows@[i as int], acts, members@));
            }
            let mut at: usize = list.len();
            while 0 < at && list[at - 1].count < count
                invariant
                    at <= list@.len(),
                    list@ == before,
                    forall|k: int| at <= k < list@.len() ==> (#[trigger] list@[k]).count < count,
                decreases at,
            {
                at = at - 1;
            }
            list.insert(at, x);
            proof {
                let placed = list@;
                assert(placed[at as int] == x);
                assert(agent_is_shown(placed, opt_text(u.agent_id)));
                assert forall|key: Option<Seq<char>>| agent_is_shown(
                    before,
                    key,
                ) implies #[trigger] agent_is_shown(placed, key) by {
                    let k = choose|k: int|
                        0 <= k < before.len() && opt_text((#[trigger] before[k]).agent_id) == key;
                    if k < at {
                        assert(placed[k] == before[k]);
                    } else {
                        assert(placed[k + 1] == before[k]);
                    }
                }
                assert forall|k: int| 0 <= k < placed.len() implies agent_shown(
                    rows@,
                    acts,
                    members@,
                    #[trigger] placed[k],
                ) by {
                    if k < at {
                        assert(placed[k] == before[k]);
                    } else if k > at {
                        assert(placed[k] == before[k - 1]);
                    }
                }
                assert forall|a: int, b: int| 0 <= a < b < placed.len() implies opt_text(
                    (#[trigger] placed[a]).agent_id,
                ) != opt_text((#[trigger] placed[b]).agent_id) && placed[a].count >= placed[b].count by {
                    if a < at {
                        assert(placed[a] == before[a]);
                    } else if a > at {
                        assert(placed[a] == before[a - 1]);
                    }
                    if b < at {
                        assert(placed[b] == before[b]);
                    } else if b > at {
                        assert(placed[b] == before[b - 1]);
                    }
                }
            }
        }
        assert forall|k: int|
            0 <= k < i + 1 && is_metered(#[trigger] rows@[k], acts, members@) implies agent_is_shown(
            list@,
            opt_text(rows@[k].agent_id),
        ) by {
            if k < i {
                assert(agent_is_shown(before, opt_text(rows@[k].agent_id)));
            }
        }
        i = i + 1;
    }
    list
}

/// What people used, added up.
pub open spec fn totals(list: Seq<UserRollup>) -> Usage
    decreases list.len(),
{
    if list.len() == 0 {
        Usage { prompt: 0, completion: 0, answers: 0 }
    } else {
        let t = totals(list.drop_last());
        let x = list.last();
        Usage {
            prompt: t.prompt + x.prompt_tokens,
            completion: t.completion + x.completion_tokens,
            answers: t.answers + x.count,
        }
    }
}

/// What the people of a list used of some answers, added up.
spec fn together(
    rows: Seq<MeteredAnswer>,
    metered: Seq<Seq<char>>,
    members: Seq<Id>,
    list: Seq<UserRollup>,
) -> Usage
    decreases list.len(),
{
    if list.len() == 0 {
        Usage { prompt: 0, completion: 0, answers: 0 }
    } else {
        let t = together(rows, metered, members, list.drop_last());
        let x = used(rows, metered, members, Share::Person(list.last().user_id));
        Usage {
            prompt: t.prompt + x.prompt,
            completion: t.completion + x.completion,
            answers: t.answers + x.answers,
        }
    }
}

/// One more answer is added to what one person used.
proof fn one_more(
    rows: Seq<MeteredAnswer>,
    metered: Seq<Seq<char>>,
    members: Seq<Id>,
    list: Seq<UserRollup>,
)
    requires
        rows.len() > 0,
        forall|i: int, j: int|
            0 <= i < j < list.len() ==> (#[trigger] list[i]).user_id != (#[trigger] list[j]).user_id,
    ensures
        together(rows, metered, members, list) == (if is_metered(rows.last(), metered, members)
            && person_is_shown(list, rows.last().actor_user_id) {
            let t = together(rows.drop_last(), metered, members, list);
            Usage {
                prompt: t.prompt + tokens(rows.last().prompt_tokens),
                completion: t.completion + tokens(rows.last().completion_tokens),
                answers: t.answers + 1,
            }
        } else {
            together(rows.drop_last(), metered, members, list)
        }),
    decreases list.len(),
{
    if list.len() > 0 {
        let fewer = list.drop_last();
        one_more(rows, metered, members, fewer);
        let who = rows.last().actor_user_id;
        if person_is_shown(fewer, who) {
            let k = choose|k: int| 0 <= k < fewer.len() && (#[trigger] fewer[k]).user_id == who;
            assert(list[k].user_id == who);
        }
        if person_is_shown(list, who) && list.last().user_id != who {
            let k = choose|k: int| 0 <= k < list.len() && (#[trigger] list[k]).user_id == who;
            assert(fewer[k].user_id == who);
        }
        if list.last().user_id == who {
            assert(list[list.len() - 1].user_id == who);
        }
    }
}

proof fn nothing_together(metered: Seq<Seq<char>>, members: Seq<Id>, list: Seq<UserRollup>)
    ensures
        together(Seq::empty(), metered, members, list) == (Usage {
            prompt: 0,
            completion: 0,
            answers: 0,
        }),
    decreases list.len(),
{
    if list.len() > 0 {
        nothing_together(metered, members, list.drop_last());
    }
}

proof fn together_is_all(
    rows: Seq<MeteredAnswer>,
    metered: Seq<Seq<char>>,
    members: Seq<Id>,
    list: Seq<UserRollup>,
)
    requires
        forall|i: int, j: int|
            0 <= i < j < list.len() ==> (#[trigger] list[i]).user_id != (#[trigger] list[j]).user_id,
        forall|k: int|
            0 <= k < rows.len() && is_metered(#[trigger] rows[k], metered, members)
                ==> person_is_shown(list, rows[k].actor_user_id),
    ensures
        together(rows, metered, members, list) == used(rows, metered, members, Share::All),
    decreases rows.len(),
{
    if rows.len() == 0 {
        assert(rows =~= Seq::empty());
        nothing_together(metered, members, list);
    } else {
        let fewer = rows.drop_last();
        assert forall|k: int|
            0 <= k < fewer.len() && is_metered(
                #[trigger] fewer[k],
                metered,
                members,
            ) implies person_is_shown(list, fewer[k].actor_user_id) by {
            assert(fewer[k] == rows[k]);
        }
        together_is_all(fewer, metered, members, list);
        one_more(rows, metered, members, list);
        assert(rows[rows.len() - 1] == rows.last());
    }
}

/// What the people of a team used comes to what the team used.
pub proof fn people_make_up_the_team(
    rows: Seq<MeteredAnswer>,
    metered: Seq<Seq<char>>,
    members: Seq<Id>,
    list: Seq<UserRollup>,
)
    requires
        persons_of(rows, metered, members, list),
    ensures
        totals(list) == used(rows, metered, members, Share::All),
{
    together_is_all(rows, metered, members, list);
    listed_together(rows, metered, members, list);
}

proof fn listed_together(
    rows: Seq<MeteredAnswer>,
    metered: Seq<Seq<char>>,
    members: Seq<Id>,
    list: Seq<UserRollup>,
)
    requires
        forall|i: int|
            0 <= i < list.len() ==> person_shown(rows, metered, members, #[trigger] list[i]),
    ensures
        totals(list) == together(rows, metered, members, list),
    decreases list.len(),
{
    if list.len() > 0 {
        let fewer = list.drop_last();
        assert forall|i: int| 0 <= i < fewer.len() implies person_shown(
            rows,
            metered,
            members,
            #[trigger] fewer[i],
        ) by {
            assert(fewer[i] == list[i]);
        }
        listed_together(rows, metered, members, fewer);
        assert(person_shown(rows, metered, members, list[list.len() - 1]));
    }
}

/// What somebody outside a team is given is no part of the team's use.
pub proof fn strangers_are_not_counted(
    rows: Seq<MeteredAnswer>,
    u: MeteredAnswer,
    metered: Seq<Seq<char>>,
    members: Seq<Id>,
    s: Share,
)
    requires
        u.actor_user_id matches Some(id) ==> !members.contains(id),
    ensures
        used(rows.push(u), metered, members, s) == used(rows, metered, members, s),
{
    assert(rows.push(u).drop_last() =~= rows);
}

/// The lead whose teams are looked at.
pub fn require_lead_account(ctx: &AuthContext) -> (r: Result<Id, AppError>)
    ensures
        refusal(r) == (if !ctx.role.leads() {
            Some(Refusal::Forbidden("requires power user or admin"@))
        } else if ctx.user_id is None {
            Some(Refusal::Forbidden("a user is required"@))
        } else {
            None
        }),
        r matches Ok(me) ==> ctx.user_id == Some(me),
{
    match require_lead(ctx) {
        Ok(_) => {},
        Err(e) => {
            return Err(e);
        },
    }
    match ctx.user_id {
        Some(me) => Ok(me),
        None => Err(forbidden("a user is required")),
    }
}

/// The use of a lead's teams: what each person and each agent used, and what it comes to.
/// `metered` are the kinds of answers that count.
pub fn power_analytics(
    ctx: &AuthContext,
    members: &Vec<Id>,
    metered: &Vec<String>,
    rows: &Vec<MeteredAnswer>,
) -> (r: Result<PowerAnalytics, AppError>)
    requires
        members@.len() <= i64::MAX,
        bulk(rows@) <= i64::MAX,
    ensures
        refusal(r) == (if !ctx.role.leads() {
            Some(Refusal::Forbidden("requires power user or admin"@))
        } else if ctx.user_id is None {
            Some(Refusal::Forbidden("a user is required"@))
        } else {
            None
        }),
        r matches Ok(a) ==> {
            let all = used(rows@, texts(metered@), members@, Share::All);
            &&& ctx.user_id matches Some(me) && a.team_size == team_of(members@, me)
            &&& persons_of(rows@, texts(metered@), members@, a.per_user@)
            &&& agents_of(rows@, texts(metered@), members@, a.per_agent@)
            &&& a.total_prompt_tokens == all.prompt
            &&& a.total_completion_tokens == all.completion
            &&& a.total_answers == all.answers
        },
{
    let me = match require_lead_account(ctx) {
        Ok(id) => id,
        Err(e) => {
            return Err(e);
        },
    };
    let mut team_size: i64 = 0;
    let mut i: usize = 0;
    assert(members@.take(0) == Seq::<Id>::empty());
    while i < members.len()
        invariant
            i <= members@.len() <= i64::MAX,
            0 <= team_size <= i,
            team_size == team_of(members@.take(i as int), me),
        decreases members@.len() - i,
    {
        assert(members@.take(i as int + 1).drop_last() == members@.take(i as int));
        if members[i] != me {
            team_size = team_size + 1;
        }
        i = i + 1;
    }
    assert(members@.take(members@.len() as int) == members@);
    let (total_prompt_tokens, total_completion_tokens, total_answers) = add_up(
        rows,
        metered,
        members,
        Part::All,
    );
    Ok(
        PowerAnalytics {
            team_size,
            per_user: by_person(rows, metered, members),
            per_agent: by_agent(rows, metered, members),
            total_prompt_tokens,
            total_completion_tokens,
            total_answers,
        },
    )
}

/// A lead is not part of the team that they oversee: with them among the members, the team
/// is smaller than the list.
pub proof fn lead_is_not_counted(members: Seq<Id>, me: Id)
    ensures
        team_of(members, me) <= members.len(),
        members.contains(me) ==> team_of(members, me) < members.len(),
    decreases members.len(),
{
    if members.len() > 0 {
        lead_is_not_counted(members.drop_last(), me);
        if members.contains(me) && members.last() != me {
            let i = choose|i: int| 0 <= i < members.len() && members[i] == me;
            assert(members.drop_last()[i] == me);
        }
    }
}

/// Somebody in the directory.
pub struct UserEntry {
    pub id: Id,
    pub display_name: String,
    pub email: String,
    pub avatar_updated_at: Option<i64>,
}

/// Those whose accounts are in use, in their order. Each comes with whether the account was given
/// up.
pub open spec fn in_use(rows: Seq<(UserEntry, bool)>) -> Seq<UserEntry>
    decreases rows.len(),
{
    if rows.len() == 0 {
        Seq::empty()
    } else {
        let before = in_use(rows.drop_last());
        if rows.last().1 {
            before
        } else {
            before.push(rows.last().0)
        }
    }
}

/// Everybody that a lead can take into a team.
pub fn power_directory(ctx: &AuthContext, rows: Vec<(UserEntry, bool)>) -> (r: Result<
    Vec<UserEntry>,
    AppError,
>)
    ensures
        refusal(r) == (if ctx.role.leads() {
            None
        } else {
            Some(Refusal::Forbidden("requires power user or admin"@))
        }),
        r matches Ok(v) ==> v@ == in_use(rows@),
{
    match require_lead(ctx) {
        Ok(_) => {},
        Err(e) => {
            return Err(e);
        },
    }
    let n: usize = rows.len();
    let mut rest = rows;
    let mut out: Vec<UserEntry> = Vec::new();
    let mut i: usize = 0;
    assert(rows@.take(0) == Seq::<(UserEntry, bool)>::empty());
    while i < n
        invariant
            n == rows@.len(),
            i <= n,
            rest@ == rows@.skip(i as int),
            out@ == in_use(rows@.take(i as int)),
        decreases n - i,
    {
        let (entry, given_up) = rest.remove(0);
        assert((entry, given_up) == rows@[i as int]);
        assert(rest@ =~= rows@.skip(i as int + 1));
        assert(rows@.take(i as int + 1).drop_last() == rows@.take(i as int));
        if !given_up {
            out.push(entry);
        }
        i = i + 1;
    }
    assert(rows@.take(rows@.len() as int) == rows@);
    Ok(out)
}

/// A team is as large as it has members, without the one who asks.
pub proof fn teams_are_counted_without_their_lead(me: Id, s: Seq<Id>)
    ensures
        team_of(s, me) == s.filter(|x: Id| x != me).len(),
    decreases s.len(),
{
    let p = |x: Id| x != me;
    selects_last(s, p);
    if s.len() > 0 {
        teams_are_counted_without_their_lead(me, s.drop_last());
    }
}

/// Every account that is in use is shown, and none that was given up.
pub proof fn accounts_in_use_are_shown(s: Seq<(UserEntry, bool)>)
    ensures
        in_use(s) == s.filter(|x: (UserEntry, bool)| !x.1).map_values(|x: (UserEntry, bool)| x.0),
    decreases s.len(),
{
    let p = |x: (UserEntry, bool)| !x.1;
    selects_last(s, p);
    if s.len() > 0 {
        accounts_in_use_are_shown(s.drop_last());
    }
    assert(in_use(s) =~= s.filter(p).map_values(|x: (UserEntry, bool)| x.0));
}

/// What a team used is added up answer by answer: an answer of a metered kind that a member asked
/// for and that falls in the share adds its tokens and itself, and any other adds nothing.
pub proof fn usage_adds_up(
    rows: Seq<MeteredAnswer>,
    u: MeteredAnswer,
    metered: Seq<Seq<char>>,
    members: Seq<Id>,
    s: Share,
)
    ensures
        used(Seq::<MeteredAnswer>::empty(), metered, members, s) == (Usage {
            prompt: 0,
            completion: 0,
            answers: 0,
        }),
        ({
            let before = used(rows, metered, members, s);
            let after = used(rows.push(u), metered, members, s);
            if metered.contains(u.action@) && (u.actor_user_id matches Some(id) && members.contains(
                id,
            )) && (match s {
                Share::All => true,
                Share::Person(id) => u.actor_user_id == id,
                Share::Agent(id) => opt_text(u.agent_id) == id,
            }) {
                &&& after.prompt == before.prompt + (match u.prompt_tokens {
                    Some(n) => n as int,
                    None => 0,
                })
                &&& after.completion == before.completion + (match u.completion_tokens {
                    Some(n) => n as int,
                    None => 0,
                })
                &&& after.answers == before.answers + 1
            } else {
                after == before
            }
        }),
{
    assert(rows.push(u).drop_last() =~= rows);
}

/// What people used together is what each of them used.
pub proof fn totals_add_up(list: Seq<UserRollup>, x: UserRollup)
    ensures
        totals(Seq::<UserRollup>::empty()) == (Usage { prompt: 0, completion: 0, answers: 0 }),
        totals(list.push(x)).prompt == totals(list).prompt + x.prompt_tokens,
        totals(list.push(x)).completion == totals(list).completion + x.completion_tokens,
        totals(list.push(x)).answers == totals(list).answers + x.count,
{
    assert(list.push(x).drop_last() =~= list);
}

/// Every agent that a team used is shown once with what it used, those with more answers first.
pub proof fn agents_are_shown_once(
    rows: Seq<MeteredAnswer>,
    metered: Seq<Seq<char>>,
    members: Seq<Id>,
    list: Seq<AgentRollup>,
)
    ensures
        agents_of(rows, metered, members, list) ==> {
            &&& forall|i: int|
                #![trigger list[i]]
                0 <= i < list.len() ==> {
                    let all = used(rows, metered, members, Share::Agent(opt_text(list[i].agent_id)));
                    list[i].prompt_tokens == all.prompt && list[i].completion_tokens
                        == all.completion && list[i].count == all.answers && list[i].count > 0
                }
            &&& forall|i: int, j: int|
                #![trigger list[i], list[j]]
                0 <= i < j < list.len() ==> opt_text(list[i].agent_id) != opt_text(list[j].agent_id)
                    && list[i].count >= list[j].count
            &&& forall|k: int|
                #![trigger rows[k]]
                0 <= k < rows.len() && metered.contains(rows[k].action@) && (
                rows[k].actor_user_id matches Some(id) && members.contains(id)) ==> exists|i: int|
                    0 <= i < list.len() && opt_text((#[trigger] list[i]).agent_id) == opt_text(
                        rows[k].agent_id,
                    )
        },
{
    if agents_of(rows, metered, members, list) {
        assert forall|k: int|
            #![trigger rows[k]]
            0 <= k < rows.len() && metered.contains(rows[k].action@) && (
            rows[k].actor_user_id matches Some(id) && members.contains(id)) implies exists|i: int|
            0 <= i < list.len() && opt_text((#[trigger] list[i]).agent_id) == opt_text(
                rows[k].agent_id,
            ) by {
            assert(is_metered(rows[k], metered, members));
            assert(agent_is_shown(list, opt_text(rows[k].agent_id)));
        }
    }
}

/// Every person of a team who used anything is shown once with what they used, those with more
/// answers first.
pub proof fn people_are_shown_once(
    rows: Seq<MeteredAnswer>,
    metered: Seq<Seq<char>>,
    members: Seq<Id>,
    list: Seq<UserRollup>,
)
    ensures
        persons_of(rows, metered, members, list) ==> {
            &&& forall|i: int|
                #![trigger list[i]]
                0 <= i < list.len() ==> {
                    let all = used(rows, metered, members, Share::Person(list[i].user_id));
                    list[i].prompt_tokens == all.prompt && list[i].completion_tokens
                        == all.completion && list[i].count == all.answers && list[i].count > 0
                }
            &&& forall|i: int, j: int|
                #![trigger list[i], list[j]]
                0 <= i < j < list.len() ==> list[i].user_id != list[j].user_id && list[i].count
                    >= list[j].count
            &&& forall|k: int|
                #![trigger rows[k]]
                0 <= k < rows.len() && metered.contains(rows[k].action@) && (
                rows[k].actor_user_id matches Some(id) && members.contains(id)) ==> exists|i: int|
                    0 <= i < list.len() && (#[trigger] list[i]).user_id == rows[k].actor_user_id
        },
{
    if persons_of(rows, metered, members, list) {
        assert forall|k: int|
            #![trigger rows[k]]
            0 <= k < rows.len() && metered.contains(rows[k].action@) && (
            rows[k].actor_user_id matches Some(id) && members.contains(id)) implies exists|i: int|
            0 <= i < list.len() && (#[trigger] list[i]).user_id == rows[k].actor_user_id by {
            assert(is_metered(rows[k], metered, members));
            assert(person_is_shown(list, rows[k].actor_user_id));
        }
    }
}

} // verus!
